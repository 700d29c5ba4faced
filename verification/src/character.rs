use vstd::prelude::*;
use crate::class::Class;
use crate::level::LevelSystem;
use crate::level::curve_value;
use crate::level::is_level_of;
use crate::level::lemma_curve_fits_u32;
use crate::level::lemma_curve_mono;
use crate::level::lemma_curve_strictly_increasing;
use crate::level::spec_level_from_xp;
use crate::level::spec_xp_for_level;
use crate::stats::StatType;
use crate::stats::Stats;
use crate::stats::spec_trained;

verus! {

/// A character: identity, derived level, accumulated experience, currency,
/// the six ability scores and a completed-task counter.  The level is never
/// stored independently: it is recomputed from the experience total on every
/// change, which the well-formedness condition pins down.
#[derive(Debug, Clone)]
pub struct Character {
    pub name: String,
    pub class: Class,
    pub level: u32,
    pub total_xp: u32,
    pub stats: Stats,
    pub gold: u32,
    pub tasks_completed: u32,
    pub active_title: Option<String>,
}

/// The effect of one completion on the scores: the primary stat trains with
/// the full base gain (challenge / 20, i.e. challenge * 50 thousandths), the
/// secondary with half of it, in that order.
pub open spec fn spec_stats_after_task(
    s: Stats,
    challenge: int,
    stat1: Option<StatType>,
    stat2: Option<StatType>,
) -> Stats {
    let first = match stat1 {
        Some(t) => spec_trained(s, t, challenge * 50),
        None => s,
    };
    match stat2 {
        Some(t) => spec_trained(first, t, challenge * 25),
        None => first,
    }
}

impl Character {
    /// The level always matches the experience total, and the scores sit in
    /// their range.
    pub open spec fn wf(&self) -> bool {
        is_level_of(self.total_xp as int, self.level as int) && self.stats.wf()
    }

    /// A new character: level 1, no experience, no gold, base scores.
    pub fn new(name: String, class: Class) -> (r: Character)
        ensures
            r.wf(),
            r.name == name,
            r.class == class,
            r.level == 1,
            r.total_xp == 0,
            r.gold == 0,
            r.tasks_completed == 0,
            r.active_title is None,
            r.stats.strength == 10000,
            r.stats.dexterity == 10000,
            r.stats.constitution == 10000,
            r.stats.intelligence == 10000,
            r.stats.wisdom == 10000,
            r.stats.charisma == 10000,
    {
        let level = LevelSystem::level_from_xp(0);
        proof {
            if level != 1 {
                lemma_curve_strictly_increasing(2);
                lemma_curve_mono(2, level as int);
            }
        }
        Character {
            name,
            class,
            level,
            total_xp: 0,
            stats: Stats::new(),
            gold: 0,
            tasks_completed: 0,
            active_title: None,
        }
    }

    /// Add experience and recompute the level, which can only rise.
    pub fn add_xp(&mut self, xp: u32)
        requires
            old(self).wf(),
            old(self).total_xp + xp <= u32::MAX,
        ensures
            final(self).wf(),
            final(self).total_xp == old(self).total_xp + xp,
            final(self).level == spec_level_from_xp(final(self).total_xp as int),
            final(self).level >= old(self).level,
            final(self).name == old(self).name,
            final(self).class == old(self).class,
            final(self).stats == old(self).stats,
            final(self).gold == old(self).gold,
            final(self).tasks_completed == old(self).tasks_completed,
            final(self).active_title == old(self).active_title,
    {
        self.total_xp = self.total_xp + xp;
        let old_level = self.level;
        self.level = LevelSystem::level_from_xp(self.total_xp);
        proof {
            if self.level < old_level {
                lemma_curve_mono(self.level as int + 1, old_level as int);
            }
        }
    }

    /// Add gold; the balance saturates instead of wrapping.
    pub fn add_gold(&mut self, gold: u32)
        ensures
            old(self).gold + gold <= u32::MAX ==> final(self).gold == old(self).gold + gold,
            old(self).gold + gold > u32::MAX ==> final(self).gold == u32::MAX,
            final(self).name == old(self).name,
            final(self).class == old(self).class,
            final(self).level == old(self).level,
            final(self).total_xp == old(self).total_xp,
            final(self).stats == old(self).stats,
            final(self).tasks_completed == old(self).tasks_completed,
            final(self).active_title == old(self).active_title,
    {
        if gold > u32::MAX - self.gold {
            self.gold = u32::MAX;
        } else {
            self.gold = self.gold + gold;
        }
    }

    /// Record a completion: count it and train the chosen stats, the primary
    /// with the full challenge-derived gain, the secondary with half.
    pub fn complete_task(&mut self, challenge: u8, stat1: Option<StatType>, stat2: Option<
        StatType,
    >)
        requires
            old(self).wf(),
            old(self).tasks_completed < u32::MAX,
        ensures
            final(self).wf(),
            final(self).tasks_completed == old(self).tasks_completed + 1,
            final(self).stats == spec_stats_after_task(
                old(self).stats,
                challenge as int,
                stat1,
                stat2,
            ),
            final(self).name == old(self).name,
            final(self).class == old(self).class,
            final(self).level == old(self).level,
            final(self).total_xp == old(self).total_xp,
            final(self).gold == old(self).gold,
            final(self).active_title == old(self).active_title,
    {
        self.tasks_completed = self.tasks_completed + 1;
        let stat1_gain: u64 = (challenge as u64) * 50;
        let stat2_gain: u64 = (challenge as u64) * 25;
        if let Some(s1) = stat1 {
            self.stats.increase_stat(s1, stat1_gain);
        }
        if let Some(s2) = stat2 {
            self.stats.increase_stat(s2, stat2_gain);
        }
    }

    /// Experience still missing to the next level.
    pub fn xp_to_next_level(&self) -> (r: u32)
        requires
            self.wf(),
        ensures
            r == spec_xp_for_level(self.level as int + 1) - self.total_xp,
    {
        let next_level_xp = LevelSystem::xp_for_level(self.level + 1);
        proof {
            if self.level < 4312 {
                lemma_curve_fits_u32(self.level as int + 1);
            }
        }
        next_level_xp - self.total_xp
    }

    /// Progress inside the current level, as the exact pair
    /// (experience into the level, width of the level).
    pub fn xp_progress(&self) -> (r: (u32, u32))
        requires
            self.wf(),
        ensures
            r.0 == self.total_xp - spec_xp_for_level(self.level as int),
            r.1 == spec_xp_for_level(self.level as int + 1) - spec_xp_for_level(
                self.level as int,
            ),
            r.0 <= r.1,
    {
        let current_level_xp = LevelSystem::xp_for_level(self.level);
        let next_level_xp = LevelSystem::xp_for_level(self.level + 1);
        proof {
            lemma_curve_fits_u32(self.level as int);
            if self.level < 4312 {
                lemma_curve_fits_u32(self.level as int + 1);
            }
            lemma_curve_strictly_increasing(self.level as int + 1);
        }
        (self.total_xp - current_level_xp, next_level_xp - current_level_xp)
    }
}

} // verus!
