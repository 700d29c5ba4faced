use vstd::prelude::*;
use crate::character::Character;
use crate::loot::LootDrop;
use crate::loot::RewardTier;
use crate::stats::StatType;
use crate::stats::spec_stat;
use crate::xp::TaskTiming;

verus! {

// The achievement ledger: a fixed catalog of thirty conditions, an
// append-only set of unlocked identifiers, and the progress accumulator the
// conditions are evaluated against.  Every tracked event updates the
// accumulator, then re-checks every still-locked condition in catalog order.

/// Rarity of an achievement.
#[derive(Debug, Clone, Copy, PartialEq, Eq, Structural)]
pub enum AchievementTier {
    Common,
    Uncommon,
    Rare,
    Epic,
    Legendary,
}

pub open spec fn spec_ach_tier_color(t: AchievementTier) -> Seq<char> {
    match t {
        AchievementTier::Common => "\x1b[37m"@,
        AchievementTier::Uncommon => "\x1b[92m"@,
        AchievementTier::Rare => "\x1b[94m"@,
        AchievementTier::Epic => "\x1b[95m"@,
        AchievementTier::Legendary => "\x1b[33m"@,
    }
}

pub open spec fn spec_ach_tier_name(t: AchievementTier) -> Seq<char> {
    match t {
        AchievementTier::Common => "Common"@,
        AchievementTier::Uncommon => "Uncommon"@,
        AchievementTier::Rare => "Rare"@,
        AchievementTier::Epic => "Epic"@,
        AchievementTier::Legendary => "Legendary"@,
    }
}

impl AchievementTier {
    /// Terminal color escape for this tier.
    pub fn color_code(&self) -> (r: &'static str)
        ensures
            r@ == spec_ach_tier_color(*self),
    {
        match self {
            AchievementTier::Common => "\x1b[37m",
            AchievementTier::Uncommon => "\x1b[92m",
            AchievementTier::Rare => "\x1b[94m",
            AchievementTier::Epic => "\x1b[95m",
            AchievementTier::Legendary => "\x1b[33m",
        }
    }

    /// Display name of this tier.
    pub fn name(&self) -> (r: &'static str)
        ensures
            r@ == spec_ach_tier_name(*self),
    {
        match self {
            AchievementTier::Common => "Common",
            AchievementTier::Uncommon => "Uncommon",
            AchievementTier::Rare => "Rare",
            AchievementTier::Epic => "Epic",
            AchievementTier::Legendary => "Legendary",
        }
    }
}

/// One catalog entry: immutable metadata of a condition.
#[derive(Debug, Clone, Copy)]
pub struct Achievement {
    pub id: &'static str,
    pub title: &'static str,
    pub description: &'static str,
    pub tier: AchievementTier,
    pub icon: &'static str,
}

/// Number of catalog entries.
pub open spec fn ach_count() -> int {
    30
}

/// Identifier of catalog entry i.
pub open spec fn spec_ach_id(i: int) -> Seq<char> {
    if i == 0 {
        "first_steps"@
    } else if i == 1 {
        "journey_begins"@
    } else if i == 2 {
        "seasoned_adventurer"@
    } else if i == 3 {
        "veteran_hero"@
    } else if i == 4 {
        "legendary_warrior"@
    } else if i == 5 {
        "living_legend"@
    } else if i == 6 {
        "completionist"@
    } else if i == 7 {
        "master_of_balance"@
    } else if i == 8 {
        "the_undaunted"@
    } else if i == 9 {
        "jack_of_all_trades"@
    } else if i == 10 {
        "consistent_hero"@
    } else if i == 11 {
        "marathon_hero"@
    } else if i == 12 {
        "renaissance_soul"@
    } else if i == 13 {
        "phoenix_rising"@
    } else if i == 14 {
        "epic_collector"@
    } else if i == 15 {
        "gold_hoarder"@
    } else if i == 16 {
        "wise_spender"@
    } else if i == 17 {
        "treasure_hunter"@
    } else if i == 18 {
        "early_riser"@
    } else if i == 19 {
        "pressure_handler"@
    } else if i == 20 {
        "time_master"@
    } else if i == 21 {
        "punctual_perfectionist"@
    } else if i == 22 {
        "strength_incarnate"@
    } else if i == 23 {
        "lightning_reflexes"@
    } else if i == 24 {
        "iron_constitution"@
    } else if i == 25 {
        "brilliant_mind"@
    } else if i == 26 {
        "sage_wisdom"@
    } else if i == 27 {
        "magnetic_personality"@
    } else if i == 28 {
        "legendary_strength"@
    } else if i == 29 {
        "transcendent_power"@
    } else {
        Seq::empty()
    }
}

/// Tier of catalog entry i.
pub open spec fn spec_ach_tier(i: int) -> AchievementTier {
    if i == 0 || i == 1 {
        AchievementTier::Common
    } else if i == 2 || i == 7 || i == 10 || i == 12 || i == 16 || i == 17 || i == 18 || i == 19
        || i == 20 || (22 <= i <= 27) {
        AchievementTier::Uncommon
    } else if i == 3 || i == 8 || i == 13 || i == 14 || i == 15 || i == 21 {
        AchievementTier::Rare
    } else if i == 4 || i == 6 || i == 9 || i == 11 || i == 28 {
        AchievementTier::Epic
    } else {
        AchievementTier::Legendary
    }
}

/// The progress accumulator behind the conditions: counters, distinct-day and
/// distinct-project sets, timing-band counters, loot flags, and the
/// break/comeback pair.  Days are calendar day numbers.
#[derive(Debug, Clone)]
pub struct AchievementProgress {
    pub quests_completed: u32,
    /// Completions per difficulty rating: entry d counts rating d + 1.
    pub quests_by_difficulty: Vec<u32>,
    pub difficulty_10_quests: u32,
    /// Distinct day numbers with at least one completion.
    pub active_days: Vec<u64>,
    /// Distinct project names completed in.
    pub projects_completed: Vec<String>,
    pub epic_loot_received: bool,
    pub loot_drops_received: u32,
    pub rewards_purchased: u32,
    pub early_tasks: u32,
    pub grace_period_tasks: u32,
    pub on_time_tasks: u32,
    pub tasks_with_due_date: u32,
    /// Day number of the most recent completion.
    pub last_activity_date: Option<u64>,
    pub comeback_quests_after_break: u32,
    pub had_30_day_break: bool,
    pub highest_stat_value: u16,
}

impl AchievementProgress {
    /// Ten difficulty slots; the day and project lists hold no duplicates.
    pub open spec fn wf(&self) -> bool {
        &&& self.quests_by_difficulty@.len() == 10
        &&& forall|i: int, j: int|
            0 <= i < j < self.active_days@.len() ==> self.active_days@[i] != self.active_days@[j]
        &&& forall|i: int, j: int|
            0 <= i < j < self.projects_completed@.len() ==> self.projects_completed@[i]@
                != self.projects_completed@[j]@
    }

    /// A fresh accumulator: everything at zero, every set empty.
    pub fn new() -> (r: AchievementProgress)
        ensures
            r.wf(),
            r.quests_completed == 0,
            r.quests_by_difficulty@ =~= seq![0u32, 0u32, 0u32, 0u32, 0u32, 0u32, 0u32, 0u32, 0u32, 0u32],
            r.difficulty_10_quests == 0,
            r.active_days@.len() == 0,
            r.projects_completed@.len() == 0,
            !r.epic_loot_received,
            r.loot_drops_received == 0,
            r.rewards_purchased == 0,
            r.early_tasks == 0,
            r.grace_period_tasks == 0,
            r.on_time_tasks == 0,
            r.tasks_with_due_date == 0,
            r.last_activity_date is None,
            r.comeback_quests_after_break == 0,
            !r.had_30_day_break,
            r.highest_stat_value == 0,
    {
        let mut by_difficulty: Vec<u32> = Vec::new();
        let mut i: usize = 0;
        while i < 10
            invariant
                i <= 10,
                by_difficulty@.len() == i,
                forall|j: int| 0 <= j < i ==> by_difficulty@[j] == 0u32,
            decreases 10 - i,
        {
            by_difficulty.push(0);
            i = i + 1;
        }
        proof {
            assert(by_difficulty@ =~= seq![
                0u32,
                0u32,
                0u32,
                0u32,
                0u32,
                0u32,
                0u32,
                0u32,
                0u32,
                0u32,
            ]);
        }
        AchievementProgress {
            quests_completed: 0,
            quests_by_difficulty: by_difficulty,
            difficulty_10_quests: 0,
            active_days: Vec::new(),
            projects_completed: Vec::new(),
            epic_loot_received: false,
            loot_drops_received: 0,
            rewards_purchased: 0,
            early_tasks: 0,
            grace_period_tasks: 0,
            on_time_tasks: 0,
            tasks_with_due_date: 0,
            last_activity_date: None,
            comeback_quests_after_break: 0,
            had_30_day_break: false,
            highest_stat_value: 0,
        }
    }
}

/// The displayed (whole-number) value of a character's highest stat.
pub open spec fn spec_max_stat_display(c: Character) -> int {
    let s = c.stats;
    let m1 = if spec_stat(s, StatType::STR) >= spec_stat(s, StatType::DEX) {
        spec_stat(s, StatType::STR)
    } else {
        spec_stat(s, StatType::DEX)
    };
    let m2 = if m1 >= spec_stat(s, StatType::CON) {
        m1
    } else {
        spec_stat(s, StatType::CON)
    };
    let m3 = if m2 >= spec_stat(s, StatType::INT) {
        m2
    } else {
        spec_stat(s, StatType::INT)
    };
    let m4 = if m3 >= spec_stat(s, StatType::WIS) {
        m3
    } else {
        spec_stat(s, StatType::WIS)
    };
    let m5 = if m4 >= spec_stat(s, StatType::CHA) {
        m4
    } else {
        spec_stat(s, StatType::CHA)
    };
    m5 / 1000
}

/// The condition of catalog entry i, over the accumulator and the current
/// character snapshot.
pub open spec fn spec_ach_pred(i: int, p: AchievementProgress, c: Character) -> bool {
    if i == 0 {
        p.quests_completed >= 1
    } else if i == 1 {
        c.level >= 5
    } else if i == 2 {
        p.quests_completed >= 100
    } else if i == 3 {
        p.quests_completed >= 500
    } else if i == 4 {
        c.level >= 30
    } else if i == 5 {
        c.level >= 50
    } else if i == 6 {
        p.quests_completed >= 1000
    } else if i == 7 {
        forall|d: int| 0 <= d < 10 ==> p.quests_by_difficulty@[d] >= 1
    } else if i == 8 {
        p.difficulty_10_quests >= 10
    } else if i == 9 {
        forall|d: int| 0 <= d < 10 ==> p.quests_by_difficulty@[d] >= 20
    } else if i == 10 {
        p.active_days@.len() >= 30
    } else if i == 11 {
        p.active_days@.len() >= 100
    } else if i == 12 {
        p.projects_completed@.len() >= 10
    } else if i == 13 {
        p.had_30_day_break && p.comeback_quests_after_break >= 5
    } else if i == 14 {
        p.epic_loot_received
    } else if i == 15 {
        c.gold >= 5000
    } else if i == 16 {
        p.rewards_purchased >= 10
    } else if i == 17 {
        p.loot_drops_received >= 50
    } else if i == 18 {
        p.early_tasks >= 50
    } else if i == 19 {
        p.grace_period_tasks >= 25
    } else if i == 20 {
        p.tasks_with_due_date >= 100
    } else if i == 21 {
        p.on_time_tasks >= 100
    } else if i == 22 {
        spec_stat(c.stats, StatType::STR) / 1000 >= 100
    } else if i == 23 {
        spec_stat(c.stats, StatType::DEX) / 1000 >= 100
    } else if i == 24 {
        spec_stat(c.stats, StatType::CON) / 1000 >= 100
    } else if i == 25 {
        spec_stat(c.stats, StatType::INT) / 1000 >= 100
    } else if i == 26 {
        spec_stat(c.stats, StatType::WIS) / 1000 >= 100
    } else if i == 27 {
        spec_stat(c.stats, StatType::CHA) / 1000 >= 100
    } else if i == 28 {
        p.highest_stat_value >= 500
    } else if i == 29 {
        p.highest_stat_value >= 1000
    } else {
        false
    }
}

impl Achievement {
    /// The full catalog, in unlock-report order.
    pub fn all() -> (r: Vec<Achievement>)
        ensures
            r@.len() == ach_count(),
            forall|i: int| 0 <= i < ach_count() ==> (#[trigger] r@[i]).id@ == spec_ach_id(i),
            forall|i: int| 0 <= i < ach_count() ==> (#[trigger] r@[i]).tier == spec_ach_tier(i),
    {
        let mut v: Vec<Achievement> = Vec::new();
        v.push(Achievement {
            id: "first_steps",
            title: "First Steps",
            description: "Complete your first quest",
            tier: AchievementTier::Common,
            icon: "\u{2694}",
        });
        v.push(Achievement {
            id: "journey_begins",
            title: "The Journey Begins",
            description: "Reach level 5",
            tier: AchievementTier::Common,
            icon: "\u{1f3af}",
        });
        v.push(Achievement {
            id: "seasoned_adventurer",
            title: "Seasoned Adventurer",
            description: "Complete 100 quests",
            tier: AchievementTier::Uncommon,
            icon: "\u{1f3c6}",
        });
        v.push(Achievement {
            id: "veteran_hero",
            title: "Veteran Hero",
            description: "Complete 500 quests",
            tier: AchievementTier::Rare,
            icon: "\u{1f451}",
        });
        v.push(Achievement {
            id: "legendary_warrior",
            title: "Legendary Warrior",
            description: "Reach level 30",
            tier: AchievementTier::Epic,
            icon: "\u{26a1}",
        });
        v.push(Achievement {
            id: "living_legend",
            title: "Living Legend",
            description: "Reach level 50",
            tier: AchievementTier::Legendary,
            icon: "\u{1f4ab}",
        });
        v.push(Achievement {
            id: "completionist",
            title: "Completionist",
            description: "Complete 1000 quests",
            tier: AchievementTier::Epic,
            icon: "\u{1f4dc}",
        });
        v.push(Achievement {
            id: "master_of_balance",
            title: "Master of Balance",
            description: "Complete at least one task of each difficulty (1-10)",
            tier: AchievementTier::Uncommon,
            icon: "\u{2696}",
        });
        v.push(Achievement {
            id: "the_undaunted",
            title: "The Undaunted",
            description: "Complete 10 difficulty-10 quests",
            tier: AchievementTier::Rare,
            icon: "\u{1f4aa}",
        });
        v.push(Achievement {
            id: "jack_of_all_trades",
            title: "Jack of All Trades",
            description: "Complete at least 20 tasks of each difficulty",
            tier: AchievementTier::Epic,
            icon: "\u{1f3ad}",
        });
        v.push(Achievement {
            id: "consistent_hero",
            title: "Consistent Hero",
            description: "Be active for 30 different days (non-consecutive)",
            tier: AchievementTier::Uncommon,
            icon: "\u{1f4c5}",
        });
        v.push(Achievement {
            id: "marathon_hero",
            title: "Marathon Hero",
            description: "Be active for 100 different days",
            tier: AchievementTier::Epic,
            icon: "\u{1f3c3}",
        });
        v.push(Achievement {
            id: "renaissance_soul",
            title: "Renaissance Soul",
            description: "Complete tasks in 10 different projects",
            tier: AchievementTier::Uncommon,
            icon: "\u{1f3a8}",
        });
        v.push(Achievement {
            id: "phoenix_rising",
            title: "Phoenix Rising",
            description: "Complete 5 quests after a 30+ day break",
            tier: AchievementTier::Rare,
            icon: "\u{1f525}",
        });
        v.push(Achievement {
            id: "epic_collector",
            title: "Epic Collector",
            description: "Receive an Epic-tier loot drop",
            tier: AchievementTier::Rare,
            icon: "\u{1f48e}",
        });
        v.push(Achievement {
            id: "gold_hoarder",
            title: "Gold Hoarder",
            description: "Accumulate 5000 gold",
            tier: AchievementTier::Rare,
            icon: "\u{1f4b0}",
        });
        v.push(Achievement {
            id: "wise_spender",
            title: "Wise Spender",
            description: "Purchase 10 rewards from the shop",
            tier: AchievementTier::Uncommon,
            icon: "\u{1f6d2}",
        });
        v.push(Achievement {
            id: "treasure_hunter",
            title: "Treasure Hunter",
            description: "Receive 50 loot drops",
            tier: AchievementTier::Uncommon,
            icon: "\u{1f5dd}",
        });
        v.push(Achievement {
            id: "early_riser",
            title: "Early Riser",
            description: "Complete 50 tasks early (>24hrs before due)",
            tier: AchievementTier::Uncommon,
            icon: "\u{1f305}",
        });
        v.push(Achievement {
            id: "pressure_handler",
            title: "Pressure Handler",
            description: "Complete 25 tasks within grace period",
            tier: AchievementTier::Uncommon,
            icon: "\u{23f0}",
        });
        v.push(Achievement {
            id: "time_master",
            title: "Time Master",
            description: "Complete 100 tasks with a due date set",
            tier: AchievementTier::Uncommon,
            icon: "\u{231a}",
        });
        v.push(Achievement {
            id: "punctual_perfectionist",
            title: "Punctual Perfectionist",
            description: "Complete 100 tasks on time (no early/late)",
            tier: AchievementTier::Rare,
            icon: "\u{1f3af}",
        });
        v.push(Achievement {
            id: "strength_incarnate",
            title: "Strength Incarnate",
            description: "Reach 100 STR",
            tier: AchievementTier::Uncommon,
            icon: "\u{1f4aa}",
        });
        v.push(Achievement {
            id: "lightning_reflexes",
            title: "Lightning Reflexes",
            description: "Reach 100 DEX",
            tier: AchievementTier::Uncommon,
            icon: "\u{26a1}",
        });
        v.push(Achievement {
            id: "iron_constitution",
            title: "Iron Constitution",
            description: "Reach 100 CON",
            tier: AchievementTier::Uncommon,
            icon: "\u{1f6e1}",
        });
        v.push(Achievement {
            id: "brilliant_mind",
            title: "Brilliant Mind",
            description: "Reach 100 INT",
            tier: AchievementTier::Uncommon,
            icon: "\u{1f9e0}",
        });
        v.push(Achievement {
            id: "sage_wisdom",
            title: "Sage Wisdom",
            description: "Reach 100 WIS",
            tier: AchievementTier::Uncommon,
            icon: "\u{1f4da}",
        });
        v.push(Achievement {
            id: "magnetic_personality",
            title: "Magnetic Personality",
            description: "Reach 100 CHA",
            tier: AchievementTier::Uncommon,
            icon: "\u{2728}",
        });
        v.push(Achievement {
            id: "legendary_strength",
            title: "Legendary Strength",
            description: "Reach 500 in any stat",
            tier: AchievementTier::Epic,
            icon: "\u{1f31f}",
        });
        v.push(Achievement {
            id: "transcendent_power",
            title: "Transcendent Power",
            description: "Reach 1000 in any stat",
            tier: AchievementTier::Legendary,
            icon: "\u{1f451}",
        });
        v
    }

    /// Look a catalog entry up by its identifier.
    #[verifier::loop_isolation(false)]
    pub fn get_by_id(id: &str) -> (r: Option<Achievement>)
        ensures
            match r {
                Some(a) => a.id@ == id@ && exists|i: int|
                    0 <= i < ach_count() && spec_ach_id(i) == id@,
                None => forall|i: int| 0 <= i < ach_count() ==> spec_ach_id(i) != id@,
            },
    {
        let catalog = Self::all();
        let mut i: usize = 0;
        while i < catalog.len()
            invariant
                catalog@.len() == ach_count(),
                forall|k: int| 0 <= k < ach_count() ==> (#[trigger] catalog@[k]).id@ == spec_ach_id(
                    k,
                ),
                i <= ach_count(),
                forall|k: int| 0 <= k < i ==> spec_ach_id(k) != id@,
            decreases catalog@.len() - i,
        {
            if str_eq(catalog[i].id, id) {
                return Some(catalog[i]);
            }
            i = i + 1;
        }
        None
    }
}

/// Exact string comparison by contents.
pub fn str_eq(a: &str, b: &str) -> (r: bool)
    ensures
        r == (a@ == b@),
{
    let sa: String = a.to_owned();
    let sb: String = b.to_owned();
    sa == sb
}

/// The indices below `upto` that the mask selects, in ascending order.
pub open spec fn spec_selected(mask: Seq<bool>, upto: int) -> Seq<int>
    decreases upto,
{
    if upto <= 0 {
        Seq::empty()
    } else if mask[upto - 1] {
        spec_selected(mask, upto - 1).push(upto - 1)
    } else {
        spec_selected(mask, upto - 1)
    }
}

/// The conditions that newly hold: locked before the event, satisfied after.
pub open spec fn spec_newly_mask(unl: Seq<bool>, p: AchievementProgress, c: Character) -> Seq<
    bool,
> {
    Seq::new(ach_count() as nat, |i: int| !unl[i] && spec_ach_pred(i, p, c))
}

/// Flag state of the break tracker after a completion on `today`: a gap of
/// thirty days or more from the previous activity sets it, and it is never
/// cleared again.
pub open spec fn spec_break_after(p: AchievementProgress, today: int) -> bool {
    match p.last_activity_date {
        None => p.had_30_day_break,
        Some(last) => p.had_30_day_break || today - last >= 30,
    }
}

/// Comeback counter after a completion on `today`: a fresh thirty-day gap
/// restarts it at one (this very completion); any completion while the break
/// flag stands counts; without the flag it keeps its value.
pub open spec fn spec_comeback_after(p: AchievementProgress, today: int) -> int {
    match p.last_activity_date {
        None => p.comeback_quests_after_break as int,
        Some(last) => if today - last >= 30 {
            1
        } else if p.had_30_day_break {
            p.comeback_quests_after_break + 1
        } else {
            p.comeback_quests_after_break as int
        },
    }
}

impl AchievementProgress {
    /// Whether every difficulty rating has at least `t` completions.
    #[verifier::loop_isolation(false)]
    fn all_difficulties_at_least(&self, t: u32) -> (r: bool)
        requires
            self.wf(),
        ensures
            r == forall|d: int| 0 <= d < 10 ==> self.quests_by_difficulty@[d] >= t,
    {
        let mut d: usize = 0;
        while d < 10
            invariant
                self.wf(),
                d <= 10,
                forall|k: int| 0 <= k < d ==> self.quests_by_difficulty@[k] >= t,
            decreases 10 - d,
        {
            if self.quests_by_difficulty[d] < t {
                return false;
            }
            d = d + 1;
        }
        true
    }

    /// Record one active day; the set of distinct days absorbs repeats.
    #[verifier::loop_isolation(false)]
    fn insert_day(&mut self, day: u64)
        requires
            old(self).wf(),
        ensures
            final(self).wf(),
            forall|x: u64| #[trigger]
                final(self).active_days@.contains(x) <==> old(self).active_days@.contains(x) || x
                    == day,
            final(self).active_days@.len() == old(self).active_days@.len() + (if old(
                self,
            ).active_days@.contains(day) {
                0int
            } else {
                1int
            }),
            *final(self) == (AchievementProgress { active_days: final(self).active_days, ..*old(self) }),
    {
        let mut i: usize = 0;
        let n = self.active_days.len();
        while i < n
            invariant
                n == self.active_days@.len(),
                i <= n,
                forall|k: int| 0 <= k < i ==> self.active_days@[k] != day,
            decreases n - i,
        {
            if self.active_days[i] == day {
                return ;
            }
            i = i + 1;
        }
        proof {
            assert(!old(self).active_days@.contains(day));
        }
        self.active_days.push(day);
        proof {
            assert forall|x: u64| #[trigger]
                self.active_days@.contains(x) <==> old(self).active_days@.contains(x) || x
                    == day by {
                let s = old(self).active_days@;
                if self.active_days@.contains(x) {
                    let k = choose|k: int| 0 <= k < s.push(day).len() && s.push(day)[k] == x;
                    if k < s.len() {
                        assert(s.contains(x));
                    }
                } else {
                    if s.contains(x) {
                        let k = choose|k: int| 0 <= k < s.len() && s[k] == x;
                        assert(s.push(day)[k] == x);
                    }
                    assert(s.push(day)[s.len() as int] == day);
                }
            }
        }
    }

    /// Record one project; the set of distinct projects absorbs repeats.
    #[verifier::loop_isolation(false)]
    fn insert_project(&mut self, name: String)
        requires
            old(self).wf(),
        ensures
            final(self).wf(),
            forall|x: Seq<char>|
                (#[trigger] spec_project_set(final(self).projects_completed@).contains(x)) <==> (
                spec_project_set(old(self).projects_completed@).contains(x) || x == name@),
            final(self).projects_completed@.len() == old(self).projects_completed@.len() + (if (
            exists|k: int|
                0 <= k < old(self).projects_completed@.len() && old(
                    self,
                ).projects_completed@[k]@ == name@) {
                0int
            } else {
                1int
            }),
            *final(self) == (AchievementProgress {
                projects_completed: final(self).projects_completed,
                ..*old(self)
            }),
    {
        let mut i: usize = 0;
        let n = self.projects_completed.len();
        while i < n
            invariant
                n == self.projects_completed@.len(),
                i <= n,
                forall|k: int| 0 <= k < i ==> self.projects_completed@[k]@ != name@,
            decreases n - i,
        {
            if self.projects_completed[i] == name {
                proof {
                    lemma_project_set_contains(self.projects_completed@, name@);
                }
                return ;
            }
            i = i + 1;
        }
        self.projects_completed.push(name);
        proof {
            let s = old(self).projects_completed@;
            assert forall|x: Seq<char>|
                (#[trigger] spec_project_set(self.projects_completed@).contains(x)) <==> (
                spec_project_set(s).contains(x) || x == name@) by {
                lemma_project_set_contains(self.projects_completed@, x);
                lemma_project_set_contains(s, x);
                if spec_project_set(self.projects_completed@).contains(x) {
                    let k = choose|k: int|
                        0 <= k < s.push(name).len() && s.push(name)[k]@ == x;
                    if k < s.len() {
                        assert(s[k]@ == x);
                    }
                } else {
                    if spec_project_set(s).contains(x) {
                        let k = choose|k: int| 0 <= k < s.len() && s[k]@ == x;
                        assert(s.push(name)[k]@ == x);
                    }
                    assert(s.push(name)[s.len() as int]@ == name@);
                }
            }
        }
    }
}

/// The set of name contents in a project list.
pub open spec fn spec_project_set(s: Seq<String>) -> Set<Seq<char>> {
    Set::new(|x: Seq<char>| exists|k: int| 0 <= k < s.len() && s[k]@ == x)
}

proof fn lemma_project_set_contains(s: Seq<String>, x: Seq<char>)
    ensures
        spec_project_set(s).contains(x) <==> exists|k: int| 0 <= k < s.len() && s[k]@ == x,
{
}

/// The ledger: the unlock flags of the thirty catalog conditions, in catalog
/// order, and the progress accumulator.
#[derive(Debug, Clone)]
pub struct AchievementTracker {
    pub unlocked: Vec<bool>,
    pub progress: AchievementProgress,
}

impl AchievementTracker {
    pub open spec fn wf(&self) -> bool {
        self.unlocked@.len() == ach_count() && self.progress.wf()
    }

    /// A fresh ledger: everything locked, the accumulator empty.
    pub fn new() -> (r: AchievementTracker)
        ensures
            r.wf(),
            forall|i: int| 0 <= i < ach_count() ==> !r.unlocked@[i],
            r.progress.quests_completed == 0,
            r.progress.difficulty_10_quests == 0,
            r.progress.early_tasks == 0,
            r.progress.grace_period_tasks == 0,
            r.progress.on_time_tasks == 0,
            r.progress.tasks_with_due_date == 0,
            r.progress.active_days@.len() == 0,
            r.progress.projects_completed@.len() == 0,
            r.progress.last_activity_date is None,
            !r.progress.had_30_day_break,
            r.progress.comeback_quests_after_break == 0,
            !r.progress.epic_loot_received,
            r.progress.loot_drops_received == 0,
            r.progress.rewards_purchased == 0,
            r.progress.highest_stat_value == 0,
            forall|d: int| 0 <= d < 10 ==> r.progress.quests_by_difficulty@[d] == 0,
    {
        let mut unlocked: Vec<bool> = Vec::new();
        let mut i: usize = 0;
        while i < 30
            invariant
                i <= 30,
                unlocked@.len() == i,
                forall|j: int| 0 <= j < i ==> !unlocked@[j],
            decreases 30 - i,
        {
            unlocked.push(false);
            i = i + 1;
        }
        AchievementTracker { unlocked, progress: AchievementProgress::new() }
    }

    /// Whether the condition of catalog entry `idx` holds right now.
    fn is_achievement_unlocked(&self, idx: usize, character: &Character) -> (r: bool)
        requires
            self.wf(),
            idx < ach_count(),
            character.stats.wf(),
        ensures
            r == spec_ach_pred(idx as int, self.progress, *character),
    {
        let p = &self.progress;
        if idx == 0 {
            p.quests_completed >= 1
        } else if idx == 1 {
            character.level >= 5
        } else if idx == 2 {
            p.quests_completed >= 100
        } else if idx == 3 {
            p.quests_completed >= 500
        } else if idx == 4 {
            character.level >= 30
        } else if idx == 5 {
            character.level >= 50
        } else if idx == 6 {
            p.quests_completed >= 1000
        } else if idx == 7 {
            p.all_difficulties_at_least(1)
        } else if idx == 8 {
            p.difficulty_10_quests >= 10
        } else if idx == 9 {
            p.all_difficulties_at_least(20)
        } else if idx == 10 {
            p.active_days.len() >= 30
        } else if idx == 11 {
            p.active_days.len() >= 100
        } else if idx == 12 {
            p.projects_completed.len() >= 10
        } else if idx == 13 {
            p.had_30_day_break && p.comeback_quests_after_break >= 5
        } else if idx == 14 {
            p.epic_loot_received
        } else if idx == 15 {
            character.gold >= 5000
        } else if idx == 16 {
            p.rewards_purchased >= 10
        } else if idx == 17 {
            p.loot_drops_received >= 50
        } else if idx == 18 {
            p.early_tasks >= 50
        } else if idx == 19 {
            p.grace_period_tasks >= 25
        } else if idx == 20 {
            p.tasks_with_due_date >= 100
        } else if idx == 21 {
            p.on_time_tasks >= 100
        } else if idx == 22 {
            character.stats.get_stat(StatType::STR) >= 100
        } else if idx == 23 {
            character.stats.get_stat(StatType::DEX) >= 100
        } else if idx == 24 {
            character.stats.get_stat(StatType::CON) >= 100
        } else if idx == 25 {
            character.stats.get_stat(StatType::INT) >= 100
        } else if idx == 26 {
            character.stats.get_stat(StatType::WIS) >= 100
        } else if idx == 27 {
            character.stats.get_stat(StatType::CHA) >= 100
        } else if idx == 28 {
            p.highest_stat_value >= 500
        } else {
            p.highest_stat_value >= 1000
        }
    }

    /// Check every still-locked condition against the current accumulator and
    /// character, unlock the ones that hold, and report them in catalog order.
    #[verifier::loop_isolation(false)]
    fn check_achievements(&mut self, character: &Character) -> (newly: Vec<Achievement>)
        requires
            old(self).wf(),
            character.stats.wf(),
        ensures
            final(self).wf(),
            final(self).progress == old(self).progress,
            forall|i: int|
                0 <= i < ach_count() ==> final(self).unlocked@[i] == (old(self).unlocked@[i]
                    || spec_ach_pred(i, old(self).progress, *character)),
            ({
                let sel = spec_selected(
                    spec_newly_mask(old(self).unlocked@, old(self).progress, *character),
                    ach_count(),
                );
                &&& newly@.len() == sel.len()
                &&& forall|j: int|
                    0 <= j < sel.len() ==> (#[trigger] newly@[j]).id@ == spec_ach_id(sel[j])
                        && newly@[j].tier == spec_ach_tier(sel[j])
            }),
    {
        let ghost mask = spec_newly_mask(old(self).unlocked@, old(self).progress, *character);
        let catalog = Achievement::all();
        let mut newly: Vec<Achievement> = Vec::new();
        let mut i: usize = 0;
        while i < 30
            invariant
                self.wf(),
                i <= 30,
                catalog@.len() == ach_count(),
                forall|k: int| 0 <= k < ach_count() ==> (#[trigger] catalog@[k]).id@ == spec_ach_id(
                    k,
                ),
                forall|k: int| 0 <= k < ach_count() ==> (#[trigger] catalog@[k]).tier
                    == spec_ach_tier(k),
                self.progress == old(self).progress,
                mask == spec_newly_mask(old(self).unlocked@, old(self).progress, *character),
                forall|k: int|
                    0 <= k < i ==> self.unlocked@[k] == (old(self).unlocked@[k] || spec_ach_pred(
                        k,
                        old(self).progress,
                        *character,
                    )),
                forall|k: int| i <= k < ach_count() ==> self.unlocked@[k] == old(self).unlocked@[k],
                newly@.len() == spec_selected(mask, i as int).len(),
                forall|j: int|
                    0 <= j < spec_selected(mask, i as int).len() ==> (#[trigger] newly@[j]).id@
                        == spec_ach_id(spec_selected(mask, i as int)[j]) && newly@[j].tier
                        == spec_ach_tier(spec_selected(mask, i as int)[j]),
            decreases 30 - i,
        {
            let was_unlocked = self.unlocked[i];
            if !was_unlocked && self.is_achievement_unlocked(i, character) {
                self.unlocked.set(i, true);
                newly.push(catalog[i]);
            }
            proof {
                assert(spec_selected(mask, i + 1) == if mask[i as int] {
                    spec_selected(mask, i as int).push(i as int)
                } else {
                    spec_selected(mask, i as int)
                });
            }
            i = i + 1;
        }
        newly
    }
}


impl AchievementTracker {
    /// Record a completed quest: update every accumulator field the event
    /// touches, then re-check all locked conditions.  The returned list holds
    /// the newly unlocked achievements in catalog order.
    #[verifier::loop_isolation(false)]
    pub fn record_quest_completion(
        &mut self,
        character: &Character,
        difficulty: u8,
        timing: TaskTiming,
        project: Option<&str>,
        today: u64,
    ) -> (newly: Vec<Achievement>)
        requires
            old(self).wf(),
            character.stats.wf(),
            1 <= difficulty <= 10,
            old(self).progress.quests_completed < u32::MAX,
            old(self).progress.quests_by_difficulty@[difficulty - 1] < u32::MAX,
            old(self).progress.difficulty_10_quests < u32::MAX,
            old(self).progress.early_tasks < u32::MAX,
            old(self).progress.on_time_tasks < u32::MAX,
            old(self).progress.grace_period_tasks < u32::MAX,
            old(self).progress.tasks_with_due_date < u32::MAX,
            old(self).progress.comeback_quests_after_break < u32::MAX,
        ensures
            final(self).wf(),
            ({
                let p0 = old(self).progress;
                let p1 = final(self).progress;
                &&& p1.quests_completed == p0.quests_completed + 1
                &&& p1.quests_by_difficulty@ == p0.quests_by_difficulty@.update(
                    difficulty - 1,
                    (p0.quests_by_difficulty@[difficulty - 1] + 1) as u32,
                )
                &&& p1.difficulty_10_quests == if difficulty == 10 {
                    p0.difficulty_10_quests + 1
                } else {
                    p0.difficulty_10_quests as int
                }
                &&& forall|x: u64| #[trigger]
                    p1.active_days@.contains(x) <==> p0.active_days@.contains(x) || x == today
                &&& p1.active_days@.len() == p0.active_days@.len() + (if p0.active_days@.contains(
                    today,
                ) {
                    0int
                } else {
                    1int
                })
                &&& (match project {
                    Some(name) => {
                        &&& forall|x: Seq<char>|
                            (#[trigger] spec_project_set(p1.projects_completed@).contains(x)) <==> (
                            spec_project_set(p0.projects_completed@).contains(x) || x == name@)
                        &&& p1.projects_completed@.len() == p0.projects_completed@.len() + (
                        if spec_project_set(p0.projects_completed@).contains(name@) {
                            0int
                        } else {
                            1int
                        })
                    },
                    None => p1.projects_completed@ == p0.projects_completed@,
                })
                &&& p1.early_tasks == if timing is Early {
                    p0.early_tasks + 1
                } else {
                    p0.early_tasks as int
                }
                &&& p1.on_time_tasks == if timing is OnTime {
                    p0.on_time_tasks + 1
                } else {
                    p0.on_time_tasks as int
                }
                &&& p1.grace_period_tasks == if timing is GracePeriod {
                    p0.grace_period_tasks + 1
                } else {
                    p0.grace_period_tasks as int
                }
                &&& p1.tasks_with_due_date == if !(timing is NoDueDate) {
                    p0.tasks_with_due_date + 1
                } else {
                    p0.tasks_with_due_date as int
                }
                &&& p1.had_30_day_break == spec_break_after(p0, today as int)
                &&& p1.comeback_quests_after_break == spec_comeback_after(p0, today as int)
                &&& p1.last_activity_date == Some(today)
                &&& p1.highest_stat_value == if spec_max_stat_display(*character)
                    > p0.highest_stat_value {
                    spec_max_stat_display(*character)
                } else {
                    p0.highest_stat_value as int
                }
                &&& p1.epic_loot_received == p0.epic_loot_received
                &&& p1.loot_drops_received == p0.loot_drops_received
                &&& p1.rewards_purchased == p0.rewards_purchased
            }),
            forall|i: int|
                0 <= i < ach_count() ==> final(self).unlocked@[i] == (old(self).unlocked@[i]
                    || spec_ach_pred(i, final(self).progress, *character)),
            ({
                let sel = spec_selected(
                    spec_newly_mask(old(self).unlocked@, final(self).progress, *character),
                    ach_count(),
                );
                &&& newly@.len() == sel.len()
                &&& forall|j: int|
                    0 <= j < sel.len() ==> (#[trigger] newly@[j]).id@ == spec_ach_id(sel[j])
                        && newly@[j].tier == spec_ach_tier(sel[j])
            }),
    {
        self.progress.quests_completed = self.progress.quests_completed + 1;
        let d_index: usize = (difficulty - 1) as usize;
        let d_count = self.progress.quests_by_difficulty[d_index];
        self.progress.quests_by_difficulty.set(d_index, d_count + 1);
        if difficulty == 10 {
            self.progress.difficulty_10_quests = self.progress.difficulty_10_quests + 1;
        }
        self.progress.insert_day(today);
        match self.progress.last_activity_date {
            Some(last) => {
                if today >= last && today - last >= 30 {
                    self.progress.had_30_day_break = true;
                    self.progress.comeback_quests_after_break = 0;
                }
                if self.progress.had_30_day_break {
                    self.progress.comeback_quests_after_break =
                        self.progress.comeback_quests_after_break + 1;
                }
            },
            None => {},
        }
        self.progress.last_activity_date = Some(today);
        if let Some(name) = project {
            self.progress.insert_project(name.to_owned());
        }
        match timing {
            TaskTiming::Early => {
                self.progress.early_tasks = self.progress.early_tasks + 1;
            },
            TaskTiming::OnTime => {
                self.progress.on_time_tasks = self.progress.on_time_tasks + 1;
            },
            TaskTiming::GracePeriod => {
                self.progress.grace_period_tasks = self.progress.grace_period_tasks + 1;
            },
            _ => {},
        }
        if !matches!(timing, TaskTiming::NoDueDate) {
            self.progress.tasks_with_due_date = self.progress.tasks_with_due_date + 1;
        }
        let max_stat = max_stat_display(character);
        if max_stat > self.progress.highest_stat_value {
            self.progress.highest_stat_value = max_stat;
        }
        self.check_achievements(character)
    }

    /// Record a received loot drop, noting an Epic drop permanently, then
    /// re-check all locked conditions.
    pub fn record_loot_drop(&mut self, loot: &LootDrop, character: &Character) -> (newly: Vec<
        Achievement,
    >)
        requires
            old(self).wf(),
            character.stats.wf(),
            old(self).progress.loot_drops_received < u32::MAX,
        ensures
            final(self).wf(),
            final(self).progress.loot_drops_received == old(self).progress.loot_drops_received + 1,
            final(self).progress.epic_loot_received == (old(self).progress.epic_loot_received || (
            loot matches LootDrop::Reward { tier: RewardTier::Epic, .. })),
            final(self).progress == (AchievementProgress {
                loot_drops_received: final(self).progress.loot_drops_received,
                epic_loot_received: final(self).progress.epic_loot_received,
                ..old(self).progress
            }),
            forall|i: int|
                0 <= i < ach_count() ==> final(self).unlocked@[i] == (old(self).unlocked@[i]
                    || spec_ach_pred(i, final(self).progress, *character)),
            ({
                let sel = spec_selected(
                    spec_newly_mask(old(self).unlocked@, final(self).progress, *character),
                    ach_count(),
                );
                &&& newly@.len() == sel.len()
                &&& forall|j: int|
                    0 <= j < sel.len() ==> (#[trigger] newly@[j]).id@ == spec_ach_id(sel[j])
                        && newly@[j].tier == spec_ach_tier(sel[j])
            }),
    {
        self.progress.loot_drops_received = self.progress.loot_drops_received + 1;
        if matches!(loot, LootDrop::Reward { tier: RewardTier::Epic, .. }) {
            self.progress.epic_loot_received = true;
        }
        self.check_achievements(character)
    }

    /// Record a shop purchase, then re-check all locked conditions.
    pub fn record_reward_purchase(&mut self, character: &Character) -> (newly: Vec<Achievement>)
        requires
            old(self).wf(),
            character.stats.wf(),
            old(self).progress.rewards_purchased < u32::MAX,
        ensures
            final(self).wf(),
            final(self).progress.rewards_purchased == old(self).progress.rewards_purchased + 1,
            final(self).progress == (AchievementProgress {
                rewards_purchased: final(self).progress.rewards_purchased,
                ..old(self).progress
            }),
            forall|i: int|
                0 <= i < ach_count() ==> final(self).unlocked@[i] == (old(self).unlocked@[i]
                    || spec_ach_pred(i, final(self).progress, *character)),
            ({
                let sel = spec_selected(
                    spec_newly_mask(old(self).unlocked@, final(self).progress, *character),
                    ach_count(),
                );
                &&& newly@.len() == sel.len()
                &&& forall|j: int|
                    0 <= j < sel.len() ==> (#[trigger] newly@[j]).id@ == spec_ach_id(sel[j])
                        && newly@[j].tier == spec_ach_tier(sel[j])
            }),
    {
        self.progress.rewards_purchased = self.progress.rewards_purchased + 1;
        self.check_achievements(character)
    }

    /// The unlocked achievements, in catalog order.
    #[verifier::loop_isolation(false)]
    pub fn get_unlocked_achievements(&self) -> (r: Vec<Achievement>)
        requires
            self.wf(),
        ensures
            ({
                let sel = spec_selected(self.unlocked@.map_values(|b: bool| b), ach_count());
                &&& r@.len() == sel.len()
                &&& forall|j: int|
                    0 <= j < sel.len() ==> (#[trigger] r@[j]).id@ == spec_ach_id(sel[j])
                        && r@[j].tier == spec_ach_tier(sel[j])
            }),
    {
        let ghost mask = self.unlocked@.map_values(|b: bool| b);
        let catalog = Achievement::all();
        let mut r: Vec<Achievement> = Vec::new();
        let mut i: usize = 0;
        while i < 30
            invariant
                i <= 30,
                r@.len() == spec_selected(mask, i as int).len(),
                forall|j: int|
                    0 <= j < spec_selected(mask, i as int).len() ==> (#[trigger] r@[j]).id@
                        == spec_ach_id(spec_selected(mask, i as int)[j]) && r@[j].tier
                        == spec_ach_tier(spec_selected(mask, i as int)[j]),
            decreases 30 - i,
        {
            if self.unlocked[i] {
                r.push(catalog[i]);
            }
            proof {
                assert(spec_selected(mask, i + 1) == if mask[i as int] {
                    spec_selected(mask, i as int).push(i as int)
                } else {
                    spec_selected(mask, i as int)
                });
            }
            i = i + 1;
        }
        r
    }

    /// The catalog entries of one tier, in catalog order.
    #[verifier::loop_isolation(false)]
    pub fn get_achievements_by_tier(&self, tier: AchievementTier) -> (r: Vec<Achievement>)
        ensures
            ({
                let sel = spec_selected(
                    Seq::new(ach_count() as nat, |i: int| spec_ach_tier(i) == tier),
                    ach_count(),
                );
                &&& r@.len() == sel.len()
                &&& forall|j: int|
                    0 <= j < sel.len() ==> (#[trigger] r@[j]).id@ == spec_ach_id(sel[j])
                        && r@[j].tier == tier
            }),
    {
        let ghost mask = Seq::new(ach_count() as nat, |i: int| spec_ach_tier(i) == tier);
        let catalog = Achievement::all();
        let mut r: Vec<Achievement> = Vec::new();
        let mut i: usize = 0;
        while i < 30
            invariant
                i <= 30,
                r@.len() == spec_selected(mask, i as int).len(),
                forall|j: int|
                    0 <= j < spec_selected(mask, i as int).len() ==> (#[trigger] r@[j]).id@
                        == spec_ach_id(spec_selected(mask, i as int)[j]) && r@[j].tier == tier,
            decreases 30 - i,
        {
            let a = catalog[i];
            if tier_eq(a.tier, tier) {
                r.push(a);
            }
            proof {
                assert(spec_selected(mask, i + 1) == if mask[i as int] {
                    spec_selected(mask, i as int).push(i as int)
                } else {
                    spec_selected(mask, i as int)
                });
            }
            i = i + 1;
        }
        r
    }

    /// How many achievements of one tier are unlocked.
    #[verifier::loop_isolation(false)]
    pub fn get_unlocked_count_by_tier(&self, tier: AchievementTier) -> (r: usize)
        requires
            self.wf(),
        ensures
            r == spec_selected(
                Seq::new(
                    ach_count() as nat,
                    |i: int| self.unlocked@[i] && spec_ach_tier(i) == tier,
                ),
                ach_count(),
            ).len(),
    {
        let ghost mask = Seq::new(
            ach_count() as nat,
            |i: int| self.unlocked@[i] && spec_ach_tier(i) == tier,
        );
        let catalog = Achievement::all();
        let mut count: usize = 0;
        let mut i: usize = 0;
        while i < 30
            invariant
                i <= 30,
                count <= i,
                count == spec_selected(mask, i as int).len(),
            decreases 30 - i,
        {
            if self.unlocked[i] && tier_eq(catalog[i].tier, tier) {
                count = count + 1;
            }
            proof {
                assert(spec_selected(mask, i + 1) == if mask[i as int] {
                    spec_selected(mask, i as int).push(i as int)
                } else {
                    spec_selected(mask, i as int)
                });
            }
            i = i + 1;
        }
        count
    }
}

/// Tier equality as a plain comparison.
fn tier_eq(a: AchievementTier, b: AchievementTier) -> (r: bool)
    ensures
        r == (a == b),
{
    a == b
}

/// The displayed value of the character's highest current stat.
fn max_stat_display(character: &Character) -> (r: u16)
    requires
        character.stats.wf(),
    ensures
        r == spec_max_stat_display(*character),
{
    let s = &character.stats;
    let mut m = s.get_stat(StatType::STR);
    let d = s.get_stat(StatType::DEX);
    if d > m {
        m = d;
    }
    let c = s.get_stat(StatType::CON);
    if c > m {
        m = c;
    }
    let i = s.get_stat(StatType::INT);
    if i > m {
        m = i;
    }
    let w = s.get_stat(StatType::WIS);
    if w > m {
        m = w;
    }
    let ch = s.get_stat(StatType::CHA);
    if ch > m {
        m = ch;
    }
    m
}


/// First catalog index at or after `from` whose identifier is `id`, or the
/// catalog size when none matches.
pub open spec fn spec_find_ach(id: Seq<char>, from: int) -> int
    decreases ach_count() - from,
{
    if from < 0 || from >= ach_count() {
        ach_count()
    } else if spec_ach_id(from) == id {
        from
    } else {
        spec_find_ach(id, from + 1)
    }
}

/// How many difficulty ratings have at least one completion.
pub open spec fn spec_difficulties_met(s: Seq<u32>, upto: int) -> int
    decreases upto,
{
    if upto <= 0 {
        0
    } else if s[upto - 1] >= 1 {
        spec_difficulties_met(s, upto - 1) + 1
    } else {
        spec_difficulties_met(s, upto - 1)
    }
}

/// The smallest per-difficulty completion count.
pub open spec fn spec_min_difficulty(s: Seq<u32>, upto: int) -> int
    decreases upto,
{
    if upto <= 0 {
        0xffffffff
    } else if s[upto - 1] < spec_min_difficulty(s, upto - 1) {
        s[upto - 1] as int
    } else {
        spec_min_difficulty(s, upto - 1)
    }
}

/// min(v, cap).
pub open spec fn spec_capped(v: int, cap: int) -> int {
    if v > cap {
        cap
    } else {
        v
    }
}

/// Threshold of catalog entry i: the denominator of its progress fraction.
pub open spec fn spec_ach_den(i: int) -> int {
    if i == 0 {
        1
    } else if i == 1 {
        5
    } else if i == 2 {
        100
    } else if i == 3 {
        500
    } else if i == 4 {
        30
    } else if i == 5 {
        50
    } else if i == 6 {
        1000
    } else if i == 7 {
        10
    } else if i == 8 {
        10
    } else if i == 9 {
        20
    } else if i == 10 {
        30
    } else if i == 11 {
        100
    } else if i == 12 {
        10
    } else if i == 13 {
        5
    } else if i == 14 {
        1
    } else if i == 15 {
        5000
    } else if i == 16 {
        10
    } else if i == 17 {
        50
    } else if i == 18 {
        50
    } else if i == 19 {
        25
    } else if i == 20 {
        100
    } else if i == 21 {
        100
    } else if 22 <= i <= 27 {
        100
    } else if i == 28 {
        500
    } else {
        1000
    }
}

/// Progress numerator of a still-locked catalog entry i: the relevant count,
/// capped at the threshold; for the compound conditions, the number of
/// satisfied sub-conditions or the smallest sub-count.
pub open spec fn spec_ach_num(i: int, p: AchievementProgress, c: Character) -> int {
    if i == 0 {
        spec_capped(p.quests_completed as int, 1)
    } else if i == 1 {
        spec_capped(c.level as int, 5)
    } else if i == 2 {
        spec_capped(p.quests_completed as int, 100)
    } else if i == 3 {
        spec_capped(p.quests_completed as int, 500)
    } else if i == 4 {
        spec_capped(c.level as int, 30)
    } else if i == 5 {
        spec_capped(c.level as int, 50)
    } else if i == 6 {
        spec_capped(p.quests_completed as int, 1000)
    } else if i == 7 {
        spec_difficulties_met(p.quests_by_difficulty@, 10)
    } else if i == 8 {
        spec_capped(p.difficulty_10_quests as int, 10)
    } else if i == 9 {
        spec_capped(spec_min_difficulty(p.quests_by_difficulty@, 10), 20)
    } else if i == 10 {
        spec_capped(p.active_days@.len() as int, 30)
    } else if i == 11 {
        spec_capped(p.active_days@.len() as int, 100)
    } else if i == 12 {
        spec_capped(p.projects_completed@.len() as int, 10)
    } else if i == 13 {
        if p.had_30_day_break {
            spec_capped(p.comeback_quests_after_break as int, 5)
        } else {
            0
        }
    } else if i == 14 {
        if p.epic_loot_received {
            1
        } else {
            0
        }
    } else if i == 15 {
        spec_capped(c.gold as int, 5000)
    } else if i == 16 {
        spec_capped(p.rewards_purchased as int, 10)
    } else if i == 17 {
        spec_capped(p.loot_drops_received as int, 50)
    } else if i == 18 {
        spec_capped(p.early_tasks as int, 50)
    } else if i == 19 {
        spec_capped(p.grace_period_tasks as int, 25)
    } else if i == 20 {
        spec_capped(p.tasks_with_due_date as int, 100)
    } else if i == 21 {
        spec_capped(p.on_time_tasks as int, 100)
    } else if i == 22 {
        spec_capped(spec_stat(c.stats, StatType::STR) / 1000, 100)
    } else if i == 23 {
        spec_capped(spec_stat(c.stats, StatType::DEX) / 1000, 100)
    } else if i == 24 {
        spec_capped(spec_stat(c.stats, StatType::CON) / 1000, 100)
    } else if i == 25 {
        spec_capped(spec_stat(c.stats, StatType::INT) / 1000, 100)
    } else if i == 26 {
        spec_capped(spec_stat(c.stats, StatType::WIS) / 1000, 100)
    } else if i == 27 {
        spec_capped(spec_stat(c.stats, StatType::CHA) / 1000, 100)
    } else if i == 28 {
        spec_capped(p.highest_stat_value as int, 500)
    } else {
        spec_capped(p.highest_stat_value as int, 1000)
    }
}

impl AchievementTracker {
    /// Progress toward an achievement, as the exact fraction
    /// (reached, threshold): (threshold, threshold) once unlocked, and
    /// (0, 1) for an identifier that is not in the catalog.
    #[verifier::loop_isolation(false)]
    pub fn get_achievement_progress(&self, achievement_id: &str, character: &Character) -> (r: (
        u32,
        u32,
    ))
        requires
            self.wf(),
            character.stats.wf(),
        ensures
            ({
                let i = spec_find_ach(achievement_id@, 0);
                if i >= ach_count() {
                    r == (0u32, 1u32)
                } else if self.unlocked@[i] {
                    r.0 == spec_ach_den(i) && r.1 == spec_ach_den(i)
                } else {
                    r.0 == spec_ach_num(i, self.progress, *character) && r.1 == spec_ach_den(i)
                }
            }),
    {
        let catalog = Achievement::all();
        let mut i: usize = 0;
        while i < 30
            invariant
                i <= 30,
                forall|k: int| 0 <= k < i ==> spec_ach_id(k) != achievement_id@,
            decreases 30 - i,
        {
            if str_eq(catalog[i].id, achievement_id) {
                proof {
                    lemma_find_ach_gen(achievement_id@, 0, i as int);
                }
                let den = self.progress_den(i);
                if self.unlocked[i] {
                    return (den, den);
                }
                let num = self.progress_num(i, character);
                return (num, den);
            }
            i = i + 1;
        }
        proof {
            lemma_find_ach_gen(achievement_id@, 0, ach_count());
        }
        (0, 1)
    }

    /// The threshold of catalog entry i.
    fn progress_den(&self, i: usize) -> (r: u32)
        requires
            i < ach_count(),
        ensures
            r == spec_ach_den(i as int),
    {
        if i == 0 {
            1
        } else if i == 1 {
            5
        } else if i == 2 {
            100
        } else if i == 3 {
            500
        } else if i == 4 {
            30
        } else if i == 5 {
            50
        } else if i == 6 {
            1000
        } else if i == 7 {
            10
        } else if i == 8 {
            10
        } else if i == 9 {
            20
        } else if i == 10 {
            30
        } else if i == 11 {
            100
        } else if i == 12 {
            10
        } else if i == 13 {
            5
        } else if i == 14 {
            1
        } else if i == 15 {
            5000
        } else if i == 16 {
            10
        } else if i == 17 {
            50
        } else if i == 18 {
            50
        } else if i == 19 {
            25
        } else if i == 20 {
            100
        } else if i <= 27 {
            100
        } else if i == 28 {
            500
        } else {
            1000
        }
    }

    /// The progress numerator of catalog entry i.
    #[verifier::loop_isolation(false)]
    fn progress_num(&self, i: usize, character: &Character) -> (r: u32)
        requires
            self.wf(),
            character.stats.wf(),
            i < ach_count(),
        ensures
            r == spec_ach_num(i as int, self.progress, *character),
    {
        let p = &self.progress;
        if i == 0 {
            cap_u32(p.quests_completed, 1)
        } else if i == 1 {
            cap_u32(character.level, 5)
        } else if i == 2 {
            cap_u32(p.quests_completed, 100)
        } else if i == 3 {
            cap_u32(p.quests_completed, 500)
        } else if i == 4 {
            cap_u32(character.level, 30)
        } else if i == 5 {
            cap_u32(character.level, 50)
        } else if i == 6 {
            cap_u32(p.quests_completed, 1000)
        } else if i == 7 {
            let mut met: u32 = 0;
            let mut d: usize = 0;
            while d < 10
                invariant
                    d <= 10,
                    met == spec_difficulties_met(p.quests_by_difficulty@, d as int),
                    met <= d,
                decreases 10 - d,
            {
                if p.quests_by_difficulty[d] >= 1 {
                    met = met + 1;
                }
                d = d + 1;
            }
            met
        } else if i == 8 {
            cap_u32(p.difficulty_10_quests, 10)
        } else if i == 9 {
            let mut min_count: u32 = 0xffffffff;
            let mut d: usize = 0;
            while d < 10
                invariant
                    d <= 10,
                    min_count == spec_min_difficulty(p.quests_by_difficulty@, d as int),
                decreases 10 - d,
            {
                if p.quests_by_difficulty[d] < min_count {
                    min_count = p.quests_by_difficulty[d];
                }
                d = d + 1;
            }
            cap_u32(min_count, 20)
        } else if i == 10 {
            cap_usize(p.active_days.len(), 30)
        } else if i == 11 {
            cap_usize(p.active_days.len(), 100)
        } else if i == 12 {
            cap_usize(p.projects_completed.len(), 10)
        } else if i == 13 {
            if p.had_30_day_break {
                cap_u32(p.comeback_quests_after_break, 5)
            } else {
                0
            }
        } else if i == 14 {
            if p.epic_loot_received {
                1
            } else {
                0
            }
        } else if i == 15 {
            cap_u32(character.gold, 5000)
        } else if i == 16 {
            cap_u32(p.rewards_purchased, 10)
        } else if i == 17 {
            cap_u32(p.loot_drops_received, 50)
        } else if i == 18 {
            cap_u32(p.early_tasks, 50)
        } else if i == 19 {
            cap_u32(p.grace_period_tasks, 25)
        } else if i == 20 {
            cap_u32(p.tasks_with_due_date, 100)
        } else if i == 21 {
            cap_u32(p.on_time_tasks, 100)
        } else if i == 22 {
            cap_u32(character.stats.get_stat(StatType::STR) as u32, 100)
        } else if i == 23 {
            cap_u32(character.stats.get_stat(StatType::DEX) as u32, 100)
        } else if i == 24 {
            cap_u32(character.stats.get_stat(StatType::CON) as u32, 100)
        } else if i == 25 {
            cap_u32(character.stats.get_stat(StatType::INT) as u32, 100)
        } else if i == 26 {
            cap_u32(character.stats.get_stat(StatType::WIS) as u32, 100)
        } else if i == 27 {
            cap_u32(character.stats.get_stat(StatType::CHA) as u32, 100)
        } else if i == 28 {
            cap_u32(p.highest_stat_value as u32, 500)
        } else {
            cap_u32(p.highest_stat_value as u32, 1000)
        }
    }
}

/// min(v, cap) on u32.
fn cap_u32(v: u32, cap: u32) -> (r: u32)
    ensures
        r == spec_capped(v as int, cap as int),
{
    if v > cap {
        cap
    } else {
        v
    }
}

/// min(v, cap) over a usize count.
fn cap_usize(v: usize, cap: u32) -> (r: u32)
    ensures
        r == spec_capped(v as int, cap as int),
{
    if v > cap as usize {
        cap
    } else {
        v as u32
    }
}

/// Where the identifiers before j all differ from id, the first match is at
/// j (if j matches) or absent (past the catalog).
proof fn lemma_find_ach_gen(id: Seq<char>, from: int, j: int)
    requires
        0 <= from <= j <= ach_count(),
        forall|k: int| from <= k < j ==> spec_ach_id(k) != id,
    ensures
        j < ach_count() && spec_ach_id(j) == id ==> spec_find_ach(id, from) == j,
        j == ach_count() ==> spec_find_ach(id, from) == ach_count(),
    decreases j - from,
{
    if from < j {
        lemma_find_ach_gen(id, from + 1, j);
    }
}


/// Every index that a mask selects lies below the bound and has its mask
/// entry set.
proof fn lemma_selected_elements(mask: Seq<bool>, upto: int)
    ensures
        forall|j: int|
            0 <= j < spec_selected(mask, upto).len() ==> 0 <= #[trigger] spec_selected(
                mask,
                upto,
            )[j] < upto && mask[spec_selected(mask, upto)[j]],
    decreases upto,
{
    if upto > 0 {
        lemma_selected_elements(mask, upto - 1);
        let prev = spec_selected(mask, upto - 1);
        let cur = spec_selected(mask, upto);
        assert forall|j: int| 0 <= j < cur.len() implies 0 <= cur[j] < upto && mask[cur[j]] by {
            if mask[upto - 1] {
                assert(cur == prev.push(upto - 1));
                if j < prev.len() {
                    assert(cur[j] == prev[j]);
                } else {
                    assert(cur[j] == upto - 1);
                }
            } else {
                assert(cur == prev);
            }
        }
    }
}

/// Law: unlocking is idempotent.  Once a condition is unlocked, any further
/// event keeps it unlocked, and the newly-unlocked report of that event can
/// never name it again, however the accumulator and character have moved.
pub proof fn lemma_unlock_idempotent(
    unl: Seq<bool>,
    p: AchievementProgress,
    c: Character,
    i: int,
)
    requires
        0 <= i < ach_count(),
        unl[i],
    ensures
        unl[i] || spec_ach_pred(i, p, c),
        forall|j: int|
            0 <= j < spec_selected(spec_newly_mask(unl, p, c), ach_count()).len()
                ==> #[trigger] spec_selected(spec_newly_mask(unl, p, c), ach_count())[j] != i,
{
    let mask = spec_newly_mask(unl, p, c);
    lemma_selected_elements(mask, ach_count());
    assert(!mask[i]);
}

/// Law: the thirty-day-break flag latches.  Once set it survives every
/// further completion, whatever its date: it only ever moves from clear to
/// set, never back.
pub proof fn lemma_break_flag_latches(p: AchievementProgress, today: int)
    requires
        p.had_30_day_break,
    ensures
        spec_break_after(p, today),
{
}

/// Law: the balance condition holds exactly when every one of the ten
/// difficulty ratings has at least one completion, so no event can unlock it
/// while any rating is still untouched.
pub proof fn lemma_balance_needs_every_difficulty(
    unl: Seq<bool>,
    p: AchievementProgress,
    c: Character,
)
    requires
        p.wf(),
    ensures
        spec_ach_pred(7, p, c) <==> (forall|d: int|
            0 <= d < 10 ==> p.quests_by_difficulty@[d] >= 1),
        (!unl[7] && exists|d: int| 0 <= d < 10 && p.quests_by_difficulty@[d] == 0)
            ==> !(unl[7] || spec_ach_pred(7, p, c)),
{
    if exists|d: int| 0 <= d < 10 && p.quests_by_difficulty@[d] == 0 {
        let d = choose|d: int| 0 <= d < 10 && p.quests_by_difficulty@[d] == 0;
        assert(!spec_ach_pred(7, p, c));
    }
}

} // verus!
