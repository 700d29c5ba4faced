use vstd::prelude::*;
use crate::rng::rand_in_range;

verus! {

/// Rarity of a droppable or purchasable reward.
#[derive(Debug, Clone, Copy, PartialEq, Eq, Structural)]
pub enum RewardTier {
    Normal,
    Heroic,
    Epic,
    /// Shop-only: the loot roll never produces it.
    Legendary,
}

impl RewardTier {
    /// Terminal color escape for this tier.
    pub fn color_code(&self) -> (r: &'static str)
        ensures
            r@ == spec_tier_color(*self),
    {
        match self {
            RewardTier::Normal => "\x1b[37m",
            RewardTier::Heroic => "\x1b[94m",
            RewardTier::Epic => "\x1b[95m",
            RewardTier::Legendary => "\x1b[33m",
        }
    }

    /// Display name of this tier.
    pub fn name(&self) -> (r: &'static str)
        ensures
            r@ == spec_tier_name(*self),
    {
        match self {
            RewardTier::Normal => "Normal",
            RewardTier::Heroic => "Heroic",
            RewardTier::Epic => "Epic",
            RewardTier::Legendary => "Legendary",
        }
    }
}

pub open spec fn spec_tier_color(t: RewardTier) -> Seq<char> {
    match t {
        RewardTier::Normal => "\x1b[37m"@,
        RewardTier::Heroic => "\x1b[94m"@,
        RewardTier::Epic => "\x1b[95m"@,
        RewardTier::Legendary => "\x1b[33m"@,
    }
}

pub open spec fn spec_tier_name(t: RewardTier) -> Seq<char> {
    match t {
        RewardTier::Normal => "Normal"@,
        RewardTier::Heroic => "Heroic"@,
        RewardTier::Epic => "Epic"@,
        RewardTier::Legendary => "Legendary"@,
    }
}

/// What a successful loot roll hands out: a gold bonus, or a named reward of
/// one of the droppable tiers.
#[derive(Debug, Clone)]
pub enum LootDrop {
    Gold(u32),
    Reward { tier: RewardTier, name: String },
}

/// The names a rolled reward of each tier can carry.
pub open spec fn spec_name_in_tier(t: RewardTier, name: Seq<char>) -> bool {
    match t {
        RewardTier::Normal => name == "Coffee Break"@ || name == "Gaming Session"@ || name
            == "Snack Time"@,
        RewardTier::Heroic => name == "Movie Night"@ || name == "Treat Meal"@ || name
            == "New Book"@,
        RewardTier::Epic => name == "Day Off"@ || name == "Hobby Supplies"@ || name
            == "Weekend Adventure"@,
        RewardTier::Legendary => name == "Major Purchase"@ || name == "Epic Reward"@,
    }
}

/// A drop the roll can produce: a gold bonus between 10 and 50, or a named
/// reward of a tier below Legendary.
pub open spec fn spec_valid_drop(d: LootDrop) -> bool {
    match d {
        LootDrop::Gold(amount) => 10 <= amount <= 50,
        LootDrop::Reward { tier, name } => tier != RewardTier::Legendary && spec_name_in_tier(
            tier,
            name@,
        ),
    }
}

/// Drop probability in percent: 30 plus 2 per challenge point, at most 100.
pub open spec fn spec_drop_chance_percent(challenge: int) -> int {
    if 30 + 2 * challenge > 100 {
        100
    } else {
        30 + 2 * challenge
    }
}

/// The name at one slot of a tier's fixed list.
pub open spec fn spec_loot_name_at(t: RewardTier, idx: int) -> Seq<char> {
    match t {
        RewardTier::Normal => if idx == 0 {
            "Coffee Break"@
        } else if idx == 1 {
            "Gaming Session"@
        } else {
            "Snack Time"@
        },
        RewardTier::Heroic => if idx == 0 {
            "Movie Night"@
        } else if idx == 1 {
            "Treat Meal"@
        } else {
            "New Book"@
        },
        RewardTier::Epic => if idx == 0 {
            "Day Off"@
        } else if idx == 1 {
            "Hobby Supplies"@
        } else {
            "Weekend Adventure"@
        },
        RewardTier::Legendary => if idx == 0 {
            "Major Purchase"@
        } else {
            "Epic Reward"@
        },
    }
}

/// The loot roll.
pub struct LootSystem;

impl LootSystem {
    /// Roll for a drop: a uniform percent roll decides against the drop
    /// chance for this challenge rating; on success the drop comes from
    /// further independent rolls through the fixed table.  At a drop chance
    /// of 100 percent every roll succeeds.
    pub fn roll_for_loot(challenge: u8) -> (r: Option<LootDrop>)
        ensures
            r is Some ==> spec_valid_drop(r->0),
            spec_drop_chance_percent(challenge as int) == 100 ==> r is Some,
    {
        let roll = rand_in_range(0, 99);
        if Self::drop_decision(roll, challenge) {
            Some(Self::determine_loot_type())
        } else {
            None
        }
    }

    /// Whether a drawn percent roll produces a drop for this challenge
    /// rating: exactly when the roll lies strictly below the drop chance.
    pub fn drop_decision(roll: u32, challenge: u8) -> (b: bool)
        ensures
            b == (roll < spec_drop_chance_percent(challenge as int)),
    {
        let raw = 30 + 2 * (challenge as u32);
        let chance: u32 = if raw > 100 {
            100
        } else {
            raw
        };
        roll < chance
    }

    /// The kind of a successful drop: draw the kind roll, the gold amount
    /// and the name slot, and map them through the fixed table.
    fn determine_loot_type() -> (r: LootDrop)
        ensures
            spec_valid_drop(r),
    {
        let kind_roll = rand_in_range(0, 99);
        let amount = rand_in_range(10, 50);
        let name_idx = rand_in_range(0, 2);
        Self::loot_from_rolls(kind_roll, amount, name_idx)
    }

    /// The fixed cumulative table over a drawn percent roll: below 70 the
    /// gold bonus, below 90 a Normal reward, below 98 Heroic, the last two
    /// percent Epic; the name slot picks from the tier's fixed list.
    pub fn loot_from_rolls(kind_roll: u32, amount: u32, name_idx: u32) -> (r: LootDrop)
        requires
            kind_roll <= 99,
            10 <= amount <= 50,
            name_idx <= 2,
        ensures
            kind_roll < 70 ==> r == LootDrop::Gold(amount),
            70 <= kind_roll < 90 ==> (r matches LootDrop::Reward { tier, name } && tier
                == RewardTier::Normal && name@ == spec_loot_name_at(
                RewardTier::Normal,
                name_idx as int,
            )),
            90 <= kind_roll < 98 ==> (r matches LootDrop::Reward { tier, name } && tier
                == RewardTier::Heroic && name@ == spec_loot_name_at(
                RewardTier::Heroic,
                name_idx as int,
            )),
            98 <= kind_roll ==> (r matches LootDrop::Reward { tier, name } && tier
                == RewardTier::Epic && name@ == spec_loot_name_at(
                RewardTier::Epic,
                name_idx as int,
            )),
            spec_valid_drop(r),
    {
        if kind_roll < 70 {
            LootDrop::Gold(amount)
        } else if kind_roll < 90 {
            LootDrop::Reward {
                tier: RewardTier::Normal,
                name: Self::reward_name_at(RewardTier::Normal, name_idx),
            }
        } else if kind_roll < 98 {
            LootDrop::Reward {
                tier: RewardTier::Heroic,
                name: Self::reward_name_at(RewardTier::Heroic, name_idx),
            }
        } else {
            LootDrop::Reward {
                tier: RewardTier::Epic,
                name: Self::reward_name_at(RewardTier::Epic, name_idx),
            }
        }
    }

    /// The name at one slot of a tier's fixed list.
    fn reward_name_at(tier: RewardTier, idx: u32) -> (r: String)
        requires
            idx <= 2,
        ensures
            r@ == spec_loot_name_at(tier, idx as int),
            spec_name_in_tier(tier, r@),
    {
        match tier {
            RewardTier::Normal => {
                if idx == 0 {
                    "Coffee Break".to_owned()
                } else if idx == 1 {
                    "Gaming Session".to_owned()
                } else {
                    "Snack Time".to_owned()
                }
            },
            RewardTier::Heroic => {
                if idx == 0 {
                    "Movie Night".to_owned()
                } else if idx == 1 {
                    "Treat Meal".to_owned()
                } else {
                    "New Book".to_owned()
                }
            },
            RewardTier::Epic => {
                if idx == 0 {
                    "Day Off".to_owned()
                } else if idx == 1 {
                    "Hobby Supplies".to_owned()
                } else {
                    "Weekend Adventure".to_owned()
                }
            },
            RewardTier::Legendary => {
                if idx == 0 {
                    "Major Purchase".to_owned()
                } else {
                    "Epic Reward".to_owned()
                }
            },
        }
    }

    /// Drop probability for display, in whole percent.
    pub fn drop_chance(challenge: u8) -> (r: u32)
        ensures
            r == spec_drop_chance_percent(challenge as int),
    {
        let raw = 30 + 2 * (challenge as u32);
        if raw > 100 {
            100
        } else {
            raw
        }
    }
}

} // verus!
