use vstd::prelude::*;
use crate::loot::RewardTier;

verus! {

// The reward shop: a catalog of purchasable rewards with costs and optional
// cooldowns.  A purchase is all-or-nothing: it either returns the cost to
// deduct and stamps the purchase time, or reports a typed error and leaves
// the store untouched.

/// One purchasable reward.
#[derive(Debug, Clone)]
pub struct Reward {
    pub id: u32,
    pub name: String,
    pub description: String,
    pub cost: u32,
    pub tier: RewardTier,
    pub cooldown_hours: u32,
    /// Second timestamp of the latest purchase.
    pub last_purchased: Option<i64>,
}

/// Why a shop operation was refused.
#[derive(Debug, Clone, Copy, PartialEq, Eq, Structural)]
pub enum ShopError {
    /// No reward carries the requested identifier.
    RewardNotFound,
    /// The buyer's balance is below the cost.
    NotEnoughGold { needed: u32, available: u32 },
    /// The reward's cooldown has not elapsed.
    OnCooldown { hours_remaining: i64 },
    /// The ten built-in rewards cannot be removed.
    CannotRemoveDefault,
}

/// First index at or after `from` whose reward has the identifier, or the
/// length when none does.
pub open spec fn spec_find_reward(s: Seq<Reward>, id: u32, from: int) -> int
    decreases s.len() - from,
{
    if from < 0 || from >= s.len() {
        s.len() as int
    } else if s[from].id == id {
        from
    } else {
        spec_find_reward(s, id, from + 1)
    }
}

/// Whether a reward can be bought at `now`: always, unless a cooldown is set
/// and the latest purchase is less than that many hours old.
pub open spec fn spec_reward_available(r: Reward, now: int) -> bool {
    match r.last_purchased {
        Some(last) => if r.cooldown_hours > 0 {
            now - last >= r.cooldown_hours * 3600
        } else {
            true
        },
        None => true,
    }
}

/// Hours still to wait, rounded down, clamped into the i64 range.
pub open spec fn spec_hours_remaining(r: Reward, now: int) -> int {
    let h = (r.cooldown_hours * 3600 - (now - (match r.last_purchased {
        Some(last) => last,
        None => 0,
    }))) / 3600;
    if h > i64::MAX {
        i64::MAX as int
    } else {
        h
    }
}

/// The store: the reward list and the identifier the next addition gets.
#[derive(Debug, Clone)]
pub struct RewardStore {
    pub rewards: Vec<Reward>,
    pub next_id: u32,
}

/// Field-for-field copy of a reward.
fn duplicate_reward(r: &Reward) -> (d: Reward)
    ensures
        d == *r,
{
    Reward {
        id: r.id,
        name: r.name.clone(),
        description: r.description.clone(),
        cost: r.cost,
        tier: r.tier,
        cooldown_hours: r.cooldown_hours,
        last_purchased: r.last_purchased,
    }
}

impl RewardStore {
    /// The ten built-in rewards and the next free identifier.
    pub fn new() -> (r: RewardStore)
        ensures
            r.rewards@.len() == 10,
            r.next_id == 11,
            forall|i: int| 0 <= i < 10 ==> (#[trigger] r.rewards@[i]).id == i + 1,
            forall|i: int| 0 <= i < 10 ==> (#[trigger] r.rewards@[i]).last_purchased is None,
            r.rewards@[0].cost == 50,
            r.rewards@[1].cost == 100,
            r.rewards@[2].cost == 150,
            r.rewards@[3].cost == 200,
            r.rewards@[4].cost == 300,
            r.rewards@[5].cost == 500,
            r.rewards@[6].cost == 400,
            r.rewards@[7].cost == 750,
            r.rewards@[8].cost == 1500,
            r.rewards@[9].cost == 3000,
            r.rewards@[5].cooldown_hours == 168,
            r.rewards@[7].cooldown_hours == 336,
            r.rewards@[9].cooldown_hours == 720,
    {
        RewardStore { rewards: Self::default_rewards(), next_id: 11 }
    }

    fn default_rewards() -> (v: Vec<Reward>)
        ensures
            v@.len() == 10,
            forall|i: int| 0 <= i < 10 ==> (#[trigger] v@[i]).id == i + 1,
            forall|i: int| 0 <= i < 10 ==> (#[trigger] v@[i]).last_purchased is None,
            v@[0].cost == 50,
            v@[1].cost == 100,
            v@[2].cost == 150,
            v@[3].cost == 200,
            v@[4].cost == 300,
            v@[5].cost == 500,
            v@[6].cost == 400,
            v@[7].cost == 750,
            v@[8].cost == 1500,
            v@[9].cost == 3000,
            v@[5].cooldown_hours == 168,
            v@[7].cooldown_hours == 336,
            v@[9].cooldown_hours == 720,
    {
        let mut v: Vec<Reward> = Vec::new();
        v.push(Reward {
            id: 1,
            name: "Coffee Break".to_owned(),
            description: "Enjoy a 15-minute coffee break".to_owned(),
            cost: 50,
            tier: RewardTier::Normal,
            cooldown_hours: 0,
            last_purchased: None,
        });
        v.push(Reward {
            id: 2,
            name: "Gaming Session".to_owned(),
            description: "30 minutes of guilt-free gaming".to_owned(),
            cost: 100,
            tier: RewardTier::Normal,
            cooldown_hours: 0,
            last_purchased: None,
        });
        v.push(Reward {
            id: 3,
            name: "Movie Night".to_owned(),
            description: "Watch a movie of your choice".to_owned(),
            cost: 150,
            tier: RewardTier::Heroic,
            cooldown_hours: 0,
            last_purchased: None,
        });
        v.push(Reward {
            id: 4,
            name: "Treat Meal".to_owned(),
            description: "Order your favorite takeout".to_owned(),
            cost: 200,
            tier: RewardTier::Heroic,
            cooldown_hours: 0,
            last_purchased: None,
        });
        v.push(Reward {
            id: 5,
            name: "New Book".to_owned(),
            description: "Buy that book you've been eyeing".to_owned(),
            cost: 300,
            tier: RewardTier::Heroic,
            cooldown_hours: 0,
            last_purchased: None,
        });
        v.push(Reward {
            id: 6,
            name: "Day Off".to_owned(),
            description: "Take a guilt-free rest day".to_owned(),
            cost: 500,
            tier: RewardTier::Epic,
            cooldown_hours: 168,
            last_purchased: None,
        });
        v.push(Reward {
            id: 7,
            name: "Hobby Supplies".to_owned(),
            description: "Buy supplies for your hobby".to_owned(),
            cost: 400,
            tier: RewardTier::Epic,
            cooldown_hours: 0,
            last_purchased: None,
        });
        v.push(Reward {
            id: 8,
            name: "Weekend Adventure".to_owned(),
            description: "Plan a day trip or adventure".to_owned(),
            cost: 750,
            tier: RewardTier::Epic,
            cooldown_hours: 336,
            last_purchased: None,
        });
        v.push(Reward {
            id: 9,
            name: "Major Purchase".to_owned(),
            description: "Buy that expensive item you want".to_owned(),
            cost: 1500,
            tier: RewardTier::Legendary,
            cooldown_hours: 0,
            last_purchased: None,
        });
        v.push(Reward {
            id: 10,
            name: "Epic Reward".to_owned(),
            description: "Your ultimate reward - define it yourself!".to_owned(),
            cost: 3000,
            tier: RewardTier::Legendary,
            cooldown_hours: 720,
            last_purchased: None,
        });
        v
    }

    /// The first reward with this identifier, if any.
    #[verifier::loop_isolation(false)]
    pub fn get_reward(&self, id: u32) -> (r: Option<&Reward>)
        ensures
            ({
                let j = spec_find_reward(self.rewards@, id, 0);
                if j < self.rewards@.len() {
                    r == Some(&self.rewards@[j])
                } else {
                    r is None
                }
            }),
    {
        let mut i: usize = 0;
        let n = self.rewards.len();
        while i < n
            invariant
                n == self.rewards@.len(),
                i <= n,
                forall|k: int| 0 <= k < i ==> (#[trigger] self.rewards@[k]).id != id,
            decreases n - i,
        {
            if self.rewards[i].id == id {
                proof {
                    lemma_find_reward_gen(self.rewards@, id, 0, i as int);
                }
                return Some(&self.rewards[i]);
            }
            i = i + 1;
        }
        proof {
            lemma_find_reward_gen(self.rewards@, id, 0, self.rewards@.len() as int);
        }
        None
    }

    /// The first reward whose name matches, ignoring letter case.
    #[verifier::loop_isolation(false)]
    pub fn get_reward_by_name(&self, name: &str) -> (r: Option<&Reward>)
        ensures
            match r {
                Some(found) => exists|k: int|
                    0 <= k < self.rewards@.len() && *found == self.rewards@[k] && lower_of(
                        (#[trigger] self.rewards@[k]).name@,
                    ) == lower_of(name@),
                None => forall|k: int|
                    0 <= k < self.rewards@.len() ==> lower_of(
                        (#[trigger] self.rewards@[k]).name@,
                    ) != lower_of(name@),
            },
    {
        let query = lowercase(name);
        let mut i: usize = 0;
        let n = self.rewards.len();
        while i < n
            invariant
                n == self.rewards@.len(),
                query@ == lower_of(name@),
                i <= n,
                forall|k: int| 0 <= k < i ==> lower_of((#[trigger] self.rewards@[k]).name@)
                    != lower_of(name@),
            decreases n - i,
        {
            let lowered = lowercase(self.rewards[i].name.as_str());
            if lowered == query {
                return Some(&self.rewards[i]);
            }
            i = i + 1;
        }
        None
    }

    /// Add a custom reward under the next free identifier and return it.
    pub fn add_reward(
        &mut self,
        name: String,
        cost: u32,
        description: String,
        tier: RewardTier,
        cooldown_hours: u32,
    ) -> (id: u32)
        requires
            old(self).next_id < u32::MAX,
        ensures
            id == old(self).next_id,
            final(self).next_id == old(self).next_id + 1,
            final(self).rewards@ == old(self).rewards@.push(
                Reward {
                    id: old(self).next_id,
                    name: name,
                    description: description,
                    cost: cost,
                    tier: tier,
                    cooldown_hours: cooldown_hours,
                    last_purchased: None,
                },
            ),
    {
        let id = self.next_id;
        self.next_id = self.next_id + 1;
        self.rewards.push(
            Reward { id, name, description, cost, tier, cooldown_hours, last_purchased: None },
        );
        id
    }

    /// Remove a custom reward.  An unknown identifier is reported first; the
    /// ten built-in rewards cannot be removed.
    #[verifier::loop_isolation(false)]
    pub fn remove_reward(&mut self, id: u32) -> (r: Result<(), ShopError>)
        ensures
            ({
                let j = spec_find_reward(old(self).rewards@, id, 0);
                if j >= old(self).rewards@.len() {
                    r == Result::<(), ShopError>::Err(ShopError::RewardNotFound) && *final(self)
                        == *old(self)
                } else if id <= 10 {
                    r == Result::<(), ShopError>::Err(ShopError::CannotRemoveDefault)
                        && *final(self) == *old(self)
                } else {
                    r is Ok && final(self).rewards@ == old(self).rewards@.remove(j)
                        && final(self).next_id == old(self).next_id
                }
            }),
    {
        let mut i: usize = 0;
        let n = self.rewards.len();
        while i < n
            invariant
                n == self.rewards@.len(),
                i <= n,
                forall|k: int| 0 <= k < i ==> (#[trigger] self.rewards@[k]).id != id,
                *self == *old(self),
            decreases n - i,
        {
            if self.rewards[i].id == id {
                proof {
                    lemma_find_reward_gen(self.rewards@, id, 0, i as int);
                }
                if id <= 10 {
                    return Err(ShopError::CannotRemoveDefault);
                }
                self.rewards.remove(i);
                return Ok(());
            }
            i = i + 1;
        }
        proof {
            lemma_find_reward_gen(self.rewards@, id, 0, self.rewards@.len() as int);
        }
        Err(ShopError::RewardNotFound)
    }

    /// Attempt a purchase with the given balance at time `now` (seconds).
    /// On success the cost to deduct comes back and the purchase time is
    /// stamped; on any refusal the store is untouched and the error says
    /// what was missing.
    #[verifier::loop_isolation(false)]
    pub fn purchase_reward(&mut self, id: u32, gold: u32, now: i64) -> (r: Result<u32, ShopError>)
        ensures
            ({
                let j = spec_find_reward(old(self).rewards@, id, 0);
                if j >= old(self).rewards@.len() {
                    r == Result::<u32, ShopError>::Err(ShopError::RewardNotFound) && *final(self)
                        == *old(self)
                } else {
                    let reward = old(self).rewards@[j];
                    if gold < reward.cost {
                        r == Result::<u32, ShopError>::Err(
                            ShopError::NotEnoughGold { needed: reward.cost, available: gold },
                        ) && *final(self) == *old(self)
                    } else if !spec_reward_available(reward, now as int) {
                        r == Result::<u32, ShopError>::Err(
                            ShopError::OnCooldown {
                                hours_remaining: spec_hours_remaining(reward, now as int) as i64,
                            },
                        ) && *final(self) == *old(self)
                    } else {
                        r == Result::<u32, ShopError>::Ok(reward.cost) && final(self).rewards@
                            == old(self).rewards@.update(
                            j,
                            Reward { last_purchased: Some(now), ..reward },
                        ) && final(self).next_id == old(self).next_id
                    }
                }
            }),
    {
        let mut i: usize = 0;
        let n = self.rewards.len();
        while i < n
            invariant
                n == self.rewards@.len(),
                i <= n,
                forall|k: int| 0 <= k < i ==> (#[trigger] self.rewards@[k]).id != id,
                *self == *old(self),
            decreases n - i,
        {
            if self.rewards[i].id == id {
                proof {
                    lemma_find_reward_gen(self.rewards@, id, 0, i as int);
                }
                let cost = self.rewards[i].cost;
                if gold < cost {
                    return Err(ShopError::NotEnoughGold { needed: cost, available: gold });
                }
                let cooldown_hours = self.rewards[i].cooldown_hours;
                if let Some(last) = self.rewards[i].last_purchased {
                    if cooldown_hours > 0 {
                        let elapsed: i128 = (now as i128) - (last as i128);
                        let cooldown_secs: i128 = (cooldown_hours as i128) * 3600;
                        if elapsed < cooldown_secs {
                            let remaining: i128 = cooldown_secs - elapsed;
                            let hours: i128 = remaining / 3600;
                            let hours_remaining: i64 = if hours > (i64::MAX as i128) {
                                i64::MAX
                            } else {
                                hours as i64
                            };
                            return Err(ShopError::OnCooldown { hours_remaining });
                        }
                    }
                }
                let updated = Reward {
                    last_purchased: Some(now),
                    ..duplicate_reward(&self.rewards[i])
                };
                self.rewards.set(i, updated);
                return Ok(cost);
            }
            i = i + 1;
        }
        proof {
            lemma_find_reward_gen(self.rewards@, id, 0, self.rewards@.len() as int);
        }
        Err(ShopError::RewardNotFound)
    }

    /// The rewards that can be bought right now: everything whose cooldown,
    /// if any, has elapsed.
    #[verifier::loop_isolation(false)]
    pub fn available_rewards(&self, now: i64) -> (r: Vec<Reward>)
        ensures
            ({
                let sel = crate::achievements::spec_selected(
                    Seq::new(
                        self.rewards@.len(),
                        |i: int| spec_reward_available(self.rewards@[i], now as int),
                    ),
                    self.rewards@.len() as int,
                );
                &&& r@.len() == sel.len()
                &&& forall|j: int| 0 <= j < sel.len() ==> r@[j] == self.rewards@[sel[j]]
            }),
    {
        let ghost mask = Seq::new(
            self.rewards@.len(),
            |i: int| spec_reward_available(self.rewards@[i], now as int),
        );
        let mut r: Vec<Reward> = Vec::new();
        let mut i: usize = 0;
        let n = self.rewards.len();
        while i < n
            invariant
                n == self.rewards@.len(),
                i <= n,
                mask == Seq::new(
                    self.rewards@.len(),
                    |k: int| spec_reward_available(self.rewards@[k], now as int),
                ),
                r@.len() == crate::achievements::spec_selected(mask, i as int).len(),
                forall|j: int|
                    0 <= j < crate::achievements::spec_selected(mask, i as int).len() ==> r@[j]
                        == self.rewards@[crate::achievements::spec_selected(mask, i as int)[j]],
            decreases n - i,
        {
            let available: bool = {
                if let Some(last) = self.rewards[i].last_purchased {
                    if self.rewards[i].cooldown_hours > 0 {
                        let elapsed: i128 = (now as i128) - (last as i128);
                        elapsed >= (self.rewards[i].cooldown_hours as i128) * 3600
                    } else {
                        true
                    }
                } else {
                    true
                }
            };
            if available {
                r.push(duplicate_reward(&self.rewards[i]));
            }
            proof {
                assert(crate::achievements::spec_selected(mask, i + 1) == if mask[i as int] {
                    crate::achievements::spec_selected(mask, i as int).push(i as int)
                } else {
                    crate::achievements::spec_selected(mask, i as int)
                });
            }
            i = i + 1;
        }
        r
    }
}

/// Where the identifiers before j all differ, the first match is at j (if j
/// matches) or absent.
proof fn lemma_find_reward_gen(s: Seq<Reward>, id: u32, from: int, j: int)
    requires
        0 <= from <= j <= s.len(),
        forall|k: int| from <= k < j ==> (#[trigger] s[k]).id != id,
    ensures
        j < s.len() && s[j].id == id ==> spec_find_reward(s, id, from) == j,
        j == s.len() ==> spec_find_reward(s, id, from) == s.len(),
    decreases j - from,
{
    if from < j {
        lemma_find_reward_gen(s, id, from + 1, j);
    }
}

/// What String::to_lowercase returns for a given sequence of characters: a
/// pure function of the characters alone.
pub uninterp spec fn lower_of(s: Seq<char>) -> Seq<char>;

/// Relies on str::to_lowercase: the result depends only on the characters of
/// the input, so equal strings lower to equal strings.
#[verifier::external_body]
fn lowercase(s: &str) -> (r: String)
    ensures
        r@ == lower_of(s@),
{
    s.to_lowercase()
}

} // verus!
