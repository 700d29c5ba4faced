use vstd::prelude::*;

verus! {

// Ability scores carry three fractional digits: a stored value of 10000
// reads as 10.0, the cap of 99000 as 99.0.  Growth follows a quadratic
// diminishing-returns curve: with progress p = (value - 10) / 89 toward the
// cap, a base gain g lands as g / (1 + p^2), so exactly g at the base value
// and exactly g/2 at the cap, before clamping at the cap.

/// One of the six trainable abilities.
#[derive(Debug, Clone, Copy, PartialEq, Eq, Structural)]
pub enum StatType {
    STR,
    DEX,
    CON,
    INT,
    WIS,
    CHA,
}

/// The base value 10.0 in thousandths.
pub open spec fn stat_base_milli() -> int {
    10000
}

/// The cap 99.0 in thousandths.
pub open spec fn stat_cap_milli() -> int {
    99000
}

/// (99000 - 10000)^2: the denominator scale of the quadratic curve.
pub open spec fn stat_span_sq() -> int {
    7921000000
}

/// The gain actually applied at current value v (in thousandths):
/// g / (1 + p^2) with p = (v - 10000) / 89000, evaluated exactly as
/// g * 89000^2 / (89000^2 + (v - 10000)^2), rounded down.
pub open spec fn spec_applied_gain(v: int, g: int) -> int {
    g * stat_span_sq() / (stat_span_sq() + (v - stat_base_milli()) * (v - stat_base_milli()))
}

/// The new value after training: the applied gain, clamped at the cap.
pub open spec fn spec_increased(v: int, g: int) -> int {
    if v + spec_applied_gain(v, g) > stat_cap_milli() {
        stat_cap_milli()
    } else {
        v + spec_applied_gain(v, g)
    }
}

/// The six ability scores, in thousandths.
#[derive(Debug, Clone, Copy)]
pub struct Stats {
    pub strength: u64,
    pub dexterity: u64,
    pub constitution: u64,
    pub intelligence: u64,
    pub wisdom: u64,
    pub charisma: u64,
}

/// The stored value of one stat.
pub open spec fn spec_stat(s: Stats, t: StatType) -> int {
    match t {
        StatType::STR => s.strength as int,
        StatType::DEX => s.dexterity as int,
        StatType::CON => s.constitution as int,
        StatType::INT => s.intelligence as int,
        StatType::WIS => s.wisdom as int,
        StatType::CHA => s.charisma as int,
    }
}

/// Stats with one entry replaced.
pub open spec fn spec_stat_set(s: Stats, t: StatType, v: u64) -> Stats {
    match t {
        StatType::STR => Stats { strength: v, ..s },
        StatType::DEX => Stats { dexterity: v, ..s },
        StatType::CON => Stats { constitution: v, ..s },
        StatType::INT => Stats { intelligence: v, ..s },
        StatType::WIS => Stats { wisdom: v, ..s },
        StatType::CHA => Stats { charisma: v, ..s },
    }
}

/// The whole effect of training one stat with base gain g.
pub open spec fn spec_trained(s: Stats, t: StatType, g: int) -> Stats {
    spec_stat_set(s, t, spec_increased(spec_stat(s, t), g) as u64)
}

impl Stats {
    /// All six values sit between the base and the cap.
    pub open spec fn wf(&self) -> bool {
        &&& stat_base_milli() <= self.strength <= stat_cap_milli()
        &&& stat_base_milli() <= self.dexterity <= stat_cap_milli()
        &&& stat_base_milli() <= self.constitution <= stat_cap_milli()
        &&& stat_base_milli() <= self.intelligence <= stat_cap_milli()
        &&& stat_base_milli() <= self.wisdom <= stat_cap_milli()
        &&& stat_base_milli() <= self.charisma <= stat_cap_milli()
    }

    /// A fresh character's scores: every stat at the base value.
    pub fn new() -> (r: Stats)
        ensures
            r.wf(),
            r.strength == 10000,
            r.dexterity == 10000,
            r.constitution == 10000,
            r.intelligence == 10000,
            r.wisdom == 10000,
            r.charisma == 10000,
    {
        Stats {
            strength: 10000,
            dexterity: 10000,
            constitution: 10000,
            intelligence: 10000,
            wisdom: 10000,
            charisma: 10000,
        }
    }

    /// The displayed whole-number value of a stat.
    pub fn get_stat(&self, stat_type: StatType) -> (r: u16)
        requires
            self.wf(),
        ensures
            r == spec_stat(*self, stat_type) / 1000,
    {
        (self.get_stat_raw(stat_type) / 1000) as u16
    }

    /// The stored value of a stat, in thousandths.
    pub fn get_stat_raw(&self, stat_type: StatType) -> (r: u64)
        ensures
            r == spec_stat(*self, stat_type),
    {
        match stat_type {
            StatType::STR => self.strength,
            StatType::DEX => self.dexterity,
            StatType::CON => self.constitution,
            StatType::INT => self.intelligence,
            StatType::WIS => self.wisdom,
            StatType::CHA => self.charisma,
        }
    }

    /// Train one stat: apply the quadratic diminishing-returns gain and clamp
    /// at the cap.  Gains are in thousandths, like the values.
    pub fn increase_stat(&mut self, stat_type: StatType, base_gain_milli: u64)
        requires
            old(self).wf(),
            base_gain_milli <= 1000000,
        ensures
            *final(self) == spec_trained(*old(self), stat_type, base_gain_milli as int),
            final(self).wf(),
    {
        let current = self.get_stat_raw(stat_type);
        let dx: u64 = current - 10000;
        proof {
            assert((dx as int) * (dx as int) <= 89000 * 89000) by (nonlinear_arith)
                requires
                    0 <= dx <= 89000,
            ;
            assert((base_gain_milli as int) * 7921000000 <= 7921000000000000) by (nonlinear_arith)
                requires
                    base_gain_milli <= 1000000,
            ;
        }
        let den: u64 = 7921000000 + dx * dx;
        let gain: u64 = base_gain_milli * 7921000000 / den;
        let new_value: u64 = if current + gain > 99000 {
            99000
        } else {
            current + gain
        };
        match stat_type {
            StatType::STR => self.strength = new_value,
            StatType::DEX => self.dexterity = new_value,
            StatType::CON => self.constitution = new_value,
            StatType::INT => self.intelligence = new_value,
            StatType::WIS => self.wisdom = new_value,
            StatType::CHA => self.charisma = new_value,
        }
    }
}

/// Law: at the base value the quadratic multiplier is exactly 1, so a base
/// gain g lands unreduced.
pub proof fn lemma_gain_exact_at_base(g: int)
    requires
        0 <= g,
    ensures
        spec_applied_gain(stat_base_milli(), g) == g,
{
    let d = stat_span_sq();
    assert((10000 - stat_base_milli()) * (10000 - stat_base_milli()) == 0) by (nonlinear_arith);
    assert(spec_applied_gain(10000, g) == g * d / d);
    vstd::arithmetic::div_mod::lemma_div_multiples_vanish(g, d);
    assert(g * d == d * g) by (nonlinear_arith);
}

/// Law: at the cap the quadratic multiplier is exactly 2, so a base gain g
/// lands as exactly g / 2 (rounded down) before clamping.
pub proof fn lemma_gain_halved_at_cap(g: int)
    requires
        0 <= g,
    ensures
        spec_applied_gain(stat_cap_milli(), g) == g / 2,
{
    let d = stat_span_sq();
    assert((99000 - 10000) * (99000 - 10000) == d);
    assert(spec_applied_gain(99000, g) == g * d / (d + d));
    assert(g * d >= 0) by (nonlinear_arith)
        requires
            g >= 0,
            d == 7921000000,
    ;
    vstd::arithmetic::div_mod::lemma_div_denominator(g * d, d, 2);
    assert(d + d == d * 2);
    assert((g * d) / (d * 2) == ((g * d) / d) / 2);
    vstd::arithmetic::div_mod::lemma_div_multiples_vanish(g, d);
    assert(g * d == d * g) by (nonlinear_arith);
}

/// Law: training never lowers a stat and never pushes it past the cap.
pub proof fn lemma_training_bounded(v: int, g: int)
    requires
        stat_base_milli() <= v <= stat_cap_milli(),
        0 <= g,
    ensures
        v <= spec_increased(v, g) <= stat_cap_milli(),
{
    let d = stat_span_sq();
    let den = d + (v - 10000) * (v - 10000);
    assert((v - 10000) * (v - 10000) >= 0) by (nonlinear_arith);
    assert(g * d >= 0) by (nonlinear_arith)
        requires
            g >= 0,
            d == 7921000000,
    ;
    vstd::arithmetic::div_mod::lemma_div_pos_is_pos(g * d, den);
}

} // verus!
