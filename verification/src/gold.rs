use vstd::prelude::*;
use crate::rng::rand_in_range;

verus! {

/// The currency calculator.
pub struct GoldCalculator;

impl GoldCalculator {
    /// Gold for a completed task: the base reward is challenge * 5, and the
    /// result is drawn uniformly from the inclusive range base +- 20% of base.
    /// Since the base is five times the challenge, that variance is exactly
    /// the challenge rating, so the result always lies in
    /// [4 * challenge, 6 * challenge].
    pub fn calculate(challenge: u8) -> (r: u32)
        ensures
            4 * challenge <= r <= 6 * challenge,
    {
        let base: u32 = (challenge as u32) * 5;
        let variance: u32 = base / 5;
        rand_in_range(base - variance, base + variance)
    }
}

} // verus!
