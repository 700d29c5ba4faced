use vstd::prelude::*;

verus! {

/// When a task was finished relative to its due date.
#[derive(Debug, Clone, Copy, PartialEq, Eq, Structural)]
pub enum TaskTiming {
    /// More than 24 hours before the due date.
    Early,
    /// Within the 24 hours before the due date.
    OnTime,
    /// Less than 24 hours past the due date.
    GracePeriod,
    /// More than 24 hours past the due date.
    Late,
    /// The task carried no due date.
    NoDueDate,
}

/// Timing multiplier in tenths: early pays a 1.3x bonus, late completion
/// halves the reward, the grace period costs a fifth.
pub open spec fn timing_mult_tenths(timing: TaskTiming) -> int {
    match timing {
        TaskTiming::Early => 13,
        TaskTiming::OnTime => 10,
        TaskTiming::GracePeriod => 8,
        TaskTiming::Late => 5,
        TaskTiming::NoDueDate => 10,
    }
}

/// Experience for a completed task, computed exactly over integers.
/// Urgency is carried in thousandths; its bonus multiplier is
/// 1 + min(urgency * 0.5, 0.5), that is (2000 + min(urgency_milli, 1000)) / 2000.
/// The result is floor(challenge * 10 * urgency_mult * timing_mult).
pub open spec fn spec_xp_reward(challenge: int, urgency_milli: int, timing: TaskTiming) -> int {
    (challenge * 10) * (2000 + (if urgency_milli > 1000 {
        1000int
    } else {
        urgency_milli
    })) * timing_mult_tenths(timing) / 20000
}

/// Seconds in 24 hours, the width of every timing band.
pub open spec fn day_seconds() -> int {
    86400
}

/// The timing band of a completion: the signed distance from the due moment,
/// in seconds, cut at -24h, 0 and +24h.
pub open spec fn spec_timing(due: Option<i64>, completed: i64) -> TaskTiming {
    match due {
        None => TaskTiming::NoDueDate,
        Some(d) => {
            let diff = completed - d;
            if diff < -day_seconds() {
                TaskTiming::Early
            } else if diff < 0 {
                TaskTiming::OnTime
            } else if diff < day_seconds() {
                TaskTiming::GracePeriod
            } else {
                TaskTiming::Late
            }
        },
    }
}

/// The experience calculator.
pub struct XPCalculator;

impl XPCalculator {
    /// Experience for a completed task of the given challenge rating,
    /// urgency (in thousandths) and timing band.
    pub fn calculate(challenge: u8, urgency_milli: u64, timing: TaskTiming) -> (r: u32)
        ensures
            r == spec_xp_reward(challenge as int, urgency_milli as int, timing),
    {
        let base: u64 = (challenge as u64) * 10;
        let capped: u64 = if urgency_milli > 1000 {
            1000
        } else {
            urgency_milli
        };
        let tenths: u64 = match timing {
            TaskTiming::Early => 13,
            TaskTiming::OnTime => 10,
            TaskTiming::GracePeriod => 8,
            TaskTiming::Late => 5,
            TaskTiming::NoDueDate => 10,
        };
        proof {
            assert((base as int) * (2000 + capped as int) * (tenths as int) <= 2550 * 3000 * 13)
                by (nonlinear_arith)
                requires
                    base <= 2550,
                    capped <= 1000,
                    tenths <= 13,
            ;
        }
        let xp: u64 = base * (2000 + capped) * tenths / 20000;
        xp as u32
    }

    /// The timing band of a completion instant against an optional due
    /// instant, both in seconds on one clock.
    pub fn determine_timing(due: Option<i64>, completed_at: i64) -> (r: TaskTiming)
        ensures
            r == spec_timing(due, completed_at),
    {
        match due {
            None => TaskTiming::NoDueDate,
            Some(d) => {
                let diff: i128 = (completed_at as i128) - (d as i128);
                if diff < -86400 {
                    TaskTiming::Early
                } else if diff < 0 {
                    TaskTiming::OnTime
                } else if diff < 86400 {
                    TaskTiming::GracePeriod
                } else {
                    TaskTiming::Late
                }
            },
        }
    }
}

} // verus!
