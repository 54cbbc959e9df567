//! Frame pacing and the maximum-duration stop rule.
//!
//! All durations are nanoseconds read from a monotonic clock; the
//! surrounding application measures them and passes them in as plain
//! values.

use vstd::prelude::*;

verus! {

pub const NANOS_PER_SECOND: u64 = 1_000_000_000;

pub const NANOS_PER_MILLISECOND: u64 = 1_000_000;

/// Timing configuration of the capture loop: an optional maximum run
/// duration, and an optional target interval between consecutive frames.
pub struct FrameClock {
    pub max_duration_ns: Option<u64>,
    pub target_interval_ns: Option<u64>,
}

/// Whether the loop must stop: a maximum duration is configured and the
/// elapsed time has exceeded it (strictly).
pub open spec fn spec_should_stop(clock: FrameClock, elapsed_ns: u64) -> bool {
    match clock.max_duration_ns {
        Some(max) => elapsed_ns > max,
        None => false,
    }
}

/// How long to sleep after an iteration: the residual part of the target
/// interval, and zero when no interval is configured or the iteration
/// already took at least that long. Lost time is never compensated.
pub open spec fn spec_pace(clock: FrameClock, iteration_ns: u64) -> int {
    match clock.target_interval_ns {
        Some(target) => if iteration_ns < target {
            target - iteration_ns
        } else {
            0
        },
        None => 0,
    }
}

impl FrameClock {
    /// A clock with the given bound and inter-frame interval.
    pub fn new(max_duration_ns: Option<u64>, target_interval_ns: Option<u64>) -> (clock:
        FrameClock)
        ensures
            clock.max_duration_ns == max_duration_ns,
            clock.target_interval_ns == target_interval_ns,
    {
        FrameClock { max_duration_ns, target_interval_ns }
    }

    /// True iff a maximum duration is configured and `elapsed_ns` has
    /// exceeded it.
    pub fn should_stop(&self, elapsed_ns: u64) -> (stop: bool)
        ensures
            stop == spec_should_stop(*self, elapsed_ns),
    {
        match self.max_duration_ns {
            Some(max) => elapsed_ns > max,
            None => false,
        }
    }

    /// The time to sleep so that the iteration spans the target interval.
    pub fn pace(&self, iteration_ns: u64) -> (sleep_ns: u64)
        ensures
            sleep_ns as int == spec_pace(*self, iteration_ns),
    {
        match self.target_interval_ns {
            Some(target) => if iteration_ns < target {
                target - iteration_ns
            } else {
                0
            },
            None => 0,
        }
    }
}

/// The inter-frame interval for a requested frame rate, in nanoseconds.
pub fn interval_for_fps(fps: u64) -> (interval_ns: u64)
    requires
        1 <= fps,
    ensures
        interval_ns as int == NANOS_PER_SECOND as int / fps as int,
{
    NANOS_PER_SECOND / fps
}

/// Once the maximum-duration bound has been exceeded it stays exceeded:
/// `should_stop` never reverts to false as the elapsed time grows.
pub proof fn lemma_should_stop_monotonic(clock: FrameClock, earlier_ns: u64, later_ns: u64)
    requires
        earlier_ns <= later_ns,
        spec_should_stop(clock, earlier_ns),
    ensures
        spec_should_stop(clock, later_ns),
{
}

} // verus!
