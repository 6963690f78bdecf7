use vstd::prelude::*;

pub mod errors;
pub mod history;
pub mod planner;
pub mod rng;
pub mod schedule;
pub mod session;
pub mod skills;

pub use errors::SchedulerError;
pub use history::{DaySkills, HistoryEntry};
pub use planner::SchedulePlanner;
pub use session::PracticeSession;
pub use skills::{PlannerConfiguration, PracticeExercise, PracticeSkill};

verus! {

/// Number of seconds in one calendar day.
pub const SECS_PER_DAY: i64 = 86400;

/// Upper bound on the timestamps (seconds since the epoch) this library
/// works with; generous enough for any realistic clock, small enough that
/// sums and differences of a few timestamps always fit in an `i64`.
pub const MAX_TIME_SECS: i64 = 0x2000_0000_0000;

/// A timestamp the library accepts: nonnegative seconds since the epoch,
/// bounded so that date arithmetic cannot overflow.
pub open spec fn valid_time(secs: i64) -> bool {
    0 <= secs <= MAX_TIME_SECS
}

/// The calendar day that a timestamp falls on.
pub open spec fn spec_day_of(secs: i64) -> int
    recommends
        secs >= 0,
{
    secs as int / (SECS_PER_DAY as int)
}

/// Computes the calendar day index of a nonnegative timestamp.
pub fn day_of(secs: i64) -> (d: i64)
    requires
        secs >= 0,
    ensures
        d == spec_day_of(secs),
        d >= 0,
{
    secs / SECS_PER_DAY
}

} // verus!
