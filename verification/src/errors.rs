use vstd::prelude::*;

verus! {

/// Everything that can go wrong in the scheduler and the session state
/// machine. Configuration errors and state errors are surfaced to the
/// caller; none of the library's operations panics.
#[derive(Clone, Copy, Debug, PartialEq, Eq, Structural)]
pub enum SchedulerError {
    /// The configured skill set is empty, so no schedule can be drawn.
    MissingSkills,
    /// The lookback window cannot be represented as a duration subtraction.
    InvalidLookback,
    /// A session operation was invoked while no session is active.
    NoActiveSession,
    /// A session was started, or the schedule force-refreshed, while a
    /// session is already active.
    SessionAlreadyActive,
    /// `pause` was invoked on a session that is already paused.
    AlreadyPaused,
    /// `resume` was invoked on a session that is not paused.
    NotPaused,
    /// A session completion was requested while no schedule is set.
    ScheduleNotSet,
    /// A skill index outside the session's schedule was requested.
    InvalidSkillIndex,
}

} // verus!
