use vstd::prelude::*;

use crate::errors::SchedulerError;
use crate::skills::PracticeSkill;
use crate::{valid_time, MAX_TIME_SECS};

verus! {

/// A live practice session: a snapshot of the day's schedule, the skill
/// and exercise currently active, and the timing state that `tick` reads.
/// Times are in seconds since the epoch; durations in seconds.
#[derive(Debug)]
pub struct PracticeSession {
    /// The schedule being worked through, snapshotted at session start.
    pub schedule: Vec<PracticeSkill>,
    /// Position of the active skill within the schedule.
    pub current_skill_index: usize,
    /// Position of the displayed exercise within the active skill.
    pub current_exercise: Option<usize>,
    /// Seconds left on the active skill, as of the latest tick.
    pub time_left: i64,
    /// When the session started.
    pub start_time: i64,
    /// When the active skill started.
    pub skill_start_time: i64,
    /// Seconds spent paused since the active skill started.
    pub accumulated_pause: i64,
    /// Whether the session is paused; a paused session ignores ticks.
    pub paused: bool,
    /// When the current pause began, while paused.
    pub pause_started: Option<i64>,
}

impl PracticeSession {
    /// A session is well formed when its schedule is non-empty and made of
    /// well-formed skills, its indices point inside the schedule, and its
    /// timing fields are representable and mutually consistent.
    pub open spec fn wf(self) -> bool {
        &&& self.schedule@.len() >= 1
        &&& forall|i: int| 0 <= i < self.schedule@.len() ==> (#[trigger] self.schedule@[i]).wf()
        &&& (self.current_skill_index as int) < self.schedule@.len()
        &&& (self.current_exercise matches Some(e) ==> (e as int)
            < self.schedule@[self.current_skill_index as int]@.exercises.len())
        &&& valid_time(self.start_time)
        &&& 0 <= self.skill_start_time
        &&& 0 <= self.accumulated_pause
        &&& self.skill_start_time + self.accumulated_pause <= MAX_TIME_SECS
        &&& (self.paused <==> self.pause_started is Some)
        &&& (self.pause_started matches Some(ps) ==> self.skill_start_time
            + self.accumulated_pause <= ps <= MAX_TIME_SECS)
    }

    /// The number of exercises of the active skill.
    pub open spec fn current_exercise_count(self) -> int {
        self.schedule@[self.current_skill_index as int]@.exercises.len() as int
    }

    /// Starts a session over a non-empty schedule: the first skill is
    /// active, no exercise is selected yet, and the clock starts at
    /// `current_time`.
    pub fn new(schedule: Vec<PracticeSkill>, current_time: i64) -> (r: Self)
        requires
            schedule@.len() >= 1,
            forall|i: int| 0 <= i < schedule@.len() ==> (#[trigger] schedule@[i]).wf(),
            valid_time(current_time),
        ensures
            r.wf(),
            r.schedule == schedule,
            r.current_skill_index == 0,
            r.current_exercise is None,
            r.time_left == 0,
            r.start_time == current_time,
            r.skill_start_time == current_time,
            r.accumulated_pause == 0,
            !r.paused,
    {
        PracticeSession {
            schedule,
            current_skill_index: 0,
            current_exercise: None,
            time_left: 0,
            start_time: current_time,
            skill_start_time: current_time,
            accumulated_pause: 0,
            paused: false,
            pause_started: None,
        }
    }

    /// Moves to the next exercise of the active skill, clamped at the last
    /// one; selects the first exercise when none is selected yet. Nothing
    /// else changes, and the selection never leaves the exercise list.
    pub fn next_exercise(&mut self)
        requires
            old(self).wf(),
        ensures
            final(self).wf(),
            final(self).current_exercise matches Some(e) && 0 <= e
                < old(self).current_exercise_count(),
            final(self).current_exercise == match old(self).current_exercise {
                None => Some(0usize),
                Some(e) => if e + 1 < old(self).current_exercise_count() {
                    Some((e + 1) as usize)
                } else {
                    Some(e)
                },
            },
            *final(self) == (PracticeSession {
                current_exercise: final(self).current_exercise,
                ..*old(self)
            }),
    {
        let exercise_count = self.schedule[self.current_skill_index].exercises.len();
        match self.current_exercise {
            None => {
                self.current_exercise = Some(0);
            },
            Some(e) => {
                if e + 1 < exercise_count {
                    self.current_exercise = Some(e + 1);
                }
            },
        }
    }

    /// Moves to the previous exercise of the active skill, clamped at the
    /// first one; selects the first exercise when none is selected yet.
    /// Nothing else changes, and the selection never leaves the exercise
    /// list.
    pub fn previous_exercise(&mut self)
        requires
            old(self).wf(),
        ensures
            final(self).wf(),
            final(self).current_exercise matches Some(e) && 0 <= e
                < old(self).current_exercise_count(),
            final(self).current_exercise == match old(self).current_exercise {
                None => Some(0usize),
                Some(e) => if e >= 1 {
                    Some((e - 1) as usize)
                } else {
                    Some(e)
                },
            },
            *final(self) == (PracticeSession {
                current_exercise: final(self).current_exercise,
                ..*old(self)
            }),
    {
        match self.current_exercise {
            None => {
                self.current_exercise = Some(0);
            },
            Some(e) => {
                if e >= 1 {
                    self.current_exercise = Some(e - 1);
                }
            },
        }
    }

    /// Records the remaining time observed by the latest tick.
    pub fn set_time_left(&mut self, time_left: i64)
        requires
            old(self).wf(),
        ensures
            final(self).wf(),
            *final(self) == (PracticeSession { time_left, ..*old(self) }),
    {
        self.time_left = time_left;
    }

    /// The position of the active skill in the schedule.
    pub fn get_current_skill_idx(&self) -> (idx: usize)
        ensures
            idx == self.current_skill_index,
    {
        self.current_skill_index
    }

    /// Makes the skill at `idx` active, starting its timing afresh at
    /// `current_time` with no accumulated pause and its first exercise
    /// selected; errs on an index outside the schedule, changing nothing.
    pub fn set_current_skill_idx(&mut self, idx: usize, current_time: i64) -> (r: Result<
        (),
        SchedulerError,
    >)
        requires
            old(self).wf(),
            valid_time(current_time),
        ensures
            final(self).wf(),
            match r {
                Ok(()) => idx < old(self).schedule@.len() && *final(self) == (PracticeSession {
                    current_skill_index: idx,
                    skill_start_time: current_time,
                    accumulated_pause: 0,
                    paused: false,
                    pause_started: None,
                    current_exercise: Some(0usize),
                    ..*old(self)
                }),
                Err(e) => e == SchedulerError::InvalidSkillIndex && idx >= old(
                    self,
                ).schedule@.len() && *final(self) == *old(self),
            },
    {
        if idx >= self.schedule.len() {
            return Err(SchedulerError::InvalidSkillIndex);
        }
        self.current_skill_index = idx;
        self.skill_start_time = current_time;
        self.accumulated_pause = 0;
        self.paused = false;
        self.pause_started = None;
        self.current_exercise = Some(0);
        Ok(())
    }
}

} // verus!
