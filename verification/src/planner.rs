use vstd::prelude::*;

use crate::errors::SchedulerError;
use crate::history::{
    distinct_day_count, history_wf, lookback, lookback_matches, lookback_representable,
    record_entry, spec_distinct_days, spec_streak, streak_count, window_lo, DaySkills,
    HistoryEntry,
};
use crate::history::names_of;
use crate::rng::draw_weighted_indices;
use crate::schedule::compute_weights;
use crate::session::PracticeSession;
use crate::skills::{clone_skills, PlannerConfiguration, PracticeExercise, PracticeSkill};
use crate::{spec_day_of, valid_time};

verus! {

/// Every skill of a cached schedule is well formed.
pub open spec fn schedule_skills_wf(v: Seq<PracticeSkill>) -> bool {
    forall|i: int| 0 <= i < v.len() ==> (#[trigger] v[i]).wf()
}

/// The scheduling engine: configuration, the practice history, the cached
/// schedule for today, and the live session, if any.
#[derive(Debug)]
pub struct SchedulePlanner {
    pub config: PlannerConfiguration,
    /// Completed daily sessions, in time order.
    pub history: Vec<HistoryEntry>,
    /// The skills selected for today, cached until consumed or refreshed.
    pub todays_schedule: Option<Vec<PracticeSkill>>,
    /// Whether a practice session is currently underway.
    pub practicing: bool,
    /// The in-progress practice session.
    pub practice_session: Option<PracticeSession>,
}

impl SchedulePlanner {
    /// A planner is well formed when its configuration and history are,
    /// its cached schedule holds well-formed skills, and a session exists
    /// exactly while practicing, over a schedule that is still cached.
    pub open spec fn wf(self) -> bool {
        &&& self.config.wf()
        &&& history_wf(self.history@)
        &&& (self.todays_schedule matches Some(v) ==> schedule_skills_wf(v@))
        &&& (self.practicing <==> self.practice_session is Some)
        &&& (self.practice_session matches Some(s) ==> s.wf())
        &&& (self.practicing ==> self.todays_schedule is Some)
    }

    /// Builds a planner with the default configuration: four skills per
    /// day, fifteen minutes per skill, a two-day repeat threshold, and the
    /// default skill set, with no history and no session.
    pub fn new() -> (r: Self)
        ensures
            r.wf(),
            r.config.skills_per_day == 4,
            r.config.skill_practice_time == 900,
            r.config.skill_repeat_days == 2,
            r.config.skills@.len() == 11,
            r.config.skills@[0]@.name == "Ear Training"@,
            r.config.skills@[1]@.name == "Left Hand Exercises"@,
            r.config.skills@[2]@.name == "Alternate Picking Exercises"@,
            r.config.skills@[3]@.name == "Chords"@,
            r.config.skills@[4]@.name == "Scales"@,
            r.config.skills@[5]@.name == "Sight Reading"@,
            r.config.skills@[6]@.name == "Music Theory"@,
            r.config.skills@[7]@.name == "Improvisation"@,
            r.config.skills@[8]@.name == "Songwriting"@,
            r.config.skills@[9]@.name == "Rhythm"@,
            r.config.skills@[10]@.name == "Learn A Song"@,
            r.history@.len() == 0,
            r.todays_schedule is None,
            !r.practicing,
            r.practice_session is None,
    {
        SchedulePlanner {
            config: PlannerConfiguration {
                skill_practice_time: 900,
                skill_repeat_days: 2,
                skills_per_day: 4,
                skills: default_skills(),
            },
            history: Vec::new(),
            todays_schedule: None,
            practicing: false,
            practice_session: None,
        }
    }

    /// Today's cached schedule, if one has been computed and not yet
    /// consumed.
    pub fn get_todays_schedule(&self) -> (r: Option<&Vec<PracticeSkill>>)
        ensures
            r is Some <==> self.todays_schedule is Some,
            r matches Some(v) ==> *v == self.todays_schedule->0,
    {
        self.todays_schedule.as_ref()
    }

    /// The number of consecutive calendar days of practice ending at
    /// `current_time`'s day; today counts when present but is not
    /// required to be.
    pub fn get_streak(&self, current_time: i64) -> (n: usize)
        requires
            self.wf(),
            valid_time(current_time),
        ensures
            n as int == spec_streak(self.history@, spec_day_of(current_time)),
    {
        streak_count(&self.history, current_time)
    }

    /// The skills seen per calendar day over the last `n` days: exactly
    /// the canonical day grouping of the history's in-window suffix, in
    /// ascending day order; errs when `n` days is not representable as a
    /// duration.
    pub fn get_history_n_days_back(&self, n: usize, current_time: i64) -> (r: Result<
        Vec<DaySkills>,
        SchedulerError,
    >)
        requires
            self.wf(),
            valid_time(current_time),
        ensures
            match r {
                Ok(days) => lookback_representable(n) && lookback_matches(
                    self.history@,
                    window_lo(current_time, n),
                    current_time as int,
                    days@,
                ),
                Err(e) => e == SchedulerError::InvalidLookback && !lookback_representable(n),
            },
    {
        lookback(&self.history, n, current_time)
    }

    /// The number of distinct calendar days with at least one recorded
    /// practice session.
    pub fn days_of_history(&self) -> (n: usize)
        requires
            self.wf(),
        ensures
            n as int == spec_distinct_days(self.history@, self.history@.len() as int),
    {
        distinct_day_count(&self.history)
    }

    /// Clears all recorded history; nothing else changes.
    pub fn reset_history(&mut self)
        requires
            old(self).wf(),
        ensures
            final(self).wf(),
            final(self).history@.len() == 0,
            final(self).config == old(self).config,
            final(self).todays_schedule == old(self).todays_schedule,
            final(self).practicing == old(self).practicing,
            final(self).practice_session == old(self).practice_session,
    {
        self.history = Vec::new();
    }

    /// Removes the first configured skill that shares the given skill's
    /// name, if any; identity is by name. The cached schedule, history and
    /// session are untouched.
    pub fn delete_skill(&mut self, skill: &PracticeSkill) -> (r: Result<(), SchedulerError>)
        requires
            old(self).wf(),
        ensures
            final(self).wf(),
            r is Ok,
            final(self).history == old(self).history,
            final(self).todays_schedule == old(self).todays_schedule,
            final(self).practicing == old(self).practicing,
            final(self).practice_session == old(self).practice_session,
            final(self).config.skill_practice_time == old(self).config.skill_practice_time,
            final(self).config.skill_repeat_days == old(self).config.skill_repeat_days,
            final(self).config.skills_per_day == old(self).config.skills_per_day,
            if exists|i: int|
                0 <= i < old(self).config.skills@.len() && (
                #[trigger] old(self).config.skills@[i])@.name == skill@.name {
                final(self).config.skills@ == old(self).config.skills@.remove(
                    choose|i: int|
                        0 <= i < old(self).config.skills@.len() && (
                        #[trigger] old(self).config.skills@[i])@.name == skill@.name
                            && forall|k: int|
                            0 <= k < i ==> (#[trigger] old(self).config.skills@[k])@.name
                                != skill@.name,
                )
            } else {
                final(self).config.skills@ == old(self).config.skills@
            },
    {
        let ghost skills0 = self.config.skills@;
        let n = self.config.skills.len();
        let mut i: usize = 0;
        while i < n
            invariant
                self == old(self),
                skills0 == self.config.skills@,
                old(self).wf(),
                n == self.config.skills@.len(),
                i <= n,
                forall|k: int|
                    0 <= k < i ==> (#[trigger] self.config.skills@[k])@.name != skill@.name,
            decreases n - i,
        {
            if self.config.skills[i].skill_name == skill.skill_name {
                assert(self.config.skills@[i as int]@.name == skill@.name);
                let ghost found = i as int;
                self.config.skills.remove(i);
                proof {
                    assert(self.config.skills@ == skills0.remove(found));
                    assert(found == choose|j: int|
                        0 <= j < skills0.len() && (#[trigger] skills0[j])@.name == skill@.name
                            && forall|k: int|
                            0 <= k < j ==> (#[trigger] skills0[k])@.name != skill@.name) by {
                        let c = choose|j: int|
                            0 <= j < skills0.len() && (#[trigger] skills0[j])@.name == skill@.name
                                && forall|k: int|
                                0 <= k < j ==> (#[trigger] skills0[k])@.name != skill@.name;
                        if c != found {
                            assert(skills0[found]@.name == skill@.name);
                        }
                    }
                    assert forall|a: int, b: int|
                        0 <= a < b < self.config.skills@.len() implies (
                    #[trigger] self.config.skills@[a])@.name != (
                    #[trigger] self.config.skills@[b])@.name by {
                        let bb = if b < found {
                            b
                        } else {
                            b + 1
                        };
                        let aa = if a < found {
                            a
                        } else {
                            a + 1
                        };
                        assert(self.config.skills@[a] == skills0[aa]);
                        assert(self.config.skills@[b] == skills0[bb]);
                    }
                    assert forall|a: int| 0 <= a < self.config.skills@.len() implies (
                    #[trigger] self.config.skills@[a]).wf() by {
                        let aa = if a < found {
                            a
                        } else {
                            a + 1
                        };
                        assert(self.config.skills@[a] == skills0[aa]);
                    }
                }
                return Ok(());
            }
            i = i + 1;
        }
        proof {
            if exists|j: int|
                0 <= j < skills0.len() && (#[trigger] skills0[j])@.name == skill@.name {
                let c = choose|j: int|
                    0 <= j < skills0.len() && (#[trigger] skills0[j])@.name == skill@.name;
                assert(skills0[c]@.name != skill@.name);
            }
        }
        Ok(())
    }
}

/// The skill is one of the configured skills, by value.
pub open spec fn is_config_skill(cfg: PlannerConfiguration, sk: PracticeSkill) -> bool {
    exists|i: int| 0 <= i < cfg.skills@.len() && sk@ == (#[trigger] cfg.skills@[i])@
}

/// What a freshly drawn schedule looks like: as many skills as the
/// configuration asks for (truncated to the skill set's size), every one
/// of them a configured skill, with no skill selected twice.
pub open spec fn drawn_from_config(cfg: PlannerConfiguration, v: Seq<PracticeSkill>) -> bool {
    &&& v.len() == if cfg.skills_per_day <= cfg.skills@.len() {
        cfg.skills_per_day as int
    } else {
        cfg.skills@.len() as int
    }
    &&& forall|k: int| 0 <= k < v.len() ==> is_config_skill(cfg, #[trigger] v[k])
    &&& forall|k1: int, k2: int| 0 <= k1 < k2 < v.len() ==> v[k1]@.name != v[k2]@.name
}

/// Everything of a planner but its cached schedule is the same.
pub open spec fn same_but_schedule(a: SchedulePlanner, b: SchedulePlanner) -> bool {
    &&& a.config == b.config
    &&& a.history == b.history
    &&& a.practicing == b.practicing
    &&& a.practice_session == b.practice_session
}

impl SchedulePlanner {
    /// Computes today's schedule when none is cached, or when a refresh is
    /// forced outside a session: a weighted draw without replacement over
    /// the configured skills, biased toward those longest unpracticed.
    /// With a cached schedule and no forced refresh, this is a no-op (the
    /// cached schedule is returned unchanged by `get_todays_schedule`).
    pub fn update_todays_schedule(
        &mut self,
        force_update: bool,
        current_time: i64,
        rng: &mut rand::rngs::StdRng,
    ) -> (r: Result<(), SchedulerError>)
        requires
            old(self).wf(),
            valid_time(current_time),
        ensures
            final(self).wf(),
            old(self).todays_schedule is Some && !force_update ==> r is Ok && *final(self)
                == *old(self),
            r is Err ==> *final(self) == *old(self),
            (r == Err::<(), SchedulerError>(SchedulerError::SessionAlreadyActive)) <==> (!(old(
                self,
            ).todays_schedule is Some && !force_update) && old(self).practicing),
            (r == Err::<(), SchedulerError>(SchedulerError::MissingSkills)) <==> (!(old(
                self,
            ).todays_schedule is Some && !force_update) && !old(self).practicing && old(
                self,
            ).config.skills@.len() == 0),
            (r == Err::<(), SchedulerError>(SchedulerError::InvalidLookback)) <==> (!(old(
                self,
            ).todays_schedule is Some && !force_update) && !old(self).practicing && old(
                self,
            ).config.skills@.len() > 0 && !lookback_representable(old(self).config.skill_repeat_days)),
            r is Err ==> (r == Err::<(), SchedulerError>(SchedulerError::SessionAlreadyActive) || r
                == Err::<(), SchedulerError>(SchedulerError::MissingSkills) || r == Err::<
                (),
                SchedulerError,
            >(SchedulerError::InvalidLookback)),
            !(old(self).todays_schedule is Some && !force_update) && r is Ok ==> same_but_schedule(
                *final(self),
                *old(self),
            ) && (final(self).todays_schedule matches Some(v) && drawn_from_config(
                old(self).config,
                v@,
            )),
    {
        if self.todays_schedule.is_some() && !force_update {
            // The cached schedule stands until it is consumed or a refresh
            // is forced.
            return Ok(());
        }
        if self.practicing {
            return Err(SchedulerError::SessionAlreadyActive);
        }
        if self.config.skills.len() == 0 {
            return Err(SchedulerError::MissingSkills);
        }
        let past = match lookback(&self.history, self.config.skill_repeat_days, current_time) {
            Ok(p) => p,
            Err(e) => {
                return Err(e);
            },
        };
        let weights = compute_weights(&self.config.skills, &past, self.config.skill_repeat_days);
        let nskills = self.config.skills.len();
        let amount: usize = if self.config.skills_per_day <= nskills {
            self.config.skills_per_day
        } else {
            nskills
        };
        let idxs = draw_weighted_indices(rng, &weights, amount);
        let mut sched: Vec<PracticeSkill> = Vec::new();
        let mut k: usize = 0;
        while k < idxs.len()
            invariant
                self == old(self),
                old(self).wf(),
                nskills == self.config.skills@.len(),
                forall|t: int| 0 <= t < idxs@.len() ==> (#[trigger] idxs@[t]) < nskills,
                forall|t1: int, t2: int|
                    0 <= t1 < t2 < idxs@.len() ==> idxs@[t1] != idxs@[t2],
                k <= idxs@.len(),
                sched@.len() == k,
                forall|t: int|
                    0 <= t < k ==> (#[trigger] sched@[t])@ == self.config.skills@[idxs@[t] as int]@,
            decreases idxs@.len() - k,
        {
            let idx = idxs[k];
            sched.push(self.config.skills[idx].clone());
            k = k + 1;
        }
        proof {
            assert forall|k1: int, k2: int|
                0 <= k1 < k2 < sched@.len() implies sched@[k1]@.name != sched@[k2]@.name by {
                let i1 = idxs@[k1] as int;
                let i2 = idxs@[k2] as int;
                assert(sched@[k1]@ == self.config.skills@[i1]@);
                assert(sched@[k2]@ == self.config.skills@[i2]@);
                if i1 < i2 {
                    assert(self.config.skills@[i1]@.name != self.config.skills@[i2]@.name);
                } else {
                    assert(self.config.skills@[i2]@.name != self.config.skills@[i1]@.name);
                }
            }
            assert forall|t: int| 0 <= t < sched@.len() implies is_config_skill(
                self.config,
                #[trigger] sched@[t],
            ) by {
                let w = idxs@[t] as int;
                assert(0 <= w && w < self.config.skills@.len() && sched@[t]@
                    == self.config.skills@[w]@);
            }
            assert(drawn_from_config(self.config, sched@));
            assert forall|t: int| 0 <= t < sched@.len() implies (#[trigger] sched@[t]).wf() by {
                assert(self.config.skills@[idxs@[t] as int].wf());
                assert(sched@[t]@ == self.config.skills@[idxs@[t] as int]@);
            }
        }
        self.todays_schedule = Some(sched);
        Ok(())
    }
}

/// The names of a schedule's skills, in order.
pub open spec fn schedule_names(v: Seq<PracticeSkill>) -> Seq<Seq<char>> {
    Seq::new(v.len(), |i: int| v[i]@.name)
}

/// The remaining practice time a tick at `now` observes, given the
/// per-skill duration, when the active skill started, and how long the
/// session has been paused since then.
pub open spec fn time_left_at(practice_time: int, skill_start: int, paused_for: int, now: int) -> int {
    practice_time - (now - skill_start - paused_for)
}

/// Law: pausing and resuming does not change the remaining time. A tick
/// right after resuming at `t3` observes exactly what a tick at the pause
/// moment `t2` observed, because the pause interval `t3 - t2` is excluded
/// from the elapsed time; against an earlier tick at `t1` the difference
/// is exactly the delay `t2 - t1` between that tick and the pause.
pub proof fn lemma_pause_resume_preserves_time_left(
    practice_time: int,
    skill_start: int,
    paused_for: int,
    t1: int,
    t2: int,
    t3: int,
)
    requires
        t1 <= t2 <= t3,
    ensures
        time_left_at(practice_time, skill_start, paused_for + (t3 - t2), t3) == time_left_at(
            practice_time,
            skill_start,
            paused_for,
            t2,
        ),
        time_left_at(practice_time, skill_start, paused_for, t2) == time_left_at(
            practice_time,
            skill_start,
            paused_for,
            t1,
        ) - (t2 - t1),
{
}

/// The observable progress of a planner's session: which skill is active,
/// whether a session is running at all, and how many history entries
/// exist. `advance_practice_session` follows `progress_step` on it.
pub ghost struct SessionProgress {
    pub skill_index: int,
    pub active: bool,
    pub history_len: int,
}

/// The progress a planner currently shows.
pub open spec fn progress_of(p: SchedulePlanner) -> SessionProgress {
    SessionProgress {
        skill_index: match p.practice_session {
            Some(s) => s.current_skill_index as int,
            None => 0,
        },
        active: p.practice_session is Some,
        history_len: p.history@.len() as int,
    }
}

/// One advance over a schedule of `n` skills: an active session moves to
/// the next skill, or, from the last skill, completes, recording one
/// history entry; an idle session is untouched.
pub open spec fn progress_step(s: SessionProgress, n: int) -> SessionProgress {
    if !s.active {
        s
    } else if s.skill_index + 1 < n {
        SessionProgress { skill_index: s.skill_index + 1, ..s }
    } else {
        SessionProgress { skill_index: 0, active: false, history_len: s.history_len + 1 }
    }
}

/// `k` advances in a row.
pub open spec fn progress_iter(s: SessionProgress, n: int, k: nat) -> SessionProgress
    decreases k,
{
    if k == 0 {
        s
    } else {
        progress_step(progress_iter(s, n, (k - 1) as nat), n)
    }
}

/// Law, first half: from a fresh session over `n` skills, `k <= n - 1`
/// advances reach skill `k`, having visited skills `0..k` in order, with
/// the session still active and the history untouched.
pub proof fn lemma_advance_reaches_each_skill(n: int, k: nat, h0: int)
    requires
        n >= 1,
        k <= n - 1,
    ensures
        progress_iter(
            SessionProgress { skill_index: 0, active: true, history_len: h0 },
            n,
            k,
        ) == (SessionProgress { skill_index: k as int, active: true, history_len: h0 }),
    decreases k,
{
    if k > 0 {
        lemma_advance_reaches_each_skill(n, (k - 1) as nat, h0);
    }
}

/// Law, second half: from a fresh session over `n` skills, `n - 1`
/// advances walk through every skill in schedule order, and the `n`-th
/// advance completes the session and appends exactly one history entry.
pub proof fn lemma_advance_completes_after_full_walk(n: int, h0: int)
    requires
        n >= 1,
    ensures
        progress_iter(
            SessionProgress { skill_index: 0, active: true, history_len: h0 },
            n,
            n as nat,
        ) == (SessionProgress { skill_index: 0, active: false, history_len: h0 + 1 }),
{
    lemma_advance_reaches_each_skill(n, (n - 1) as nat, h0);
}

impl SchedulePlanner {
    /// Completes today's practice: records the completed schedule into
    /// the history at `current_time`, clears the cached schedule so the
    /// next request recomputes it, and returns the planner to idle. Errs
    /// when no schedule is set.
    fn mark_todays_practice_completed(&mut self, current_time: i64) -> (r: Result<
        (),
        SchedulerError,
    >)
        requires
            old(self).wf(),
            valid_time(current_time),
        ensures
            final(self).wf(),
            match r {
                Ok(()) => {
                    &&& old(self).todays_schedule is Some
                    &&& final(self).config == old(self).config
                    &&& !final(self).practicing
                    &&& final(self).practice_session is None
                    &&& final(self).todays_schedule is None
                    &&& final(self).history@.len() == old(self).history@.len() + 1
                    &&& exists|p: int|
                        {
                            &&& 0 <= p <= old(self).history@.len()
                            &&& final(self).history@ == old(self).history@.insert(
                                p,
                                final(self).history@[p],
                            )
                            &&& final(self).history@[p].completed_at == current_time
                            &&& names_of(final(self).history@[p].skill_names@) == schedule_names(
                                old(self).todays_schedule->0@,
                            )
                        }
                },
                Err(e) => e == SchedulerError::ScheduleNotSet && old(self).todays_schedule is None
                    && *final(self) == *old(self),
            },
    {
        let names: Vec<String> = match &self.todays_schedule {
            None => {
                return Err(SchedulerError::ScheduleNotSet);
            },
            Some(v) => schedule_name_strings(v),
        };
        self.practicing = false;
        self.practice_session = None;
        let entry = HistoryEntry { completed_at: current_time, skill_names: names };
        let ghost gentry = entry;
        record_entry(&mut self.history, entry);
        self.todays_schedule = None;
        proof {
            let p = choose|p: int|
                {
                    &&& 0 <= p <= old(self).history@.len()
                    &&& self.history@ == old(self).history@.insert(p, gentry)
                    &&& (forall|k: int|
                        0 <= k < p ==> (#[trigger] old(self).history@[k]).completed_at
                            <= gentry.completed_at)
                    &&& (forall|k: int|
                        p <= k < old(self).history@.len() ==> (
                        #[trigger] old(self).history@[k]).completed_at > gentry.completed_at)
                };
            assert(self.history@[p] == gentry);
        }
        Ok(())
    }

    /// Advances the session to its next skill, or completes it from the
    /// last one: the completed schedule is recorded into the history and
    /// the planner returns to idle. Errs when no session is active. The
    /// planner's observable progress follows `progress_step`.
    pub fn advance_practice_session(&mut self, current_time: i64) -> (r: Result<
        (),
        SchedulerError,
    >)
        requires
            old(self).wf(),
            valid_time(current_time),
        ensures
            final(self).wf(),
            match r {
                Err(e) => e == SchedulerError::NoActiveSession && old(self).practice_session
                    is None && *final(self) == *old(self),
                Ok(()) => {
                    &&& old(self).practice_session matches Some(s)
                    &&& progress_of(*final(self)) == progress_step(
                        progress_of(*old(self)),
                        s.schedule@.len() as int,
                    )
                    &&& final(self).config == old(self).config
                    &&& if (s.current_skill_index as int) + 1 < s.schedule@.len() {
                        &&& final(self).history == old(self).history
                        &&& final(self).todays_schedule == old(self).todays_schedule
                        &&& final(self).practicing == old(self).practicing
                        &&& (final(self).practice_session matches Some(s2) && s2
                            == (PracticeSession {
                            current_skill_index: (s.current_skill_index + 1) as usize,
                            skill_start_time: current_time,
                            accumulated_pause: 0,
                            paused: false,
                            pause_started: None,
                            current_exercise: Some(0usize),
                            ..s
                        }))
                    } else {
                        &&& !final(self).practicing
                        &&& final(self).practice_session is None
                        &&& final(self).todays_schedule is None
                        &&& final(self).history@.len() == old(self).history@.len() + 1
                        &&& exists|p: int|
                            {
                                &&& 0 <= p <= old(self).history@.len()
                                &&& final(self).history@ == old(self).history@.insert(
                                    p,
                                    final(self).history@[p],
                                )
                                &&& final(self).history@[p].completed_at == current_time
                                &&& names_of(final(self).history@[p].skill_names@)
                                    == schedule_names(old(self).todays_schedule->0@)
                            }
                    }
                },
            },
    {
        let (idx, n) = match &self.practice_session {
            None => {
                return Err(SchedulerError::NoActiveSession);
            },
            Some(s) => (s.current_skill_index, s.schedule.len()),
        };
        if idx + 1 >= n {
            // The session just finished its last skill.
            let res = self.mark_todays_practice_completed(current_time);
            match res {
                Ok(()) => Ok(()),
                Err(e) => {
                    proof {
                        assert(false);
                    }
                    Err(e)
                },
            }
        } else {
            let mut s = self.practice_session.take().unwrap();
            let res = s.set_current_skill_idx(idx + 1, current_time);
            match res {
                Ok(()) => {},
                Err(_) => {
                    proof {
                        assert(false);
                    }
                },
            }
            self.practice_session = Some(s);
            Ok(())
        }
    }

    /// Resets the session's displayed exercise to the first exercise of
    /// the active skill. Errs when no session is active.
    pub fn start_skill(&mut self) -> (r: Result<(), SchedulerError>)
        requires
            old(self).wf(),
        ensures
            final(self).wf(),
            match r {
                Err(e) => e == SchedulerError::NoActiveSession && old(self).practice_session
                    is None && *final(self) == *old(self),
                Ok(()) => {
                    &&& old(self).practice_session matches Some(s)
                    &&& final(self).practice_session matches Some(s2) && s2 == (PracticeSession {
                        current_exercise: Some(0usize),
                        ..s
                    })
                    &&& final(self).config == old(self).config
                    &&& final(self).history == old(self).history
                    &&& final(self).todays_schedule == old(self).todays_schedule
                    &&& final(self).practicing == old(self).practicing
                },
            },
    {
        if self.practice_session.is_none() {
            return Err(SchedulerError::NoActiveSession);
        }
        let mut s = self.practice_session.take().unwrap();
        s.current_exercise = None;
        s.next_exercise();
        self.practice_session = Some(s);
        Ok(())
    }

    /// Stops the session without recording anything: the planner returns
    /// to idle and today's schedule stays cached. Errs when not
    /// practicing.
    pub fn stop_practicing(&mut self) -> (r: Result<(), SchedulerError>)
        requires
            old(self).wf(),
        ensures
            final(self).wf(),
            match r {
                Err(e) => e == SchedulerError::NoActiveSession && !old(self).practicing
                    && *final(self) == *old(self),
                Ok(()) => {
                    &&& old(self).practicing
                    &&& !final(self).practicing
                    &&& final(self).practice_session is None
                    &&& final(self).config == old(self).config
                    &&& final(self).history == old(self).history
                    &&& final(self).todays_schedule == old(self).todays_schedule
                },
            },
    {
        if !self.practicing {
            return Err(SchedulerError::NoActiveSession);
        }
        self.practicing = false;
        self.practice_session = None;
        Ok(())
    }

    /// Starts today's practice session: computes the schedule if none is
    /// cached, snapshots it, and begins timing its first skill at
    /// `current_time` with the full practice duration on the clock. Errs
    /// when a session is already active, when the schedule is or would be
    /// empty, or when the lookback window is not representable.
    pub fn start_daily_practice(
        &mut self,
        current_time: i64,
        rng: &mut rand::rngs::StdRng,
    ) -> (r: Result<(), SchedulerError>)
        requires
            old(self).wf(),
            valid_time(current_time),
        ensures
            final(self).wf(),
            r is Err ==> *final(self) == *old(self),
            (r == Err::<(), SchedulerError>(SchedulerError::SessionAlreadyActive)) <==> old(
                self,
            ).practicing,
            (r == Err::<(), SchedulerError>(SchedulerError::MissingSkills)) <==> (!old(
                self,
            ).practicing && (match old(self).todays_schedule {
                Some(v) => v@.len() == 0,
                None => old(self).config.skills_per_day == 0 || old(self).config.skills@.len()
                    == 0,
            })),
            (r == Err::<(), SchedulerError>(SchedulerError::InvalidLookback)) <==> (!old(
                self,
            ).practicing && old(self).todays_schedule is None && old(
                self,
            ).config.skills_per_day > 0 && old(self).config.skills@.len() > 0
                && !lookback_representable(old(self).config.skill_repeat_days)),
            r is Err ==> (r == Err::<(), SchedulerError>(SchedulerError::SessionAlreadyActive) || r
                == Err::<(), SchedulerError>(SchedulerError::MissingSkills) || r == Err::<
                (),
                SchedulerError,
            >(SchedulerError::InvalidLookback)),
            r is Ok ==> {
                &&& final(self).practicing
                &&& final(self).config == old(self).config
                &&& final(self).history == old(self).history
                &&& progress_of(*final(self)) == (SessionProgress {
                    skill_index: 0,
                    active: true,
                    history_len: old(self).history@.len() as int,
                })
                &&& (match old(self).todays_schedule {
                    Some(v) => final(self).todays_schedule == old(self).todays_schedule,
                    None => final(self).todays_schedule matches Some(v) && drawn_from_config(
                        old(self).config,
                        v@,
                    ),
                })
                &&& (final(self).todays_schedule matches Some(v) && v@.len() >= 1)
                &&& (final(self).practice_session matches Some(sess) && {
                    &&& sess.schedule@.len() == final(self).todays_schedule->0@.len()
                    &&& (forall|k: int|
                        0 <= k < sess.schedule@.len() ==> (#[trigger] sess.schedule@[k])@
                            == final(self).todays_schedule->0@[k]@)
                    &&& sess.current_skill_index == 0
                    &&& sess.current_exercise == Some(0usize)
                    &&& sess.time_left == old(self).config.skill_practice_time
                    &&& sess.start_time == current_time
                    &&& sess.skill_start_time == current_time
                    &&& sess.accumulated_pause == 0
                    &&& !sess.paused
                })
            },
    {
        if self.practicing {
            return Err(SchedulerError::SessionAlreadyActive);
        }
        let schedule_would_be_empty: bool = match &self.todays_schedule {
            Some(v) => v.len() == 0,
            None => self.config.skills_per_day == 0 || self.config.skills.len() == 0,
        };
        if schedule_would_be_empty {
            return Err(SchedulerError::MissingSkills);
        }
        let res = self.update_todays_schedule(false, current_time, rng);
        match res {
            Ok(()) => {},
            Err(e) => {
                return Err(e);
            },
        }
        let sched: Vec<PracticeSkill> = match &self.todays_schedule {
            Some(v) => clone_skills(v),
            None => {
                proof {
                    assert(false);
                }
                Vec::new()
            },
        };
        let mut session = PracticeSession::new(sched, current_time);
        session.next_exercise();
        session.set_time_left(self.config.skill_practice_time);
        self.practice_session = Some(session);
        self.practicing = true;
        Ok(())
    }
}

impl SchedulePlanner {
    /// Pauses the session at `current_time`: while paused, ticks are
    /// ignored, and the pause's start is remembered so that `resume` can
    /// exclude the paused interval from the elapsed time. Errs when no
    /// session is active or it is already paused.
    pub fn pause_practicing(&mut self, current_time: i64) -> (r: Result<(), SchedulerError>)
        requires
            old(self).wf(),
            valid_time(current_time),
            old(self).practice_session matches Some(s) ==> (!s.paused ==> current_time
                >= s.skill_start_time + s.accumulated_pause),
        ensures
            final(self).wf(),
            r is Err ==> *final(self) == *old(self),
            (r == Err::<(), SchedulerError>(SchedulerError::NoActiveSession)) <==> old(
                self,
            ).practice_session is None,
            (r == Err::<(), SchedulerError>(SchedulerError::AlreadyPaused)) <==> (old(
                self,
            ).practice_session matches Some(s) && s.paused),
            r is Err ==> (r == Err::<(), SchedulerError>(SchedulerError::NoActiveSession) || r
                == Err::<(), SchedulerError>(SchedulerError::AlreadyPaused)),
            r is Ok ==> {
                &&& old(self).practice_session matches Some(s)
                &&& !s.paused
                &&& (final(self).practice_session matches Some(s2) && s2 == (PracticeSession {
                    paused: true,
                    pause_started: Some(current_time),
                    ..s
                }))
                &&& final(self).config == old(self).config
                &&& final(self).history == old(self).history
                &&& final(self).todays_schedule == old(self).todays_schedule
                &&& final(self).practicing == old(self).practicing
            },
    {
        match &self.practice_session {
            None => {
                return Err(SchedulerError::NoActiveSession);
            },
            Some(s) => {
                if s.paused {
                    return Err(SchedulerError::AlreadyPaused);
                }
            },
        }
        let mut s = self.practice_session.take().unwrap();
        s.paused = true;
        s.pause_started = Some(current_time);
        self.practice_session = Some(s);
        Ok(())
    }

    /// Resumes a paused session at `current_time`: the interval spent
    /// paused is added to the session's accumulated pause, so the next
    /// tick excludes it from the elapsed time. Errs when no session is
    /// active or it is not paused.
    pub fn resume_practicing(&mut self, current_time: i64) -> (r: Result<(), SchedulerError>)
        requires
            old(self).wf(),
            valid_time(current_time),
            old(self).practice_session matches Some(s) ==> (s.pause_started matches Some(ps)
                ==> current_time >= ps),
        ensures
            final(self).wf(),
            r is Err ==> *final(self) == *old(self),
            (r == Err::<(), SchedulerError>(SchedulerError::NoActiveSession)) <==> old(
                self,
            ).practice_session is None,
            (r == Err::<(), SchedulerError>(SchedulerError::NotPaused)) <==> (old(
                self,
            ).practice_session matches Some(s) && !s.paused),
            r is Err ==> (r == Err::<(), SchedulerError>(SchedulerError::NoActiveSession) || r
                == Err::<(), SchedulerError>(SchedulerError::NotPaused)),
            r is Ok ==> {
                &&& old(self).practice_session matches Some(s)
                &&& s.paused
                &&& s.pause_started matches Some(ps)
                &&& (final(self).practice_session matches Some(s2) && s2.accumulated_pause
                    == s.accumulated_pause + (current_time - ps) && s2 == (PracticeSession {
                    paused: false,
                    pause_started: None,
                    accumulated_pause: s2.accumulated_pause,
                    ..s
                }))
                &&& final(self).config == old(self).config
                &&& final(self).history == old(self).history
                &&& final(self).todays_schedule == old(self).todays_schedule
                &&& final(self).practicing == old(self).practicing
            },
    {
        match &self.practice_session {
            None => {
                return Err(SchedulerError::NoActiveSession);
            },
            Some(s) => {
                if !s.paused {
                    return Err(SchedulerError::NotPaused);
                }
            },
        }
        let mut s = self.practice_session.take().unwrap();
        let ps: i64 = match s.pause_started {
            Some(t) => t,
            None => {
                proof {
                    assert(false);
                }
                0
            },
        };
        s.accumulated_pause = s.accumulated_pause + (current_time - ps);
        s.paused = false;
        s.pause_started = None;
        self.practice_session = Some(s);
        Ok(())
    }

    /// One tick of the external timer at `current_time`: recomputes the
    /// remaining time of the active skill, excluding paused intervals,
    /// and stores it for observation; when the time is up it advances the
    /// session, so that the next tick sees a fresh skill start and the
    /// full duration again. A paused session ignores ticks entirely. Errs
    /// when no session is active.
    pub fn tick(&mut self, current_time: i64) -> (r: Result<(), SchedulerError>)
        requires
            old(self).wf(),
            valid_time(current_time),
        ensures
            final(self).wf(),
            match r {
                Err(e) => e == SchedulerError::NoActiveSession && old(self).practice_session
                    is None && *final(self) == *old(self),
                Ok(()) => {
                    &&& old(self).practice_session matches Some(s)
                    &&& (s.paused ==> *final(self) == *old(self))
                    &&& (!s.paused ==> {
                        let rem = time_left_at(
                            old(self).config.skill_practice_time as int,
                            s.skill_start_time as int,
                            s.accumulated_pause as int,
                            current_time as int,
                        );
                        if rem > 0 {
                            &&& (final(self).practice_session matches Some(s2) && s2.time_left
                                == rem && s2 == (PracticeSession {
                                time_left: s2.time_left,
                                ..s
                            }))
                            &&& final(self).config == old(self).config
                            &&& final(self).history == old(self).history
                            &&& final(self).todays_schedule == old(self).todays_schedule
                            &&& final(self).practicing == old(self).practicing
                        } else if (s.current_skill_index as int) + 1 < s.schedule@.len() {
                            &&& (final(self).practice_session matches Some(s2) && s2
                                == (PracticeSession {
                                current_skill_index: (s.current_skill_index + 1) as usize,
                                skill_start_time: current_time,
                                accumulated_pause: 0,
                                paused: false,
                                pause_started: None,
                                current_exercise: Some(0usize),
                                time_left: old(self).config.skill_practice_time,
                                ..s
                            }))
                            &&& final(self).config == old(self).config
                            &&& final(self).history == old(self).history
                            &&& final(self).todays_schedule == old(self).todays_schedule
                            &&& final(self).practicing == old(self).practicing
                        } else {
                            &&& !final(self).practicing
                            &&& final(self).practice_session is None
                            &&& final(self).todays_schedule is None
                            &&& final(self).config == old(self).config
                            &&& final(self).history@.len() == old(self).history@.len() + 1
                            &&& exists|p: int|
                                {
                                    &&& 0 <= p <= old(self).history@.len()
                                    &&& final(self).history@ == old(self).history@.insert(
                                        p,
                                        final(self).history@[p],
                                    )
                                    &&& final(self).history@[p].completed_at == current_time
                                    &&& names_of(final(self).history@[p].skill_names@)
                                        == schedule_names(old(self).todays_schedule->0@)
                                }
                        }
                    })
                },
            },
    {
        let (paused, sst, acc, idx, n) = match &self.practice_session {
            None => {
                return Err(SchedulerError::NoActiveSession);
            },
            Some(s) => (
                s.paused,
                s.skill_start_time,
                s.accumulated_pause,
                s.current_skill_index,
                s.schedule.len(),
            ),
        };
        if paused {
            // The pause flag is the authoritative gate: a tick that still
            // arrives while paused changes nothing.
            return Ok(());
        }
        let d = self.config.skill_practice_time;
        let rem: i64 = d - (current_time - sst - acc);
        if rem > 0 {
            let mut s = self.practice_session.take().unwrap();
            s.set_time_left(rem);
            self.practice_session = Some(s);
            Ok(())
        } else {
            let res = self.advance_practice_session(current_time);
            match res {
                Ok(()) => {},
                Err(_) => {
                    proof {
                        assert(false);
                    }
                },
            }
            if self.practice_session.is_some() {
                let mut s = self.practice_session.take().unwrap();
                s.set_time_left(d);
                self.practice_session = Some(s);
            }
            Ok(())
        }
    }
}

/// Clones the names of a schedule's skills, in order.
fn schedule_name_strings(v: &Vec<PracticeSkill>) -> (r: Vec<String>)
    ensures
        names_of(r@) == schedule_names(v@),
{
    let mut out: Vec<String> = Vec::new();
    let mut i: usize = 0;
    while i < v.len()
        invariant
            i <= v@.len(),
            out@.len() == i,
            forall|k: int| 0 <= k < i ==> (#[trigger] out@[k])@ == v@[k]@.name,
        decreases v@.len() - i,
    {
        out.push(v[i].skill_name.clone());
        i = i + 1;
    }
    proof {
        assert(names_of(out@) =~= schedule_names(v@));
    }
    out
}

/// The default skill set: the built-in practice categories, in their
/// fixed order, each seeded with starter exercises.
fn default_skills() -> (r: Vec<PracticeSkill>)
    ensures
        r@.len() == 11,
        forall|i: int| 0 <= i < r@.len() ==> (#[trigger] r@[i]).wf(),
        forall|i: int, j: int| 0 <= i < j < r@.len() ==> r@[i]@.name != r@[j]@.name,
        r@[0]@.name == "Ear Training"@,
        r@[1]@.name == "Left Hand Exercises"@,
        r@[2]@.name == "Alternate Picking Exercises"@,
        r@[3]@.name == "Chords"@,
        r@[4]@.name == "Scales"@,
        r@[5]@.name == "Sight Reading"@,
        r@[6]@.name == "Music Theory"@,
        r@[7]@.name == "Improvisation"@,
        r@[8]@.name == "Songwriting"@,
        r@[9]@.name == "Rhythm"@,
        r@[10]@.name == "Learn A Song"@,
{
    let mut skills: Vec<PracticeSkill> = Vec::new();

    let mut ear_exercises: Vec<PracticeExercise> = Vec::new();
    ear_exercises.push(PracticeExercise::new("Exercise 1".to_owned(), "# Ear Training Exercises
## Exercise #1

Perform one of the exercises from [Justinguitar](https://www.justinguitar.com/guitar-lessons/justin-ear-training-exercises-s1-bc-118).

".to_owned()));
    ear_exercises.push(PracticeExercise::new("Exercise 2".to_owned(), "# Ear Training Exercises
## Exercise #2

Play random two-note dyads and try to identify the intervals by sound.

".to_owned()));
    skills.push(PracticeSkill::new("Ear Training".to_owned(), ear_exercises));

    skills.push(default_skill("Left Hand Exercises", "# Left Hand Exercises
## Exercise #1

Practice the following pattern starting at every fret from 1 to 12, starting at a lower tempo with equal note durations.

Either alternate pick or use all downstrokes.

<div class=\"vextab-auto\" width=\"680\" scale=\"1.0\" show_errors=\"true\" editor=\"false\">options space=20
tab-stems=true tab-stem-direction=up
tabstave notation=false time=4/4

notes :8 1-2-3-4/6 1-2-3-4/5 | 1-2-3-4/4 1-2-3-4/3 | 1-2-3-4/2 1-2-3-4/1 |
tabstave notation=false time=4/4
notes :8 1-2-3-4/2 1-2-3-4/3 | 1-2-3-4/4 1-2-3-4/5 | 1-2-3-4/6 :h ## =|=

options space=25
</div>
"));
    skills.push(default_skill("Alternate Picking Exercises", "# Alternate Picking Exercises
## Exercise #1

Practice the following pattern starting at every fret from 1 to 12, starting at a lower tempo with equal note durations.

Use alternate picking. Try starting with either an upstroke or downstroke.

<div class=\"vextab-auto\" width=\"680\" scale=\"1.0\" show_errors=\"true\" editor=\"false\">options space=20
tab-stems=true tab-stem-direction=up
tabstave notation=false time=4/4

notes :8 1/6 2/5 3/6 4/5 1/5 2/4 3/5 4/4 | 1/4 2/3 3/4 4/3 1/3 2/2 3/3 4/2 | 1/2 2/1 3/2 4/1 1/1 2/2 3/1 4/2 |
tabstave notation=false time=4/4
notes :8 1/2 2/3 3/2 4/3 1/3 2/4 3/3 4/4 | 1/4 2/5 3/4 4/5 1/5 2/6 3/5 4/6 =|=

options space=25
</div>
```
```

"));
    skills.push(default_skill("Chords", "# Chord Exercises
## Exercise #1

Play every major chord from A to G in root position, and then every minor chord.

Move up to the next position and repeat.

"));
    skills.push(default_skill("Scales", "# Scale Exercises
## Exercise #1

Play a scale to a metronome in different positions. Increase the tempo after you've played the scale perfectly four times.

"));
    skills.push(default_skill("Sight Reading", "# Sight Reading Exercises
## Exercise #1

Play the following passage:


<div class=\"vextab-auto\" width=\"680\" scale=\"1.0\" show_errors=\"true\" editor=\"false\">options space=20
tabstave notation=true time=4/4 tablature=false

notes :8 1-2-3-4/6 1-2-3-4/5 | 1-2-3-4/4 1-2-3-4/3 | 1-2-3-4/2 1-2-3-4/1 |
tabstave notation=true time=4/4 tablature=false
notes :8 1-2-3-4/2 1-2-3-4/3 | 1-2-3-4/4 1-2-3-4/5 | 1-2-3-4/6 :h ## =|=

options space=25
</div>
"));
    skills.push(default_skill("Music Theory", "# Music Theory Exercises
## Exercise #1

For every note A to G, play the note and then the relative minor.

"));
    skills.push(default_skill("Improvisation", "# Improvisation Exercises
## Exercise #1

Play along to a backing track.

"));
    skills.push(default_skill("Songwriting", "# Songwriting Exercises
## Exercise #1

Work on a song.

Maybe you could write about your song here.

"));
    skills.push(default_skill("Rhythm", "# Rhythm Exercises
## Exercise #1

Play an open string along to a metronome at a slow tempo.

Alternate playing whole measures as quarter notes and eighth notes.

"));
    skills.push(default_skill("Learn A Song", "# Learn A Song
## Exercise #1

Work on learning that song you wanted to play.

You can embed videos here, for example:

<iframe width=\"560\" height=\"315\" src=\"https://www.youtube.com/embed/Z4z4hc5gg60\" title=\"YouTube video player\" frameborder=\"0\" allow=\"accelerometer; autoplay; clipboard-write; encrypted-media; gyroscope; picture-in-picture\" allowfullscreen></iframe>

"));
    proof {
        reveal_strlit("Ear Training");
        reveal_strlit("Left Hand Exercises");
        reveal_strlit("Alternate Picking Exercises");
        reveal_strlit("Chords");
        reveal_strlit("Scales");
        reveal_strlit("Sight Reading");
        reveal_strlit("Music Theory");
        reveal_strlit("Improvisation");
        reveal_strlit("Songwriting");
        reveal_strlit("Rhythm");
        reveal_strlit("Learn A Song");
        assert(skills@.len() == 11);
        assert(skills@[0]@.name == "Ear Training"@);
        assert(skills@[1]@.name == "Left Hand Exercises"@);
        assert(skills@[2]@.name == "Alternate Picking Exercises"@);
        assert(skills@[3]@.name == "Chords"@);
        assert(skills@[4]@.name == "Scales"@);
        assert(skills@[5]@.name == "Sight Reading"@);
        assert(skills@[6]@.name == "Music Theory"@);
        assert(skills@[7]@.name == "Improvisation"@);
        assert(skills@[8]@.name == "Songwriting"@);
        assert(skills@[9]@.name == "Rhythm"@);
        assert(skills@[10]@.name == "Learn A Song"@);
        assert("Ear Training"@.len() == 12);
        assert("Left Hand Exercises"@.len() == 19);
        assert("Alternate Picking Exercises"@.len() == 27);
        assert("Chords"@.len() == 6);
        assert("Scales"@.len() == 6);
        assert("Sight Reading"@.len() == 13);
        assert("Music Theory"@.len() == 12);
        assert("Improvisation"@.len() == 13);
        assert("Songwriting"@.len() == 11);
        assert("Rhythm"@.len() == 6);
        assert("Learn A Song"@.len() == 12);
        assert("Chords"@[0] != "Scales"@[0]);
        assert("Chords"@[0] != "Rhythm"@[0]);
        assert("Scales"@[0] != "Rhythm"@[0]);
        assert("Ear Training"@[0] != "Music Theory"@[0]);
        assert("Ear Training"@[0] != "Learn A Song"@[0]);
        assert("Music Theory"@[0] != "Learn A Song"@[0]);
        assert("Sight Reading"@[0] != "Improvisation"@[0]);
    }
    skills
}

/// Builds one default skill holding a single exercise.
fn default_skill(name: &str, exercise_text: &str) -> (r: PracticeSkill)
    ensures
        r.wf(),
        r@.name == name@,
{
    let exercise = PracticeExercise::new("Exercise 1".to_owned(), exercise_text.to_owned());
    let mut exercises: Vec<PracticeExercise> = Vec::new();
    exercises.push(exercise);
    PracticeSkill::new(name.to_owned(), exercises)
}

} // verus!
