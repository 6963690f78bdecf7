use practice_planner::schedule::compute_weights;
use practice_planner::{
    DaySkills, PlannerConfiguration, PracticeExercise, PracticeSkill, SchedulePlanner,
    SchedulerError,
};

use rand::rngs::StdRng;
use rand::SeedableRng;

const DAY: i64 = 86400;

fn skill(name: &str) -> PracticeSkill {
    PracticeSkill {
        skill_name: name.to_string(),
        exercises: vec![PracticeExercise {
            exercise_name: "Exercise 1".to_string(),
            exercise_markdown_contents: format!("# {}\nPractice it.", name),
        }],
    }
}

fn skill_with_exercises(name: &str, count: usize) -> PracticeSkill {
    let exercises = (0..count)
        .map(|i| PracticeExercise {
            exercise_name: format!("Exercise {}", i + 1),
            exercise_markdown_contents: format!("Step {}", i + 1),
        })
        .collect();
    PracticeSkill { skill_name: name.to_string(), exercises }
}

fn planner(names: &[&str], skills_per_day: usize, repeat_days: usize) -> SchedulePlanner {
    SchedulePlanner {
        config: PlannerConfiguration {
            skill_practice_time: 900,
            skill_repeat_days: repeat_days,
            skills_per_day,
            skills: names.iter().map(|n| skill(n)).collect(),
        },
        history: Vec::new(),
        todays_schedule: None,
        practicing: false,
        practice_session: None,
    }
}

fn rng(seed: u64) -> StdRng {
    StdRng::seed_from_u64(seed)
}

// A plausible "now": many days past the epoch, mid-day.
const NOW: i64 = 20_000 * DAY + 3600;

#[test]
fn schedule_has_exactly_skills_per_day_distinct_skills() {
    for seed in 0..10u64 {
        let mut p = planner(&["A", "B", "C", "D", "E", "F"], 4, 2);
        let mut r = rng(seed);
        p.update_todays_schedule(false, NOW, &mut r).unwrap();
        let sched = p.get_todays_schedule().unwrap();
        assert_eq!(sched.len(), 4);
        for s in sched.iter() {
            assert!(["A", "B", "C", "D", "E", "F"].contains(&s.skill_name.as_str()));
        }
        for i in 0..sched.len() {
            for j in i + 1..sched.len() {
                assert_ne!(sched[i].skill_name, sched[j].skill_name);
            }
        }
    }
}

#[test]
fn schedule_truncates_when_skills_per_day_exceeds_skills() {
    let mut p = planner(&["A", "B"], 5, 2);
    let mut r = rng(7);
    p.update_todays_schedule(false, NOW, &mut r).unwrap();
    let sched = p.get_todays_schedule().unwrap();
    assert_eq!(sched.len(), 2);
}

#[test]
fn unseen_skill_always_wins_the_draw_when_others_have_zero_weight() {
    // All skills but D were practiced yesterday, the only day in the
    // two-day window, so their weight is the bandwidth scaled by day
    // index 0: zero. D is absent from the window and gets the maximum
    // weight of 100, so a draw of one skill picks D whatever the seed.
    for seed in 0..20u64 {
        let mut p = planner(&["A", "B", "C", "D", "E"], 1, 2);
        p.history.push(practice_planner::HistoryEntry {
            completed_at: NOW - DAY,
            skill_names: vec![
                "A".to_string(),
                "B".to_string(),
                "C".to_string(),
                "E".to_string(),
            ],
        });
        let mut r = rng(seed);
        p.update_todays_schedule(false, NOW, &mut r).unwrap();
        let sched = p.get_todays_schedule().unwrap();
        assert_eq!(sched.len(), 1);
        assert_eq!(sched[0].skill_name, "D");
    }
}

#[test]
fn schedule_is_idempotent_without_forced_refresh() {
    let mut p = planner(&["A", "B", "C", "D", "E"], 3, 2);
    let mut r = rng(11);
    p.update_todays_schedule(false, NOW, &mut r).unwrap();
    let first: Vec<String> = p
        .get_todays_schedule()
        .unwrap()
        .iter()
        .map(|s| s.skill_name.clone())
        .collect();
    // A second call without force and a different generator state must
    // leave the cached schedule untouched.
    let mut r2 = rng(999);
    p.update_todays_schedule(false, NOW + 50, &mut r2).unwrap();
    let second: Vec<String> = p
        .get_todays_schedule()
        .unwrap()
        .iter()
        .map(|s| s.skill_name.clone())
        .collect();
    assert_eq!(first, second);
}

#[test]
fn forced_refresh_redraws_the_schedule() {
    let mut p = planner(&["A", "B", "C", "D", "E"], 2, 2);
    let mut r = rng(3);
    p.update_todays_schedule(false, NOW, &mut r).unwrap();
    assert!(p.get_todays_schedule().is_some());
    p.update_todays_schedule(true, NOW, &mut r).unwrap();
    let sched = p.get_todays_schedule().unwrap();
    assert_eq!(sched.len(), 2);
}

#[test]
fn same_seed_draws_the_same_schedule() {
    let mut p1 = planner(&["A", "B", "C", "D", "E"], 4, 2);
    let mut p2 = planner(&["A", "B", "C", "D", "E"], 4, 2);
    let mut r1 = rng(42);
    let mut r2 = rng(42);
    p1.update_todays_schedule(false, NOW, &mut r1).unwrap();
    p2.update_todays_schedule(false, NOW, &mut r2).unwrap();
    let n1: Vec<String> = p1
        .get_todays_schedule()
        .unwrap()
        .iter()
        .map(|s| s.skill_name.clone())
        .collect();
    let n2: Vec<String> = p2
        .get_todays_schedule()
        .unwrap()
        .iter()
        .map(|s| s.skill_name.clone())
        .collect();
    assert_eq!(n1, n2);
}

#[test]
fn empty_history_draws_from_all_skills_uniformly_weighted() {
    // Five skills, four per day, empty history: all weights are 100, and
    // the schedule holds four distinct of the five. Which one is left
    // out varies only with the seed.
    let mut excluded = std::collections::HashSet::new();
    for seed in 0..30u64 {
        let mut p = planner(&["A", "B", "C", "D", "E"], 4, 2);
        let mut r = rng(seed);
        p.update_todays_schedule(false, NOW, &mut r).unwrap();
        let names: Vec<String> = p
            .get_todays_schedule()
            .unwrap()
            .iter()
            .map(|s| s.skill_name.clone())
            .collect();
        assert_eq!(names.len(), 4);
        for n in ["A", "B", "C", "D", "E"] {
            if !names.contains(&n.to_string()) {
                excluded.insert(n.to_string());
            }
        }
    }
    // Over thirty seeds more than one skill ends up excluded at least
    // once; the draw is not a fixed choice.
    assert!(excluded.len() > 1);
}

#[test]
fn empty_skill_set_is_a_configuration_error() {
    let mut p = planner(&[], 4, 2);
    let mut r = rng(0);
    assert_eq!(
        p.update_todays_schedule(false, NOW, &mut r),
        Err(SchedulerError::MissingSkills)
    );
}

#[test]
fn oversized_lookback_window_is_an_error() {
    let p = planner(&["A"], 1, 2);
    let r = p.get_history_n_days_back(usize::MAX, NOW);
    assert!(matches!(r, Err(SchedulerError::InvalidLookback)));
}

#[test]
fn advancing_walks_the_schedule_in_order_then_completes() {
    let mut p = planner(&["A", "B", "C"], 3, 2);
    let mut r = rng(5);
    p.start_daily_practice(NOW, &mut r).unwrap();
    let n = p.practice_session.as_ref().unwrap().schedule.len();
    assert_eq!(n, 3);
    let scheduled: Vec<String> = p
        .get_todays_schedule()
        .unwrap()
        .iter()
        .map(|s| s.skill_name.clone())
        .collect();
    assert_eq!(p.practice_session.as_ref().unwrap().current_skill_index, 0);
    for step in 1..n {
        p.advance_practice_session(NOW + step as i64 * 60).unwrap();
        let sess = p.practice_session.as_ref().unwrap();
        assert_eq!(sess.current_skill_index, step);
        assert!(p.practicing);
    }
    assert_eq!(p.history.len(), 0);
    // One more advance completes the session.
    p.advance_practice_session(NOW + 3 * 60).unwrap();
    assert!(!p.practicing);
    assert!(p.practice_session.is_none());
    assert!(p.get_todays_schedule().is_none());
    assert_eq!(p.history.len(), 1);
    assert_eq!(p.history[0].completed_at, NOW + 3 * 60);
    assert_eq!(p.history[0].skill_names, scheduled);
}

#[test]
fn session_operations_while_idle_are_errors() {
    let mut p = planner(&["A"], 1, 2);
    assert_eq!(
        p.advance_practice_session(NOW),
        Err(SchedulerError::NoActiveSession)
    );
    assert_eq!(p.tick(NOW), Err(SchedulerError::NoActiveSession));
    assert_eq!(p.stop_practicing(), Err(SchedulerError::NoActiveSession));
    assert_eq!(
        p.pause_practicing(NOW),
        Err(SchedulerError::NoActiveSession)
    );
    assert_eq!(
        p.resume_practicing(NOW),
        Err(SchedulerError::NoActiveSession)
    );
    assert_eq!(p.start_skill(), Err(SchedulerError::NoActiveSession));
}

#[test]
fn starting_twice_is_an_error() {
    let mut p = planner(&["A", "B"], 2, 2);
    let mut r = rng(1);
    p.start_daily_practice(NOW, &mut r).unwrap();
    assert_eq!(
        p.start_daily_practice(NOW + 1, &mut r),
        Err(SchedulerError::SessionAlreadyActive)
    );
}

#[test]
fn stopping_discards_the_session_but_keeps_the_schedule() {
    let mut p = planner(&["A", "B"], 2, 2);
    let mut r = rng(1);
    p.start_daily_practice(NOW, &mut r).unwrap();
    p.stop_practicing().unwrap();
    assert!(!p.practicing);
    assert!(p.practice_session.is_none());
    assert!(p.get_todays_schedule().is_some());
    assert_eq!(p.history.len(), 0);
}

#[test]
fn tick_counts_down_and_advances_on_expiry() {
    let mut p = planner(&["A", "B"], 2, 2);
    let mut r = rng(2);
    p.start_daily_practice(NOW, &mut r).unwrap();
    assert_eq!(p.practice_session.as_ref().unwrap().time_left, 900);
    p.tick(NOW + 10).unwrap();
    assert_eq!(p.practice_session.as_ref().unwrap().time_left, 890);
    // The full duration elapses: the session advances to the next skill
    // and the next tick sees a fresh start.
    p.tick(NOW + 900).unwrap();
    let sess = p.practice_session.as_ref().unwrap();
    assert_eq!(sess.current_skill_index, 1);
    assert_eq!(sess.skill_start_time, NOW + 900);
    assert_eq!(sess.time_left, 900);
    // A tick right after sees almost the full duration again: no double
    // advance from two ticks observing the same expiry.
    p.tick(NOW + 901).unwrap();
    let sess = p.practice_session.as_ref().unwrap();
    assert_eq!(sess.current_skill_index, 1);
    assert_eq!(sess.time_left, 899);
}

#[test]
fn pause_and_resume_do_not_change_time_left() {
    let mut p = planner(&["A", "B"], 2, 2);
    let mut r = rng(2);
    p.start_daily_practice(NOW, &mut r).unwrap();
    p.tick(NOW + 10).unwrap();
    let before = p.practice_session.as_ref().unwrap().time_left;
    assert_eq!(before, 890);
    p.pause_practicing(NOW + 10).unwrap();
    // A long real-world delay passes while paused; ticks are ignored.
    p.tick(NOW + 5000).unwrap();
    assert_eq!(p.practice_session.as_ref().unwrap().time_left, before);
    p.resume_practicing(NOW + 5000).unwrap();
    p.tick(NOW + 5000).unwrap();
    let after = p.practice_session.as_ref().unwrap().time_left;
    assert_eq!(after, before);
}

#[test]
fn pause_state_errors() {
    let mut p = planner(&["A", "B"], 2, 2);
    let mut r = rng(2);
    p.start_daily_practice(NOW, &mut r).unwrap();
    assert_eq!(p.resume_practicing(NOW + 1), Err(SchedulerError::NotPaused));
    p.pause_practicing(NOW + 1).unwrap();
    assert_eq!(
        p.pause_practicing(NOW + 2),
        Err(SchedulerError::AlreadyPaused)
    );
    p.resume_practicing(NOW + 3).unwrap();
    assert_eq!(p.resume_practicing(NOW + 4), Err(SchedulerError::NotPaused));
}

#[test]
fn exercise_navigation_is_clamped_at_both_ends() {
    let mut p = SchedulePlanner {
        config: PlannerConfiguration {
            skill_practice_time: 900,
            skill_repeat_days: 2,
            skills_per_day: 1,
            skills: vec![skill_with_exercises("A", 3)],
        },
        history: Vec::new(),
        todays_schedule: None,
        practicing: false,
        practice_session: None,
    };
    let mut r = rng(0);
    p.start_daily_practice(NOW, &mut r).unwrap();
    let sess = p.practice_session.as_mut().unwrap();
    assert_eq!(sess.current_exercise, Some(0));
    // Repeated retreats never move below the first exercise.
    for _ in 0..5 {
        sess.previous_exercise();
        assert_eq!(sess.current_exercise, Some(0));
    }
    sess.next_exercise();
    assert_eq!(sess.current_exercise, Some(1));
    // Repeated advances never move past the last exercise.
    for _ in 0..5 {
        sess.next_exercise();
        assert_eq!(sess.current_exercise, Some(2));
    }
    sess.previous_exercise();
    assert_eq!(sess.current_exercise, Some(1));
}

#[test]
fn set_current_skill_idx_rejects_out_of_range_indices() {
    let mut p = planner(&["A", "B"], 2, 2);
    let mut r = rng(2);
    p.start_daily_practice(NOW, &mut r).unwrap();
    let sess = p.practice_session.as_mut().unwrap();
    assert_eq!(
        sess.set_current_skill_idx(2, NOW + 1),
        Err(SchedulerError::InvalidSkillIndex)
    );
    assert_eq!(sess.current_skill_index, 0);
    assert_eq!(sess.set_current_skill_idx(1, NOW + 1), Ok(()));
    assert_eq!(sess.current_skill_index, 1);
    assert_eq!(sess.current_exercise, Some(0));
}

#[test]
fn start_skill_resets_to_the_first_exercise() {
    let mut p = SchedulePlanner {
        config: PlannerConfiguration {
            skill_practice_time: 900,
            skill_repeat_days: 2,
            skills_per_day: 1,
            skills: vec![skill_with_exercises("A", 3)],
        },
        history: Vec::new(),
        todays_schedule: None,
        practicing: false,
        practice_session: None,
    };
    let mut r = rng(0);
    p.start_daily_practice(NOW, &mut r).unwrap();
    p.practice_session.as_mut().unwrap().next_exercise();
    assert_eq!(
        p.practice_session.as_ref().unwrap().current_exercise,
        Some(1)
    );
    p.start_skill().unwrap();
    assert_eq!(
        p.practice_session.as_ref().unwrap().current_exercise,
        Some(0)
    );
}

#[test]
fn delete_skill_removes_by_name() {
    let mut p = planner(&["A", "B", "C"], 2, 2);
    let target = skill("B");
    p.delete_skill(&target).unwrap();
    let names: Vec<&str> = p
        .config
        .skills
        .iter()
        .map(|s| s.skill_name.as_str())
        .collect();
    assert_eq!(names, vec!["A", "C"]);
    // Deleting a skill that is not configured changes nothing.
    let missing = skill("Z");
    p.delete_skill(&missing).unwrap();
    assert_eq!(p.config.skills.len(), 2);
}

#[test]
fn default_planner_is_usable() {
    let mut p = SchedulePlanner::new();
    assert_eq!(p.config.skills_per_day, 4);
    assert_eq!(p.config.skill_repeat_days, 2);
    assert_eq!(p.config.skill_practice_time, 900);
    assert_eq!(p.config.skills.len(), 11);
    assert_eq!(p.days_of_history(), 0);
    let mut r = rng(8);
    p.update_todays_schedule(false, NOW, &mut r).unwrap();
    assert_eq!(p.get_todays_schedule().unwrap().len(), 4);
}

#[test]
fn weight_formula_matches_the_day_ordinal_scaling() {
    let skills = vec![skill("A"), skill("B")];
    // Two window days, repeat threshold two: the bandwidth is 50, and a
    // skill seen in the window weighs bandwidth times the last day's
    // index, 50 * 1; an unseen skill weighs the maximum, 100.
    let past = vec![
        DaySkills { day: 19_998, skill_names: vec!["A".to_string()] },
        DaySkills { day: 19_999, skill_names: vec!["A".to_string()] },
    ];
    assert_eq!(compute_weights(&skills, &past, 2), vec![50, 100]);
    // One window day: the last day's index is 0, so a seen skill weighs
    // nothing and competes only when too few weighted skills exist.
    let one_day = vec![DaySkills { day: 19_999, skill_names: vec!["A".to_string()] }];
    assert_eq!(compute_weights(&skills, &one_day, 2), vec![0, 100]);
    // A repeat threshold of three makes the bandwidth 33.
    assert_eq!(compute_weights(&skills, &past, 3), vec![33, 100]);
    // An empty window gives everyone the maximum.
    assert_eq!(compute_weights(&skills, &Vec::new(), 2), vec![100, 100]);
}

#[test]
fn default_skills_are_the_built_in_set_in_order() {
    let p = SchedulePlanner::new();
    let names: Vec<&str> = p
        .config
        .skills
        .iter()
        .map(|s| s.skill_name.as_str())
        .collect();
    assert_eq!(
        names,
        vec![
            "Ear Training",
            "Left Hand Exercises",
            "Alternate Picking Exercises",
            "Chords",
            "Scales",
            "Sight Reading",
            "Music Theory",
            "Improvisation",
            "Songwriting",
            "Rhythm",
            "Learn A Song",
        ]
    );
    assert_eq!(p.config.skills[0].exercises.len(), 2);
    assert_eq!(p.config.skills[0].exercises[1].exercise_name, "Exercise 2");
    for s in &p.config.skills {
        assert!(!s.exercises.is_empty());
        assert!(s.exercises[0]
            .exercise_markdown_contents
            .starts_with("# "));
    }
}
