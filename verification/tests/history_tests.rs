use practice_planner::{HistoryEntry, PlannerConfiguration, PracticeSkill, SchedulePlanner};

const DAY: i64 = 86400;
const NOW: i64 = 20_000 * DAY + 3600;

fn planner_with_history(entries: Vec<HistoryEntry>) -> SchedulePlanner {
    SchedulePlanner {
        config: PlannerConfiguration {
            skill_practice_time: 900,
            skill_repeat_days: 2,
            skills_per_day: 1,
            skills: vec![PracticeSkill {
                skill_name: "A".to_string(),
                exercises: vec![practice_planner::PracticeExercise {
                    exercise_name: "Exercise 1".to_string(),
                    exercise_markdown_contents: "Practice.".to_string(),
                }],
            }],
        },
        history: entries,
        todays_schedule: None,
        practicing: false,
        practice_session: None,
    }
}

fn entry(at: i64, names: &[&str]) -> HistoryEntry {
    HistoryEntry {
        completed_at: at,
        skill_names: names.iter().map(|n| n.to_string()).collect(),
    }
}

#[test]
fn streak_on_empty_history_is_zero() {
    let p = planner_with_history(Vec::new());
    assert_eq!(p.get_streak(NOW), 0);
}

#[test]
fn streak_counts_three_consecutive_days() {
    let p = planner_with_history(vec![
        entry(NOW - 2 * DAY, &["A"]),
        entry(NOW - DAY, &["A"]),
        entry(NOW, &["A"]),
    ]);
    assert_eq!(p.get_streak(NOW), 3);
}

#[test]
fn streak_stops_at_a_gap() {
    // Entries today and two days ago, nothing yesterday: only today
    // counts.
    let p = planner_with_history(vec![entry(NOW - 2 * DAY, &["A"]), entry(NOW, &["A"])]);
    assert_eq!(p.get_streak(NOW), 1);
}

#[test]
fn streak_does_not_require_an_entry_for_today() {
    // Entries yesterday and the day before, none yet today: the pending
    // day does not break the streak.
    let p = planner_with_history(vec![
        entry(NOW - 2 * DAY, &["A"]),
        entry(NOW - DAY, &["A"]),
    ]);
    assert_eq!(p.get_streak(NOW), 2);
}

#[test]
fn streak_counts_multiple_entries_today_once() {
    let p = planner_with_history(vec![
        entry(NOW - DAY, &["A"]),
        entry(NOW - 600, &["A"]),
        entry(NOW - 300, &["A"]),
    ]);
    assert_eq!(p.get_streak(NOW), 2);
}

#[test]
fn lookback_groups_days_in_ascending_order_with_distinct_names() {
    let p = planner_with_history(vec![
        entry(NOW - 2 * DAY, &["A", "B"]),
        entry(NOW - DAY - 600, &["B", "C"]),
        entry(NOW - DAY - 300, &["C", "D"]),
        entry(NOW - 300, &["E"]),
    ]);
    let days = p.get_history_n_days_back(3, NOW).unwrap();
    assert_eq!(days.len(), 3);
    assert!(days[0].day < days[1].day && days[1].day < days[2].day);
    assert_eq!(days[0].skill_names, vec!["A", "B"]);
    // The two entries of the same calendar day merge, duplicates dropped.
    assert_eq!(days[1].skill_names, vec!["B", "C", "D"]);
    assert_eq!(days[2].skill_names, vec!["E"]);
}

#[test]
fn lookback_excludes_entries_outside_the_window() {
    let p = planner_with_history(vec![
        entry(NOW - 10 * DAY, &["A"]),
        entry(NOW - 300, &["B"]),
    ]);
    let days = p.get_history_n_days_back(2, NOW).unwrap();
    assert_eq!(days.len(), 1);
    assert_eq!(days[0].skill_names, vec!["B"]);
}

#[test]
fn days_of_history_counts_distinct_days() {
    let p = planner_with_history(vec![
        entry(NOW - 2 * DAY, &["A"]),
        entry(NOW - DAY - 600, &["A"]),
        entry(NOW - DAY - 300, &["A"]),
        entry(NOW - 300, &["A"]),
    ]);
    assert_eq!(p.days_of_history(), 3);
}

#[test]
fn reset_history_clears_everything() {
    let mut p = planner_with_history(vec![entry(NOW - DAY, &["A"]), entry(NOW, &["A"])]);
    assert_eq!(p.days_of_history(), 2);
    p.reset_history();
    assert_eq!(p.days_of_history(), 0);
    assert_eq!(p.get_streak(NOW), 0);
}

#[test]
fn lookback_excludes_entries_after_the_reference_time() {
    let p = planner_with_history(vec![
        entry(NOW - 300, &["A"]),
        entry(NOW + DAY, &["B"]),
    ]);
    let days = p.get_history_n_days_back(2, NOW).unwrap();
    assert_eq!(days.len(), 1);
    assert_eq!(days[0].skill_names, vec!["A"]);
}
