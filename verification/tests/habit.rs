use chrono::{Datelike, Duration, Local, NaiveDate};
use habit_tracker::day::Span;
use habit_tracker::{Day, Habit, HabitType};

fn day(year: i32, month: u32, date: u32) -> Day {
    let date = NaiveDate::from_ymd_opt(year, month, date).unwrap();
    Day::from_number(date.num_days_from_ce()).unwrap()
}

fn habit_day_now() -> NaiveDate {
    (Local::now() - Duration::hours(2)).date_naive()
}

fn chores() -> Habit {
    Habit::new(
        "chores",
        HabitType::checklist(vec!["dishes".to_string(), "trash".to_string()]),
    )
}

#[test]
fn new_habit_has_name_and_no_progress() {
    let habit = Habit::new("water", HabitType::numerical());
    assert_eq!(habit.name(), "water");
    assert_eq!(habit.display(), "water: ");
    assert_eq!(habit.progress_on(day(2024, 1, 1)), 0);
    assert!(!habit.is_checklist());
    assert_eq!(habit.objective_count(), 0);
}

#[test]
fn additions_on_one_day_sum_up() {
    let mut habit = Habit::new("water", HabitType::numerical());
    let d = day(2024, 3, 5);
    let deltas = [4, -9, 100, 0, -1, 17];
    for delta in deltas {
        habit.add_progress_on(d, delta);
    }
    assert_eq!(habit.progress_on(d), 111);
    assert_eq!(habit.progress_on(day(2024, 3, 4)), 0);
    assert_eq!(habit.progress_on(day(2024, 3, 6)), 0);
}

#[test]
fn additions_wrap_around_at_32_bits() {
    let mut habit = Habit::new("water", HabitType::numerical());
    let d = day(2024, 3, 5);
    habit.add_progress_on(d, i32::MAX);
    habit.add_progress_on(d, 1);
    assert_eq!(habit.progress_on(d), i32::MIN);
    habit.add_progress_on(d, -1);
    assert_eq!(habit.progress_on(d), i32::MAX);
    habit.add_progress_on(d, i32::MAX);
    habit.add_progress_on(d, 5);
    assert_eq!(habit.progress_on(d), 3);
}

#[test]
fn additions_on_other_days_do_not_interfere() {
    let mut habit = Habit::new("water", HabitType::numerical());
    habit.add_progress_on(day(2024, 1, 3), 5);
    habit.add_progress_on(day(2024, 1, 1), 3);
    habit.add_progress_on(day(2024, 1, 2), 7);
    habit.add_progress_on(day(2024, 1, 1), 1);
    assert_eq!(habit.progress_on(day(2024, 1, 1)), 4);
    assert_eq!(habit.progress_on(day(2024, 1, 2)), 7);
    assert_eq!(habit.progress_on(day(2024, 1, 3)), 5);
}

#[test]
fn display_of_numerical_habit_is_in_ascending_date_order() {
    let mut habit = Habit::new("water", HabitType::numerical());
    habit.add_progress_on(day(2024, 1, 3), 5);
    habit.add_progress_on(day(2024, 1, 1), 3);
    assert_eq!(habit.display(), "water: \n\t2024-01-01: 3\n\t2024-01-03: 5");
}

#[test]
fn display_shows_negative_values_and_distant_years() {
    let mut habit = Habit::new("debt", HabitType::numerical());
    habit.add_progress_on(day(12024, 12, 31), -40);
    habit.add_progress_on(day(-1, 1, 1), i32::MIN);
    habit.add_progress_on(day(0, 1, 1), 0);
    assert_eq!(
        habit.display(),
        "debt: \n\t-0001-01-01: -2147483648\n\t0000-01-01: 0\n\t+12024-12-31: -40"
    );
}

#[test]
fn finishing_twice_fails_as_already_marked() {
    let mut habit = chores();
    let d = day(2024, 5, 1);
    assert_eq!(habit.mark_objective_on(d, "dishes", true), Ok(()));
    assert_eq!(
        habit.mark_objective_on(d, "dishes", true),
        Err("Objective 'dishes' already marked as finished.".to_string())
    );
    assert_eq!(habit.progress_on(d), 1);
}

#[test]
fn unfinishing_what_is_not_finished_fails_and_creates_the_entry() {
    let mut habit = chores();
    let d = day(2024, 5, 1);
    assert_eq!(
        habit.mark_objective_on(d, "trash", false),
        Err("Objective 'trash' already marked as unfinished.".to_string())
    );
    assert_eq!(habit.progress_on(d), 0);
    assert_eq!(habit.display(), "chores: \n\tdishes: 0\n\ttrash: 0");
}

#[test]
fn alternating_marks_succeed() {
    let mut habit = chores();
    let d = day(2024, 5, 1);
    for round in 0..5 {
        assert_eq!(habit.mark_objective_on(d, "trash", true), Ok(()), "round {}", round);
        assert_eq!(habit.progress_on(d), 2);
        assert_eq!(habit.mark_objective_on(d, "trash", false), Ok(()), "round {}", round);
        assert_eq!(habit.progress_on(d), 0);
    }
}

#[test]
fn marks_of_different_objectives_are_independent() {
    let mut habit = chores();
    let d = day(2024, 5, 1);
    assert_eq!(habit.mark_objective_on(d, "trash", true), Ok(()));
    assert_eq!(habit.mark_objective_on(d, "dishes", true), Ok(()));
    assert_eq!(habit.progress_on(d), 3);
    assert_eq!(habit.mark_objective_on(d, "trash", false), Ok(()));
    assert_eq!(habit.progress_on(d), 1);
    assert_eq!(habit.progress_on(day(2024, 5, 2)), 0);
}

#[test]
fn unknown_objective_fails_and_changes_nothing() {
    let mut habit = chores();
    let d = day(2024, 5, 1);
    habit.mark_objective_on(d, "dishes", true).unwrap();
    let before = habit.display();
    assert_eq!(
        habit.mark_objective_on(d, "laundry", true),
        Err("Objective 'laundry' does not exist in chores.".to_string())
    );
    assert_eq!(
        habit.mark_objective_on(day(2024, 5, 2), "laundry", false),
        Err("Objective 'laundry' does not exist in chores.".to_string())
    );
    assert_eq!(habit.display(), before);
    assert_eq!(habit.progress_on(d), 1);
    assert_eq!(
        habit.mark_objective("laundry", true),
        Err("Objective 'laundry' does not exist in chores.".to_string())
    );
    assert_eq!(habit.display(), before);
}

#[test]
fn marking_a_numerical_habit_fails() {
    let mut habit = Habit::new("water", HabitType::numerical());
    assert_eq!(
        habit.mark_objective_on(day(2024, 5, 1), "dishes", true),
        Err("water is not a checklist habit.".to_string())
    );
    assert_eq!(habit.display(), "water: ");
    assert_eq!(
        habit.mark_objective("dishes", false),
        Err("water is not a checklist habit.".to_string())
    );
}

#[test]
fn first_of_equal_objectives_is_marked() {
    let mut habit = Habit::new(
        "twice",
        HabitType::checklist(vec!["a".to_string(), "b".to_string(), "a".to_string()]),
    );
    assert_eq!(habit.objective_index("a"), 0);
    assert_eq!(habit.objective_index("b"), 1);
    assert_eq!(habit.objective_index("c"), 3);
    let d = day(2024, 5, 1);
    habit.mark_objective_on(d, "a", true).unwrap();
    assert_eq!(habit.progress_on(d), 1);
}

#[test]
fn the_last_of_32_objectives_uses_the_sign_bit() {
    let names: Vec<String> = (0..32).map(|i| format!("o{}", i)).collect();
    let mut habit = Habit::new("full", HabitType::checklist(names));
    let d = day(2024, 5, 1);
    assert_eq!(habit.mark_objective_on(d, "o31", true), Ok(()));
    assert_eq!(habit.progress_on(d), i32::MIN);
    assert_eq!(habit.times_completed(31), 1);
    assert_eq!(habit.times_completed(30), 0);
    assert_eq!(habit.mark_objective_on(d, "o0", true), Ok(()));
    assert_eq!(habit.progress_on(d), i32::MIN + 1);
    assert_eq!(habit.plotting_data_between(d, d), vec![(0, 2)]);
    assert_eq!(
        habit.mark_objective_on(d, "o31", true),
        Err("Objective 'o31' already marked as finished.".to_string())
    );
    assert_eq!(habit.mark_objective_on(d, "o31", false), Ok(()));
    assert_eq!(habit.progress_on(d), 1);
    assert_eq!(habit.mark_objective_on(d, "o31", true), Ok(()));
    assert_eq!(habit.mark_objective_on(d, "o0", false), Ok(()));
    assert_eq!(habit.mark_objective_on(d, "o31", false), Ok(()));
    assert_eq!(habit.progress_on(d), 0);
}

#[test]
fn display_of_checklist_counts_days_per_objective() {
    let mut habit = chores();
    habit.mark_objective_on(day(2024, 5, 1), "dishes", true).unwrap();
    habit.mark_objective_on(day(2024, 5, 2), "dishes", true).unwrap();
    habit.mark_objective_on(day(2024, 5, 2), "trash", true).unwrap();
    habit.mark_objective_on(day(2024, 5, 3), "dishes", true).unwrap();
    habit.mark_objective_on(day(2024, 5, 3), "dishes", false).unwrap();
    assert_eq!(habit.display(), "chores: \n\tdishes: 2\n\ttrash: 1");
    assert_eq!(habit.times_completed(0), 2);
    assert_eq!(habit.times_completed(1), 1);
    assert_eq!(habit.times_completed(2), 0);
}

#[test]
fn display_of_checklist_ignores_bits_without_objective() {
    let mut habit = chores();
    habit.add_progress_on(day(2024, 5, 1), 0b110);
    habit.add_progress_on(day(2024, 5, 2), -1);
    assert_eq!(habit.display(), "chores: \n\tdishes: 1\n\ttrash: 2");
}

#[test]
fn water_adds_up_to_four_today() {
    let mut habit = Habit::new("water", HabitType::numerical());
    let before = habit_day_now();
    assert_eq!(habit.add_progress(1), Ok(()));
    assert_eq!(habit.add_progress(3), Ok(()));
    let after = habit_day_now();
    if before == after {
        assert_eq!(habit.display(), format!("water: \n\t{}: 4", before));
    }
}

#[test]
fn chores_show_the_finished_dishes() {
    let mut habit = chores();
    assert_eq!(habit.mark_objective("dishes", true), Ok(()));
    assert_eq!(habit.display(), "chores: \n\tdishes: 1\n\ttrash: 0");
}

#[test]
fn finishing_today_twice_fails() {
    let mut habit = chores();
    let before = habit_day_now();
    assert_eq!(habit.mark_objective("dishes", true), Ok(()));
    let second = habit.mark_objective("dishes", true);
    let after = habit_day_now();
    if before == after {
        assert_eq!(second, Err("Objective 'dishes' already marked as finished.".to_string()));
        assert_eq!(habit.mark_objective("dishes", false), Ok(()));
    }
}

#[test]
fn today_is_the_local_date_two_hours_ago() {
    let before = habit_day_now();
    let today = habit_tracker::day::today().unwrap();
    let after = habit_day_now();
    assert!(before.num_days_from_ce() <= today.number());
    assert!(today.number() <= after.num_days_from_ce());
}

#[test]
fn window_start_lies_the_span_before_today() {
    let before = habit_day_now();
    let start = habit_tracker::day::window_start(Span::days(7).unwrap()).unwrap();
    let after = habit_day_now();
    assert!(before.num_days_from_ce() - 7 <= start.number());
    assert!(start.number() <= after.num_days_from_ce() - 7);
    let longest = Span::days(habit_tracker::day::MAX_DELTA_DAYS).unwrap();
    assert!(habit_tracker::day::window_start(longest).is_none());
}
