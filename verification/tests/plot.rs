use chrono::{Datelike, Duration, Local, NaiveDate};
use habit_tracker::day::{Span, MAX_DELTA_DAYS};
use habit_tracker::plot::{axis_end, cumulative};
use habit_tracker::{Day, Habit, HabitType};

fn day(year: i32, month: u32, date: u32) -> Day {
    let date = NaiveDate::from_ymd_opt(year, month, date).unwrap();
    Day::from_number(date.num_days_from_ce()).unwrap()
}

fn habit_day_now() -> NaiveDate {
    (Local::now() - Duration::hours(2)).date_naive()
}

fn three_objectives() -> Habit {
    Habit::new(
        "morning",
        HabitType::checklist(vec!["wake".to_string(), "run".to_string(), "read".to_string()]),
    )
}

#[test]
fn cumulative_of_one_two_three() {
    assert_eq!(cumulative(&vec![(-2, 1), (-1, 2), (0, 3)]), vec![(-2, 1), (-1, 3), (0, 6)]);
}

#[test]
fn cumulative_keeps_days_and_handles_edges() {
    assert_eq!(cumulative(&vec![]), vec![]);
    assert_eq!(cumulative(&vec![(5, -7)]), vec![(5, -7)]);
    assert_eq!(
        cumulative(&vec![(-3, 4), (-2, -10), (-1, 0), (0, 6)]),
        vec![(-3, 4), (-2, -6), (-1, -6), (0, 0)]
    );
}

#[test]
fn cumulative_wraps_around_at_32_bits() {
    assert_eq!(
        cumulative(&vec![(-2, i32::MAX), (-1, 1), (0, -1)]),
        vec![(-2, i32::MAX), (-1, i32::MIN), (0, i32::MAX)]
    );
}

#[test]
fn checklist_scores_the_number_of_finished_objectives() {
    let mut habit = three_objectives();
    let today = day(2024, 6, 10);
    habit.mark_objective_on(today, "wake", true).unwrap();
    habit.mark_objective_on(today, "read", true).unwrap();
    assert_eq!(habit.progress_on(today), 0b101);
    assert_eq!(habit.score_on(today), 2);
    let data = habit.plotting_data_between(day(2024, 6, 8), today);
    assert_eq!(data, vec![(-2, 0), (-1, 0), (0, 2)]);
}

#[test]
fn checklist_scores_today() {
    let mut habit = three_objectives();
    let before = habit_day_now();
    habit.mark_objective("wake", true).unwrap();
    habit.mark_objective("read", true).unwrap();
    let data = habit.plotting_data(Span::days(3).unwrap()).unwrap();
    let after = habit_day_now();
    if before == after {
        assert_eq!(data, vec![(-3, 0), (-2, 0), (-1, 0), (0, 2)]);
    }
}

#[test]
fn numerical_series_has_a_point_for_each_day() {
    let mut habit = Habit::new("water", HabitType::numerical());
    habit.add_progress_on(day(2024, 2, 28), 3);
    habit.add_progress_on(day(2024, 3, 1), -4);
    habit.add_progress_on(day(2024, 2, 20), 100);
    assert_eq!(
        habit.plotting_data_between(day(2024, 2, 27), day(2024, 3, 2)),
        vec![(-4, 0), (-3, 3), (-2, 0), (-1, -4), (0, 0)]
    );
    assert_eq!(habit.plotting_data_between(day(2024, 3, 1), day(2024, 3, 1)), vec![(0, -4)]);
    assert_eq!(habit.plotting_data_between(day(2024, 3, 2), day(2024, 3, 1)), vec![]);
}

#[test]
fn negative_window_gives_an_empty_series() {
    let habit = Habit::new("water", HabitType::numerical());
    let before = habit_day_now();
    let data = habit.plotting_data(Span::days(-2).unwrap()).unwrap();
    let after = habit_day_now();
    if before == after {
        assert_eq!(data, vec![]);
    }
}

#[test]
fn window_outside_the_calendar_fails() {
    let habit = Habit::new("water", HabitType::numerical());
    assert_eq!(
        habit.plotting_data(Span::days(MAX_DELTA_DAYS).unwrap()),
        Err("The requested period lies outside the calendar.".to_string())
    );
    assert_eq!(
        habit.plot(Span::days(-MAX_DELTA_DAYS).unwrap(), true).map(|chart| chart.points),
        Err("The requested period lies outside the calendar.".to_string())
    );
}

#[test]
fn axis_ends_at_the_greatest_value() {
    assert_eq!(axis_end(&vec![]), 1);
    assert_eq!(axis_end(&vec![(0, 0)]), 0);
    assert_eq!(axis_end(&vec![(-2, 3), (-1, 9), (0, 4)]), 9);
    assert_eq!(axis_end(&vec![(-1, -8), (0, -3)]), -3);
    assert_eq!(axis_end(&vec![(-1, 7), (0, 7)]), 7);
}

#[test]
fn chart_of_daily_values() {
    let mut habit = Habit::new("water", HabitType::numerical());
    habit.add_progress_on(day(2024, 1, 1), 3);
    habit.add_progress_on(day(2024, 1, 3), 5);
    let chart = habit.plot_between(day(2024, 1, 1), day(2024, 1, 4), false);
    assert_eq!(chart.title, "Progress by day");
    assert_eq!(chart.points, vec![(-3, 3), (-2, 0), (-1, 5), (0, 0)]);
    assert_eq!(chart.day_axis_start, -3);
    assert_eq!(chart.value_axis_end, 5);
}

#[test]
fn chart_of_running_sums() {
    let mut habit = Habit::new("water", HabitType::numerical());
    habit.add_progress_on(day(2024, 1, 1), 3);
    habit.add_progress_on(day(2024, 1, 3), 5);
    let chart = habit.plot_between(day(2024, 1, 1), day(2024, 1, 4), true);
    assert_eq!(chart.title, "Total Progress by day");
    assert_eq!(chart.points, vec![(-3, 3), (-2, 3), (-1, 8), (0, 8)]);
    assert_eq!(chart.day_axis_start, -3);
    assert_eq!(chart.value_axis_end, 8);
}

#[test]
fn chart_titles_of_checklists() {
    let mut habit = three_objectives();
    habit.mark_objective_on(day(2024, 1, 2), "run", true).unwrap();
    let daily = habit.plot_between(day(2024, 1, 1), day(2024, 1, 3), false);
    assert_eq!(daily.title, "Num Goals Completed by day");
    assert_eq!(daily.points, vec![(-2, 0), (-1, 1), (0, 0)]);
    let total = habit.plot_between(day(2024, 1, 1), day(2024, 1, 3), true);
    assert_eq!(total.title, "Total Goals Completed by day");
    assert_eq!(total.points, vec![(-2, 0), (-1, 1), (0, 1)]);
    let empty = habit.plot_between(day(2024, 1, 3), day(2024, 1, 1), true);
    assert_eq!(empty.points, vec![]);
    assert_eq!(empty.day_axis_start, 1);
    assert_eq!(empty.value_axis_end, 1);
}

#[test]
fn chart_of_the_last_week() {
    let mut habit = Habit::new("water", HabitType::numerical());
    let before = habit_day_now();
    habit.add_progress(6).unwrap();
    let chart = habit.plot(Span::days(7).unwrap(), true).unwrap();
    let after = habit_day_now();
    if before == after {
        assert_eq!(chart.points.len(), 8);
        assert_eq!(chart.points[0], (-7, 0));
        assert_eq!(chart.points[7], (0, 6));
        assert_eq!(chart.day_axis_start, -7);
        assert_eq!(chart.value_axis_end, 6);
        assert_eq!(chart.title, "Total Progress by day");
    }
}

#[test]
fn days_between_two_days_ascend_by_one() {
    let days = habit_tracker::day::days_between(day(2024, 2, 27), day(2024, 3, 2));
    let numbers: Vec<i32> = days.iter().map(|d| d.number()).collect();
    let first = day(2024, 2, 27).number();
    assert_eq!(numbers, vec![first, first + 1, first + 2, first + 3, first + 4]);
    let texts: Vec<String> = days.iter().map(|d| d.text()).collect();
    assert_eq!(texts, vec!["2024-02-27", "2024-02-28", "2024-02-29", "2024-03-01", "2024-03-02"]);
    assert_eq!(habit_tracker::day::days_between(day(2024, 3, 2), day(2024, 3, 2)).len(), 1);
    assert!(habit_tracker::day::days_between(day(2024, 3, 2), day(2024, 3, 1)).is_empty());
}

#[test]
fn days_within_the_last_week_end_today() {
    let before = habit_day_now();
    let days = habit_tracker::day::days_within_last(Span::days(7).unwrap()).unwrap();
    let after = habit_day_now();
    if before == after {
        assert_eq!(days.len(), 8);
        assert_eq!(days[7].number(), before.num_days_from_ce());
        assert_eq!(days[0].number(), before.num_days_from_ce() - 7);
        assert_eq!(days[7].text(), before.to_string());
    }
    assert!(habit_tracker::day::days_within_last(Span::days(MAX_DELTA_DAYS).unwrap()).is_none());
}

#[test]
fn series_of_chosen_days_counts_back_from_the_last() {
    let mut habit = Habit::new("water", HabitType::numerical());
    habit.add_progress_on(day(2024, 1, 1), 3);
    habit.add_progress_on(day(2024, 1, 9), 5);
    let days = vec![day(2024, 1, 9), day(2024, 1, 1), day(2023, 1, 1), day(2024, 1, 9)];
    assert_eq!(habit.plotting_data_for(&days), vec![(-3, 5), (-2, 3), (-1, 0), (0, 5)]);
    assert_eq!(habit.plotting_data_for(&vec![]), vec![]);
    let chart = habit.plot_for(&days, true);
    assert_eq!(chart.points, vec![(-3, 5), (-2, 8), (-1, 8), (0, 13)]);
    assert_eq!(chart.day_axis_start, -3);
    assert_eq!(chart.value_axis_end, 13);
}
