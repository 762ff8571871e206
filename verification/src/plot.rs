//! Series for plotting: one point for each day of a window, and what a chart of
//! them shows.

use vstd::prelude::*;
use vstd::string::StringExecFns;
use crate::bits::{count_set, lemma_wrap_sum, lemma_wrapping_is_wrap, popcount, wrap};
use crate::day::{
    days_between, days_from_to, days_within_last, is_window_at_some_time, numbers,
    valid_day_number, Day, Span,
};
use crate::habit::{Habit, HabitView};
use crate::progress::value_on;
use crate::text::fails_with;

verus! {

/// What a habit scored on a day: the number of finished objectives of a
/// checklist, the recorded value of a numerical habit.
pub open spec fn day_score(h: HabitView, day: int) -> i32 {
    if h.checklist {
        popcount(value_on(h.entries, day)) as i32
    } else {
        value_on(h.entries, day)
    }
}

/// One point for each of `days`, in their order: the day's place counted back
/// from the last, which is 0 for the last day, -1 for the one before it and so
/// on, and what the habit scored on the day.
pub open spec fn plot_points(h: HabitView, days: Seq<int>) -> Seq<(i32, i32)> {
    Seq::new(days.len(), |i: int| ((i + 1 - days.len()) as i32, day_score(h, days[i])))
}

/// The sum of the values of the first `n` points.
pub open spec fn running_total(points: Seq<(i32, i32)>, n: nat) -> int
    decreases n,
{
    if n == 0 {
        0
    } else {
        running_total(points, (n - 1) as nat) + points[n - 1].1
    }
}

/// The points with each value replaced by the sum of all values up to and
/// including it, wrapped around at 32 bits.
pub open spec fn cumulative_points(points: Seq<(i32, i32)>) -> Seq<(i32, i32)> {
    Seq::new(points.len(), |i: int| (points[i].0, wrap(running_total(points, (i + 1) as nat))))
}

/// The greatest value among the first `n` points, for `n` of at least 1.
pub open spec fn highest(points: Seq<(i32, i32)>, n: nat) -> i32
    decreases n,
{
    if n <= 1 {
        points[0].1
    } else if points[n - 1].1 > highest(points, (n - 1) as nat) {
        points[n - 1].1
    } else {
        highest(points, (n - 1) as nat)
    }
}

/// The upper end of a chart's value axis: the greatest value, or 1 without points.
pub open spec fn value_axis_end(points: Seq<(i32, i32)>) -> i32 {
    if points.len() == 0 {
        1
    } else {
        highest(points, points.len())
    }
}

/// The caption of a chart.
pub open spec fn chart_title(checklist: bool, cumulative: bool) -> Seq<char> {
    if checklist {
        if cumulative {
            "Total Goals Completed by day"@
        } else {
            "Num Goals Completed by day"@
        }
    } else {
        if cumulative {
            "Total Progress by day"@
        } else {
            "Progress by day"@
        }
    }
}

/// The message for a window that does not lie within the calendar.
pub open spec fn no_window_message() -> Seq<char> {
    "The requested period lies outside the calendar."@
}

/// What a chart shows: a caption, the two axes and the points.
#[derive(Clone, Debug)]
pub struct Chart {
    /// The caption.
    pub title: String,
    /// First value of the day axis, which ends before 0.
    pub day_axis_start: i32,
    /// Value before which the value axis, which starts at 0, ends.
    pub value_axis_end: i32,
    /// The points, one for each day.
    pub points: Vec<(i32, i32)>,
}

/// Whether `chart` is the chart of `h` for `days`.
pub open spec fn charts(h: HabitView, chart: Chart, days: Seq<int>, cumulative: bool) -> bool {
    &&& chart.title@ == chart_title(h.checklist, cumulative)
    &&& chart.points@ == if cumulative {
        cumulative_points(plot_points(h, days))
    } else {
        plot_points(h, days)
    }
    &&& chart.day_axis_start == 1 - days.len()
    &&& chart.value_axis_end == value_axis_end(chart.points@)
}

/// Whether `chart` is the chart of `h` for a window that reaches `span` back
/// from the habit day of some moment.
pub open spec fn charts_some_window(h: HabitView, chart: Chart, span: int, cumulative: bool) -> bool {
    exists|days: Seq<int>|
        is_window_at_some_time(days, span) && #[trigger] charts(h, chart, days, cumulative)
}

/// Whether `points` is the series of `h` for a window that reaches `span` back
/// from the habit day of some moment.
pub open spec fn plots_some_window(h: HabitView, points: Seq<(i32, i32)>, span: int) -> bool {
    exists|days: Seq<int>|
        is_window_at_some_time(days, span) && points == #[trigger] plot_points(h, days)
}

/// The running sums of a series.
pub fn cumulative(data: &Vec<(i32, i32)>) -> (r: Vec<(i32, i32)>)
    ensures
        r@ == cumulative_points(data@),
{
    let mut result: Vec<(i32, i32)> = Vec::new();
    let mut total: i32 = 0;
    let mut i: usize = 0;
    while i < data.len()
        invariant
            i <= data.len(),
            result@.len() == i,
            total == wrap(running_total(data@, i as nat)),
            forall|k: int| 0 <= k < i ==> result@[k] == cumulative_points(data@)[k],
        decreases data.len() - i,
    {
        proof {
            lemma_wrapping_is_wrap(total, data@[i as int].1);
            lemma_wrap_sum(running_total(data@, i as nat), data@[i as int].1 as int);
        }
        total = total.wrapping_add(data[i].1);
        result.push((data[i].0, total));
        i += 1;
    }
    assert(result@ =~= cumulative_points(data@));
    result
}

/// The greatest value of a series; 1 for an empty one.
pub fn axis_end(data: &Vec<(i32, i32)>) -> (r: i32)
    ensures
        r == value_axis_end(data@),
{
    if data.len() == 0 {
        return 1;
    }
    let mut best: i32 = data[0].1;
    let mut i: usize = 1;
    while i < data.len()
        invariant
            1 <= i <= data.len(),
            best == highest(data@, i as nat),
        decreases data.len() - i,
    {
        if data[i].1 > best {
            best = data[i].1;
        }
        i += 1;
    }
    best
}

impl Habit {
    /// What the habit scored on `day`.
    pub fn score_on(&self, day: Day) -> (r: i32)
        requires
            self.wf(),
        ensures
            r == day_score(self@, day@),
    {
        let value = self.progress_on(day);
        if self.is_checklist() {
            count_set(value)
        } else {
            value
        }
    }

    /// The series of the given days.
    pub fn plotting_data_for(&self, days: &Vec<Day>) -> (r: Vec<(i32, i32)>)
        requires
            self.wf(),
            days.len() <= i32::MAX,
        ensures
            r@ == plot_points(self@, numbers(days@)),
    {
        let count = days.len();
        let mut points: Vec<(i32, i32)> = Vec::new();
        let mut i: usize = 0;
        while i < count
            invariant
                self.wf(),
                count == days.len(),
                count <= i32::MAX,
                i <= count,
                points@.len() == i,
                forall|k: int|
                    0 <= k < i ==> points@[k] == plot_points(self@, numbers(days@))[k],
            decreases count - i,
        {
            let score = self.score_on(days[i]);
            points.push(((i as i32) + 1 - (count as i32), score));
            i += 1;
        }
        assert(points@ =~= plot_points(self@, numbers(days@)));
        points
    }

    /// The series of the days from `start` to `end`.
    pub fn plotting_data_between(&self, start: Day, end: Day) -> (r: Vec<(i32, i32)>)
        requires
            self.wf(),
        ensures
            r@ == plot_points(self@, days_from_to(start@, end@)),
            valid_day_number(start@),
            valid_day_number(end@),
    {
        let days = days_between(start, end);
        self.plotting_data_for(&days)
    }

    /// The series of the window that reaches `in_last` back from the current
    /// habit day. Fails where the clock gives no day for either end of it.
    pub fn plotting_data(&self, in_last: Span) -> (r: Result<Vec<(i32, i32)>, String>)
        requires
            self.wf(),
        ensures
            r matches Ok(points) ==> plots_some_window(self@, points@, in_last@),
            r is Err ==> fails_with(r, no_window_message()),
    {
        match days_within_last(in_last) {
            Some(days) => {
                let points = self.plotting_data_for(&days);
                assert(points@ == plot_points(self@, numbers(days@)));
                Ok(points)
            },
            None => Err(String::from_str("The requested period lies outside the calendar.")),
        }
    }

    /// The chart of the given days, of the daily scores or of their running sums.
    pub fn plot_for(&self, days: &Vec<Day>, cumulative: bool) -> (r: Chart)
        requires
            self.wf(),
            days.len() <= i32::MAX,
        ensures
            charts(self@, r, numbers(days@), cumulative),
    {
        let daily = self.plotting_data_for(days);
        let points = if cumulative {
            self::cumulative(&daily)
        } else {
            daily
        };
        let title = if self.is_checklist() {
            if cumulative {
                "Total Goals Completed by day"
            } else {
                "Num Goals Completed by day"
            }
        } else {
            if cumulative {
                "Total Progress by day"
            } else {
                "Progress by day"
            }
        };
        let length = points.len();
        Chart {
            title: String::from_str(title),
            day_axis_start: 1 - (length as i32),
            value_axis_end: axis_end(&points),
            points,
        }
    }

    /// The chart of the days from `start` to `end`, of the daily scores or of
    /// their running sums.
    pub fn plot_between(&self, start: Day, end: Day, cumulative: bool) -> (r: Chart)
        requires
            self.wf(),
        ensures
            charts(self@, r, days_from_to(start@, end@), cumulative),
            valid_day_number(start@),
            valid_day_number(end@),
    {
        let days = days_between(start, end);
        self.plot_for(&days, cumulative)
    }

    /// The chart of the window that reaches `in_last` back from the current
    /// habit day. Fails where the clock gives no day for either end of it.
    pub fn plot(&self, in_last: Span, cumulative: bool) -> (r: Result<Chart, String>)
        requires
            self.wf(),
        ensures
            r matches Ok(chart) ==> charts_some_window(self@, chart, in_last@, cumulative),
            r is Err ==> fails_with(r, no_window_message()),
    {
        match days_within_last(in_last) {
            Some(days) => {
                let r: Result<Chart, String> = Ok(self.plot_for(&days, cumulative));
                assert(r matches Ok(chart) && charts(self@, chart, numbers(days@), cumulative));
                r
            },
            None => Err(String::from_str("The requested period lies outside the calendar.")),
        }
    }
}

} // verus!
