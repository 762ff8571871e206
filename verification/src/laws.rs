//! What holds of progress and of checklists over several steps.

use vstd::prelude::*;
use crate::bits::{bit_set, flag, lemma_add_flag, lemma_sub_flag, lemma_wrap_sum, wrap};
use crate::day::valid_day_number;
use crate::habit::{
    already_marked_message, first_index, lemma_first_index, mark_delta, mark_error, marked,
    unknown_objective_message, HabitView,
};
use crate::plot::{cumulative_points, running_total};
use crate::progress::{added, lemma_put, recorded, touched, value_on, well_formed, Entries};

verus! {

/// The exact sum of `deltas`.
pub open spec fn total(deltas: Seq<i32>) -> int
    decreases deltas.len(),
{
    if deltas.len() == 0 {
        0
    } else {
        total(deltas.drop_last()) + deltas.last()
    }
}

/// The log after each of `deltas` was added, in order, to the value of `day`.
pub open spec fn added_all(s: Entries, day: int, deltas: Seq<i32>) -> Entries
    decreases deltas.len(),
{
    if deltas.len() == 0 {
        s
    } else {
        added(added_all(s, day, deltas.drop_last()), day, deltas.last())
    }
}

/// Adding to one day changes that day by the wrapped sum and no other day.
pub proof fn law_addition(s: Entries, day: int, delta: i32)
    requires
        well_formed(s),
        valid_day_number(day),
    ensures
        well_formed(added(s, day, delta)),
        recorded(added(s, day, delta), day),
        value_on(added(s, day, delta), day) == wrap(value_on(s, day) + delta),
        forall|other: int|
            other != day ==> recorded(added(s, day, delta), other) == recorded(s, other)
                && value_on(added(s, day, delta), other) == value_on(s, other),
{
    lemma_put(s, day, wrap(value_on(s, day) + delta));
}

/// After any sequence of additions to one day, the day's value is what it was
/// plus the sum of all that was added, wrapped around at 32 bits, and every
/// other day is as it was.
pub proof fn law_repeated_addition(s: Entries, day: int, deltas: Seq<i32>)
    requires
        well_formed(s),
        valid_day_number(day),
    ensures
        well_formed(added_all(s, day, deltas)),
        value_on(added_all(s, day, deltas), day) == wrap(value_on(s, day) + total(deltas)),
        deltas.len() > 0 ==> recorded(added_all(s, day, deltas), day),
        forall|other: int|
            other != day ==> recorded(added_all(s, day, deltas), other) == recorded(s, other)
                && value_on(added_all(s, day, deltas), other) == value_on(s, other),
    decreases deltas.len(),
{
    if deltas.len() == 0 {
        lemma_wrap_sum(value_on(s, day) as int, 0);
    } else {
        let before = added_all(s, day, deltas.drop_last());
        law_repeated_addition(s, day, deltas.drop_last());
        law_addition(before, day, deltas.last());
        lemma_wrap_sum(value_on(s, day) + total(deltas.drop_last()), deltas.last() as int);
    }
}

/// A successful mark leaves the habit valid and the objective's bit in the
/// wanted state, changes no other bit of the day and no other day; after it,
/// the same mark fails as already done and the opposite mark succeeds.
pub proof fn law_mark(h: HabitView, day: int, objective: Seq<char>, finished: bool)
    requires
        h.valid(),
        valid_day_number(day),
        mark_error(h, day, objective, finished) is None,
    ensures
        marked(h, day, objective, finished).valid(),
        bit_set(
            value_on(marked(h, day, objective, finished).entries, day),
            first_index(h.objectives, objective) as nat,
        ) == finished,
        forall|other: nat|
            other != first_index(h.objectives, objective) ==> bit_set(
                value_on(marked(h, day, objective, finished).entries, day),
                other,
            ) == bit_set(value_on(h.entries, day), other),
        forall|other: int|
            other != day ==> recorded(marked(h, day, objective, finished).entries, other)
                == recorded(h.entries, other) && value_on(
                marked(h, day, objective, finished).entries,
                other,
            ) == value_on(h.entries, other),
        mark_error(marked(h, day, objective, finished), day, objective, finished) == Some(
            already_marked_message(objective, finished),
        ),
        mark_error(marked(h, day, objective, finished), day, objective, !finished) is None,
{
    lemma_first_index(h.objectives, objective);
    let index = first_index(h.objectives, objective) as nat;
    let value = value_on(h.entries, day);
    let t = touched(h.entries, day);
    lemma_put(h.entries, day, value);
    let delta = mark_delta(index as int, finished);
    lemma_put(t, day, wrap(value_on(t, day) + delta));
    if finished {
        lemma_add_flag(value, index);
    } else {
        lemma_sub_flag(value, index);
        lemma_wrap_sum(-flag(index), value as int);
        lemma_wrap_sum(value as int, wrap(-flag(index)) as int);
    }
}

/// Which state the mark with number `k` of an alternating run asks for, where
/// the run starts with `first`.
pub open spec fn alternating(first: bool, k: nat) -> bool {
    if k % 2 == 0 {
        first
    } else {
        !first
    }
}

/// The habit after `n` marks of one objective on one day that ask in turn for
/// `first`, its opposite, `first` again, and so on.
pub open spec fn marked_in_turn(
    h: HabitView,
    day: int,
    objective: Seq<char>,
    first: bool,
    n: nat,
) -> HabitView
    decreases n,
{
    if n == 0 {
        h
    } else {
        marked(
            marked_in_turn(h, day, objective, first, (n - 1) as nat),
            day,
            objective,
            alternating(first, (n - 1) as nat),
        )
    }
}

/// Once a mark has succeeded, marks that alternate between finishing and
/// unfinishing all succeed, and each leaves the objective's bit as it asked.
pub proof fn law_alternating_marks(
    h: HabitView,
    day: int,
    objective: Seq<char>,
    first: bool,
    n: nat,
)
    requires
        h.valid(),
        valid_day_number(day),
        mark_error(h, day, objective, first) is None,
    ensures
        marked_in_turn(h, day, objective, first, n).valid(),
        marked_in_turn(h, day, objective, first, n).objectives == h.objectives,
        mark_error(
            marked_in_turn(h, day, objective, first, n),
            day,
            objective,
            alternating(first, n),
        ) is None,
        n > 0 ==> bit_set(
            value_on(marked_in_turn(h, day, objective, first, n).entries, day),
            first_index(h.objectives, objective) as nat,
        ) == alternating(first, (n - 1) as nat),
    decreases n,
{
    if n > 0 {
        let k = (n - 1) as nat;
        law_alternating_marks(h, day, objective, first, k);
        law_mark(marked_in_turn(h, day, objective, first, k), day, objective, alternating(first, k));
    }
}

/// Finishing an objective right after it was finished fails as already done,
/// and changes no value.
pub proof fn law_finish_twice(h: HabitView, day: int, objective: Seq<char>)
    requires
        h.valid(),
        valid_day_number(day),
        mark_error(h, day, objective, true) is None,
    ensures
        mark_error(marked(h, day, objective, true), day, objective, true) == Some(
            already_marked_message(objective, true),
        ),
        forall|any: int|
            value_on(
                marked(marked(h, day, objective, true), day, objective, true).entries,
                any,
            ) == value_on(marked(h, day, objective, true).entries, any),
{
    law_mark(h, day, objective, true);
    let once = marked(h, day, objective, true);
    lemma_put(once.entries, day, value_on(once.entries, day));
}

/// Marking an objective that a checklist does not have fails as unknown and
/// changes nothing.
pub proof fn law_unknown_objective(h: HabitView, day: int, objective: Seq<char>, finished: bool)
    requires
        h.checklist,
        !h.objectives.contains(objective),
    ensures
        mark_error(h, day, objective, finished) == Some(
            unknown_objective_message(objective, h.name),
        ),
        marked(h, day, objective, finished) == h,
{
}

/// The running sums of a series are, point by point, the wrapped sums of the
/// values up to that point, on the same days.
pub proof fn law_cumulative(points: Seq<(i32, i32)>, i: int)
    requires
        0 <= i < points.len(),
    ensures
        cumulative_points(points).len() == points.len(),
        cumulative_points(points)[i].0 == points[i].0,
        cumulative_points(points)[i].1 == wrap(running_total(points, (i + 1) as nat)),
        i == 0 ==> cumulative_points(points)[i].1 == points[i].1,
        i > 0 ==> cumulative_points(points)[i].1 == wrap(
            cumulative_points(points)[i - 1].1 + points[i].1,
        ),
{
    lemma_wrap_sum(points[0].1 as int, 0);
    assert(running_total(points, 1) == running_total(points, 0) + points[0].1);
    if i > 0 {
        lemma_wrap_sum(running_total(points, i as nat), points[i].1 as int);
    }
}

} // verus!
