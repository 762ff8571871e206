//! The store: the habits in the order in which they were created. A habit is
//! looked up by its name, and among habits of one name the first is found.

use vstd::prelude::*;
use vstd::string::StringExecFns;
use crate::day::{days_from_to, today, valid_day_number, Day, Span};
use crate::habit::{
    display_text, marks, marks_now, no_day_message, Habit, HabitType, HabitView,
};
use crate::text::{error_of, fails_with, with_text};
use crate::plot::{charts, charts_some_window, no_window_message, Chart};
use crate::progress::added;

verus! {

/// The models of the habits of a store, in order.
pub open spec fn views(habits: Seq<Habit>) -> Seq<HabitView> {
    Seq::new(habits.len(), |i: int| habits[i]@)
}

/// Every habit of the store is valid.
pub open spec fn all_wf(habits: Seq<Habit>) -> bool {
    forall|i: int| 0 <= i < habits.len() ==> (#[trigger] habits[i]).wf()
}

/// The index of the first habit named `name`; the number of habits where there
/// is none.
pub open spec fn find_index(habits: Seq<HabitView>, name: Seq<char>) -> int
    decreases habits.len(),
{
    if habits.len() == 0 || habits[0].name == name {
        0
    } else {
        1 + find_index(habits.drop_first(), name)
    }
}

/// `find_index` is the least index of a habit named `name`.
pub proof fn lemma_find_index(habits: Seq<HabitView>, name: Seq<char>)
    ensures
        0 <= find_index(habits, name) <= habits.len(),
        find_index(habits, name) < habits.len() ==> habits[find_index(habits, name)].name == name,
        forall|i: int| 0 <= i < find_index(habits, name) ==> habits[i].name != name,
    decreases habits.len(),
{
    if habits.len() == 0 || habits[0].name == name {
    } else {
        let rest = habits.drop_first();
        lemma_find_index(rest, name);
        let k = find_index(rest, name);
        assert forall|i: int| 0 <= i < 1 + k implies habits[i].name != name by {
            if i > 0 {
                assert(habits[i] == rest[i - 1]);
            }
        }
        if k < rest.len() {
            assert(habits[1 + k] == rest[k]);
        }
    }
}

/// An index below which no habit is named `name`, and which holds one that is
/// or is the number of habits, is `find_index`.
pub proof fn lemma_find_index_is(habits: Seq<HabitView>, name: Seq<char>, i: int)
    requires
        0 <= i <= habits.len(),
        forall|j: int| 0 <= j < i ==> habits[j].name != name,
        i < habits.len() ==> habits[i].name == name,
    ensures
        find_index(habits, name) == i,
{
    lemma_find_index(habits, name);
}

/// The message for a name that no habit has.
pub open spec fn missing_habit_message(name: Seq<char>) -> Seq<char> {
    "Habit "@ + name + " doesn't seem to exist."@
}

fn missing_habit(name: &str) -> (r: String)
    ensures
        r@ == missing_habit_message(name@),
{
    let mut message = String::from_str("Habit ");
    message.append(name);
    message.append(" doesn't seem to exist.");
    message
}

/// The index of the first habit named `name`, if there is one.
pub fn find(habits: &Vec<Habit>, name: &str) -> (r: Option<usize>)
    ensures
        r is Some <==> find_index(views(habits@), name@) < habits@.len(),
        r matches Some(i) ==> i == find_index(views(habits@), name@),
{
    let wanted = String::from_str(name);
    let mut i: usize = 0;
    while i < habits.len()
        invariant
            i <= habits.len(),
            wanted@ == name@,
            forall|j: int| 0 <= j < i ==> views(habits@)[j].name != name@,
        decreases habits.len() - i,
    {
        if String::from_str(habits[i].name()) == wanted {
            proof {
                lemma_find_index_is(views(habits@), name@, i as int);
            }
            return Some(i);
        }
        i += 1;
    }
    proof {
        lemma_find_index_is(views(habits@), name@, i as int);
    }
    None
}

/// Appends a new habit without progress. A name that is already taken is not
/// refused: the new habit is then never found by its name.
pub fn create(habits: &mut Vec<Habit>, name: &str, habit_type: HabitType)
    requires
        all_wf(old(habits)@),
        habit_type.wf(),
    ensures
        all_wf(final(habits)@),
        views(final(habits)@) == views(old(habits)@).push(
            HabitView {
                name: name@,
                checklist: habit_type.is_checklist(),
                objectives: habit_type.objectives(),
                entries: Seq::empty(),
            },
        ),
{
    let ghost before = habits@;
    habits.push(Habit::new(name, habit_type));
    proof {
        assert forall|i: int| 0 <= i < habits@.len() implies (#[trigger] habits@[i]).wf() by {
            if i < before.len() {
                assert(habits@[i] == before[i]);
            }
        }
        assert(views(habits@) =~= views(before).push(habits@[before.len() as int]@));
    }
}

/// The summaries of all habits, each followed by a line break.
pub open spec fn list_text(habits: Seq<HabitView>, n: nat) -> Seq<char>
    decreases n,
{
    if n == 0 {
        Seq::empty()
    } else {
        list_text(habits, (n - 1) as nat) + display_text(habits[n - 1]) + "\n"@
    }
}

/// The summaries of all habits in order, each followed by a line break.
pub fn list(habits: &Vec<Habit>) -> (r: String)
    requires
        all_wf(habits@),
    ensures
        r@ == list_text(views(habits@), habits@.len()),
{
    let mut result = String::new();
    let mut i: usize = 0;
    while i < habits.len()
        invariant
            i <= habits.len(),
            all_wf(habits@),
            result@ == list_text(views(habits@), i as nat),
        decreases habits.len() - i,
    {
        result.append(habits[i].display().as_str());
        result.append("\n");
        proof {
            assert(result@ =~= list_text(views(habits@), (i + 1) as nat));
        }
        i += 1;
    }
    result
}

/// The store after `progress` was added to the value that the first habit
/// named `name` has on `day`; the store itself where no habit has that name.
pub open spec fn added_to(habits: Seq<HabitView>, name: Seq<char>, day: int, progress: i32) -> Seq<
    HabitView,
> {
    let i = find_index(habits, name);
    if i < habits.len() {
        habits.update(i, habits[i].with_entries(added(habits[i].entries, day, progress)))
    } else {
        habits
    }
}

/// Adds `progress` to the value that the first habit named `name` has on
/// `day`. Fails, and changes nothing, where no habit has that name.
pub fn add_on(habits: &mut Vec<Habit>, name: &str, day: Day, progress: i32) -> (r: Result<
    (),
    String,
>)
    requires
        all_wf(old(habits)@),
    ensures
        all_wf(final(habits)@),
        views(final(habits)@) == added_to(views(old(habits)@), name@, day@, progress),
        r is Ok <==> find_index(views(old(habits)@), name@) < old(habits)@.len(),
        r is Err ==> fails_with(r, missing_habit_message(name@)),
{
    match find(habits, name) {
        None => Err(missing_habit(name)),
        Some(i) => {
            let ghost before = habits@;
            habits[i].add_progress_on(day, progress);
            proof {
                assert(views(habits@) =~= added_to(views(before), name@, day@, progress));
            }
            Ok(())
        },
    }
}

/// Whether `after` and `error` are what adding `progress` to the first habit named
/// `name`, on the day that the clock gives, makes of the store `before`.
pub open spec fn adds_in(
    before: Seq<HabitView>,
    after: Seq<HabitView>,
    error: Option<Seq<char>>,
    name: Seq<char>,
    progress: i32,
) -> bool {
    if find_index(before, name) >= before.len() {
        after == before && error == Some(missing_habit_message(name))
    } else {
        match error {
            None => exists|day: int|
                valid_day_number(day) && after == #[trigger] added_to(before, name, day, progress),
            Some(e) => after == before && e == no_day_message(),
        }
    }
}

/// Adds `progress` to the value that the first habit named `name` has on the
/// current habit day. Fails, and changes nothing, where no habit has that name
/// or the clock gives no day.
pub fn add(habits: &mut Vec<Habit>, name: &str, progress: i32) -> (r: Result<(), String>)
    requires
        all_wf(old(habits)@),
    ensures
        all_wf(final(habits)@),
        adds_in(views(old(habits)@), views(final(habits)@), error_of(r), name@, progress),
{
    if find(habits, name).is_none() {
        return Err(missing_habit(name));
    }
    match today() {
        Some(day) => {
            add_on(habits, name, day, progress)
        },
        None => Err(String::from_str("The current day lies outside the calendar.")),
    }
}

/// Whether `after` and `error` are what marking `objective` of the first habit
/// named `name` on `day` makes of the store `before`.
pub open spec fn marks_in(
    before: Seq<HabitView>,
    after: Seq<HabitView>,
    error: Option<Seq<char>>,
    name: Seq<char>,
    day: int,
    objective: Seq<char>,
    finished: bool,
) -> bool {
    let i = find_index(before, name);
    if i < before.len() {
        &&& after.len() == before.len()
        &&& marks(before[i], after[i], error, day, objective, finished)
        &&& after == before.update(i, after[i])
    } else {
        &&& after == before
        &&& error == Some(missing_habit_message(name))
    }
}

/// Marks `objective` of the first habit named `name` as finished or unfinished
/// on `day`. Fails where no habit has that name, and where the habit refuses.
pub fn mark_objective_on(
    habits: &mut Vec<Habit>,
    name: &str,
    day: Day,
    objective: &str,
    finished: bool,
) -> (r: Result<(), String>)
    requires
        all_wf(old(habits)@),
    ensures
        all_wf(final(habits)@),
        marks_in(
            views(old(habits)@),
            views(final(habits)@),
            error_of(r),
            name@,
            day@,
            objective@,
            finished,
        ),
{
    match find(habits, name) {
        None => Err(missing_habit(name)),
        Some(i) => {
            let ghost before = habits@;
            let r = habits[i].mark_objective_on(day, objective, finished);
            proof {
                assert(views(habits@) =~= views(before).update(i as int, habits@[i as int]@));
            }
            r
        },
    }
}

/// Whether `after` and `error` are what marking `objective` of the first habit
/// named `name`, on the day that the clock gives, makes of the store `before`:
/// no habit but that one changes, and it changes as `marks_now` says.
pub open spec fn marks_now_in(
    before: Seq<HabitView>,
    after: Seq<HabitView>,
    error: Option<Seq<char>>,
    name: Seq<char>,
    objective: Seq<char>,
    finished: bool,
) -> bool {
    let i = find_index(before, name);
    if i >= before.len() {
        after == before && error == Some(missing_habit_message(name))
    } else {
        &&& after.len() == before.len()
        &&& marks_now(before[i], after[i], error, objective, finished)
        &&& after == before.update(i, after[i])
    }
}

/// Marks `objective` of the first habit named `name` as finished or unfinished
/// on the current habit day. Fails where no habit has that name, where the clock
/// gives no day, and where the habit refuses.
pub fn mark_objective(habits: &mut Vec<Habit>, name: &str, objective: &str, finished: bool) -> (r:
    Result<(), String>)
    requires
        all_wf(old(habits)@),
    ensures
        all_wf(final(habits)@),
        marks_now_in(
            views(old(habits)@),
            views(final(habits)@),
            error_of(r),
            name@,
            objective@,
            finished,
        ),
{
    match find(habits, name) {
        None => Err(missing_habit(name)),
        Some(i) => {
            let ghost before = habits@;
            let r = habits[i].mark_objective(objective, finished);
            proof {
                assert(views(habits@) =~= views(before).update(i as int, habits@[i as int]@));
            }
            r
        },
    }
}

/// The chart of the first habit named `name` for the days from `start` to
/// `end`. Fails where no habit has that name.
pub fn plot_between(habits: &Vec<Habit>, name: &str, start: Day, end: Day, cumulative: bool) -> (r:
    Result<Chart, String>)
    requires
        all_wf(habits@),
    ensures
        r is Ok <==> find_index(views(habits@), name@) < habits@.len(),
        r matches Ok(chart) ==> charts(
            views(habits@)[find_index(views(habits@), name@)],
            chart,
            days_from_to(start@, end@),
            cumulative,
        ),
        r is Err ==> fails_with(r, missing_habit_message(name@)),
{
    match find(habits, name) {
        None => Err(missing_habit(name)),
        Some(i) => Ok(habits[i].plot_between(start, end, cumulative)),
    }
}

/// Whether `r` is what plotting the first habit named `name`, for the window
/// that the clock gives, comes to.
pub open spec fn plots_in(
    habits: Seq<HabitView>,
    r: Result<Chart, Seq<char>>,
    name: Seq<char>,
    span: int,
    cumulative: bool,
) -> bool {
    let i = find_index(habits, name);
    if i >= habits.len() {
        r == Err::<Chart, Seq<char>>(missing_habit_message(name))
    } else {
        match r {
            Ok(chart) => charts_some_window(habits[i], chart, span, cumulative),
            Err(e) => e == no_window_message(),
        }
    }
}

/// The chart of the first habit named `name` for the window that reaches
/// `in_last` back from the current habit day. Fails where no habit has that
/// name, and where the clock gives no day for either end of the window.
pub fn plot(habits: &Vec<Habit>, name: &str, in_last: Span, cumulative: bool) -> (r: Result<
    Chart,
    String,
>)
    requires
        all_wf(habits@),
    ensures
        plots_in(views(habits@), with_text(r), name@, in_last@, cumulative),
{
    match find(habits, name) {
        None => {
            let r: Result<Chart, String> = Err(missing_habit(name));
            assert(with_text(r) == Err::<Chart, Seq<char>>(missing_habit_message(name@)));
            r
        },
        Some(i) => {
            assert(views(habits@)[i as int] == habits@[i as int]@);
            let r = habits[i].plot(in_last, cumulative);
            r
        },
    }
}

} // verus!
