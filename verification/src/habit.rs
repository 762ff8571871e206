//! Habits: a name, a kind, and the progress recorded day by day.

use vstd::prelude::*;
use vstd::string::StringExecFns;
use crate::bits::{bit_set, flag, flag_of, is_set, lemma_wrapping_is_wrap, wrap};
use crate::day::{date_text, today, valid_day_number, Day};
use crate::text::{decimal, decimal_text, digits_text, error_of, fails_with};
use crate::progress::{
    added, lemma_put, put, touched, value_on, well_formed, Entries, Progress,
};

verus! {

/// Most objectives that a checklist can hold: one for each bit of a day's value.
pub const MAX_OBJECTIVES: usize = 32;

/// The kind of a habit, fixed when the habit is created.
#[derive(Clone, Debug)]
pub enum HabitType {
    /// A list of named objectives; objective `i` is bit `i` of a day's value.
    Checklist { objectives: Vec<String> },
    /// A counter: a day's value is an arbitrary signed integer.
    Numerical,
}

impl HabitType {
    /// Whether this is a checklist.
    pub open spec fn is_checklist(&self) -> bool {
        self is Checklist
    }

    /// The objectives' names in order; none for a numerical habit.
    pub open spec fn objectives(&self) -> Seq<Seq<char>> {
        match self {
            HabitType::Checklist { objectives } => objectives.deep_view(),
            HabitType::Numerical => Seq::empty(),
        }
    }

    /// The invariant of the type: a checklist has a bit for each objective.
    pub open spec fn wf(&self) -> bool {
        self.objectives().len() <= MAX_OBJECTIVES
    }

    /// The numerical kind.
    pub fn numerical() -> (r: HabitType)
        ensures
            r == HabitType::Numerical,
            r.wf(),
    {
        HabitType::Numerical
    }

    /// The checklist kind with the given objectives.
    pub fn checklist(objectives: Vec<String>) -> (r: HabitType)
        requires
            objectives.len() <= MAX_OBJECTIVES,
        ensures
            r == (HabitType::Checklist { objectives }),
            r.wf(),
    {
        HabitType::Checklist { objectives }
    }
}

/// The mathematical model of a habit.
pub struct HabitView {
    /// The habit's name.
    pub name: Seq<char>,
    /// Whether the habit is a checklist.
    pub checklist: bool,
    /// The objectives' names in order; empty for a numerical habit.
    pub objectives: Seq<Seq<char>>,
    /// The recorded progress, in ascending order of day.
    pub entries: Entries,
}

impl HabitView {
    /// What holds of the model of every habit: the entries are well formed, each
    /// objective has a bit, and only a checklist has objectives.
    pub open spec fn valid(self) -> bool {
        &&& well_formed(self.entries)
        &&& self.objectives.len() <= MAX_OBJECTIVES
        &&& !self.checklist ==> self.objectives.len() == 0
    }

    /// The model with other entries.
    pub open spec fn with_entries(self, entries: Entries) -> HabitView {
        HabitView { entries, ..self }
    }
}

/// A habit with its recorded progress.
#[derive(Clone, Debug)]
pub struct Habit {
    progress: Progress,
    name: String,
    habit_type: HabitType,
}

impl View for Habit {
    type V = HabitView;

    closed spec fn view(&self) -> HabitView {
        HabitView {
            name: self.name@,
            checklist: self.habit_type.is_checklist(),
            objectives: self.habit_type.objectives(),
            entries: self.progress@,
        }
    }
}

/// The index of the first occurrence of `name` in `names`; the length of `names`
/// where it does not occur.
pub open spec fn first_index(names: Seq<Seq<char>>, name: Seq<char>) -> int
    decreases names.len(),
{
    if names.len() == 0 || names[0] == name {
        0
    } else {
        1 + first_index(names.drop_first(), name)
    }
}

/// `first_index` is the least index that holds `name`.
pub proof fn lemma_first_index(names: Seq<Seq<char>>, name: Seq<char>)
    ensures
        0 <= first_index(names, name) <= names.len(),
        first_index(names, name) < names.len() ==> names[first_index(names, name)] == name,
        forall|i: int| 0 <= i < first_index(names, name) ==> names[i] != name,
        first_index(names, name) < names.len() <==> names.contains(name),
    decreases names.len(),
{
    if names.len() == 0 || names[0] == name {
    } else {
        let rest = names.drop_first();
        lemma_first_index(rest, name);
        let k = first_index(rest, name);
        assert forall|i: int| 0 <= i < 1 + k implies names[i] != name by {
            if i > 0 {
                assert(names[i] == rest[i - 1]);
            }
        }
        if k < rest.len() {
            assert(names[1 + k] == rest[k]);
        }
        if names.contains(name) {
            let j = choose|j: int| 0 <= j < names.len() && names[j] == name;
            assert(rest[j - 1] == name);
            assert(rest.contains(name));
        }
    }
}

/// The message for an objective that the habit does not have.
pub open spec fn unknown_objective_message(objective: Seq<char>, name: Seq<char>) -> Seq<char> {
    "Objective '"@ + objective + "' does not exist in "@ + name + "."@
}

/// The message for marking an objective as what it already is.
pub open spec fn already_marked_message(objective: Seq<char>, finished: bool) -> Seq<char> {
    "Objective '"@ + objective + "' already marked as "@ + (if finished {
        "finished"@
    } else {
        "unfinished"@
    }) + "."@
}

/// The message for marking an objective of a habit that is no checklist.
pub open spec fn not_a_checklist_message(name: Seq<char>) -> Seq<char> {
    name + " is not a checklist habit."@
}

/// The message for a clock that gives no day of the calendar.
pub open spec fn no_day_message() -> Seq<char> {
    "The current day lies outside the calendar."@
}

/// What is added to a day's value to mark objective `index`: its flag to finish
/// it, the negated flag to unfinish it.
pub open spec fn mark_delta(index: int, finished: bool) -> i32 {
    if finished {
        flag(index as nat)
    } else {
        wrap(-flag(index as nat))
    }
}

/// The error, if any, with which marking `objective` on `day` fails.
pub open spec fn mark_error(h: HabitView, day: int, objective: Seq<char>, finished: bool) -> Option<
    Seq<char>,
> {
    let index = first_index(h.objectives, objective);
    if !h.checklist {
        Some(not_a_checklist_message(h.name))
    } else if !h.objectives.contains(objective) {
        Some(unknown_objective_message(objective, h.name))
    } else if bit_set(value_on(h.entries, day), index as nat) == finished {
        Some(already_marked_message(objective, finished))
    } else {
        None
    }
}

/// The habit after an attempt to mark `objective` on `day`. Where the habit is
/// no checklist or does not have the objective, nothing changes. Otherwise the
/// day gets an entry, and where the objective is not yet in the wanted state its
/// flag is added or subtracted.
pub open spec fn marked(h: HabitView, day: int, objective: Seq<char>, finished: bool) -> HabitView {
    let index = first_index(h.objectives, objective);
    if !h.checklist || !h.objectives.contains(objective) {
        h
    } else if bit_set(value_on(h.entries, day), index as nat) == finished {
        h.with_entries(touched(h.entries, day))
    } else {
        h.with_entries(added(touched(h.entries, day), day, mark_delta(index, finished)))
    }
}

/// Number of entries among the first `upto` of `entries` whose value has bit
/// `index` set: on how many of those days the objective was finished.
pub open spec fn times_completed(entries: Entries, index: nat, upto: nat) -> nat
    decreases upto,
{
    if upto == 0 {
        0
    } else {
        times_completed(entries, index, (upto - 1) as nat) + if bit_set(
            entries[upto - 1].1,
            index,
        ) {
            1nat
        } else {
            0nat
        }
    }
}

/// One line of a summary: a line break and a tab, the label, a colon and a
/// space, and the decimal text of the number.
pub open spec fn summary_line(label: Seq<char>, number: int) -> Seq<char> {
    "\n\t"@ + label + ": "@ + decimal(number)
}

/// The lines of the first `n` objectives of a checklist: for each, the line of
/// its name and the number of recorded days on which it was finished.
pub open spec fn objective_lines(h: HabitView, n: nat) -> Seq<char>
    decreases n,
{
    if n == 0 {
        Seq::empty()
    } else {
        objective_lines(h, (n - 1) as nat) + summary_line(
            h.objectives[n - 1],
            times_completed(h.entries, (n - 1) as nat, h.entries.len()) as int,
        )
    }
}

/// The lines of the first `n` entries of a log: for each, the line of the
/// day's date and the day's value.
pub open spec fn entry_lines(entries: Entries, n: nat) -> Seq<char>
    decreases n,
{
    if n == 0 {
        Seq::empty()
    } else {
        entry_lines(entries, (n - 1) as nat) + summary_line(
            date_text(entries[n - 1].0),
            entries[n - 1].1 as int,
        )
    }
}

/// The summary of a habit: its name and a colon, then a line for each objective
/// of a checklist, or a line for each recorded day of a numerical habit, from
/// the earliest day to the latest.
pub open spec fn display_text(h: HabitView) -> Seq<char> {
    h.name + ": "@ + if h.checklist {
        objective_lines(h, h.objectives.len())
    } else {
        entry_lines(h.entries, h.entries.len())
    }
}

/// Whether `after` and `error` are what marking `objective` on `day` makes of
/// `before`.
pub open spec fn marks(
    before: HabitView,
    after: HabitView,
    error: Option<Seq<char>>,
    day: int,
    objective: Seq<char>,
    finished: bool,
) -> bool {
    &&& after == marked(before, day, objective, finished)
    &&& error == mark_error(before, day, objective, finished)
}

/// The line of a recorded day in the summary of a numerical habit, from the
/// day's date as text and its value.
pub fn entry_line(date: &str, value: i32) -> (r: String)
    ensures
        r@ == summary_line(date@, value as int),
{
    let mut line = String::from_str("\n\t");
    line.append(date);
    line.append(": ");
    line.append(decimal_text(value as i64).as_str());
    line
}

/// The line of an objective in the summary of a checklist, from its name and
/// the number of days on which it was finished.
pub fn objective_line(objective: &str, count: usize) -> (r: String)
    ensures
        r@ == summary_line(objective@, count as int),
{
    let mut line = String::from_str("\n\t");
    line.append(objective);
    line.append(": ");
    line.append(digits_text(count as u64).as_str());
    line
}

/// Whether `after` and `error` are what marking `objective` on the day that the
/// clock gives makes of `before`. Where the habit is no checklist or does not
/// have the objective, that is the error and nothing changes, whatever the
/// clock says; otherwise the mark is made on some day, or the clock gives none.
pub open spec fn marks_now(
    before: HabitView,
    after: HabitView,
    error: Option<Seq<char>>,
    objective: Seq<char>,
    finished: bool,
) -> bool {
    if !before.checklist {
        after == before && error == Some(not_a_checklist_message(before.name))
    } else if !before.objectives.contains(objective) {
        after == before && error == Some(unknown_objective_message(objective, before.name))
    } else {
        ||| exists|day: int|
            valid_day_number(day) && #[trigger] marks(
                before,
                after,
                error,
                day,
                objective,
                finished,
            )
        ||| after == before && error == Some(no_day_message())
    }
}

impl Habit {
    /// The invariant of the type: the model is valid.
    pub open spec fn wf(&self) -> bool {
        self@.valid()
    }

    /// A habit without recorded progress.
    pub fn new(name: &str, habit_type: HabitType) -> (r: Habit)
        requires
            habit_type.wf(),
        ensures
            r.wf(),
            r@ == (HabitView {
                name: name@,
                checklist: habit_type.is_checklist(),
                objectives: habit_type.objectives(),
                entries: Seq::empty(),
            }),
    {
        Habit { progress: Progress::new(), name: String::from_str(name), habit_type }
    }

    /// The habit's name.
    pub fn name(&self) -> (r: &str)
        ensures
            r@ == self@.name,
    {
        self.name.as_str()
    }

    /// The habit's kind.
    pub fn habit_type(&self) -> (r: &HabitType)
        ensures
            r.is_checklist() == self@.checklist,
            r.objectives() == self@.objectives,
            self.wf() ==> r.wf(),
    {
        &self.habit_type
    }

    /// Number of days with an entry.
    pub fn days_recorded(&self) -> (r: usize)
        ensures
            r == self@.entries.len(),
    {
        self.progress.len()
    }

    /// The entry at index `i`, counted from the earliest day: the day and its value.
    pub fn entry(&self, i: usize) -> (r: (Day, i32))
        requires
            self.wf(),
            i < self@.entries.len(),
        ensures
            r.0@ == self@.entries[i as int].0,
            r.1 == self@.entries[i as int].1,
    {
        self.progress.entry(i)
    }

    /// Sets the value of `day`, creating the entry where there is none.
    pub fn set_progress(&mut self, day: Day, value: i32)
        requires
            old(self).wf(),
        ensures
            final(self).wf(),
            final(self)@ == old(self)@.with_entries(put(old(self)@.entries, day@, value)),
    {
        self.progress.set(day, value);
    }

    /// The value recorded for `day`; 0 where nothing was recorded.
    pub fn progress_on(&self, day: Day) -> (r: i32)
        requires
            self.wf(),
        ensures
            r == value_on(self@.entries, day@),
    {
        self.progress.value(day)
    }

    /// Adds `progress` to the value of `day`, wrapping around at 32 bits.
    pub fn add_progress_on(&mut self, day: Day, progress: i32)
        requires
            old(self).wf(),
        ensures
            final(self).wf(),
            final(self)@ == old(self)@.with_entries(added(old(self)@.entries, day@, progress)),
    {
        self.progress.add(day, progress);
    }

    /// Adds `progress` to the value of the current habit day. Fails, and changes
    /// nothing, where the clock gives no day.
    pub fn add_progress(&mut self, progress: i32) -> (r: Result<(), String>)
        requires
            old(self).wf(),
        ensures
            final(self).wf(),
            r is Ok ==> exists|day: int|
                valid_day_number(day) && final(self)@ == old(self)@.with_entries(
                    #[trigger] added(old(self)@.entries, day, progress),
                ),
            r is Err ==> fails_with(r, no_day_message()) && final(self)@ == old(self)@,
    {
        match today() {
            Some(day) => {
                self.add_progress_on(day, progress);
                Ok(())
            },
            None => Err(String::from_str("The current day lies outside the calendar.")),
        }
    }

    /// The index of the first objective named `objective`; the number of
    /// objectives where there is none, and 0 for a numerical habit.
    pub fn objective_index(&self, objective: &str) -> (r: usize)
        ensures
            r == first_index(self@.objectives, objective@),
            r <= self@.objectives.len(),
    {
        proof {
            lemma_first_index(self@.objectives, objective@);
        }
        match &self.habit_type {
            HabitType::Checklist { objectives } => {
                let wanted = String::from_str(objective);
                let mut i: usize = 0;
                while i < objectives.len() && !(objectives[i] == wanted)
                    invariant
                        i <= objectives.len(),
                        wanted@ == objective@,
                        objectives.deep_view() == self@.objectives,
                        forall|j: int| 0 <= j < i ==> self@.objectives[j] != objective@,
                    decreases objectives.len() - i,
                {
                    i += 1;
                }
                proof {
                    let k = first_index(self@.objectives, objective@);
                    if i < objectives.len() {
                        assert(self@.objectives[i as int] == objective@);
                    }
                    assert(k == i);
                }
                i
            },
            HabitType::Numerical => 0,
        }
    }

    /// The message for marking an objective of this habit, which is no checklist.
    fn not_a_checklist(&self) -> (r: String)
        ensures
            r@ == not_a_checklist_message(self@.name),
    {
        let mut message = String::from_str(self.name.as_str());
        message.append(" is not a checklist habit.");
        message
    }

    /// The message for an objective that this habit does not have.
    fn unknown_objective(&self, objective: &str) -> (r: String)
        ensures
            r@ == unknown_objective_message(objective@, self@.name),
    {
        let mut message = String::from_str("Objective '");
        message.append(objective);
        message.append("' does not exist in ");
        message.append(self.name.as_str());
        message.append(".");
        message
    }

    /// Marks `objective` as finished or unfinished on `day`. Fails where the
    /// habit is no checklist, where it has no such objective, and where the
    /// objective already is what it is to become.
    pub fn mark_objective_on(&mut self, day: Day, objective: &str, finished: bool) -> (r: Result<
        (),
        String,
    >)
        requires
            old(self).wf(),
        ensures
            final(self).wf(),
            marks(old(self)@, final(self)@, error_of(r), day@, objective@, finished),
            !old(self)@.checklist || !old(self)@.objectives.contains(objective@) ==> r is Err
                && final(self)@ == old(self)@,
    {
        proof {
            lemma_first_index(self@.objectives, objective@);
        }
        if !self.is_checklist() {
            return Err(self.not_a_checklist());
        }
        let index = self.objective_index(objective);
        if index == self.objective_count() {
            return Err(self.unknown_objective(objective));
        }
        let ghost before = self@.entries;
        self.progress.touch(day);
        proof {
            lemma_put(before, day@, value_on(before, day@));
        }
        let current = self.progress.value(day);
        if is_set(current, index) == finished {
            let mut message = String::from_str("Objective '");
            message.append(objective);
            message.append("' already marked as ");
            message.append(if finished { "finished" } else { "unfinished" });
            message.append(".");
            return Err(message);
        }
        let flag = flag_of(index);
        let delta = if finished { flag } else { 0i32.wrapping_sub(flag) };
        proof {
            lemma_wrapping_is_wrap(0i32, flag);
        }
        self.progress.add(day, delta);
        Ok(())
    }

    /// Whether the habit is a checklist.
    pub fn is_checklist(&self) -> (r: bool)
        ensures
            r == self@.checklist,
    {
        match &self.habit_type {
            HabitType::Checklist { .. } => true,
            HabitType::Numerical => false,
        }
    }

    /// Number of objectives; 0 for a numerical habit.
    pub fn objective_count(&self) -> (r: usize)
        ensures
            r == self@.objectives.len(),
    {
        match &self.habit_type {
            HabitType::Checklist { objectives } => objectives.len(),
            HabitType::Numerical => 0,
        }
    }

    /// Marks `objective` as finished or unfinished on the current habit day.
    /// Fails as `mark_objective_on` does, and where the clock gives no day. That
    /// the habit is no checklist, or does not have the objective, is found
    /// before the clock is read.
    pub fn mark_objective(&mut self, objective: &str, finished: bool) -> (r: Result<(), String>)
        requires
            old(self).wf(),
        ensures
            final(self).wf(),
            marks_now(old(self)@, final(self)@, error_of(r), objective@, finished),
            !old(self)@.checklist ==> fails_with(r, not_a_checklist_message(old(self)@.name)),
            old(self)@.checklist && !old(self)@.objectives.contains(objective@) ==> fails_with(
                r,
                unknown_objective_message(objective@, old(self)@.name),
            ),
            !old(self)@.checklist || !old(self)@.objectives.contains(objective@) ==> final(self)@
                == old(self)@,
    {
        proof {
            lemma_first_index(self@.objectives, objective@);
        }
        if !self.is_checklist() {
            return Err(self.not_a_checklist());
        }
        if self.objective_index(objective) == self.objective_count() {
            return Err(self.unknown_objective(objective));
        }
        match today() {
            Some(day) => {
                let r = self.mark_objective_on(day, objective, finished);
                assert(marks(old(self)@, self@, error_of(r), day@, objective@, finished));
                r
            },
            None => Err(String::from_str("The current day lies outside the calendar.")),
        }
    }

    /// On how many recorded days objective `index` was finished.
    pub fn times_completed(&self, index: usize) -> (r: usize)
        requires
            self.wf(),
        ensures
            r == times_completed(self@.entries, index as nat, self@.entries.len()),
    {
        let mut count: usize = 0;
        let mut i: usize = 0;
        while i < self.progress.len()
            invariant
                self.wf(),
                i <= self.progress@.len(),
                count <= i,
                count == times_completed(self@.entries, index as nat, i as nat),
            decreases self.progress@.len() - i,
        {
            let entry = self.progress.entry(i);
            if is_set(entry.1, index) {
                count += 1;
            }
            i += 1;
        }
        count
    }

    /// A summary of the habit for people to read.
    pub fn display(&self) -> (r: String)
        requires
            self.wf(),
        ensures
            r@ == display_text(self@),
    {
        let mut result = String::from_str(self.name.as_str());
        result.append(": ");
        match &self.habit_type {
            HabitType::Checklist { objectives } => {
                let mut i: usize = 0;
                while i < objectives.len()
                    invariant
                        self.wf(),
                        i <= objectives.len(),
                        self@.checklist,
                        objectives.deep_view() == self@.objectives,
                        result@ == self@.name + ": "@ + objective_lines(self@, i as nat),
                    decreases objectives.len() - i,
                {
                    let count = self.times_completed(i);
                    result.append(objective_line(objectives[i].as_str(), count).as_str());
                    proof {
                        assert(objectives[i as int]@ == self@.objectives[i as int]);
                        assert(result@ =~= self@.name + ": "@ + objective_lines(
                            self@,
                            (i + 1) as nat,
                        ));
                    }
                    i += 1;
                }
            },
            HabitType::Numerical => {
                let mut i: usize = 0;
                while i < self.progress.len()
                    invariant
                        self.wf(),
                        i <= self.progress@.len(),
                        !self@.checklist,
                        result@ == self@.name + ": "@ + entry_lines(self@.entries, i as nat),
                    decreases self.progress@.len() - i,
                {
                    let entry = self.progress.entry(i);
                    result.append(entry_line(entry.0.text().as_str(), entry.1).as_str());
                    proof {
                        assert(result@ =~= self@.name + ": "@ + entry_lines(
                            self@.entries,
                            (i + 1) as nat,
                        ));
                    }
                    i += 1;
                }
            },
        }
        result
    }
}

} // verus!
