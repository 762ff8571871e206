//! The command line: which command a list of arguments asks for, and what
//! carrying it out does to the store.

use vstd::prelude::*;
use vstd::string::StringExecFns;
use crate::day::{Span, MAX_DELTA_DAYS, SECONDS_PER_DAY};
use crate::habit::{Habit, HabitType, HabitView, MAX_OBJECTIVES};
use crate::plot::Chart;
use crate::store::{
    adds_in, all_wf, create, list, list_text, mark_objective, marks_now_in, plot, plots_in,
    views,
};
use crate::text::{error_of, fails_with, with_text};

verus! {

/// What `i32::from_str_radix` with radix 10 makes of a text: the number, or the
/// text of its error.
pub uninterp spec fn decimal_i32(text: Seq<char>) -> Result<i32, Seq<char>>;

/// What `i64::from_str_radix` with radix 10 makes of a text: the number, or the
/// text of its error.
pub uninterp spec fn decimal_i64(text: Seq<char>) -> Result<i64, Seq<char>>;

/// `i32::from_str_radix` with radix 10: the number that the text spells, or the
/// error's own text where it spells none that fits. The outcome depends on the
/// text alone.
#[verifier::external_body]
fn parse_i32(text: &str) -> (r: Result<i32, String>)
    ensures
        with_text(r) == decimal_i32(text@),
{
    match i32::from_str_radix(text, 10) {
        Ok(n) => Ok(n),
        Err(e) => Err(e.to_string()),
    }
}

/// `i64::from_str_radix` with radix 10: the number that the text spells, or the
/// error's own text where it spells none that fits. The outcome depends on the
/// text alone.
#[verifier::external_body]
fn parse_i64(text: &str) -> (r: Result<i64, String>)
    ensures
        with_text(r) == decimal_i64(text@),
{
    match i64::from_str_radix(text, 10) {
        Ok(n) => Ok(n),
        Err(e) => Err(e.to_string()),
    }
}

/// A command of the command line.
#[derive(Clone, Debug)]
pub enum Command {
    /// No command was given: show the usage text and leave the store file alone.
    Usage,
    /// Show the usage text.
    Help,
    /// Show every habit.
    List,
    /// Append a new habit.
    Create { name: String, habit_type: HabitType },
    /// Add to a habit's value of the current day.
    Add { name: String, progress: i32 },
    /// Finish or unfinish an objective of a checklist.
    Mark { name: String, objective: String, finished: bool },
    /// Plot a habit's last days.
    Plot { name: String, days: i64 },
}

/// Why a list of arguments is no command.
#[derive(Clone, Debug)]
pub struct Rejection {
    /// The message for the user.
    pub message: String,
    /// Whether the usage text is shown before the message.
    pub show_help: bool,
}

/// The mathematical model of a command, or of its rejection.
pub enum Parsed {
    Usage,
    Help,
    List,
    Create { name: Seq<char>, checklist: bool, objectives: Seq<Seq<char>> },
    Add { name: Seq<char>, progress: i32 },
    Mark { name: Seq<char>, objective: Seq<char>, finished: bool },
    Plot { name: Seq<char>, days: i64 },
    Rejected { message: Seq<char>, show_help: bool },
}

impl View for Command {
    type V = Parsed;

    open spec fn view(&self) -> Parsed {
        match self {
            Command::Usage => Parsed::Usage,
            Command::Help => Parsed::Help,
            Command::List => Parsed::List,
            Command::Create { name, habit_type } => Parsed::Create {
                name: name@,
                checklist: habit_type.is_checklist(),
                objectives: habit_type.objectives(),
            },
            Command::Add { name, progress } => Parsed::Add { name: name@, progress: *progress },
            Command::Mark { name, objective, finished } => Parsed::Mark {
                name: name@,
                objective: objective@,
                finished: *finished,
            },
            Command::Plot { name, days } => Parsed::Plot { name: name@, days: *days },
        }
    }
}

impl View for Rejection {
    type V = Parsed;

    open spec fn view(&self) -> Parsed {
        Parsed::Rejected { message: self.message@, show_help: self.show_help }
    }
}

impl Command {
    /// The invariant of the type: the kind of a habit to create is valid.
    pub open spec fn wf(&self) -> bool {
        match self {
            Command::Create { name, habit_type } => habit_type.wf(),
            _ => true,
        }
    }
}

/// A rejection without the usage text.
pub open spec fn refused(message: Seq<char>) -> Parsed {
    Parsed::Rejected { message, show_help: false }
}

/// Number of days that are plotted where the arguments give none.
pub const DEFAULT_PLOT_DAYS: i64 = 7;

/// What is added where the arguments give no amount.
pub const DEFAULT_PROGRESS: i32 = 1;

/// What the arguments after `create` ask for.
pub open spec fn parsed_create(args: Seq<Seq<char>>) -> Parsed {
    if args.len() < 3 {
        refused("Please enter the name of the habit you want to create."@)
    } else if args.len() == 3 || args[3] == "n"@ || args[3] == "numerical"@ {
        Parsed::Create { name: args[2], checklist: false, objectives: Seq::empty() }
    } else if args[3] == "c"@ || args[3] == "checklist"@ {
        if args.len() - 4 > MAX_OBJECTIVES {
            refused("A checklist can have at most 32 objectives."@)
        } else {
            Parsed::Create {
                name: args[2],
                checklist: true,
                objectives: args.subrange(4, args.len() as int),
            }
        }
    } else {
        refused(
            "'"@ + args[3] + "' is not a type of habit. Please enter n(umerical) or c(hecklist)"@,
        )
    }
}

/// The command to add what a text spells to the habit named `name`, or the
/// rejection where the text spells no number.
pub open spec fn add_of(name: Seq<char>, amount: Result<i32, Seq<char>>) -> Parsed {
    match amount {
        Ok(progress) => Parsed::Add { name, progress },
        Err(message) => refused(message),
    }
}

/// The command to plot as many days as a text spells of the habit named
/// `name`, or the rejection where the text spells no number.
pub open spec fn plot_of(name: Seq<char>, amount: Result<i64, Seq<char>>) -> Parsed {
    match amount {
        Ok(days) => Parsed::Plot { name, days },
        Err(message) => refused(message),
    }
}

/// What the arguments after `add` ask for.
pub open spec fn parsed_add(args: Seq<Seq<char>>) -> Parsed {
    if args.len() < 3 {
        refused("Please enter the name of the habit you want to add to."@)
    } else if args.len() == 3 {
        Parsed::Add { name: args[2], progress: DEFAULT_PROGRESS }
    } else {
        add_of(args[2], decimal_i32(args[3]))
    }
}

/// What the arguments after `finish` or `unfinish` ask for.
pub open spec fn parsed_mark(args: Seq<Seq<char>>, finished: bool) -> Parsed {
    if args.len() < 3 {
        refused(
            "Please enter the name of the habit you want to "@ + (if finished {
                "finish"@
            } else {
                "unfinish"@
            }) + "."@,
        )
    } else if args.len() < 4 {
        refused("Please enter the objective of the habit you want to change."@)
    } else {
        Parsed::Mark { name: args[2], objective: args[3], finished }
    }
}

/// What the arguments after `plot` ask for.
pub open spec fn parsed_plot(args: Seq<Seq<char>>) -> Parsed {
    if args.len() < 3 {
        refused("Please enter the name of the habit you want to plot."@)
    } else if args.len() == 3 {
        Parsed::Plot { name: args[2], days: DEFAULT_PLOT_DAYS }
    } else {
        plot_of(args[2], decimal_i64(args[3]))
    }
}

/// What a list of arguments asks for; the first of them is the program's name.
pub open spec fn parsed(args: Seq<Seq<char>>) -> Parsed {
    if args.len() < 2 {
        Parsed::Usage
    } else if args[1] == "h"@ || args[1] == "help"@ {
        Parsed::Help
    } else if args[1] == "l"@ || args[1] == "list"@ {
        Parsed::List
    } else if args[1] == "c"@ || args[1] == "create"@ {
        parsed_create(args)
    } else if args[1] == "a"@ || args[1] == "add"@ {
        parsed_add(args)
    } else if args[1] == "f"@ || args[1] == "finish"@ {
        parsed_mark(args, true)
    } else if args[1] == "unf"@ || args[1] == "unfinish"@ {
        parsed_mark(args, false)
    } else if args[1] == "p"@ || args[1] == "plot"@ {
        parsed_plot(args)
    } else {
        Parsed::Rejected {
            message: "Didn't understand command '"@ + args[1] + ".'"@,
            show_help: true,
        }
    }
}

fn is(text: &String, word: &str) -> (r: bool)
    ensures
        r == (text@ == word@),
{
    *text == String::from_str(word)
}

fn refuse(message: String) -> (r: Result<Command, Rejection>)
    ensures
        r matches Err(rejection) && rejection@ == refused(message@),
{
    Err(Rejection { message, show_help: false })
}

/// The command to add `amount` to the habit named `name`, where `amount` is
/// what came of reading the amount's text: the number, or why it is none.
pub fn add_command(name: String, amount: Result<i32, String>) -> (r: Result<Command, Rejection>)
    ensures
        accounts(r, add_of(name@, with_text(amount))),
{
    match amount {
        Ok(progress) => Ok(Command::Add { name, progress }),
        Err(message) => refuse(message),
    }
}

/// The command to plot `amount` days of the habit named `name`, where `amount`
/// is what came of reading the number's text: the number, or why it is none.
pub fn plot_command(name: String, amount: Result<i64, String>) -> (r: Result<Command, Rejection>)
    ensures
        accounts(r, plot_of(name@, with_text(amount))),
{
    match amount {
        Ok(days) => Ok(Command::Plot { name, days }),
        Err(message) => refuse(message),
    }
}

fn parse_create(args: &Vec<String>) -> (r: Result<Command, Rejection>)
    requires
        args.len() >= 2,
    ensures
        accounts(r, parsed_create(args.deep_view())),
{
    if args.len() < 3 {
        return refuse(String::from_str("Please enter the name of the habit you want to create."));
    }
    let name = args[2].clone();
    if args.len() == 3 || is(&args[3], "n") || is(&args[3], "numerical") {
        return Ok(Command::Create { name, habit_type: HabitType::numerical() });
    }
    if is(&args[3], "c") || is(&args[3], "checklist") {
        if args.len() - 4 > MAX_OBJECTIVES {
            return refuse(String::from_str("A checklist can have at most 32 objectives."));
        }
        let mut objectives: Vec<String> = Vec::new();
        let mut i: usize = 4;
        while i < args.len()
            invariant
                4 <= i <= args.len(),
                objectives@.len() == i - 4,
                forall|k: int| 0 <= k < objectives@.len() ==> objectives@[k]@ == args@[k + 4]@,
            decreases args.len() - i,
        {
            objectives.push(args[i].clone());
            i += 1;
        }
        proof {
            assert(objectives.deep_view() =~= args.deep_view().subrange(4, args.len() as int));
        }
        return Ok(Command::Create { name, habit_type: HabitType::checklist(objectives) });
    }
    let mut message = String::from_str("'");
    message.append(args[3].as_str());
    message.append("' is not a type of habit. Please enter n(umerical) or c(hecklist)");
    refuse(message)
}

fn parse_add(args: &Vec<String>) -> (r: Result<Command, Rejection>)
    requires
        args.len() >= 2,
    ensures
        accounts(r, parsed_add(args.deep_view())),
{
    if args.len() < 3 {
        return refuse(String::from_str("Please enter the name of the habit you want to add to."));
    }
    let name = args[2].clone();
    if args.len() == 3 {
        return Ok(Command::Add { name, progress: DEFAULT_PROGRESS });
    }
    add_command(name, parse_i32(args[3].as_str()))
}

fn parse_mark(args: &Vec<String>, finished: bool) -> (r: Result<Command, Rejection>)
    requires
        args.len() >= 2,
    ensures
        accounts(r, parsed_mark(args.deep_view(), finished)),
{
    if args.len() < 3 {
        let mut message = String::from_str("Please enter the name of the habit you want to ");
        message.append(if finished { "finish" } else { "unfinish" });
        message.append(".");
        return refuse(message);
    }
    if args.len() < 4 {
        return refuse(
            String::from_str("Please enter the objective of the habit you want to change."),
        );
    }
    Ok(Command::Mark { name: args[2].clone(), objective: args[3].clone(), finished })
}

fn parse_plot(args: &Vec<String>) -> (r: Result<Command, Rejection>)
    requires
        args.len() >= 2,
    ensures
        accounts(r, parsed_plot(args.deep_view())),
{
    if args.len() < 3 {
        return refuse(String::from_str("Please enter the name of the habit you want to plot."));
    }
    let name = args[2].clone();
    if args.len() == 3 {
        return Ok(Command::Plot { name, days: DEFAULT_PLOT_DAYS });
    }
    plot_command(name, parse_i64(args[3].as_str()))
}

/// Whether `r` is the command, or the rejection, that `wanted` describes.
pub open spec fn accounts(r: Result<Command, Rejection>, wanted: Parsed) -> bool {
    match r {
        Ok(command) => command@ == wanted && command.wf(),
        Err(rejection) => rejection@ == wanted,
    }
}

/// The command that a list of arguments asks for; the first argument is the
/// program's name.
pub fn parse(args: &Vec<String>) -> (r: Result<Command, Rejection>)
    ensures
        accounts(r, parsed(args.deep_view())),
{
    if args.len() < 2 {
        return Ok(Command::Usage);
    }
    let word = &args[1];
    if is(word, "h") || is(word, "help") {
        Ok(Command::Help)
    } else if is(word, "l") || is(word, "list") {
        Ok(Command::List)
    } else if is(word, "c") || is(word, "create") {
        parse_create(args)
    } else if is(word, "a") || is(word, "add") {
        parse_add(args)
    } else if is(word, "f") || is(word, "finish") {
        parse_mark(args, true)
    } else if is(word, "unf") || is(word, "unfinish") {
        parse_mark(args, false)
    } else if is(word, "p") || is(word, "plot") {
        parse_plot(args)
    } else {
        let mut message = String::from_str("Didn't understand command '");
        message.append(word.as_str());
        message.append(".'");
        Err(Rejection { message, show_help: true })
    }
}

/// What carrying out a command leaves to be done outside the store.
#[derive(Clone, Debug)]
pub enum Outcome {
    /// Nothing.
    Done,
    /// A text is to be shown as it is.
    Show { text: String },
    /// A text is to be shown as it is, and the store is not to be saved.
    ShowOnly { text: String },
    /// A chart is to be drawn into a file.
    Draw { file: String, chart: Chart },
}

/// The usage text.
pub open spec fn usage_text() -> Seq<char> {
    "
habit_tracker:

    h(elp):
Print this message.

    l(ist):
List all habits in the database.

    c(reate) name [type] [objective 1]...:
Creates a habit. Type can be c(hecklist) or n(umerical). If a checklist habit, the objectives must be specified. Default numerical.

    a(dd) name [progress]:
Adds progress to a habit. Progress defaults to 1.

    f(inish) name objective:
Finishes an objective of a checklist habit.

    unf(inish) name objective:
Unfinishes an objective of a checklist habit.

    p(lot) name [days]:
Plots the progress of the habit over the past [days] days. Days defaults to 7. Saves the graph at graphs/[name].png
"@
}

/// The usage text.
pub fn help() -> (r: &'static str)
    ensures
        r@ == usage_text(),
{
    "
habit_tracker:

    h(elp):
Print this message.

    l(ist):
List all habits in the database.

    c(reate) name [type] [objective 1]...:
Creates a habit. Type can be c(hecklist) or n(umerical). If a checklist habit, the objectives must be specified. Default numerical.

    a(dd) name [progress]:
Adds progress to a habit. Progress defaults to 1.

    f(inish) name objective:
Finishes an objective of a checklist habit.

    unf(inish) name objective:
Unfinishes an objective of a checklist habit.

    p(lot) name [days]:
Plots the progress of the habit over the past [days] days. Days defaults to 7. Saves the graph at graphs/[name].png
"
}

/// The file into which the chart of the habit named `name` is drawn.
pub open spec fn chart_file(name: Seq<char>) -> Seq<char> {
    "graphs/"@ + name + ".png"@
}

/// The message for a number of days that no span of time holds.
pub open spec fn no_span_message() -> Seq<char> {
    "The number of days is out of range."@
}

/// The chart of `r`, or its failure.
pub open spec fn chart_of(r: Result<Outcome, String>) -> Result<Chart, Seq<char>> {
    match r {
        Ok(Outcome::Draw { file, chart }) => Ok(chart),
        Ok(_) => Err(Seq::empty()),
        Err(e) => Err(e@),
    }
}

/// Whether `r` succeeds with `text` to be shown.
pub open spec fn shows(r: Result<Outcome, String>, text: Seq<char>) -> bool {
    match r {
        Ok(Outcome::Show { text: shown }) => shown@ == text,
        _ => false,
    }
}

/// Whether `r` succeeds with `text` to be shown and the store not to be saved.
pub open spec fn shows_only(r: Result<Outcome, String>, text: Seq<char>) -> bool {
    match r {
        Ok(Outcome::ShowOnly { text: shown }) => shown@ == text,
        _ => false,
    }
}

/// Whether `r`, where it succeeds, leaves nothing to be done.
pub open spec fn done_if_ok(r: Result<Outcome, String>) -> bool {
    match r {
        Ok(Outcome::Done) => true,
        Ok(_) => false,
        Err(_) => true,
    }
}

/// Whether `r`, where it succeeds, asks for a drawing into `file`.
pub open spec fn draws_if_ok(r: Result<Outcome, String>, file: Seq<char>) -> bool {
    match r {
        Ok(Outcome::Draw { file: named, chart }) => named@ == file,
        Ok(_) => false,
        Err(_) => true,
    }
}

/// Whether `after` and `r` are what carrying out `command` makes of the store
/// `before`.
pub open spec fn executes(
    before: Seq<HabitView>,
    after: Seq<HabitView>,
    r: Result<Outcome, String>,
    command: Parsed,
) -> bool {
    match command {
        Parsed::Usage => after == before && shows_only(r, usage_text() + "\n"@),
        Parsed::Help => after == before && shows(r, usage_text() + "\n"@),
        Parsed::List => after == before && shows(r, list_text(before, before.len())),
        Parsed::Create { name, checklist, objectives } => {
            &&& after == before.push(HabitView { name, checklist, objectives, entries: Seq::empty() })
            &&& r is Ok
            &&& done_if_ok(r)
        },
        Parsed::Add { name, progress } => {
            &&& adds_in(before, after, error_of(r), name, progress)
            &&& done_if_ok(r)
        },
        Parsed::Mark { name, objective, finished } => {
            &&& marks_now_in(before, after, error_of(r), name, objective, finished)
            &&& done_if_ok(r)
        },
        Parsed::Plot { name, days } => {
            &&& after == before
            &&& if -MAX_DELTA_DAYS <= days <= MAX_DELTA_DAYS {
                &&& plots_in(before, chart_of(r), name, days * SECONDS_PER_DAY, false)
                &&& draws_if_ok(r, chart_file(name))
            } else {
                fails_with(r, no_span_message())
            }
        },
        Parsed::Rejected { message, show_help } => after == before && fails_with(r, message),
    }
}

/// Carries out a command on the store, and says what is left to be done.
pub fn execute(habits: &mut Vec<Habit>, command: Command) -> (r: Result<Outcome, String>)
    requires
        all_wf(old(habits)@),
        command.wf(),
    ensures
        all_wf(final(habits)@),
        executes(views(old(habits)@), views(final(habits)@), r, command@),
{
    let ghost before = views(habits@);
    let ghost wanted = command@;
    match command {
        Command::Usage => Ok(Outcome::ShowOnly { text: String::from_str(help()).concat("\n") }),
        Command::Help => Ok(Outcome::Show { text: String::from_str(help()).concat("\n") }),
        Command::List => Ok(Outcome::Show { text: list(habits) }),
        Command::Create { name, habit_type } => {
            create(habits, name.as_str(), habit_type);
            Ok(Outcome::Done)
        },
        Command::Add { name, progress } => {
            let done = crate::store::add(habits, name.as_str(), progress);
            let ghost seen = done;
            let r = match done {
                Ok(_) => Ok(Outcome::Done),
                Err(e) => Err(e),
            };
            assert(error_of(r) == error_of(seen));
            assert(executes(before, views(habits@), r, wanted));
            r
        },
        Command::Mark { name, objective, finished } => {
            let done = mark_objective(habits, name.as_str(), objective.as_str(), finished);
            let ghost seen = done;
            let r = match done {
                Ok(_) => Ok(Outcome::Done),
                Err(e) => Err(e),
            };
            assert(error_of(r) == error_of(seen));
            assert(executes(before, views(habits@), r, wanted));
            r
        },
        Command::Plot { name, days } => {
            let in_last = match Span::days(days) {
                Some(span) => span,
                None => {
                    return Err(String::from_str("The number of days is out of range."));
                },
            };
            let plotted = plot(habits, name.as_str(), in_last, false);
            let ghost seen = plotted;
            let r = match plotted {
                Ok(chart) => {
                    let mut file = String::from_str("graphs/");
                    file.append(name.as_str());
                    file.append(".png");
                    Ok(Outcome::Draw { file, chart })
                },
                Err(e) => Err(e),
            };
            assert(chart_of(r) == with_text(seen));
            assert(executes(before, views(habits@), r, wanted));
            r
        },
    }
}

} // verus!
