//! The command line: which command is meant, `export` (Markdown) and `notify` (desktop
//! notifications for due reminders, meant to be run by a timer).

use vstd::prelude::*;

use crate::date::{
    clock_text, date_of_text, day_in_range, earlier, earlier_in_range, long_date, moment, Date,
    DateTime,
};
use crate::model::{Store, StoreV};
use crate::pages::{task_views, PageV};
use crate::task::{Priority, Task, TaskV};
use crate::text::{
    join, joined, lines, lines_of, owned, parse_unsigned, quote, quoted, same, texts, trim_back,
    trim_end, unsigned,
};

verus! {

/// How the program is used.
pub const USAGE: &'static str = "tui-do-list — a daily to-do list for the terminal

USAGE
    tui-do-list                       open the TUI
    tui-do-list export [RANGE] [--show-hidden]
                                    print tasks as Markdown
    tui-do-list notify [--window S]   desktop-notify reminders due in the last S seconds
    tui-do-list --help | --version

EXPORT RANGE
    --day [YYYY-MM-DD]   one day (default: today)
    --week               the last 7 days
    --all                everything
    --show-hidden        include the real text of hidden tasks

ENVIRONMENT
    TUI_DO_LIST_FILE        data file (single list; overrides `lists` in the config)
    TUI_DO_LIST_CONFIG      config file (default: ~/.config/tui-do-list/config.toml)
";

// --- commands ------------------------------------------------------------------

/// What the program is asked to do.
#[derive(Debug, Clone, Copy, PartialEq, Eq, Structural)]
pub enum Command {
    /// Open the task list.
    Open,
    Export,
    Notify,
    Help,
    Version,
    Unknown,
}

/// The command that the first argument stands for; without arguments the task list is opened.
pub open spec fn command_of(args: Seq<Seq<char>>) -> Command {
    if args.len() == 0 {
        Command::Open
    } else if args[0] == "export"@ {
        Command::Export
    } else if args[0] == "notify"@ {
        Command::Notify
    } else if args[0] == "-h"@ || args[0] == "--help"@ || args[0] == "help"@ {
        Command::Help
    } else if args[0] == "-V"@ || args[0] == "--version"@ {
        Command::Version
    } else {
        Command::Unknown
    }
}

/// The command that the first argument stands for.
pub fn parse_command(args: &[String]) -> (r: Command)
    ensures
        r == command_of(texts(args@)),
{
    if args.len() == 0 {
        return Command::Open;
    }
    let first = args[0].as_str();
    assert(texts(args@)[0] == first@);
    if same(first, "export") {
        Command::Export
    } else if same(first, "notify") {
        Command::Notify
    } else if same(first, "-h") || same(first, "--help") || same(first, "help") {
        Command::Help
    } else if same(first, "-V") || same(first, "--version") {
        Command::Version
    } else {
        Command::Unknown
    }
}

/// What is said of a command that does not exist.
pub fn unknown_command(command: &str) -> (r: String)
    ensures
        r@ == "unknown command "@ + quoted(command@) + "\n\n"@ + USAGE@,
{
    let mut out = owned("unknown command ");
    out.push_str(quote(command).as_str());
    out.push_str("\n\n");
    out.push_str(USAGE);
    out
}

// --- arguments of `export` -----------------------------------------------------

/// The days to export.
#[derive(Debug, Clone, Copy, PartialEq, Eq)]
pub enum ExportRange {
    Day(Date),
    Week,
    All,
}

/// The days to export, with the date by its day.
pub ghost enum ExportRangeV {
    Day(int),
    Week,
    All,
}

impl View for ExportRange {
    type V = ExportRangeV;

    open spec fn view(&self) -> ExportRangeV {
        match self {
            ExportRange::Day(date) => ExportRangeV::Day(date@),
            ExportRange::Week => ExportRangeV::Week,
            ExportRange::All => ExportRangeV::All,
        }
    }
}

/// What is wrong with arguments.
#[derive(Debug)]
pub enum ArgsError {
    /// A text that is no date.
    InvalidDate(String),
    /// A text that is no number of seconds.
    InvalidWindow(String),
    /// Arguments of `export` that are not expected, separated by spaces.
    UnexpectedExport(String),
    /// Arguments of `notify` that are not expected, separated by spaces.
    UnexpectedNotify(String),
}

/// What is wrong with arguments, with texts by what they hold.
#[verifier::ext_equal]
pub ghost enum ArgsFault {
    InvalidDate(Seq<char>),
    InvalidWindow(Seq<char>),
    UnexpectedExport(Seq<char>),
    UnexpectedNotify(Seq<char>),
}

impl View for ArgsError {
    type V = ArgsFault;

    open spec fn view(&self) -> ArgsFault {
        match self {
            ArgsError::InvalidDate(text) => ArgsFault::InvalidDate(text@),
            ArgsError::InvalidWindow(text) => ArgsFault::InvalidWindow(text@),
            ArgsError::UnexpectedExport(text) => ArgsFault::UnexpectedExport(text@),
            ArgsError::UnexpectedNotify(text) => ArgsFault::UnexpectedNotify(text@),
        }
    }
}

impl ArgsFault {
    /// What is wrong, in words.
    pub open spec fn text(self) -> Seq<char> {
        match self {
            ArgsFault::InvalidDate(text) => "invalid date "@ + quoted(text)
                + ", expected YYYY-MM-DD"@,
            ArgsFault::InvalidWindow(text) => "invalid --window value "@ + quoted(text),
            ArgsFault::UnexpectedExport(text) => "unexpected export arguments: "@ + text,
            ArgsFault::UnexpectedNotify(text) => "unexpected notify arguments: "@ + text,
        }
    }
}

impl ArgsError {
    /// What is wrong, in words.
    pub fn message(&self) -> (r: String)
        ensures
            r@ == self@.text(),
    {
        match self {
            ArgsError::InvalidDate(text) => {
                let mut out = owned("invalid date ");
                out.push_str(quote(text.as_str()).as_str());
                out.push_str(", expected YYYY-MM-DD");
                out
            },
            ArgsError::InvalidWindow(text) => {
                let mut out = owned("invalid --window value ");
                out.push_str(quote(text.as_str()).as_str());
                out
            },
            ArgsError::UnexpectedExport(text) => {
                let mut out = owned("unexpected export arguments: ");
                out.push_str(text.as_str());
                out
            },
            ArgsError::UnexpectedNotify(text) => {
                let mut out = owned("unexpected notify arguments: ");
                out.push_str(text.as_str());
                out
            },
        }
    }
}

/// The arguments but for those that ask for hidden tasks.
pub open spec fn without_show_hidden(args: Seq<Seq<char>>) -> Seq<Seq<char>> {
    args.filter(|a: Seq<char>| a != "--show-hidden"@)
}

/// The range that a text, read as a date, gives.
pub open spec fn range_of_date(
    text: Seq<char>,
    date: Option<int>,
) -> Result<ExportRangeV, ArgsFault> {
    match date {
        Some(day) => Ok(ExportRangeV::Day(day)),
        None => Err(ArgsFault::InvalidDate(text)),
    }
}

/// The range that the arguments ask for, or what is wrong with them.
pub open spec fn export_range(
    args: Seq<Seq<char>>,
    today: int,
) -> Result<ExportRangeV, ArgsFault> {
    if args.len() == 0 {
        Ok(ExportRangeV::Day(today))
    } else if args.len() == 1 && args[0] == "--day"@ {
        Ok(ExportRangeV::Day(today))
    } else if args.len() == 2 && args[0] == "--day"@ {
        range_of_date(args[1], date_of_text(args[1]))
    } else if args.len() == 1 && args[0] == "--week"@ {
        Ok(ExportRangeV::Week)
    } else if args.len() == 1 && args[0] == "--all"@ {
        Ok(ExportRangeV::All)
    } else {
        Err(ArgsFault::UnexpectedExport(joined(args, " "@)))
    }
}

/// The range that a text, read as a date, gives.
pub fn date_range(text: &str, date: Option<Date>) -> (r: Result<ExportRange, ArgsError>)
    ensures
        match r {
            Ok(range) => range_of_date(text@, crate::task::opt_day(date)) == Ok::<
                ExportRangeV,
                ArgsFault,
            >(range@),
            Err(e) => range_of_date(text@, crate::task::opt_day(date)) == Err::<
                ExportRangeV,
                ArgsFault,
            >(e@),
        },
{
    match date {
        Some(date) => Ok(ExportRange::Day(date)),
        None => Err(ArgsError::InvalidDate(owned(text))),
    }
}

/// The range to export, and whether to show the real text of hidden tasks.
pub fn parse_export_args(
    args: &[String],
    today: Date,
) -> (r: Result<(ExportRange, bool), ArgsError>)
    ensures
        match r {
            Ok((range, show_hidden)) => export_range(without_show_hidden(texts(args@)), today@)
                == Ok::<ExportRangeV, ArgsFault>(range@) && show_hidden == texts(args@).contains(
                "--show-hidden"@,
            ),
            Err(e) => export_range(without_show_hidden(texts(args@)), today@) == Err::<
                ExportRangeV,
                ArgsFault,
            >(e@),
        },
{
    let ghost all = texts(args@);
    let ghost keep = |a: Seq<char>| a != "--show-hidden"@;
    let mut show_hidden = false;
    let mut rest: Vec<String> = Vec::new();
    let mut i: usize = 0;
    proof {
        reveal(Seq::filter);
        assert(texts(rest@) =~= all.take(0).filter(keep));
    }
    while i < args.len()
        invariant
            i <= args@.len(),
            all == texts(args@),
            keep == (|a: Seq<char>| a != "--show-hidden"@),
            texts(rest@) == all.take(i as int).filter(keep),
            show_hidden == all.take(i as int).contains("--show-hidden"@),
        decreases args@.len() - i,
    {
        let arg = args[i].as_str();
        let ghost before = all.take(i as int);
        proof {
            reveal(Seq::filter);
            assert(all[i as int] == arg@);
            assert(all.take(i + 1) =~= before.push(arg@));
            assert(before.push(arg@).drop_last() =~= before);
        }
        if same(arg, "--show-hidden") {
            show_hidden = true;
            assert(before.push(arg@)[i as int] == "--show-hidden"@);
        } else {
            let ghost shorter = rest@;
            rest.push(owned(arg));
            assert(texts(rest@) =~= texts(shorter).push(arg@));
            assert(before.push(arg@).contains("--show-hidden"@) <==> before.contains(
                "--show-hidden"@,
            )) by {
                if before.contains("--show-hidden"@) {
                    let k = choose|k: int| 0 <= k < before.len() && before[k] == "--show-hidden"@;
                    assert(before.push(arg@)[k] == "--show-hidden"@);
                }
            }
        }
        i += 1;
    }
    assert(all.take(all.len() as int) =~= all);
    let ghost left = texts(rest@);
    let range = if rest.len() == 0 {
        ExportRange::Day(today)
    } else {
        assert(left[0] == rest@[0]@);
        if rest.len() == 1 && same(rest[0].as_str(), "--day") {
            ExportRange::Day(today)
        } else if rest.len() == 2 && same(rest[0].as_str(), "--day") {
            let text = rest[1].as_str();
            assert(left[1] == text@);
            match date_range(text, Date::parse(text)) {
                Ok(range) => range,
                Err(e) => {
                    return Err(e);
                },
            }
        } else if rest.len() == 1 && same(rest[0].as_str(), "--week") {
            ExportRange::Week
        } else if rest.len() == 1 && same(rest[0].as_str(), "--all") {
            ExportRange::All
        } else {
            return Err(ArgsError::UnexpectedExport(join(&rest, " ")));
        }
    };
    Ok((range, show_hidden))
}

// --- Markdown ------------------------------------------------------------------

/// What a task's priority adds to its line.
pub open spec fn priority_mark(priority: Priority) -> Seq<char> {
    match priority {
        Priority::High => " **!**"@,
        Priority::Low => " _(low)_"@,
        Priority::Plain => ""@,
    }
}

/// The lines of a note, each on a line of its own, quoted.
pub open spec fn quoted_lines(lines: Seq<Seq<char>>) -> Seq<char>
    decreases lines.len(),
{
    if lines.len() == 0 {
        ""@
    } else {
        quoted_lines(lines.drop_last()) + ("\n  > "@ + lines.last())
    }
}

/// A task as a line of Markdown: its state, text, priority, reminder and repeat setting, with the
/// lines of its note below. A hidden task shows neither text nor note unless that is asked for.
pub open spec fn task_text(t: TaskV, show_hidden: bool) -> Seq<char> {
    let state = if t.done {
        "x"@
    } else {
        " "@
    };
    let remind = match t.remind {
        Some(time) => " ⏰ "@ + clock_text(time),
        None => ""@,
    };
    let repeat = match t.repeat {
        Some(repeat) => " ↻ "@ + repeat.word(),
        None => ""@,
    };
    let note = match t.note {
        Some(note) => if t.hidden && !show_hidden {
            ""@
        } else {
            quoted_lines(lines_of(note))
        },
        None => ""@,
    };
    "- ["@ + state + "] "@ + t.shown(show_hidden) + priority_mark(t.priority) + remind + repeat
        + note
}

/// A task as a line of Markdown.
fn task_line(task: &Task, show_hidden: bool) -> (r: String)
    ensures
        r@ == task_text(task@, show_hidden),
{
    let masked = task.hidden && !show_hidden;
    let mut line = owned("- [");
    line.push_str(
        if task.done {
            "x"
        } else {
            " "
        },
    );
    line.push_str("] ");
    line.push_str(task.shown_text(show_hidden).as_str());
    line.push_str(
        match task.priority {
            Priority::High => " **!**",
            Priority::Low => " _(low)_",
            Priority::Plain => "",
        },
    );
    let mut remind = owned("");
    if let Some(time) = task.remind {
        remind = owned(" ⏰ ");
        remind.push_str(time.text().as_str());
    }
    line.push_str(remind.as_str());
    let mut repeat = owned("");
    if let Some(setting) = task.repeat {
        repeat = owned(" ↻ ");
        repeat.push_str(setting.label());
    }
    line.push_str(repeat.as_str());
    let mut note = owned("");
    if !masked {
        if let Some(text) = &task.note {
            let list = lines(text.as_str());
            let ghost all = texts(list@);
            let mut i: usize = 0;
            assert(all.take(0).len() == 0);
            while i < list.len()
                invariant
                    i <= list@.len(),
                    all == texts(list@),
                    note@ == quoted_lines(all.take(i as int)),
                decreases list@.len() - i,
            {
                assert(all.take(i + 1).drop_last() =~= all.take(i as int));
                assert(all[i as int] == list@[i as int]@);
                let mut quoted_line = owned("\n  > ");
                quoted_line.push_str(list[i].as_str());
                note.push_str(quoted_line.as_str());
                i += 1;
            }
            assert(all.take(all.len() as int) =~= all);
        }
    }
    line.push_str(note.as_str());
    line
}

/// The days of a range in a store.
pub open spec fn dates_of(range: ExportRangeV, today: int, pages: Seq<PageV>) -> Seq<int> {
    match range {
        ExportRangeV::Day(day) => seq![day],
        ExportRangeV::Week => Seq::new(7, |i: int| today - 6 + i),
        ExportRangeV::All => pages.map_values(|page: PageV| page.date),
    }
}

/// The lines of the first `n` tasks behind `out`.
pub open spec fn with_task_lines(
    out: Seq<char>,
    tasks: Seq<TaskV>,
    show_hidden: bool,
    n: int,
) -> Seq<char>
    decreases n,
{
    if n <= 0 {
        out
    } else {
        with_task_lines(out, tasks, show_hidden, n - 1) + task_text(tasks[n - 1], show_hidden)
            + "\n"@
    }
}

/// Whether a day gets a section: one that was asked for by its date, or one with tasks.
pub open spec fn day_shown(store: StoreV, date: int, range: ExportRangeV) -> bool {
    range is Day || store.on(date).len() > 0
}

/// The section of one day behind `out`; a day that is not shown adds nothing.
pub open spec fn with_day_section(
    out: Seq<char>,
    store: StoreV,
    date: int,
    range: ExportRangeV,
    show_hidden: bool,
) -> Seq<char> {
    let tasks = store.on(date);
    let headed = out + "## "@ + long_date(date) + "\n\n"@;
    if !day_shown(store, date, range) {
        out
    } else if tasks.len() == 0 {
        headed + "_No tasks._\n\n"@
    } else {
        with_task_lines(headed, tasks, show_hidden, tasks.len() as int) + "\n"@
    }
}

/// The sections of the first `n` days behind `out`.
pub open spec fn with_day_sections(
    out: Seq<char>,
    store: StoreV,
    dates: Seq<int>,
    range: ExportRangeV,
    show_hidden: bool,
    n: int,
) -> Seq<char>
    decreases n,
{
    if n <= 0 {
        out
    } else {
        with_day_section(
            with_day_sections(out, store, dates, range, show_hidden, n - 1),
            store,
            dates[n - 1],
            range,
            show_hidden,
        )
    }
}

/// Whether any of the first `n` days gets a section.
pub open spec fn any_day_shown(
    store: StoreV,
    dates: Seq<int>,
    range: ExportRangeV,
    n: int,
) -> bool {
    exists|i: int| 0 <= i < n && day_shown(store, #[trigger] dates[i], range)
}

/// The section of one list behind `out`; its name stands above it where there are several.
pub open spec fn with_list_section(
    out: Seq<char>,
    name: Seq<char>,
    store: StoreV,
    several: bool,
    range: ExportRangeV,
    today: int,
    show_hidden: bool,
) -> Seq<char> {
    let named = if several {
        out + "# "@ + name + "\n\n"@
    } else {
        out
    };
    let dates = dates_of(range, today, store.days);
    let n = dates.len() as int;
    let filled = with_day_sections(named, store, dates, range, show_hidden, n);
    if any_day_shown(store, dates, range, n) {
        filled
    } else {
        filled + "_No tasks._\n\n"@
    }
}

/// A named store.
#[verifier::ext_equal]
pub ghost struct NamedStore {
    pub name: Seq<char>,
    pub store: StoreV,
}

/// What named stores hold.
pub open spec fn named_stores(lists: Seq<(String, Store)>) -> Seq<NamedStore> {
    lists.map_values(|l: (String, Store)| NamedStore { name: l.0@, store: l.1@ })
}

/// The sections of the first `n` lists.
pub open spec fn list_sections(
    lists: Seq<NamedStore>,
    range: ExportRangeV,
    today: int,
    show_hidden: bool,
    n: int,
) -> Seq<char>
    decreases n,
{
    if n <= 0 {
        Seq::empty()
    } else {
        with_list_section(
            list_sections(lists, range, today, show_hidden, n - 1),
            lists[n - 1].name,
            lists[n - 1].store,
            lists.len() > 1,
            range,
            today,
            show_hidden,
        )
    }
}

/// The chosen range of every list as Markdown.
pub open spec fn markdown(
    lists: Seq<NamedStore>,
    range: ExportRangeV,
    today: int,
    show_hidden: bool,
) -> Seq<char> {
    trim_back(list_sections(lists, range, today, show_hidden, lists.len() as int)) + "\n"@
}

/// The days of a range in a store.
fn range_dates(range: ExportRange, today: Date, store: &Store) -> (r: Vec<Date>)
    requires
        range@ is Week ==> day_in_range(today@ - 6),
    ensures
        r@.map_values(|d: Date| d@) == dates_of(range@, today@, store@.days),
{
    let mut dates: Vec<Date> = Vec::new();
    match range {
        ExportRange::Day(date) => {
            dates.push(date);
        },
        ExportRange::Week => {
            let last = today.day();
            let mut i: i32 = 0;
            while i < 7
                invariant
                    0 <= i <= 7,
                    dates@.len() == i,
                    last == today@,
                    day_in_range(today@),
                    day_in_range(today@ - 6),
                    forall|k: int| 0 <= k < i ==> (#[trigger] dates@[k])@ == today@ - 6 + k,
                decreases 7 - i,
            {
                dates.push(today.minus_days(6 - i));
                i += 1;
            }
        },
        ExportRange::All => {
            let mut p: usize = 0;
            while p < store.days.len()
                invariant
                    p <= store.days@.len(),
                    dates@.len() == p,
                    forall|k: int| 0 <= k < p ==> (#[trigger] dates@[k])@ == store@.days[k].date,
                decreases store.days@.len() - p,
            {
                dates.push(store.days[p].date);
                p += 1;
            }
        },
    }
    assert(dates@.map_values(|d: Date| d@) =~= dates_of(range@, today@, store@.days));
    dates
}

/// Renders the chosen range of every list as Markdown.
pub fn export_markdown(
    lists: &[(String, Store)],
    range: ExportRange,
    today: Date,
    show_hidden: bool,
) -> (r: String)
    requires
        range@ is Week ==> day_in_range(today@ - 6),
    ensures
        r@ == markdown(named_stores(lists@), range@, today@, show_hidden),
{
    let ghost all = named_stores(lists@);
    let several = lists.len() > 1;
    let mut out = String::new();
    let mut n: usize = 0;
    assert(out@ =~= Seq::<char>::empty());
    while n < lists.len()
        invariant
            n <= lists@.len(),
            all == named_stores(lists@),
            several == (all.len() > 1),
            range@ is Week ==> day_in_range(today@ - 6),
            out@ == list_sections(all, range@, today@, show_hidden, n as int),
        decreases lists@.len() - n,
    {
        let name = lists[n].0.as_str();
        let store = &lists[n].1;
        assert(all[n as int] == (NamedStore { name: name@, store: store@ }));
        if several {
            out.push_str("# ");
            out.push_str(name);
            out.push_str("\n\n");
        }
        let ghost named = out@;
        let list = range_dates(range, today, store);
        let ghost dates = dates_of(range@, today@, store@.days);
        let mut wrote_any = false;
        let mut i: usize = 0;
        while i < list.len()
            invariant
                i <= list@.len(),
                dates == list@.map_values(|d: Date| d@),
                out@ == with_day_sections(named, store@, dates, range@, show_hidden, i as int),
                wrote_any == any_day_shown(store@, dates, range@, i as int),
            decreases list@.len() - i,
        {
            let date = list[i];
            let tasks = store.tasks(date);
            assert(dates[i as int] == date@);
            let asked = match range {
                ExportRange::Day(_) => true,
                _ => false,
            };
            proof {
                let shown = day_shown(store@, dates[i as int], range@);
                assert(any_day_shown(store@, dates, range@, i + 1) == (any_day_shown(
                    store@,
                    dates,
                    range@,
                    i as int,
                ) || shown)) by {
                    if any_day_shown(store@, dates, range@, i + 1) && !shown {
                        let k = choose|k: int|
                            0 <= k < i + 1 && day_shown(store@, #[trigger] dates[k], range@);
                        assert(0 <= k < i && day_shown(store@, dates[k], range@));
                    }
                    if any_day_shown(store@, dates, range@, i as int) {
                        let k = choose|k: int|
                            0 <= k < i && day_shown(store@, #[trigger] dates[k], range@);
                        assert(0 <= k < i + 1 && day_shown(store@, dates[k], range@));
                    }
                }
            }
            if tasks.len() > 0 || asked {
                wrote_any = true;
                out.push_str("## ");
                out.push_str(date.long_text().as_str());
                out.push_str("\n\n");
                if tasks.len() == 0 {
                    out.push_str("_No tasks._\n\n");
                } else {
                    let ghost headed = out@;
                    let ghost on = store@.on(date@);
                    let mut k: usize = 0;
                    while k < tasks.len()
                        invariant
                            k <= tasks@.len(),
                            on == task_views(tasks@),
                            out@ == with_task_lines(headed, on, show_hidden, k as int),
                        decreases tasks@.len() - k,
                    {
                        assert(on[k as int] == tasks@[k as int]@);
                        out.push_str(task_line(&tasks[k], show_hidden).as_str());
                        out.push_str("\n");
                        k += 1;
                    }
                    out.push_str("\n");
                }
            }
            i += 1;
        }
        if !wrote_any {
            out.push_str("_No tasks._\n\n");
        }
        n += 1;
    }
    let mut text = trim_end(out.as_str());
    text.push_str("\n");
    text
}

// --- reminders that are due ----------------------------------------------------

/// Arguments of `notify`: the seconds to look back, or what is wrong with them.
pub open spec fn notify_window(args: Seq<Seq<char>>, default: int) -> Result<int, ArgsFault> {
    if args.len() == 0 {
        Ok(default)
    } else if args.len() == 2 && args[0] == "--window"@ {
        match unsigned(args[1], u64::MAX as nat) {
            Some(n) => Ok(n as int),
            None => Err(ArgsFault::InvalidWindow(args[1])),
        }
    } else {
        Err(ArgsFault::UnexpectedNotify(joined(args, " "@)))
    }
}

/// The seconds to look back for reminders.
pub fn parse_notify_args(args: &Vec<String>, default: u64) -> (r: Result<u64, ArgsError>)
    ensures
        match r {
            Ok(window) => notify_window(texts(args@), default as int) == Ok::<int, ArgsFault>(
                window as int,
            ),
            Err(e) => notify_window(texts(args@), default as int) == Err::<int, ArgsFault>(e@),
        },
{
    if args.len() == 0 {
        return Ok(default);
    }
    assert(texts(args@)[0] == args@[0]@);
    if args.len() == 2 && same(args[0].as_str(), "--window") {
        let text = args[1].as_str();
        assert(texts(args@)[1] == text@);
        match parse_unsigned(text, u64::MAX) {
            Some(n) => Ok(n),
            None => Err(ArgsError::InvalidWindow(owned(text))),
        }
    } else {
        Err(ArgsError::UnexpectedNotify(join(args, " ")))
    }
}

/// Whether a task's reminder on `today` is later than `start` and not later than `now`.
pub open spec fn fell_due(t: TaskV, today: int, start: int, now: int) -> bool {
    !t.done && t.remind is Some && start < moment(today, t.remind->Some_0) && moment(
        today,
        t.remind->Some_0,
    ) <= now
}

/// A task that is due, with the name of its list.
#[verifier::ext_equal]
pub ghost struct Due {
    pub list: Seq<char>,
    pub task: TaskV,
}

/// The tasks of one list that are due.
pub open spec fn due_in(list: NamedStore, today: int, start: int, now: int) -> Seq<Due> {
    list.store.on(today).filter(|t: TaskV| fell_due(t, today, start, now)).map_values(
        |t: TaskV| Due { list: list.name, task: t },
    )
}

/// The tasks of all lists that are due.
pub open spec fn all_due(lists: Seq<NamedStore>, today: int, start: int, now: int) -> Seq<Due>
    decreases lists.len(),
{
    if lists.len() == 0 {
        Seq::empty()
    } else {
        all_due(lists.drop_last(), today, start, now) + due_in(lists.last(), today, start, now)
    }
}

/// What due tasks hold.
pub open spec fn dues(list: Seq<(String, Task)>) -> Seq<Due> {
    list.map_values(|d: (String, Task)| Due { list: d.0@, task: d.1@ })
}

/// Today's unfinished tasks whose reminder time fell in `(now - window, now]`. A window too long
/// for a signed number of seconds takes in every time of the day up to now.
pub fn due_reminders(
    lists: &[(String, Store)],
    now: DateTime,
    window_secs: u64,
) -> (r: Vec<(String, Task)>)
    requires
        window_secs <= i64::MAX ==> earlier_in_range(now.date@, now.time@, window_secs as int),
    ensures
        dues(r@) == all_due(
            named_stores(lists@),
            now.date@,
            earlier(now.date@, now.time@, window_secs as int),
            now@,
        ),
{
    let ghost start = earlier(now.date@, now.time@, window_secs as int);
    let today = now.date;
    let ghost all = named_stores(lists@);
    let mut due: Vec<(String, Task)> = Vec::new();
    let mut n: usize = 0;
    assert(dues(due@) =~= all_due(all.take(0), today@, start, now@));
    while n < lists.len()
        invariant
            n <= lists@.len(),
            all == named_stores(lists@),
            today == now.date,
            start == earlier(now.date@, now.time@, window_secs as int),
            window_secs <= i64::MAX ==> earlier_in_range(
                now.date@,
                now.time@,
                window_secs as int,
            ),
            dues(due@) == all_due(all.take(n as int), today@, start, now@),
        decreases lists@.len() - n,
    {
        let name = lists[n].0.as_str();
        let tasks = lists[n].1.tasks(today);
        let ghost before = dues(due@);
        let ghost on = task_views(tasks@);
        let ghost keep = |t: TaskV| fell_due(t, today@, start, now@);
        let ghost mark = |t: TaskV| Due { list: name@, task: t };
        assert(all.take(n + 1).drop_last() =~= all.take(n as int));
        assert(all[n as int] == (NamedStore { name: name@, store: lists@[n as int].1@ }));
        let mut i: usize = 0;
        proof {
            reveal(Seq::filter);
            assert(before =~= before + on.take(0).filter(keep).map_values(mark));
        }
        while i < tasks.len()
            invariant
                i <= tasks@.len(),
                today == now.date,
                start == earlier(now.date@, now.time@, window_secs as int),
                window_secs <= i64::MAX ==> earlier_in_range(
                    now.date@,
                    now.time@,
                    window_secs as int,
                ),
                on == task_views(tasks@),
                keep == (|t: TaskV| fell_due(t, today@, start, now@)),
                mark == (|t: TaskV| Due { list: name@, task: t }),
                dues(due@) == before + on.take(i as int).filter(keep).map_values(mark),
            decreases tasks@.len() - i,
        {
            let task = &tasks[i];
            proof {
                reveal(Seq::filter);
                assert(on[i as int] == task@);
                assert(on.take(i + 1).drop_last() =~= on.take(i as int));
            }
            if !task.done {
                if let Some(remind) = task.remind {
                    let at = DateTime { date: today, time: remind };
                    if now.reaches_back_to(window_secs, at) && !now.before(at) {
                        let ghost shorter = due@;
                        due.push((owned(name), task.clone()));
                        proof {
                            let new = Due { list: name@, task: task@ };
                            assert(dues(due@) =~= dues(shorter).push(new));
                            assert(dues(due@) =~= before + on.take(i + 1).filter(keep).map_values(
                                mark,
                            ));
                        }
                    }
                }
            }
            i += 1;
        }
        assert(on.take(on.len() as int) =~= on);
        n += 1;
    }
    assert(all.take(all.len() as int) =~= all);
    due
}

/// The first line of a notification: when the reminder was set for, and the task's text, masked
/// where the task is hidden.
pub open spec fn summary_text(t: TaskV) -> Seq<char> {
    let time = match t.remind {
        Some(time) => clock_text(time),
        None => ""@,
    };
    "⏰ "@ + time + " — "@ + t.shown(false)
}

/// The rest of a notification: the note, unless the task is hidden, and the name of the list where
/// there are several.
pub open spec fn body_text(list: Seq<char>, t: TaskV, several: bool) -> Seq<char> {
    let note = if t.hidden {
        None
    } else {
        t.note
    };
    match note {
        Some(note) => if several {
            note + "\n["@ + list + "]"@
        } else {
            note
        },
        None => if several {
            "["@ + list + "]"@
        } else {
            ""@
        },
    }
}

/// The summary and the body of the notification for a due task.
pub fn notification(list: &str, task: &Task, several: bool) -> (r: (String, String))
    ensures
        r.0@ == summary_text(task@),
        r.1@ == body_text(list@, task@, several),
{
    let time = match task.remind {
        Some(time) => time.text(),
        None => owned(""),
    };
    let mut summary = owned("⏰ ");
    summary.push_str(time.as_str());
    summary.push_str(" — ");
    summary.push_str(task.shown_text(false).as_str());
    let body = match &task.note {
        Some(note) if !task.hidden => {
            let mut out = owned(note.as_str());
            if several {
                out.push_str("\n[");
                out.push_str(list);
                out.push_str("]");
            }
            out
        },
        _ => {
            if several {
                let mut out = owned("[");
                out.push_str(list);
                out.push_str("]");
                out
            } else {
                owned("")
            }
        },
    };
    (summary, body)
}

} // verus!
