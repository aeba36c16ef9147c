//! The main screen: header, task list, note panel, input line, footer and key reference. It is
//! made up here as styled text; drawing it is left to the caller.

use vstd::prelude::*;

use crate::app::{day_order, visible_order, App, AppV, Mode, ModeV};
use crate::date::{clock_text, long_date, Date, Time};
use crate::editor::Target;
use crate::keymap::keys_text;
use crate::keys::{Action, ACTIONS};
use crate::model::{Store, StoreV};
use crate::pages::task_views;
use crate::query::{done_count, earliest, indices};
use crate::style::{
    line_view, lines_view, new_line, no_lines, put, put_line, raw, styled, Span, SpanV, Style,
};
use crate::task::{opt_text, Priority, Task, TaskV};
use crate::text::{decimal, join, joined, lines, lines_of, owned, str_texts, texts, to_decimal};
use crate::theme::Theme;

verus! {

// --- header --------------------------------------------------------------------

/// Where a day lies, seen from `today`.
pub open spec fn relative_text(date: int, today: int) -> Seq<char> {
    let n = date - today;
    if n == 0 {
        "Today"@
    } else if n == -1 {
        "Yesterday"@
    } else if n == 1 {
        "Tomorrow"@
    } else if n < 0 {
        decimal((-n) as nat) + " days ago"@
    } else {
        "+"@ + decimal(n as nat) + " days"@
    }
}

/// Where a day lies, seen from `today`.
pub fn relative_label(date: Date, today: Date) -> (r: String)
    ensures
        r@ == relative_text(date@, today@),
{
    let n = date.days_since(today);
    if n == 0 {
        owned("Today")
    } else if n == -1 {
        owned("Yesterday")
    } else if n == 1 {
        owned("Tomorrow")
    } else if n < 0 {
        let mut out = to_decimal((-n) as u64);
        out.push_str(" days ago");
        out
    } else {
        let mut out = owned("+");
        out.push_str(to_decimal(n as u64).as_str());
        out.push_str(" days");
        out
    }
}

impl AppV {
    /// The names of the lists in the header, where there are several.
    pub open spec fn header_lists(self) -> Seq<SpanV> {
        let names = self.list_names();
        if names.len() > 1 {
            seq![
                styled("  ["@ + names[0] + "]"@, Style::bold_color(self.theme.accent)),
                styled(" "@ + joined(names.drop_first(), " "@), Style::in_dim()),
            ]
        } else {
            Seq::empty()
        }
    }

    /// A reminder as the header shows it.
    pub open spec fn reminder_span(self, t: TaskV, word: Seq<char>, style: Style) -> SpanV {
        let time = match t.remind {
            Some(time) => clock_text(time),
            None => ""@,
        };
        styled("   ⏰ "@ + word + " "@ + time + " "@ + t.shown(self.reveal), style)
    }

    /// Today's overdue reminder in the header, or else the next one.
    pub open spec fn header_reminder(self) -> Seq<SpanV> {
        let tasks = self.store.on(self.today);
        if self.date != self.today {
            Seq::empty()
        } else {
            match earliest(tasks, self.now, true) {
                Some(i) => seq![
                    self.reminder_span(
                        tasks[i],
                        "overdue"@,
                        Style::bold_color(self.theme.overdue),
                    ),
                ],
                None => match earliest(tasks, self.now, false) {
                    Some(i) => seq![
                        self.reminder_span(tasks[i], "next"@, Style::in_color(self.theme.reminder)),
                    ],
                    None => Seq::empty(),
                },
            }
        }
    }

    /// The header: the day in view, the lists, whether the tasks are sorted, the keys to get
    /// around with, and today's reminder.
    pub open spec fn header(self) -> Seq<SpanV> {
        let label = if self.date == self.today {
            Style::bold_color(self.theme.today)
        } else {
            Style::in_color(self.theme.other_day)
        };
        let day = seq![
            styled(" "@ + long_date(self.date), Style::in_bold()),
            raw(" · "@),
            styled(relative_text(self.date, self.today), label),
        ];
        let sorting = if self.sorted {
            seq![styled("  ⇅ sorted"@, Style::in_dim())]
        } else {
            Seq::empty()
        };
        let keys = seq![
            styled(
                "   "@ + self.first_key(Action::PrevDay) + "/"@ + self.first_key(Action::NextDay)
                    + " days · "@ + self.first_key(Action::Today) + " today"@,
                Style::in_dim(),
            ),
        ];
        day + self.header_lists() + sorting + keys + self.header_reminder()
    }
}

impl App {
    /// A reminder as the header shows it.
    fn put_reminder(&self, line: &mut Vec<Span>, task: &Task, word: &str, style: Style)
        ensures
            line_view(final(line)@) == line_view(old(line)@).push(
                self@.reminder_span(task@, word@, style),
            ),
    {
        let time = match task.remind {
            Some(time) => time.text(),
            None => owned(""),
        };
        let mut text = owned("   ⏰ ");
        text.push_str(word);
        text.push_str(" ");
        text.push_str(time.as_str());
        text.push_str(" ");
        text.push_str(self.display_text(task).as_str());
        put(line, text.as_str(), style);
    }

    /// The header.
    pub fn header(&self) -> (r: Vec<Span>)
        ensures
            line_view(r@) == self@.header(),
    {
        let theme = &self.theme;
        let is_today = self.date.is(self.today);
        let mut line = new_line();
        let mut text = owned(" ");
        text.push_str(self.date.long_text().as_str());
        put(&mut line, text.as_str(), Style::bold());
        put(&mut line, " · ", Style::plain());
        let label = relative_label(self.date, self.today);
        let style = if is_today {
            Style::strong(theme.today)
        } else {
            Style::color(theme.other_day)
        };
        put(&mut line, label.as_str(), style);
        let ghost day = line_view(line@);

        let names = self.list_names();
        assert(str_texts(names@).len() == names@.len());
        if names.len() > 1 {
            assert(self@.list_names()[0] == names@[0]@);
            let mut text = owned("  [");
            text.push_str(names[0]);
            text.push_str("]");
            put(&mut line, text.as_str(), Style::strong(theme.accent));
            let mut others: Vec<String> = Vec::new();
            let mut i: usize = 1;
            while i < names.len()
                invariant
                    1 <= i <= names@.len(),
                    others@.len() == i - 1,
                    forall|k: int| 0 <= k < i - 1 ==> (#[trigger] others@[k])@ == names@[k + 1]@,
                decreases names@.len() - i,
            {
                others.push(owned(names[i]));
                i += 1;
            }
            assert(texts(others@) =~= self@.list_names().drop_first()) by {
                assert forall|k: int| 0 <= k < others@.len() implies texts(others@)[k]
                    == self@.list_names().drop_first()[k] by {
                    assert(others@[k]@ == names@[k + 1]@);
                    assert(str_texts(names@)[k + 1] == names@[k + 1]@);
                }
            }
            let mut text = owned(" ");
            text.push_str(join(&others, " ").as_str());
            put(&mut line, text.as_str(), Style::dim());
        }
        let ghost with_lists = line_view(line@);
        assert(with_lists =~= day + self@.header_lists());

        if self.sorted {
            put(&mut line, "  ⇅ sorted", Style::dim());
        }
        let mut text = owned("   ");
        text.push_str(self.first_key(Action::PrevDay).as_str());
        text.push_str("/");
        text.push_str(self.first_key(Action::NextDay).as_str());
        text.push_str(" days · ");
        text.push_str(self.first_key(Action::Today).as_str());
        text.push_str(" today");
        put(&mut line, text.as_str(), Style::dim());
        let ghost with_keys = line_view(line@);

        // Reminders only make sense against the real clock, i.e. for today.
        if is_today {
            let (overdue, upcoming) = self.store.reminders(self.today, self.now);
            if let Some(task) = overdue {
                self.put_reminder(&mut line, task, "overdue", Style::strong(theme.overdue));
            } else if let Some(task) = upcoming {
                self.put_reminder(&mut line, task, "next", Style::color(theme.reminder));
            }
        }
        assert(line_view(line@) =~= with_keys + self@.header_reminder());
        assert(line_view(line@) =~= self@.header());
        line
    }
}

// --- the task list -------------------------------------------------------------

/// What stands before a task's text: its priority.
pub open spec fn marker(priority: Priority, theme: Theme) -> SpanV {
    match priority {
        Priority::High => styled("! "@, Style::bold_color(theme.high)),
        Priority::Low => styled("· "@, Style::in_color(theme.low)),
        Priority::Plain => raw("  "@),
    }
}

/// How a task's text looks.
pub open spec fn text_style(t: TaskV, theme: Theme) -> Style {
    if t.done {
        Style { dim: true, crossed_out: true, ..Style::none() }
    } else if t.priority == Priority::High {
        Style::in_color(theme.high)
    } else {
        Style::none()
    }
}

/// How a task's reminder looks.
pub open spec fn reminder_style(
    t: TaskV,
    viewed: int,
    today: int,
    now: int,
    theme: Theme,
) -> Style {
    if t.done {
        Style::in_dim()
    } else if t.overdue(viewed, today, now) {
        Style::bold_color(theme.overdue)
    } else {
        Style::in_color(theme.reminder)
    }
}

/// A task as a row of the list: its state, priority, text, repeat setting, whether it has a note,
/// its age and its reminder.
pub open spec fn task_row(
    t: TaskV,
    viewed: int,
    today: int,
    now: int,
    theme: Theme,
    masked: bool,
) -> Seq<SpanV> {
    let start = seq![
        raw(
            if t.done {
                "[x] "@
            } else {
                "[ ] "@
            },
        ),
        marker(t.priority, theme),
        styled(
            if masked {
                crate::task::MASK@
            } else {
                t.text
            },
            text_style(t, theme),
        ),
    ];
    let repeat = match t.repeat {
        Some(repeat) => seq![styled(" ↻ "@ + repeat.word(), Style::in_color(theme.repeat))],
        None => Seq::empty(),
    };
    let note = match t.note {
        Some(_) => seq![styled(" ≡"@, Style::in_dim())],
        None => Seq::empty(),
    };
    let age = if viewed > t.created && !t.done {
        seq![
            styled(
                " ("@ + decimal((viewed - t.created) as nat) + "d)"@,
                Style { fg: Some(theme.age), dim: true, ..Style::none() },
            ),
        ]
    } else {
        Seq::empty()
    };
    let remind = match t.remind {
        Some(time) => seq![
            styled(" ⏰ "@ + clock_text(time), reminder_style(t, viewed, today, now, theme)),
        ],
        None => Seq::empty(),
    };
    start + repeat + note + age + remind
}

/// A task as a row of the list.
pub fn task_item(
    task: &Task,
    viewed: Date,
    today: Date,
    now: Time,
    theme: &Theme,
    masked: bool,
) -> (r: Vec<Span>)
    ensures
        line_view(r@) == task_row(task@, viewed@, today@, now@, *theme, masked),
{
    let mut line = new_line();
    put(
        &mut line,
        if task.done {
            "[x] "
        } else {
            "[ ] "
        },
        Style::plain(),
    );
    let (mark, mark_style) = match task.priority {
        Priority::High => ("! ", Style::strong(theme.high)),
        Priority::Low => ("· ", Style::color(theme.low)),
        Priority::Plain => ("  ", Style::plain()),
    };
    put(&mut line, mark, mark_style);
    let mut style = Style::plain();
    if task.done {
        style.dim = true;
        style.crossed_out = true;
    } else if task.priority == Priority::High {
        style = Style::color(theme.high);
    }
    put(
        &mut line,
        if masked {
            crate::task::MASK
        } else {
            task.text.as_str()
        },
        style,
    );
    if let Some(repeat) = task.repeat {
        let mut text = owned(" ↻ ");
        text.push_str(repeat.label());
        put(&mut line, text.as_str(), Style::color(theme.repeat));
    }
    if task.note.is_some() {
        put(&mut line, " ≡", Style::dim());
    }
    let age = viewed.days_since(task.created);
    if age > 0 && !task.done {
        let mut text = owned(" (");
        text.push_str(to_decimal(age as u64).as_str());
        text.push_str("d)");
        let mut style = Style::color(theme.age);
        style.dim = true;
        put(&mut line, text.as_str(), style);
    }
    if let Some(remind) = task.remind {
        let style = if task.done {
            Style::dim()
        } else if task.is_overdue(viewed, today, now) {
            Style::strong(theme.overdue)
        } else {
            Style::color(theme.reminder)
        };
        let mut text = owned(" ⏰ ");
        text.push_str(remind.text().as_str());
        put(&mut line, text.as_str(), style);
    }
    assert(line_view(line@) =~= task_row(task@, viewed@, today@, now@, *theme, masked));
    line
}

impl AppV {
    /// The rows of one store for the day in view, under the settings of the view.
    pub open spec fn rows_of(self, store: StoreV) -> Seq<Seq<SpanV>> {
        day_order(
            store,
            self.date,
            self.today,
            self.now,
            self.sorted,
            self.hide_done,
        ).map_values(
            |i: int|
                task_row(
                    store.on(self.date)[i],
                    self.date,
                    self.today,
                    self.now,
                    self.theme,
                    store.on(self.date)[i].hidden && !self.reveal,
                ),
        )
    }

    /// What is shown in place of the list where there are no tasks.
    pub open spec fn empty_text(self) -> Seq<char> {
        if self.date == self.today {
            "No tasks — press "@ + self.first_key(Action::Add) + " to add one"@
        } else {
            "Nothing recorded for this day — press "@ + self.first_key(Action::Add)
                + " to add a task"@
        }
    }

    /// The rows of the task list, or what is shown in place of them where there are no tasks.
    pub open spec fn list_shown(self) -> Result<Seq<Seq<SpanV>>, Seq<char>> {
        if self.tasks().len() > 0 {
            Ok(self.rows_of(self.store))
        } else {
            Err(self.empty_text())
        }
    }

    /// The name of the list in the side pane and its rows, on a screen that is wide enough.
    pub open spec fn side_shown(self, width: int) -> Option<(Seq<char>, Seq<Seq<SpanV>>)> {
        match self.side_list() {
            Some(slot) if width >= SPLIT_WIDTH => Some((slot.name, self.rows_of(slot.store))),
            _ => None,
        }
    }
}

impl App {
    /// The rows of one store for the day in view, under the settings of the view.
    pub fn rows_of(&self, store: &Store) -> (r: Vec<Vec<Span>>)
        ensures
            lines_view(r@) == self@.rows_of(store@),
    {
        let order = visible_order(
            store,
            self.date,
            self.today,
            self.now,
            self.sorted,
            self.hide_done,
        );
        let tasks = store.tasks(self.date);
        let ghost on = store@.on(self.date@);
        let mut rows = no_lines();
        let mut k: usize = 0;
        while k < order.len()
            invariant
                k <= order@.len(),
                on == task_views(tasks@),
                on == store@.on(self.date@),
                indices(order@) == day_order(
                    store@,
                    self.date@,
                    self.today@,
                    self.now@,
                    self.sorted,
                    self.hide_done,
                ),
                forall|j: int| 0 <= j < order@.len() ==> #[trigger] order@[j] < on.len(),
                lines_view(rows@).len() == k,
                forall|j: int|
                    0 <= j < k ==> #[trigger] lines_view(rows@)[j] == self@.rows_of(store@)[j],
            decreases order@.len() - k,
        {
            let i = order[k];
            assert(indices(order@)[k as int] == i);
            assert(on[i as int] == tasks@[i as int]@);
            let task = &tasks[i];
            let masked = task.hidden && !self.reveal;
            let ghost before = lines_view(rows@);
            let row = task_item(task, self.date, self.today, self.now, &self.theme, masked);
            put_line(&mut rows, row);
            assert forall|j: int| 0 <= j < k + 1 implies #[trigger] lines_view(rows@)[j]
                == self@.rows_of(store@)[j] by {
                if j < k {
                    assert(lines_view(rows@)[j] == before[j]);
                }
            }
            k += 1;
        }
        assert(indices(order@).len() == order@.len());
        assert(lines_view(rows@) =~= self@.rows_of(store@));
        rows
    }

    /// The rows of the task list; where the day has no tasks, what is shown in place of it.
    pub fn list_or_message(&self) -> (r: Result<Vec<Vec<Span>>, String>)
        ensures
            match r {
                Ok(rows) => self@.list_shown() == Ok::<Seq<Seq<SpanV>>, Seq<char>>(
                    lines_view(rows@),
                ),
                Err(text) => self@.list_shown() == Err::<Seq<Seq<SpanV>>, Seq<char>>(text@),
            },
    {
        if self.len() > 0 {
            return Ok(self.rows_of(&self.store));
        }
        let mut text = if self.date.is(self.today) {
            owned("No tasks — press ")
        } else {
            owned("Nothing recorded for this day — press ")
        };
        text.push_str(self.first_key(Action::Add).as_str());
        text.push_str(
            if self.date.is(self.today) {
                " to add one"
            } else {
                " to add a task"
            },
        );
        Err(text)
    }

    /// The side pane: the name of the next list and its rows for the same day, where the split
    /// view is on, there is another list and the screen is wide enough.
    pub fn side_pane(&self, width: u16) -> (r: Option<(&str, Vec<Vec<Span>>)>)
        ensures
            match r {
                Some((name, rows)) => self@.side_shown(width as int) == Some(
                    (name@, lines_view(rows@)),
                ),
                None => self@.side_shown(width as int) is None,
            },
    {
        if width < SPLIT_WIDTH {
            return None;
        }
        match self.side_list() {
            Some((name, store)) => Some((name, self.rows_of(store))),
            None => None,
        }
    }
}

/// The columns that the split view needs.
pub const SPLIT_WIDTH: u16 = 60;

// --- the note panel ------------------------------------------------------------

impl AppV {
    /// The note of the selected task; none while it is masked.
    pub open spec fn shown_note(self) -> Option<Seq<char>> {
        match self.selected_task() {
            Some(idx) => {
                let t = self.tasks()[idx];
                if t.hidden && !self.reveal {
                    None
                } else {
                    t.note
                }
            },
            None => None,
        }
    }
}

impl App {
    /// The note of the selected task; never that of a hidden task while masked.
    pub fn shown_note(&self) -> (r: Option<String>)
        ensures
            opt_text(r) == self@.shown_note(),
    {
        match self.selected_task() {
            Some(idx) => {
                let tasks = self.store.tasks(self.date);
                assert(task_views(tasks@)[idx as int] == tasks@[idx as int]@);
                if tasks[idx].hidden && !self.reveal {
                    None
                } else {
                    crate::task::copy_opt_text(&tasks[idx].note)
                }
            },
            None => None,
        }
    }
}

/// The rows that a line of text takes up.
pub open spec fn wrapped_rows(line: Seq<char>, width: int) -> int {
    if line.len() == 0 {
        1
    } else {
        (line.len() + width - 1) / width
    }
}

/// The rows that lines of text take up.
pub open spec fn total_rows(lines: Seq<Seq<char>>, width: int) -> int
    decreases lines.len(),
{
    if lines.len() == 0 {
        0
    } else {
        total_rows(lines.drop_last(), width) + wrapped_rows(lines.last(), width)
    }
}

/// The columns that are left for a note: four less than the screen has, at least one.
pub open spec fn note_width(width: int) -> int {
    if width > 5 {
        width - 4
    } else {
        1
    }
}

/// The height of the note panel: one line for the border and up to four wrapped lines of text.
pub open spec fn panel_height(note: Seq<char>, width: int) -> int {
    let rows = total_rows(lines_of(note), note_width(width));
    if rows < 1 {
        2
    } else if rows > 4 {
        5
    } else {
        1 + rows
    }
}

/// Each line takes up a row, so the rows grow with the lines.
proof fn total_rows_grow(lines: Seq<Seq<char>>, width: int, n: int)
    requires
        width >= 1,
        0 <= n <= lines.len(),
    ensures
        0 <= total_rows(lines.take(n), width) <= total_rows(lines, width),
    decreases lines.len(),
{
    if lines.len() == 0 {
        assert(lines.take(n) =~= lines);
    } else if n == lines.len() {
        total_rows_grow(lines.drop_last(), width, n - 1);
        assert(lines.take(n) =~= lines);
        assert(lines.drop_last().take(n - 1) =~= lines.drop_last());
        wrapped_rows_positive(lines.last(), width);
    } else {
        total_rows_grow(lines.drop_last(), width, n);
        assert(lines.drop_last().take(n) =~= lines.take(n));
        wrapped_rows_positive(lines.last(), width);
    }
}

/// A line takes up at least a row.
proof fn wrapped_rows_positive(line: Seq<char>, width: int)
    requires
        width >= 1,
    ensures
        1 <= wrapped_rows(line, width),
        line.len() > 0 ==> wrapped_rows(line, width) == (line.len() - 1) / width + 1,
{
    if line.len() > 0 {
        assert((line.len() + width - 1) / width == (line.len() - 1) / width + 1) by (nonlinear_arith)
            requires
                width >= 1,
                line.len() > 0,
        ;
        assert((line.len() - 1) / width >= 0) by (nonlinear_arith)
            requires
                width >= 1,
                line.len() > 0,
        ;
    }
}

/// One line for the border plus up to four wrapped lines of text.
pub fn note_panel_height(note: &str, width: u16) -> (r: u16)
    ensures
        r == panel_height(note@, width as int),
{
    let inner: usize = if width > 5 {
        (width - 4) as usize
    } else {
        1
    };
    let list = lines(note);
    let ghost all = texts(list@);
    let mut rows: usize = 0;
    let mut i: usize = 0;
    assert(all.take(0).len() == 0);
    while i < list.len() && rows <= 4
        invariant
            i <= list@.len(),
            1 <= inner == note_width(width as int),
            all == texts(list@),
            all == lines_of(note@),
            rows <= 5,
            rows <= 4 ==> rows == total_rows(all.take(i as int), inner as int),
            rows == 5 ==> total_rows(all, inner as int) >= 5,
        decreases list@.len() - i,
    {
        assert(all.take(i + 1).drop_last() =~= all.take(i as int));
        assert(all[i as int] == list@[i as int]@);
        let chars = crate::text::to_chars(list[i].as_str());
        let n = chars.len();
        proof {
            wrapped_rows_positive(all[i as int], inner as int);
            total_rows_grow(all, inner as int, i + 1);
        }
        let taken: usize = if n == 0 {
            1
        } else if (n - 1) / inner > 4 {
            5
        } else {
            (n - 1) / inner + 1
        };
        rows = if rows + taken > 4 {
            5
        } else {
            rows + taken
        };
        i += 1;
    }
    assert(i == list@.len() ==> all.take(i as int) =~= all);
    if rows < 1 {
        2
    } else if rows > 4 {
        5
    } else {
        1 + rows as u16
    }
}

// --- the input line ------------------------------------------------------------

/// The name of what is being typed.
pub open spec fn target_text(target: Target) -> Seq<char> {
    match target {
        Target::NewTask => "new"@,
        Target::EditTask(_) => "edit"@,
        Target::Reminder(_) => "remind at (HH:MM)"@,
        Target::Note(_) => "note"@,
        Target::Search => "search"@,
        Target::Command => ":"@,
        Target::NewList => "new list"@,
    }
}

/// What stands before the text being typed.
pub open spec fn input_prefix(mode: ModeV) -> Option<Seq<char>> {
    match mode {
        ModeV::Insert(editor) => Some(" "@ + target_text(editor.target) + "> "@),
        ModeV::Command(editor) => Some(" :"@),
        _ => None,
    }
}

impl App {
    /// What stands before the text being typed on the input line, where there is one.
    pub fn input_prefix(&self) -> (r: Option<String>)
        ensures
            opt_text(r) == input_prefix(self@.mode),
    {
        match &self.mode {
            Mode::Insert(editor) => {
                let label = match editor.target {
                    Target::NewTask => "new",
                    Target::EditTask(_) => "edit",
                    Target::Reminder(_) => "remind at (HH:MM)",
                    Target::Note(_) => "note",
                    Target::Search => "search",
                    Target::Command => ":",
                    Target::NewList => "new list",
                };
                let mut out = owned(" ");
                out.push_str(label);
                out.push_str("> ");
                Some(out)
            },
            Mode::Command(_) => Some(owned(" :")),
            _ => None,
        }
    }
}

// --- the footer ----------------------------------------------------------------

impl AppV {
    /// The progress of the day in view.
    pub open spec fn progress(self) -> SpanV {
        let done = done_count(self.tasks());
        let total = self.tasks().len();
        styled(
            " "@ + decimal(done) + "/"@ + decimal(total) + " done"@,
            if total > 0 && done == total {
                Style::bold_color(self.theme.today)
            } else {
                Style::in_bold()
            },
        )
    }

    /// The keys that the task list shows.
    pub open spec fn key_hints(self) -> Seq<char> {
        self.first_key(Action::Add) + " add · "@ + self.first_key(Action::Edit) + " edit · "@
            + self.first_key(Action::Delete) + " del · "@ + self.first_key(Action::Toggle)
            + " done · "@ + self.first_key(Action::Priority) + " prio · "@ + self.first_key(
            Action::Reminder,
        ) + " remind · "@ + self.first_key(Action::Search) + " search · "@ + self.first_key(
            Action::Review,
        ) + " review · "@ + self.first_key(Action::Help) + " help · :q quit"@
    }

    /// The hints for the keys of the current mode.
    pub open spec fn mode_hints(self) -> Seq<char> {
        match self.mode {
            ModeV::Insert(editor) => match editor.target {
                Target::Reminder(_) => "e.g. 14:30 · empty clears · Enter save · Esc cancel"@,
                Target::Note(_) => "Enter save · empty clears · Esc cancel"@,
                Target::NewList => "name the new list · Enter create · Esc cancel"@,
                _ => "Enter save · Esc cancel"@,
            },
            ModeV::Calendar { cursor, moving } => if moving is Some {
                "h/l day · j/k week · [ ] month · t today · Enter move here · Esc close"@
            } else {
                "h/l day · j/k week · [ ] month · t today · Enter jump · Esc close"@
            },
            ModeV::Search { .. } => "type to search · ↑/↓ select · Enter jump · Esc close"@,
            ModeV::Command(_) => ":q quit · :w save · :newlist NAME · Esc cancel"@,
            ModeV::Help { .. } => "j/k scroll · Esc close"@,
            ModeV::Review { .. } => "j/k scroll · Esc close"@,
            _ => self.key_hints(),
        }
    }

    /// The right part of the footer: the question before a task is deleted, or else the message,
    /// or else the hints for the keys.
    pub open spec fn footer(self) -> SpanV {
        match self.mode {
            ModeV::ConfirmDelete(idx) => {
                let text = if self.store.has(self.date, idx) {
                    self.tasks()[idx].shown(self.reveal)
                } else {
                    ""@
                };
                styled(
                    "Delete \""@ + text + "\"? y/n"@,
                    Style::bold_color(self.theme.overdue),
                )
            },
            _ => match self.status {
                Some(status) => styled(status, Style::in_dim()),
                None => styled(self.mode_hints(), Style::in_dim()),
            },
        }
    }
}

impl App {
    /// The left part of the footer: the progress of the day in view.
    pub fn progress_line(&self) -> (r: Span)
        ensures
            r@ == self@.progress(),
    {
        let (done, total) = self.store.progress(self.date);
        let mut text = owned(" ");
        text.push_str(to_decimal(done as u64).as_str());
        text.push_str("/");
        text.push_str(to_decimal(total as u64).as_str());
        text.push_str(" done");
        let style = if total > 0 && done == total {
            Style::strong(self.theme.today)
        } else {
            Style::bold()
        };
        Span { text, style }
    }

    /// The keys that the task list shows.
    fn key_hints(&self) -> (r: String)
        ensures
            r@ == self@.key_hints(),
    {
        let mut out = self.first_key(Action::Add);
        out.push_str(" add · ");
        out.push_str(self.first_key(Action::Edit).as_str());
        out.push_str(" edit · ");
        out.push_str(self.first_key(Action::Delete).as_str());
        out.push_str(" del · ");
        out.push_str(self.first_key(Action::Toggle).as_str());
        out.push_str(" done · ");
        out.push_str(self.first_key(Action::Priority).as_str());
        out.push_str(" prio · ");
        out.push_str(self.first_key(Action::Reminder).as_str());
        out.push_str(" remind · ");
        out.push_str(self.first_key(Action::Search).as_str());
        out.push_str(" search · ");
        out.push_str(self.first_key(Action::Review).as_str());
        out.push_str(" review · ");
        out.push_str(self.first_key(Action::Help).as_str());
        out.push_str(" help · :q quit");
        out
    }

    /// The hints for the keys of the current mode.
    fn mode_hints(&self) -> (r: String)
        ensures
            r@ == self@.mode_hints(),
    {
        let text = match &self.mode {
            Mode::Insert(editor) => match editor.target {
                Target::Reminder(_) => "e.g. 14:30 · empty clears · Enter save · Esc cancel",
                Target::Note(_) => "Enter save · empty clears · Esc cancel",
                Target::NewList => "name the new list · Enter create · Esc cancel",
                _ => "Enter save · Esc cancel",
            },
            Mode::Calendar { cursor, moving } => if moving.is_some() {
                "h/l day · j/k week · [ ] month · t today · Enter move here · Esc close"
            } else {
                "h/l day · j/k week · [ ] month · t today · Enter jump · Esc close"
            },
            Mode::Search { editor, selected } => {
                "type to search · ↑/↓ select · Enter jump · Esc close"
            },
            Mode::Command(_) => ":q quit · :w save · :newlist NAME · Esc cancel",
            Mode::Help { scroll } => "j/k scroll · Esc close",
            Mode::Review { scroll } => "j/k scroll · Esc close",
            _ => {
                return self.key_hints();
            },
        };
        owned(text)
    }

    /// The right part of the footer.
    pub fn footer(&self) -> (r: Span)
        ensures
            r@ == self@.footer(),
    {
        if let Mode::ConfirmDelete(idx) = &self.mode {
            let tasks = self.store.tasks(self.date);
            assert(task_views(tasks@).len() == tasks@.len());
            let mut text = owned("Delete \"");
            if *idx < tasks.len() {
                assert(task_views(tasks@)[*idx as int] == tasks@[*idx as int]@);
                text.push_str(self.display_text(&tasks[*idx]).as_str());
            } else {
                text.push_str("");
            }
            text.push_str("\"? y/n");
            return Span { text, style: Style::strong(self.theme.overdue) };
        }
        // A status message (e.g. "Invalid time") always wins over key hints.
        match &self.status {
            Some(status) => Span { text: owned(status.as_str()), style: Style::dim() },
            None => Span { text: self.mode_hints(), style: Style::dim() },
        }
    }
}

// --- the key reference ---------------------------------------------------------

/// `n` spaces.
pub open spec fn spaces(n: int) -> Seq<char>
    decreases n,
{
    if n <= 0 {
        Seq::empty()
    } else {
        spaces(n - 1).push(' ')
    }
}

/// A text with two spaces behind it, filled up with spaces before it to sixteen characters.
pub open spec fn key_column(text: Seq<char>) -> Seq<char> {
    spaces(16 - text.len()) + text + "  "@
}

/// The rows of the key reference that are about other screens.
pub open spec fn help_notes() -> Seq<(Seq<char>, Seq<char>)> {
    seq![
        (""@, ""@),
        ("Calendar"@, "h/l day · j/k week · [ ] month · t today · Enter · Esc"@),
        ("Typing"@, "←/→ Home End · Backspace/Del · Enter save · Esc cancel"@),
        ("Search"@, "type · ↑/↓ select · Enter jump · Esc close"@),
        ("Config"@, "keys and colours: see config.example.toml"@),
    ]
}

impl AppV {
    /// The key reference: every action with its keys, and notes about other screens.
    pub open spec fn help(self) -> Seq<Seq<SpanV>> {
        let actions = Seq::new(
            ACTIONS as nat,
            |i: int|
                seq![
                    styled(
                        key_column(keys_text(self.keys, Action::at(i))),
                        Style::bold_color(self.theme.accent),
                    ),
                    raw(Action::at(i).description_text()),
                ],
        );
        actions + help_notes().map_values(
            |n: (Seq<char>, Seq<char>)|
                seq![styled(key_column(n.0), Style::in_dim()), styled(n.1, Style::in_dim())],
        )
    }
}

/// A text with two spaces behind it, filled up with spaces before it to sixteen characters.
fn fill_column(text: &str) -> (r: String)
    ensures
        r@ == key_column(text@),
{
    let n = crate::text::to_chars(text).len();
    let mut out = String::new();
    let mut i: usize = n;
    assert(out@ =~= spaces(0));
    while i < 16
        invariant
            n <= i,
            i <= 16 || i == n,
            n <= 16 ==> out@ == spaces(i - n),
            n > 16 ==> out@ == spaces(0),
        decreases 16 - i,
    {
        let ghost before = out@;
        out.push(' ');
        assert(out@ =~= spaces(i + 1 - n));
        i += 1;
    }
    assert(out@ =~= spaces(16 - n)) by {
        if n > 16 {
            assert(spaces(16 - n) =~= spaces(0));
        }
    }
    out.push_str(text);
    out.push_str("  ");
    out
}

/// Puts a row about another screen behind the key reference.
fn put_help_note(lines: &mut Vec<Vec<Span>>, name: &str, keys: &str)
    ensures
        lines_view(final(lines)@) == lines_view(old(lines)@).push(
            seq![styled(key_column(name@), Style::in_dim()), styled(keys@, Style::in_dim())],
        ),
{
    let mut line = new_line();
    put(&mut line, fill_column(name).as_str(), Style::dim());
    put(&mut line, keys, Style::dim());
    assert(line_view(line@) =~= seq![
        styled(key_column(name@), Style::in_dim()),
        styled(keys@, Style::in_dim()),
    ]);
    put_line(lines, line);
}

impl App {
    /// The key reference.
    pub fn help(&self) -> (r: Vec<Vec<Span>>)
        ensures
            lines_view(r@) == self@.help(),
    {
        let mut lines = no_lines();
        let mut i: usize = 0;
        while i < ACTIONS
            invariant
                i <= ACTIONS,
                lines_view(lines@).len() == i,
                forall|k: int|
                    0 <= k < i ==> #[trigger] lines_view(lines@)[k] == self@.help()[k],
            decreases ACTIONS - i,
        {
            let action = Action::nth(i);
            let mut line = new_line();
            let keys = fill_column(self.keymap.keys_for(action).as_str());
            put(&mut line, keys.as_str(), Style::strong(self.theme.accent));
            put(&mut line, action.description(), Style::plain());
            let ghost row = line_view(line@);
            let ghost before = lines_view(lines@);
            put_line(&mut lines, line);
            proof {
                assert(row =~= self@.help()[i as int]);
                assert forall|k: int| 0 <= k < i + 1 implies #[trigger] lines_view(lines@)[k]
                    == self@.help()[k] by {
                    if k < i {
                        assert(lines_view(lines@)[k] == before[k]);
                    }
                }
            }
            i += 1;
        }
        let ghost actions = lines_view(lines@);
        put_help_note(&mut lines, "", "");
        put_help_note(
            &mut lines,
            "Calendar",
            "h/l day · j/k week · [ ] month · t today · Enter · Esc",
        );
        put_help_note(
            &mut lines,
            "Typing",
            "←/→ Home End · Backspace/Del · Enter save · Esc cancel",
        );
        put_help_note(&mut lines, "Search", "type · ↑/↓ select · Enter jump · Esc close");
        put_help_note(&mut lines, "Config", "keys and colours: see config.example.toml");
        proof {
            let all = lines_view(lines@);
            let help = self@.help();
            assert forall|k: int| 0 <= k < all.len() implies all[k] == help[k] by {
                if k < ACTIONS {
                    assert(all[k] == actions[k]);
                }
            }
            assert(all =~= help);
        }
        lines
    }
}

} // verus!
