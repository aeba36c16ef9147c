//! What the calendar, the search and the list picker show.

use vstd::prelude::*;

use crate::app::{App, AppV, Mode, ModeV};
use crate::date::{civil, day_in_range, short_date, Date};
use crate::lists::ListRow;
use crate::pages::{task_views, PageV};
use crate::query::{done_count, hits};
use crate::screen::{relative_label, relative_text};
use crate::style::{
    line_view, lines_view, new_line, no_lines, put, put_line, raw, styled, Span, SpanV, Style,
};
use crate::task::TaskV;
use crate::text::{decimal, owned, to_decimal};

verus! {

// --- the calendar --------------------------------------------------------------

/// The Julian day number of day 0.
pub const JULIAN_OFFSET: i32 = 1_721_425;

/// `time::Date::from_ordinal_date`, given the year and the day of the year by chrono's `Datelike`:
/// the day as the calendar widget's date, by its Julian day number; nothing outside the years that
/// the widget knows, -9999 to 9999.
#[verifier::external_body]
fn time_julian_day(n: i32) -> (r: Option<i32>)
    requires
        day_in_range(n as int),
    ensures
        match r {
            Some(julian) => -9999 <= civil(n as int).year <= 9999 && julian == n + JULIAN_OFFSET,
            None => !(-9999 <= civil(n as int).year <= 9999),
        },
{
    let date = chrono::NaiveDate::from_num_days_from_ce_opt(n).unwrap();
    let (year, day) = (chrono::Datelike::year(&date), chrono::Datelike::ordinal(&date));
    let converted = time::Date::from_ordinal_date(year, day as u16).ok();
    converted.map(|d| d.to_julian_day())
}

/// Converts a date to the one used by the calendar widget, by its Julian day number. `None` for
/// dates outside the widget's ±9999 year range, which a hand-edited data file can hold.
pub fn to_time_date(date: Date) -> (r: Option<i32>)
    ensures
        match r {
            Some(julian) => -9999 <= civil(date@).year <= 9999 && julian == date@ + JULIAN_OFFSET,
            None => !(-9999 <= civil(date@).year <= 9999),
        },
{
    time_julian_day(date.day())
}

/// A day of the calendar with its style.
pub struct DayMark {
    /// The Julian day number.
    pub julian: i32,
    pub style: Style,
}

/// What a day of the calendar holds.
#[verifier::ext_equal]
pub ghost struct DayMarkV {
    pub julian: int,
    pub style: Style,
}

/// What days of the calendar hold.
pub open spec fn day_marks(marks: Seq<DayMark>) -> Seq<DayMarkV> {
    marks.map_values(|m: DayMark| DayMarkV { julian: m.julian as int, style: m.style })
}

impl AppV {
    /// How a day looks: in one colour where all its tasks are done, in another where some are
    /// open; today underlined, and the day under the cursor reversed.
    pub open spec fn day_style(self, date: int, cursor: int) -> Style {
        let done = done_count(self.store.on(date));
        let total = self.store.on(date).len();
        let base = if total == 0 {
            Style::none()
        } else if done == total {
            Style::in_color(self.theme.done_day)
        } else {
            Style::bold_color(self.theme.accent)
        };
        Style { underlined: date == self.today, reversed: date == cursor, ..base }
    }

    /// The days that carry information: those with a page, today, and the one under the cursor.
    pub open spec fn marked_days(self, cursor: int) -> Seq<int> {
        self.store.days.map_values(|page: PageV| page.date) + seq![self.today, cursor]
    }

    /// The styles of the first `n` days that carry information, without those that the calendar
    /// cannot show.
    pub open spec fn calendar_marks(self, cursor: int, n: int) -> Seq<DayMarkV>
        decreases n,
    {
        if n <= 0 {
            Seq::empty()
        } else {
            let before = self.calendar_marks(cursor, n - 1);
            let date = self.marked_days(cursor)[n - 1];
            if -9999 <= civil(date).year <= 9999 {
                before.push(
                    DayMarkV { julian: date + JULIAN_OFFSET, style: self.day_style(date, cursor) },
                )
            } else {
                before
            }
        }
    }

    /// The styles of all days that carry information.
    pub open spec fn calendar_shown(self, cursor: int) -> Seq<DayMarkV> {
        self.calendar_marks(cursor, self.marked_days(cursor).len() as int)
    }

    /// The line below the calendar: the day under the cursor and its tasks.
    pub open spec fn calendar_info(self, cursor: int) -> Seq<SpanV> {
        let done = done_count(self.store.on(cursor));
        let total = self.store.on(cursor).len();
        seq![
            styled(short_date(cursor), Style::in_bold()),
            raw(" · "@),
            styled(relative_text(cursor, self.today), Style::in_color(self.theme.other_day)),
            raw(" · "@),
            raw(
                if total == 0 {
                    "no tasks"@
                } else {
                    decimal((total - done) as nat) + " open · "@ + decimal(done) + " done"@
                },
            ),
        ]
    }
}

/// What stands above the calendar.
pub fn calendar_title(moving: bool) -> (r: &'static str)
    ensures
        r@ == (if moving {
            " Move task to… "@
        } else {
            " Calendar "@
        }),
{
    if moving {
        " Move task to… "
    } else {
        " Calendar "
    }
}

/// What stands below the calendar.
pub fn calendar_hint(moving: bool) -> (r: &'static str)
    ensures
        r@ == (if moving {
            "Enter move here · [ ] month · Esc"@
        } else {
            "Enter jump · [ ] month · Esc"@
        }),
{
    if moving {
        "Enter move here · [ ] month · Esc"
    } else {
        "Enter jump · [ ] month · Esc"
    }
}

/// No more tasks are done than there are.
proof fn done_count_bound(tasks: Seq<TaskV>)
    ensures
        done_count(tasks) <= tasks.len(),
    decreases tasks.len(),
{
    if tasks.len() > 0 {
        done_count_bound(tasks.drop_last());
    }
}

impl App {
    /// How a day of the calendar looks.
    fn day_style(&self, date: Date, cursor: Date) -> (r: Style)
        ensures
            r == self@.day_style(date@, cursor@),
    {
        let (done, total) = self.store.progress(date);
        let mut style = if total == 0 {
            Style::plain()
        } else if done == total {
            Style::color(self.theme.done_day)
        } else {
            Style::strong(self.theme.accent)
        };
        style.underlined = date.is(self.today);
        style.reversed = date.is(cursor);
        style
    }

    /// The styles of the days of the calendar that carry information; of two for one day, the
    /// later one holds.
    pub fn calendar_marks(&self, cursor: Date) -> (r: Vec<DayMark>)
        ensures
            day_marks(r@) == self@.calendar_shown(cursor@),
    {
        let mut dates: Vec<Date> = Vec::new();
        let mut p: usize = 0;
        while p < self.store.days.len()
            invariant
                p <= self.store.days@.len(),
                dates@.len() == p,
                forall|k: int|
                    0 <= k < p ==> (#[trigger] dates@[k])@ == self@.marked_days(cursor@)[k],
            decreases self.store.days@.len() - p,
        {
            assert(self@.store.days[p as int].date == self.store.days@[p as int].date@);
            dates.push(self.store.days[p].date);
            p += 1;
        }
        dates.push(self.today);
        dates.push(cursor);
        assert(dates@.map_values(|d: Date| d@) =~= self@.marked_days(cursor@));
        let mut marks: Vec<DayMark> = Vec::new();
        let mut n: usize = 0;
        assert(day_marks(marks@) =~= Seq::<DayMarkV>::empty());
        while n < dates.len()
            invariant
                n <= dates@.len(),
                dates@.map_values(|d: Date| d@) == self@.marked_days(cursor@),
                day_marks(marks@) == self@.calendar_marks(cursor@, n as int),
            decreases dates@.len() - n,
        {
            let date = dates[n];
            assert(dates@.map_values(|d: Date| d@)[n as int] == date@);
            if let Some(julian) = to_time_date(date) {
                let ghost before = marks@;
                let style = self.day_style(date, cursor);
                marks.push(DayMark { julian, style });
                assert(day_marks(marks@) =~= day_marks(before).push(
                    DayMarkV { julian: julian as int, style },
                ));
            }
            n += 1;
        }
        marks
    }

    /// The line below the calendar.
    pub fn calendar_info(&self, cursor: Date) -> (r: Vec<Span>)
        ensures
            line_view(r@) == self@.calendar_info(cursor@),
    {
        let (done, total) = self.store.progress(cursor);
        proof {
            done_count_bound(self@.store.on(cursor@));
        }
        let summary = if total == 0 {
            owned("no tasks")
        } else {
            let mut out = to_decimal((total - done) as u64);
            out.push_str(" open · ");
            out.push_str(to_decimal(done as u64).as_str());
            out.push_str(" done");
            out
        };
        let mut line = new_line();
        put(&mut line, cursor.short_text().as_str(), Style::bold());
        put(&mut line, " · ", Style::plain());
        let label = relative_label(cursor, self.today);
        put(&mut line, label.as_str(), Style::color(self.theme.other_day));
        put(&mut line, " · ", Style::plain());
        put(&mut line, summary.as_str(), Style::plain());
        assert(line_view(line@) =~= self@.calendar_info(cursor@));
        line
    }
}

// --- the search ----------------------------------------------------------------

impl AppV {
    /// A search hit: its day, its state, and its text.
    pub open spec fn hit_row(self, hit: (int, int)) -> Seq<SpanV> {
        let t = self.store.task(hit.0, hit.1);
        seq![
            styled(
                short_date(hit.0) + "  "@,
                Style::in_color(
                    if hit.0 == self.today {
                        self.theme.today
                    } else {
                        self.theme.other_day
                    },
                ),
            ),
            raw(
                if t.done {
                    "[x] "@
                } else {
                    "[ ] "@
                },
            ),
            styled(
                t.shown(self.reveal),
                if t.done {
                    Style::in_dim()
                } else {
                    Style::none()
                },
            ),
        ]
    }

    /// The first `n` hits as rows; a hit without a task is left out.
    pub open spec fn hit_rows(self, found: Seq<(int, int)>, n: int) -> Seq<Seq<SpanV>>
        decreases n,
    {
        if n <= 0 {
            Seq::empty()
        } else if self.store.has(found[n - 1].0, found[n - 1].1) {
            self.hit_rows(found, n - 1).push(self.hit_row(found[n - 1]))
        } else {
            self.hit_rows(found, n - 1)
        }
    }

    /// What is shown where nothing was found.
    pub open spec fn no_hits_text(self) -> Seq<char> {
        match self.mode {
            ModeV::Search { editor, selected } => if editor.text.len() == 0 {
                "Type to search task text and notes"@
            } else {
                "No matches"@
            },
            _ => "No matches"@,
        }
    }

    /// The rows of the search, or what is shown in place of them where nothing was found.
    pub open spec fn search_shown(self) -> Result<Seq<Seq<SpanV>>, Seq<char>> {
        let found = self.search_results();
        if found.len() > 0 {
            Ok(self.hit_rows(found, found.len() as int))
        } else {
            Err(self.no_hits_text())
        }
    }
}

impl App {
    /// A search hit as a row.
    fn hit_row(&self, date: Date, idx: usize) -> (r: Vec<Span>)
        requires
            self@.store.has(date@, idx as int),
        ensures
            line_view(r@) == self@.hit_row((date@, idx as int)),
    {
        let tasks = self.store.tasks(date);
        assert(task_views(tasks@)[idx as int] == tasks@[idx as int]@);
        let task = &tasks[idx];
        let mut line = new_line();
        let mut text = date.short_text();
        text.push_str("  ");
        let color = if date.is(self.today) {
            self.theme.today
        } else {
            self.theme.other_day
        };
        put(&mut line, text.as_str(), Style::color(color));
        put(
            &mut line,
            if task.done {
                "[x] "
            } else {
                "[ ] "
            },
            Style::plain(),
        );
        let style = if task.done {
            Style::dim()
        } else {
            Style::plain()
        };
        put(&mut line, self.display_text(task).as_str(), style);
        assert(line_view(line@) =~= self@.hit_row((date@, idx as int)));
        line
    }

    /// The rows of the search; where nothing was found, what is shown in place of them.
    pub fn search_rows(&self) -> (r: Result<Vec<Vec<Span>>, String>)
        ensures
            match r {
                Ok(rows) => self@.search_shown() == Ok::<Seq<Seq<SpanV>>, Seq<char>>(
                    lines_view(rows@),
                ),
                Err(text) => self@.search_shown() == Err::<Seq<Seq<SpanV>>, Seq<char>>(text@),
            },
    {
        let results = self.search_results();
        let ghost found = hits(results@);
        if results.len() == 0 {
            let empty = match &self.mode {
                Mode::Search { editor, selected } => editor.buf.len() == 0,
                _ => false,
            };
            return Err(
                owned(
                    if empty {
                        "Type to search task text and notes"
                    } else {
                        "No matches"
                    },
                ),
            );
        }
        let mut rows = no_lines();
        let mut n: usize = 0;
        while n < results.len()
            invariant
                n <= results@.len(),
                found == hits(results@),
                lines_view(rows@) == self@.hit_rows(found, n as int),
            decreases results@.len() - n,
        {
            let (date, idx) = results[n];
            assert(found[n as int] == (date@, idx as int));
            let tasks = self.store.tasks(date);
            assert(task_views(tasks@).len() == tasks@.len());
            if idx < tasks.len() {
                put_line(&mut rows, self.hit_row(date, idx));
            }
            n += 1;
        }
        Ok(rows)
    }
}

// --- the list picker -----------------------------------------------------------

impl AppV {
    /// A list in the list picker: its name and how many open tasks it has.
    pub open spec fn picker_row(self, row: ListRow) -> Seq<SpanV> {
        seq![
            styled(
                row.name,
                if row.active {
                    Style::bold_color(self.theme.accent)
                } else {
                    Style::none()
                },
            ),
            styled("  "@ + decimal(row.open) + " open"@, Style::in_dim()),
        ]
    }

    /// The rows of the list picker: every list, and one for a new list.
    pub open spec fn picker_rows(self) -> Seq<Seq<SpanV>> {
        self.list_rows().map_values(|row: ListRow| self.picker_row(row)).push(
            seq![styled("+ New list"@, Style::in_color(self.theme.accent))],
        )
    }
}

impl App {
    /// The rows of the list picker.
    pub fn picker_rows(&self) -> (r: Vec<Vec<Span>>)
        ensures
            lines_view(r@) == self@.picker_rows(),
    {
        let list = self.list_rows();
        let ghost all = self@.list_rows();
        let mut rows = no_lines();
        let mut i: usize = 0;
        while i < list.len()
            invariant
                i <= list@.len(),
                all == crate::lists::list_rows(list@),
                all == self@.list_rows(),
                lines_view(rows@).len() == i,
                forall|k: int|
                    0 <= k < i ==> #[trigger] lines_view(rows@)[k] == self@.picker_row(all[k]),
            decreases list@.len() - i,
        {
            let (name, open, active) = list[i];
            assert(all[i as int] == (ListRow { name: name@, open: open as nat, active }));
            let mut line = new_line();
            let style = if active {
                Style::strong(self.theme.accent)
            } else {
                Style::plain()
            };
            put(&mut line, name, style);
            let mut text = owned("  ");
            text.push_str(to_decimal(open as u64).as_str());
            text.push_str(" open");
            put(&mut line, text.as_str(), Style::dim());
            assert(line_view(line@) =~= self@.picker_row(all[i as int]));
            let ghost before = lines_view(rows@);
            put_line(&mut rows, line);
            assert forall|k: int| 0 <= k < i + 1 implies #[trigger] lines_view(rows@)[k]
                == self@.picker_row(all[k]) by {
                if k < i {
                    assert(lines_view(rows@)[k] == before[k]);
                }
            }
            i += 1;
        }
        let mut line = new_line();
        put(&mut line, "+ New list", Style::color(self.theme.accent));
        assert(line_view(line@) =~= seq![
            styled("+ New list"@, Style::in_color(self.theme.accent)),
        ]);
        put_line(&mut rows, line);
        assert(lines_view(rows@) =~= self@.picker_rows());
        rows
    }
}

// --- sizes ---------------------------------------------------------------------

/// `n`, but no more than `most`.
pub open spec fn at_most(n: int, most: int) -> int {
    if n < most {
        n
    } else {
        most
    }
}

/// `n`, but no less than none.
pub open spec fn not_negative(n: int) -> int {
    if n > 0 {
        n
    } else {
        0
    }
}

/// The height of a popup that shows that many lines within a border, on a screen of `height`.
pub fn popup_height(lines: usize, height: u16) -> (r: u16)
    ensures
        r == at_most(lines + 2, not_negative(height - 2)),
{
    let most: u16 = if height > 2 {
        height - 2
    } else {
        0
    };
    if lines <= 65_533 && (lines as u16 + 2) < most {
        lines as u16 + 2
    } else {
        most
    }
}

/// The height of the search popup for that many hits.
pub fn search_height(results: usize, height: u16) -> (r: u16)
    ensures
        r == at_most(
            if results + 4 > 6 {
                results + 4
            } else {
                6
            },
            not_negative(height - 2),
        ),
{
    let most: u16 = if height > 2 {
        height - 2
    } else {
        0
    };
    let wanted: u16 = if results > 65_531 {
        65_535
    } else if results > 2 {
        results as u16 + 4
    } else {
        6
    };
    if wanted < most {
        wanted
    } else {
        most
    }
}

/// The width of a popup on a screen of `width`: up to eighty columns.
pub fn popup_width(width: u16) -> (r: u16)
    ensures
        r == at_most(not_negative(width - 4), 80),
{
    if width >= 84 {
        80
    } else if width > 4 {
        width - 4
    } else {
        0
    }
}

} // verus!
