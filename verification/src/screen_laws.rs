//! What the screen shows, told by the tasks that are there.

use vstd::prelude::*;

use crate::app::{AppV, ModeV, SlotV};
use crate::date::{civil, clock_text, hour_of, long_date, minute_of, short_date};
use crate::keymap::keys_text;
use crate::keys::{ACTIONS, Action};
use crate::order::{among, among_grows, filter_places};
use crate::popup::DayMarkV;
use crate::query::{earliest, Listed};
use crate::query_laws::{
    is_late, overdue_is_late, progress_counts_the_done, the_first_reminder_is_shown,
};
use crate::screen::{panel_height, relative_text, spaces, task_row, wrapped_rows};
use crate::style::SpanV;
use crate::task::{MASK, Priority, TaskV};
use crate::text::{
    all_digits, decimal, digit_char, digit_value, digits_value, is_digit, joined, two_digits,
};
use crate::theme::Theme;

verus! {

// --- numbers and days ----------------------------------------------------------

/// A number is written in decimal digits that stand for it, without zeros before them.
pub proof fn decimals_stand_for_their_number(n: nat)
    ensures
        digits_value(decimal(n)) == n,
        all_digits(decimal(n)),
        decimal(n).len() > 0,
        n > 0 ==> decimal(n)[0] != '0',
        n == 0 ==> decimal(n) == seq!['0'],
    decreases n,
{
    if n < 10 {
        let one = seq![digit_char(n as int)];
        reveal_with_fuel(digits_value, 2);
        assert(one.drop_last() =~= Seq::<char>::empty());
        assert(is_digit(one[0]));
    } else {
        let rest = decimal(n / 10);
        decimals_stand_for_their_number(n / 10);
        let c = digit_char((n % 10) as int);
        assert(is_digit(c) && digit_value(c) == n % 10);
        assert(decimal(n).drop_last() =~= rest);
        assert(decimal(n)[0] == rest[0]);
    }
}

/// The ten digits follow each other from zero on, and two of them stand for tens and ones.
pub proof fn digits_follow_each_other(n: int)
    requires
        0 <= n < 100,
    ensures
        digit_char(0) == '0',
        n < 9 ==> digit_char(n + 1) as int == digit_char(n) as int + 1,
        two_digits(n).len() == 2,
        digits_value(two_digits(n)) == n,
        all_digits(two_digits(n)),
{
    reveal_with_fuel(digits_value, 3);
    let two = two_digits(n);
    assert(two.drop_last() =~= seq![digit_char(n / 10)]);
    assert(two.drop_last().drop_last() =~= Seq::<char>::empty());
    assert(is_digit(two[0]) && is_digit(two[1]));
}

/// A time is shown by its hour and its minute, whatever the second.
pub proof fn times_are_shown_by_hour_and_minute(h: int, m: int, s: int, f: int)
    requires
        0 <= h < 24,
        0 <= m < 60,
        0 <= s < 60,
        0 <= f < 2_000_000_000,
    ensures
        clock_text((h * 3600 + m * 60 + s) * 2_000_000_000 + f) == two_digits(h) + ":"@ + two_digits(
            m,
        ),
{
    let t = (h * 3600 + m * 60 + s) * 2_000_000_000 + f;
    assert(t / 2_000_000_000 == h * 3600 + m * 60 + s);
    assert(hour_of(t) == h && minute_of(t) == m);
}

/// A day is told from today by words where it is next to it, and else by the number of days.
pub proof fn days_are_told_from_today(today: int, n: nat)
    ensures
        relative_text(today, today) == "Today"@,
        relative_text(today - 1, today) == "Yesterday"@,
        relative_text(today + 1, today) == "Tomorrow"@,
        n > 1 ==> relative_text(today - n, today) == decimal(n) + " days ago"@,
        n > 1 ==> relative_text(today + n, today) == "+"@ + decimal(n) + " days"@,
{
}

// --- a task --------------------------------------------------------------------

/// One where something holds, none where not.
pub open spec fn one_where(b: bool) -> int {
    if b {
        1
    } else {
        0
    }
}

/// A row shows in this order: a box, ticked where the task is done; its priority; its text, or the
/// mask; and, each where there is something to show, how it repeats, that it has a note, how many
/// days ago it was written down while it is open, and the time of its reminder, which stands out
/// where it is overdue.
pub proof fn a_row_shows_the_task(
    t: TaskV,
    viewed: int,
    today: int,
    now: int,
    theme: Theme,
    masked: bool,
)
    ensures
        ({
            let row = task_row(t, viewed, today, now, theme, masked);
            let aged = !t.done && viewed > t.created;
            let repeat = one_where(t.repeat is Some);
            let note = one_where(t.note is Some);
            let age = one_where(aged);
            let remind = one_where(t.remind is Some);
            &&& row.len() == 3 + repeat + note + age + remind
            &&& t.done ==> row[0].text == "[x] "@
            &&& !t.done ==> row[0].text == "[ ] "@
            &&& t.priority == Priority::High ==> row[1].text == "! "@ && row[1].style.fg == Some(
                theme.high,
            )
            &&& t.priority == Priority::Low ==> row[1].text == "· "@ && row[1].style.fg == Some(
                theme.low,
            )
            &&& t.priority == Priority::Plain ==> row[1].text == "  "@
            &&& !masked ==> row[2].text == t.text
            &&& masked ==> row[2].text == MASK@
            &&& row[2].style.crossed_out == t.done
            &&& t.priority == Priority::High && !t.done ==> row[2].style.fg == Some(theme.high)
            &&& t.priority != Priority::High || t.done ==> row[2].style.fg is None
            &&& t.repeat is Some ==> row[3].text == " ↻ "@ + t.repeat->Some_0.word()
            &&& t.note is Some ==> row[3 + repeat].text == " ≡"@
            &&& aged ==> row[3 + repeat + note].text == " ("@ + decimal(
                (viewed - t.created) as nat,
            ) + "d)"@
            &&& t.remind is Some ==> row.last().text == " ⏰ "@ + clock_text(t.remind->Some_0)
            &&& t.remind is Some && !t.done && is_late(t, viewed, today, now)
                ==> row.last().style.fg == Some(theme.overdue) && row.last().style.bold
            &&& t.remind is Some && !t.done && !is_late(t, viewed, today, now)
                ==> row.last().style.fg == Some(theme.reminder) && !row.last().style.bold
            &&& t.remind is Some && t.done ==> row.last().style.fg is None && row.last().style.dim
        }),
{
    overdue_is_late(t, viewed, today, now);
}

/// The list shows a row for every row of the view, each that of its task, and masks those that are
/// hidden unless they are revealed.
pub proof fn rows_show_their_tasks(s: AppV, k: int)
    requires
        0 <= k < s.visible().len(),
    ensures
        s.rows_of(s.store).len() == s.visible().len(),
        s.rows_of(s.store)[k] == task_row(
            s.tasks()[s.visible()[k]],
            s.date,
            s.today,
            s.now,
            s.theme,
            s.tasks()[s.visible()[k]].hidden && !s.reveal,
        ),
{
    reveal(AppV::visible);
}

// --- around the list -----------------------------------------------------------

/// On today's page, and only there, the header shows a reminder: that of the open task whose time came
/// first, where one has come, or else the next to come.
pub proof fn the_header_shows_the_first_reminder(s: AppV)
    ensures
        s.date != s.today ==> s.header_reminder().len() == 0,
        s.date == s.today ==> ({
            let tasks = s.store.on(s.today);
            match earliest(tasks, s.now, true) {
                Some(i) => s.header_reminder().len() == 1 && s.header_reminder()[0].text
                    == "   ⏰ "@ + "overdue"@ + " "@ + clock_text(tasks[i].remind->Some_0) + " "@ + (
                if tasks[i].hidden && !s.reveal {
                    MASK@
                } else {
                    tasks[i].text
                }),
                None => match earliest(tasks, s.now, false) {
                    Some(i) => s.header_reminder().len() == 1 && s.header_reminder()[0].text
                        == "   ⏰ "@ + "next"@ + " "@ + clock_text(tasks[i].remind->Some_0) + " "@ + (
                    if tasks[i].hidden && !s.reveal {
                        MASK@
                    } else {
                        tasks[i].text
                    }),
                    None => s.header_reminder().len() == 0,
                },
            }
        }),
{
    the_first_reminder_is_shown(s.store.on(s.today), s.now);
}

/// The progress of the day in view tells how many of its tasks are done and how many there are, and
/// stands out where all are.
pub proof fn progress_tells_done_and_all(s: AppV)
    ensures
        s.progress().text == " "@ + decimal(
            among(s.tasks(), |t: TaskV| t.done, s.tasks().len() as int) as nat,
        ) + "/"@ + decimal(s.tasks().len()) + " done"@,
        (s.progress().style.fg is Some) <==> s.tasks().len() > 0 && forall|i: int|
            0 <= i < s.tasks().len() ==> (#[trigger] s.tasks()[i]).done,
{
    progress_counts_the_done(s.tasks());
}

/// The note that is shown is that of the selected task, and none while the task is masked.
pub proof fn the_note_of_the_selected_task_is_shown(s: AppV)
    ensures
        match s.selected_task() {
            Some(idx) => if s.tasks()[idx].hidden && !s.reveal {
                s.shown_note() is None
            } else {
                s.shown_note() == s.tasks()[idx].note
            },
            None => s.shown_note() is None,
        },
{
}

/// A line of text takes the fewest rows that hold it, one where it is empty; a note is given a row for
/// its border and from one to four for its text.
pub proof fn lines_take_the_rows_they_need(line: Seq<char>, width: int, note: Seq<char>, screen: int)
    requires
        width > 0,
    ensures
        wrapped_rows(line, width) >= 1,
        line.len() <= wrapped_rows(line, width) * width,
        line.len() > 0 ==> (wrapped_rows(line, width) - 1) * width < line.len(),
        2 <= panel_height(note, screen) <= 5,
{
    if line.len() > 0 {
        let n = line.len() as int;
        let r = (n + width - 1) / width;
        vstd::arithmetic::div_mod::lemma_fundamental_div_mod(n + width - 1, width);
        vstd::arithmetic::div_mod::lemma_mod_bound(n + width - 1, width);
        assert(width * r == r * width) by (nonlinear_arith);
        assert((r - 1) * width == r * width - width) by (nonlinear_arith);
        assert(r >= 1) by (nonlinear_arith)
            requires
                r * width > n - 1,
                n >= 1,
                width > 0,
        ;
    }
}

// --- the calendar --------------------------------------------------------------

/// A day of the calendar looks plain without tasks, has one colour where all its tasks are done and
/// another where one is open; today is underlined, and the day under the cursor reversed.
pub proof fn days_look_by_their_tasks(s: AppV, date: int, cursor: int)
    ensures
        ({
            let style = s.day_style(date, cursor);
            let tasks = s.store.on(date);
            &&& tasks.len() == 0 ==> style.fg is None && !style.bold
            &&& tasks.len() > 0 && (forall|i: int| 0 <= i < tasks.len() ==> (#[trigger] tasks[i]).done)
                ==> style.fg == Some(s.theme.done_day) && !style.bold
            &&& (exists|i: int| 0 <= i < tasks.len() && !(#[trigger] tasks[i]).done) ==> style.fg
                == Some(s.theme.accent) && style.bold
            &&& style.underlined == (date == s.today)
            &&& style.reversed == (date == cursor)
        }),
{
    progress_counts_the_done(s.store.on(date));
}

/// The calendar marks every day with a page, today and the day under the cursor, as far as it can
/// show them, each in its style.
pub proof fn days_with_tasks_are_marked(s: AppV, cursor: int, date: int)
    requires
        date == s.today || date == cursor || exists|p: int|
            0 <= p < s.store.days.len() && (#[trigger] s.store.days[p]).date == date,
        -9999 <= civil(date).year <= 9999,
    ensures
        s.calendar_shown(cursor).contains(
            DayMarkV { julian: date + 1_721_425, style: s.day_style(date, cursor) },
        ),
{
    let days = s.marked_days(cursor);
    let n = s.store.days.len() as int;
    let i = if date == s.today {
        n
    } else if date == cursor {
        n + 1
    } else {
        choose|p: int| 0 <= p < n && (#[trigger] s.store.days[p]).date == date
    };
    assert(days[i] == date);
    mark_is_there(s, cursor, days.len() as int, i);
}

/// A marked day stays marked.
proof fn mark_is_there(s: AppV, cursor: int, n: int, i: int)
    requires
        0 <= i < n <= s.marked_days(cursor).len(),
        -9999 <= civil(s.marked_days(cursor)[i]).year <= 9999,
    ensures
        s.calendar_marks(cursor, n).contains(
            DayMarkV {
                julian: s.marked_days(cursor)[i] + 1_721_425,
                style: s.day_style(s.marked_days(cursor)[i], cursor),
            },
        ),
    decreases n,
{
    let date = s.marked_days(cursor)[i];
    let mark = DayMarkV { julian: date + 1_721_425, style: s.day_style(date, cursor) };
    let before = s.calendar_marks(cursor, n - 1);
    let after = s.calendar_marks(cursor, n);
    if i < n - 1 {
        mark_is_there(s, cursor, n - 1, i);
        let k = choose|k: int| 0 <= k < before.len() && before[k] == mark;
        assert(after[k] == mark);
    } else {
        assert(after[before.len() as int] == mark);
    }
}

/// The line below the calendar tells the day under the cursor and how many of its tasks are open and
/// done.
pub proof fn the_calendar_counts_the_day(s: AppV, cursor: int)
    ensures
        ({
            let tasks = s.store.on(cursor);
            let done = among(tasks, |t: TaskV| t.done, tasks.len() as int);
            let line = s.calendar_info(cursor);
            &&& line.len() == 5
            &&& line[2].text == relative_text(cursor, s.today)
            &&& tasks.len() == 0 ==> line[4].text == "no tasks"@
            &&& tasks.len() > 0 ==> line[4].text == decimal((tasks.len() - done) as nat)
                + " open · "@ + decimal(done as nat) + " done"@
        }),
{
    progress_counts_the_done(s.store.on(cursor));
}

// --- the review ----------------------------------------------------------------

/// The review begins with the streak, the completions of the last seven days and the open tasks.
pub proof fn the_review_begins_with_the_numbers(s: AppV, average: Seq<char>)
    ensures
        ({
            let head = s.review(average)[0];
            let streak = s.store.streak(s.today);
            &&& head.len() == 5
            &&& streak == 1 ==> head[0].text == "Streak: "@ + decimal(1) + " day"@
            &&& streak != 1 ==> head[0].text == "Streak: "@ + decimal(streak) + " day"@ + "s"@
            &&& head[2].text == decimal(s.store.done_recently(s.today))
                + " done in the last 7 days ("@ + average + "/day)"@
            &&& head[4].text == decimal(s.store.open_tasks(s.today).len()) + " open"@
        }),
{
    reveal_strlit("");
    let streak = s.store.streak(s.today);
    if streak == 1 {
        assert("Streak: "@ + decimal(1) + " day"@ + ""@ =~= "Streak: "@ + decimal(1) + " day"@);
    }
}

/// The review names the first three open tasks that were written down before today, oldest first,
/// each with its age in days.
pub proof fn the_oldest_tasks_are_named(s: AppV, list: Seq<Listed>, n: int)
    requires
        0 <= n <= list.len(),
    ensures
        ({
            let old = |l: Listed| l.task.created < s.today;
            let names = s.postponed(list, n);
            let all = among(list, old, n);
            &&& names.len() == (if all < 3 {
                all
            } else {
                3
            })
            &&& forall|i: int|
                0 <= i < n && (#[trigger] list[i]).task.created < s.today && among(list, old, i) < 3
                    ==> names[among(list, old, i)] == (if list[i].task.hidden && !s.reveal {
                    MASK@
                } else {
                    list[i].task.text
                }) + (" ("@ + decimal((s.today - list[i].task.created) as nat) + "d)"@)
        }),
    decreases n,
{
    let old = |l: Listed| l.task.created < s.today;
    among_grows(list, old, 0, n);
    if n > 0 {
        the_oldest_tasks_are_named(s, list, n - 1);
        among_grows(list, old, 0, n - 1);
        let before = s.postponed(list, n - 1);
        let names = s.postponed(list, n);
        assert forall|i: int|
            0 <= i < n && (#[trigger] list[i]).task.created < s.today && among(list, old, i)
                < 3 implies names[among(list, old, i)] == (if list[i].task.hidden && !s.reveal {
            MASK@
        } else {
            list[i].task.text
        }) + (" ("@ + decimal((s.today - list[i].task.created) as nat) + "d)"@) by {
            among_grows(list, old, i, n - 1);
            among_grows(list, old, 0, i);
            assert(i < n - 1 ==> old(list[i]));
        }
    }
}

/// Where the section of a day begins in the review, counted in days before today.
pub open spec fn review_at(s: AppV, i: int) -> int
    decreases i,
{
    if i <= 0 {
        3
    } else {
        review_at(s, i - 1) + s.review_day(s.today - (i - 1)).len()
    }
}

/// The sections of the last days.
proof fn review_days_at(s: AppV, n: int, i: int, k: int)
    requires
        0 <= i < n,
        0 <= k < s.review_day(s.today - i).len(),
    ensures
        0 <= review_at(s, i) - 3 + k < s.review_days(n).len(),
        s.review_days(n)[review_at(s, i) - 3 + k] == s.review_day(s.today - i)[k],
        s.review_days(n).len() == review_at(s, n) - 3,
    decreases n,
{
    review_days_len(s, n);
    review_days_len(s, n - 1);
    if i < n - 1 {
        review_days_at(s, n - 1, i, k);
    }
}

/// How long the sections of the last days are.
proof fn review_days_len(s: AppV, n: int)
    requires
        0 <= n,
    ensures
        s.review_days(n).len() == review_at(s, n) - 3,
    decreases n,
{
    if n > 0 {
        review_days_len(s, n - 1);
    }
}

/// The review goes through the last seven days, today first: the day, the tasks completed on it, and
/// today also the open tasks of today, each by its text.
pub proof fn the_review_shows_seven_days(s: AppV, average: Seq<char>, i: int, k: int)
    requires
        0 <= i < 7,
        0 <= k < s.store.completed_on(s.today - i).len(),
    ensures
        s.review(average)[review_at(s, i)] == s.review_day_head(s.today - i),
        ({
            let t = s.store.completed_on(s.today - i)[k];
            s.review(average)[review_at(s, i) + 1 + k][1].text == (if t.hidden && !s.reveal {
                MASK@
            } else {
                t.text
            })
        }),
        s.review(average).len() == review_at(s, 7),
{
    review_days_at(s, 7, i, 0);
    review_days_at(s, 7, i, k + 1);
    review_days_len(s, 7);
    let day = s.review_day(s.today - i);
    let t = s.store.completed_on(s.today - i)[k];
    assert(day[0] == s.review_day_head(s.today - i));
    assert(day[k + 1] == s.completed_line(t));
    assert(s.review(average)[review_at(s, i)] == s.review_days(7)[review_at(s, i) - 3]);
    assert(s.review(average)[review_at(s, i) + 1 + k] == s.review_days(7)[review_at(s, i) - 3 + k
        + 1]);
}

/// The open tasks that the review shows are those of today, in manual order; of an earlier day it
/// shows none.
pub proof fn the_review_shows_open_tasks_of_today(s: AppV, date: int)
    ensures
        date != s.today ==> s.review_open(date).len() == 0,
        date == s.today ==> s.review_open(date).len() == among(
            s.store.on(date),
            |t: TaskV| !t.done,
            s.store.on(date).len() as int,
        ),
        forall|i: int|
            date == s.today && 0 <= i < s.store.on(date).len() && !(#[trigger] s.store.on(
                date,
            )[i]).done ==> s.review_open(date)[among(s.store.on(date), |t: TaskV| !t.done, i)]
                == s.store.on(date)[i],
{
    filter_places(s.store.on(date), |t: TaskV| !t.done);
}

/// The heading of a day in the review tells the day, how many tasks were completed on it, and for
/// today how many are open, where some are.
pub proof fn a_day_of_the_review_is_counted(s: AppV, date: int)
    ensures
        ({
            let head = s.review_day_head(date);
            let open = s.review_open(date).len();
            &&& head[0].text == short_date(date)
            &&& head[1].text == " · "@ + relative_text(date, s.today)
            &&& head[2].text == "    "@ + decimal(s.store.completed_on(date).len()) + " done"@
            &&& open == 0 ==> head.len() == 3
            &&& open > 0 ==> head.len() == 4 && head[3].text == " · "@ + decimal(open) + " open"@
        }),
{
}

/// An open task of today is shown in the review by its text, or the mask, with its age in days where
/// it was written down earlier.
pub proof fn open_tasks_are_shown_with_their_age(s: AppV, t: TaskV)
    ensures
        s.open_line(t)[1].text == (if t.hidden && !s.reveal {
            MASK@
        } else {
            t.text
        }),
        t.created >= s.today ==> s.open_line(t).len() == 2,
        t.created < s.today ==> s.open_line(t).len() == 3 && s.open_line(t)[2].text == " ("@
            + decimal((s.today - t.created) as nat) + "d)"@,
{
}

/// A search hit shows its day, a box that is ticked where the task is done, and the text of the task,
/// or the mask.
pub proof fn a_hit_shows_its_task(s: AppV, hit: (int, int))
    ensures
        ({
            let row = s.hit_row(hit);
            let t = s.store.on(hit.0)[hit.1];
            &&& row.len() == 3
            &&& row[0].text == short_date(hit.0) + "  "@
            &&& t.done ==> row[1].text == "[x] "@
            &&& !t.done ==> row[1].text == "[ ] "@
            &&& t.hidden && !s.reveal ==> row[2].text == MASK@
            &&& !(t.hidden && !s.reveal) ==> row[2].text == t.text
        }),
{
}

/// Every hit that is a task has its row, in the order of the hits.
pub proof fn hits_have_their_rows(s: AppV, found: Seq<(int, int)>, n: int)
    requires
        0 <= n <= found.len(),
        forall|i: int| 0 <= i < n ==> s.store.has((#[trigger] found[i]).0, found[i].1),
    ensures
        s.hit_rows(found, n).len() == n,
        forall|i: int| 0 <= i < n ==> #[trigger] s.hit_rows(found, n)[i] == s.hit_row(found[i]),
    decreases n,
{
    if n > 0 {
        hits_have_their_rows(s, found, n - 1);
        assert(s.store.has(found[n - 1].0, found[n - 1].1));
        let rows = s.hit_rows(found, n);
        assert forall|i: int| 0 <= i < n implies #[trigger] rows[i] == s.hit_row(found[i]) by {
            if i < n - 1 {
                assert(rows[i] == s.hit_rows(found, n - 1)[i]);
            }
        }
    }
}

/// The list picker names every list with the number of its open tasks, and ends with a row for a new
/// one.
pub proof fn the_picker_names_every_list(s: AppV, i: int)
    requires
        0 <= i < s.list_rows().len(),
    ensures
        s.picker_rows().len() == s.list_rows().len() + 1,
        s.picker_rows()[i][0].text == s.list_rows()[i].name,
        s.picker_rows()[i][1].text == "  "@ + decimal(s.list_rows()[i].open) + " open"@,
        s.picker_rows().last()[0].text == "+ New list"@,
{
}

/// The footer asks before a task is deleted, with its text or the mask; else it shows the message, or
/// the hints for the keys where there is none.
pub proof fn the_footer_asks_tells_or_hints(s: AppV)
    ensures
        match s.mode {
            ModeV::ConfirmDelete(idx) => s.store.has(s.date, idx) ==> s.footer().text
                == "Delete \""@ + (if s.tasks()[idx].hidden && !s.reveal {
                MASK@
            } else {
                s.tasks()[idx].text
            }) + "\"? y/n"@,
            _ => match s.status {
                Some(status) => s.footer().text == status,
                None => s.footer().text == s.mode_hints(),
            },
        },
{
}

/// The key reference has a row for every action: its keys, set to the right, and what it does.
pub proof fn the_key_reference_lists_every_action(s: AppV, i: int)
    requires
        0 <= i < ACTIONS,
    ensures
        s.help().len() > ACTIONS,
        s.help()[i].len() == 2,
        s.help()[i][1].text == Action::at(i).description_text(),
        exists|fill: Seq<char>|
            s.help()[i][0].text == #[trigger] (fill + keys_text(s.keys, Action::at(i)) + "  "@)
                && forall|k: int| 0 <= k < fill.len() ==> #[trigger] fill[k] == ' ',
{
    let keys = keys_text(s.keys, Action::at(i));
    spaces_are_spaces(16 - keys.len());
    assert(s.help()[i][0].text == spaces(16 - keys.len()) + keys + "  "@);
}

/// Spaces are spaces, as many as asked for.
proof fn spaces_are_spaces(n: int)
    ensures
        spaces(n).len() == (if n > 0 {
            n
        } else {
            0
        }),
        forall|k: int| 0 <= k < spaces(n).len() ==> #[trigger] spaces(n)[k] == ' ',
    decreases n,
{
    if n > 0 {
        spaces_are_spaces(n - 1);
    }
}

/// The header begins with the day in view and where it lies from today; where there are several lists
/// it names them behind that, the active one first and in brackets.
pub proof fn the_header_tells_the_day_and_the_lists(s: AppV)
    ensures
        s.header().len() >= 4,
        s.header()[0].text == " "@ + long_date(s.date),
        s.header()[2].text == relative_text(s.date, s.today),
        s.others.len() > 0 ==> s.header()[3].text == "  ["@ + s.list_name + "]"@,
        s.others.len() > 0 ==> s.header()[4].text == " "@ + joined(
            s.others.map_values(|l: SlotV| l.name),
            " "@,
        ),
        s.sorted && s.others.len() == 0 ==> s.header()[3].text == "  ⇅ sorted"@,
        s.sorted && s.others.len() > 0 ==> s.header()[5].text == "  ⇅ sorted"@,
        s.header().len() == 4 + (if s.others.len() > 0 {
            2int
        } else {
            0
        }) + one_where(s.sorted) + s.header_reminder().len(),
{
    let names = s.list_names();
    assert(names.drop_first() =~= s.others.map_values(|l: SlotV| l.name));
    assert(names.len() == s.others.len() + 1);
}

/// The list is shown where the day has tasks, and a hint in its place where it has none. The side pane
/// is shown beside it on a screen of sixty columns or more, with the day in view of the next list.
pub proof fn lists_are_shown_side_by_side(s: AppV, width: int)
    ensures
        s.tasks().len() > 0 <==> s.list_shown() is Ok,
        s.tasks().len() > 0 ==> s.list_shown()->Ok_0 == s.rows_of(s.store),
        s.split && s.others.len() > 0 && width >= 60 ==> s.side_shown(width) == Some(
            (s.others[0].name, s.rows_of(s.others[0].store)),
        ),
        !(s.split && s.others.len() > 0 && width >= 60) ==> s.side_shown(width) is None,
{
}

/// The second line of the review names the oldest open tasks, one behind the other, or says that there
/// are none.
pub proof fn the_review_names_the_oldest(s: AppV, average: Seq<char>)
    ensures
        ({
            let list = s.store.open_tasks(s.today);
            let names = s.postponed(list, list.len() as int);
            let line = s.review(average)[1];
            &&& line.len() == 2
            &&& names.len() > 0 ==> line[1].text == joined(names, " · "@)
            &&& names.len() == 0 ==> line[1].text
                == "nothing — every task was written today or later"@
        }),
{
}

/// A search shows the rows of its hits, or what is to be done or was not found where there are none.
pub proof fn a_search_shows_its_hits(s: AppV)
    requires
        s.mode is Search,
    ensures
        s.search_results().len() > 0 ==> s.search_shown() == Ok::<Seq<Seq<SpanV>>, Seq<char>>(
            s.hit_rows(s.search_results(), s.search_results().len() as int),
        ),
        s.search_results().len() == 0 && s.mode->Search_editor.text.len() == 0 ==> s.search_shown()
            == Err::<Seq<Seq<SpanV>>, Seq<char>>("Type to search task text and notes"@),
        s.search_results().len() == 0 && s.mode->Search_editor.text.len() > 0 ==> s.search_shown()
            == Err::<Seq<Seq<SpanV>>, Seq<char>>("No matches"@),
{
}

} // verus!
