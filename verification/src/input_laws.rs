//! What typing, searching, the calendar and the command line do, told by the state before and after.

use vstd::prelude::*;

use crate::app::{hidden_at, AppV, ModeV};
use crate::app_laws::{every_task_is_shown_once, selecting_selects};
use crate::config::name_error;
use crate::date::{
    day_in_range, days_in_month, months_later, names_day, separator, separator_facts, typed_clock,
    typed_time, Civil,
};
use crate::date_laws::months_later_is_that_month;
use crate::editor::{EditorV, Target};
use crate::keys::{KeyCode, KeyEvent};
use crate::order::{among, filter_places, filter_sources, same_filter};
use crate::pages::ordered;
use crate::popup_keys::calendar_next;
use crate::store_laws::add_puts_an_open_task_last;
use crate::text::{
    all_digits, digit_char, digit_value, digits_value, is_digit, is_white, trimmed, word_end,
};
use crate::text_laws::trimmed_is_the_middle;
use crate::typing::{command_arg, command_head, is_quit};

verus! {

// --- the editor ----------------------------------------------------------------

/// A character is put in at the cursor, which moves behind it; Backspace takes away the character
/// before the cursor, Delete the one behind it; the arrows move the cursor by one and stay in the
/// text, Home and End move it to the ends.
pub proof fn editing_keys_edit_at_the_cursor(e: EditorV, c: char)
    requires
        0 <= e.cursor <= e.text.len(),
    ensures
        ({
            let r = e.typed(KeyEvent { code: KeyCode::Char(c), control: false });
            r.text == e.text.take(e.cursor) + seq![c] + e.text.skip(e.cursor) && r.cursor
                == e.cursor + 1 && r.target == e.target
        }),
        e.typed(KeyEvent { code: KeyCode::Char(c), control: true }) == e,
        ({
            let r = e.typed(KeyEvent { code: KeyCode::Backspace, control: false });
            if e.cursor > 0 {
                r.text == e.text.take(e.cursor - 1) + e.text.skip(e.cursor) && r.cursor == e.cursor
                    - 1
            } else {
                r == e
            }
        }),
        ({
            let r = e.typed(KeyEvent { code: KeyCode::Delete, control: false });
            if e.cursor < e.text.len() {
                r.text == e.text.take(e.cursor) + e.text.skip(e.cursor + 1) && r.cursor == e.cursor
            } else {
                r == e
            }
        }),
        ({
            let r = e.typed(KeyEvent { code: KeyCode::Left, control: false });
            r.text == e.text && r.cursor == (if e.cursor > 0 {
                e.cursor - 1
            } else {
                0
            })
        }),
        ({
            let r = e.typed(KeyEvent { code: KeyCode::Right, control: false });
            r.text == e.text && r.cursor == (if e.cursor < e.text.len() {
                e.cursor + 1
            } else {
                e.text.len() as int
            })
        }),
        ({
            let r = e.typed(KeyEvent { code: KeyCode::Home, control: false });
            r.text == e.text && r.cursor == 0
        }),
        ({
            let r = e.typed(KeyEvent { code: KeyCode::End, control: false });
            r.text == e.text && r.cursor == e.text.len()
        }),
{
    assert(e.text.insert(e.cursor, c) =~= e.text.take(e.cursor) + seq![c] + e.text.skip(e.cursor));
    if e.cursor > 0 {
        assert(e.text.remove(e.cursor - 1) =~= e.text.take(e.cursor - 1) + e.text.skip(e.cursor));
    }
    if e.cursor < e.text.len() {
        assert(e.text.remove(e.cursor) =~= e.text.take(e.cursor) + e.text.skip(e.cursor + 1));
    }
}

// --- what is typed -------------------------------------------------------------

/// Enter adds the typed task, without the white space around it, to the day in view and selects it.
/// Nothing but white space adds none, and Escape leaves everything as it was.
pub proof fn a_typed_task_is_added(s: AppV, e: EditorV, control: bool)
    requires
        ordered(s.store.days),
        0 <= s.selected,
        e.target == Target::NewTask,
    ensures
        ({
            let r = s.on_insert(e, KeyEvent { code: KeyCode::Enter, control });
            &&& trimmed(e.text).len() > 0 ==> r.0.store == s.store.add(s.date, trimmed(e.text))
                && r.1 && r.0.selected_task() == Some(s.store.on(s.date).len() as int)
            &&& trimmed(e.text).len() == 0 ==> r.0.store == s.store && !r.1
            &&& r.0.mode == ModeV::Normal
        }),
        s.on_insert(e, KeyEvent { code: KeyCode::Esc, control }) == (
            AppV { mode: ModeV::Normal, ..s },
            false,
        ),
{
    reveal(AppV::on_insert);
    reveal(AppV::submit);
    reveal(AppV::submit_task);
    let text = trimmed(e.text);
    if text.len() > 0 {
        let n = s.store.on(s.date).len() as int;
        let added = AppV { mode: ModeV::Normal, store: s.store.add(s.date, text), ..s };
        add_puts_an_open_task_last(s.store, s.date, text);
        every_task_is_shown_once(added);
        assert(added.store.has(s.date, n));
        assert(!added.tasks()[n].done);
        assert(added.visible().contains(n));
        selecting_selects(added, n);
    }
}

/// Enter replaces the text of the task, sets its note or its reminder, all without the white space
/// around what was typed. An empty text replaces nothing, an empty reminder is taken away, and a time
/// that is none leaves the prompt open and the tasks as they are.
pub proof fn typed_changes_are_made(s: AppV, text: Seq<char>, cursor: int, idx: usize, control: bool)
    ensures
        ({
            let e = EditorV { text, cursor, target: Target::EditTask(idx) };
            let r = s.on_insert(e, KeyEvent { code: KeyCode::Enter, control });
            &&& trimmed(text).len() > 0 ==> r.0.store == s.store.edit(
                s.date,
                idx as int,
                trimmed(text),
            )
            &&& trimmed(text).len() == 0 ==> r.0.store == s.store && !r.1
            &&& r.0.mode == ModeV::Normal
        }),
        ({
            let e = EditorV { text, cursor, target: Target::Note(idx) };
            let r = s.on_insert(e, KeyEvent { code: KeyCode::Enter, control });
            r.0.store == s.store.set_note(s.date, idx as int, trimmed(text)) && r.0.mode
                == ModeV::Normal
        }),
        ({
            let e = EditorV { text, cursor, target: Target::Reminder(idx) };
            let r = s.on_insert(e, KeyEvent { code: KeyCode::Enter, control });
            let time = typed_time(trimmed(text));
            &&& trimmed(text).len() == 0 ==> r.0.store == s.store.set_reminder(
                s.date,
                idx as int,
                None,
            ) && r.0.mode == ModeV::Normal
            &&& time is Some ==> r.0.store == s.store.set_reminder(s.date, idx as int, time)
                && r.0.mode == ModeV::Normal
            &&& trimmed(text).len() > 0 && time is None ==> r.0.store == s.store && r.0.mode == s.mode
                && !r.1
        }),
{
    reveal(AppV::on_insert);
    reveal(AppV::submit);
    reveal(AppV::submit_edit);
    reveal(AppV::submit_note);
    reveal(AppV::submit_reminder);
    if trimmed(text).len() == 0 {
        trimmed_is_the_middle(trimmed(text));
        assert(typed_time(trimmed(text)) is None);
    }
}

/// Any other key changes the text being typed and nothing else.
pub proof fn other_keys_are_typed(s: AppV, e: EditorV, key: KeyEvent)
    requires
        key.code != KeyCode::Enter,
        key.code != KeyCode::Esc,
    ensures
        s.on_insert(e, key) == (AppV { mode: ModeV::Insert(e.typed(key)), ..s }, false),
        s.on_command(e, key) == (AppV { mode: ModeV::Command(e.typed(key)), ..s }, false),
{
    reveal(AppV::on_insert);
    reveal(AppV::on_command);
}

// --- searching -----------------------------------------------------------------

/// The hits that are shown are hits of the search, in its order: all of them, but for hidden tasks
/// that are masked, or the first fifty where there are more.
pub proof fn hits_are_shown_in_order(s: AppV)
    requires
        s.mode is Search,
    ensures
        ({
            let found = s.store.search(s.mode->Search_editor.text);
            let shown = s.search_results();
            let keep = |h: (int, int)|
                s.reveal || !(s.store.has(h.0, h.1) && s.store.on(h.0)[h.1].hidden);
            let n = among(found, keep, found.len() as int);
            &&& shown.len() == (if n > 50 {
                50
            } else {
                n
            })
            &&& forall|i: int|
                0 <= i < found.len() && keep(#[trigger] found[i]) && among(found, keep, i) < 50
                    ==> shown[among(found, keep, i)] == found[i]
            &&& forall|k: int|
                0 <= k < shown.len() ==> found.contains(#[trigger] shown[k]) && keep(shown[k])
        }),
{
    reveal(AppV::search_results);
    let found = s.store.search(s.mode->Search_editor.text);
    let shown = s.search_results();
    let keep = |h: (int, int)| s.reveal || !(s.store.has(h.0, h.1) && s.store.on(h.0)[h.1].hidden);
    let own = |h: (int, int)| s.reveal || !hidden_at(s.store, h);
    same_filter(found, own, keep);
    filter_places(found, keep);
    assert forall|k: int| 0 <= k < shown.len() implies found.contains(#[trigger] shown[k]) && keep(
        shown[k],
    ) by {
        let i = filter_sources(found, keep, k);
        assert(found[i] == shown[k]);
    }
}

/// Enter opens the chosen hit: its day comes into view with the task selected, where it is shown.
/// Escape and Enter both close the search, and no task changes.
pub proof fn a_hit_is_opened(s: AppV, e: EditorV, chosen: int, control: bool)
    requires
        0 <= chosen < s.search_results().len(),
    ensures
        ({
            let hit = s.search_results()[chosen];
            let r = s.on_search(e, chosen, KeyEvent { code: KeyCode::Enter, control });
            &&& r.store == s.store
            &&& r.date == hit.0
            &&& r.mode == ModeV::Normal
            &&& r.visible().contains(hit.1) ==> r.selected_task() == Some(hit.1)
        }),
        s.on_search(e, chosen, KeyEvent { code: KeyCode::Esc, control }) == (AppV {
            mode: ModeV::Normal,
            ..s
        }),
{
    reveal(AppV::on_search);
    reveal(AppV::open_hit);
    let hit = s.search_results()[chosen];
    let there = (AppV { mode: ModeV::Normal, ..s }).go_to(hit.0);
    let r = s.on_search(e, chosen, KeyEvent { code: KeyCode::Enter, control });
    assert(r == there.select_task(hit.1));
    assert(r.visible() == there.visible()) by {
        reveal(AppV::visible);
    }
    selecting_selects(there, hit.1);
}

/// The arrows choose the next or the previous hit and stay among them; what is typed changes the
/// query and starts again with the first hit.
pub proof fn hits_are_chosen_with_the_arrows(s: AppV, e: EditorV, chosen: int, c: char)
    requires
        0 <= chosen,
    ensures
        chosen + 1 < s.search_results().len() ==> s.on_search(
            e,
            chosen,
            KeyEvent { code: KeyCode::Down, control: false },
        ) == (AppV { mode: ModeV::Search { editor: e, selected: chosen + 1 }, ..s }),
        chosen + 1 >= s.search_results().len() ==> s.on_search(
            e,
            chosen,
            KeyEvent { code: KeyCode::Down, control: false },
        ) == s,
        s.on_search(e, chosen, KeyEvent { code: KeyCode::Up, control: false }) == (AppV {
            mode: ModeV::Search {
                editor: e,
                selected: if chosen > 0 {
                    chosen - 1
                } else {
                    0
                },
            },
            ..s
        }),
        s.on_search(e, chosen, KeyEvent { code: KeyCode::Char(c), control: false }) == (AppV {
            mode: ModeV::Search {
                editor: e.typed(KeyEvent { code: KeyCode::Char(c), control: false }),
                selected: 0,
            },
            ..s
        }),
{
    reveal(AppV::on_search);
}

// --- the calendar --------------------------------------------------------------

/// The cursor of the calendar moves by a day to the left and to the right, by a week up and down, and
/// to today.
pub proof fn the_cursor_moves_by_days_and_weeks(today: int, cursor: int)
    ensures
        calendar_next(today, KeyCode::Char('h'), cursor) == cursor - 1,
        calendar_next(today, KeyCode::Left, cursor) == cursor - 1,
        calendar_next(today, KeyCode::Char('l'), cursor) == cursor + 1,
        calendar_next(today, KeyCode::Right, cursor) == cursor + 1,
        calendar_next(today, KeyCode::Char('k'), cursor) == cursor - 7,
        calendar_next(today, KeyCode::Up, cursor) == cursor - 7,
        calendar_next(today, KeyCode::Char('j'), cursor) == cursor + 7,
        calendar_next(today, KeyCode::Down, cursor) == cursor + 7,
        calendar_next(today, KeyCode::Char('t'), cursor) == today,
{
}

/// Whether day `n` is the same day of the month so many months behind the month of date `c`, or the
/// last day of that month where it is shorter.
pub open spec fn is_month_step(c: Civil, n: int, months: int) -> bool {
    exists|r: Civil| #[trigger]
        names_day(r, n) && r.year * 12 + r.month == c.year * 12 + c.month + months && r.day <= c.day
            && (r.day == c.day || r.day == days_in_month(r.year, r.month))
}

/// The cursor moves by a month to the same day of the month before or after, or to its last day where
/// that month is shorter, as long as that date can be represented.
pub proof fn the_cursor_moves_by_months(c: Civil, today: int, cursor: int)
    requires
        names_day(c, cursor),
        day_in_range(months_later(cursor, -1)),
        day_in_range(months_later(cursor, 1)),
    ensures
        calendar_next(today, KeyCode::PageUp, cursor) == calendar_next(
            today,
            KeyCode::Char('['),
            cursor,
        ),
        calendar_next(today, KeyCode::PageDown, cursor) == calendar_next(
            today,
            KeyCode::Char(']'),
            cursor,
        ),
        is_month_step(c, calendar_next(today, KeyCode::PageUp, cursor), -1),
        is_month_step(c, calendar_next(today, KeyCode::PageDown, cursor), 1),
{
    by_months(today, cursor);
    months_later_is_that_month(c, cursor, -1);
    months_later_is_that_month(c, cursor, 1);
}

/// Where the cursor moves by a month.
proof fn by_months(today: int, cursor: int)
    requires
        day_in_range(months_later(cursor, -1)),
        day_in_range(months_later(cursor, 1)),
    ensures
        calendar_next(today, KeyCode::PageUp, cursor) == months_later(cursor, -1),
        calendar_next(today, KeyCode::Char('['), cursor) == months_later(cursor, -1),
        calendar_next(today, KeyCode::PageDown, cursor) == months_later(cursor, 1),
        calendar_next(today, KeyCode::Char(']'), cursor) == months_later(cursor, 1),
{
}

/// Enter brings the chosen day into view, or moves the task there that the calendar was opened for;
/// the keys that close the calendar change nothing else, and those that move the cursor nothing but
/// the cursor.
pub proof fn the_calendar_chooses_a_day(
    s: AppV,
    cursor: int,
    moving: Option<usize>,
    key: KeyEvent,
)
    ensures
        key.code == KeyCode::Enter && moving is None ==> s.on_calendar(cursor, moving, key) == (
            AppV { mode: ModeV::Normal, date: cursor, selected: 0, ..s },
            false,
        ),
        key.code == KeyCode::Enter && moving is Some && cursor != s.date && s.store.has(
            s.date,
            moving->Some_0 as int,
        ) ==> ({
            let r = s.on_calendar(cursor, moving, key);
            &&& r.0.store == s.store.move_task(s.date, moving->Some_0 as int, cursor)
            &&& r.0.date == s.date
            &&& r.0.mode == ModeV::Normal
            &&& r.1
        }),
        key.code == KeyCode::Enter && moving is Some && cursor == s.date ==> s.on_calendar(
            cursor,
            moving,
            key,
        ) == (AppV { mode: ModeV::Normal, ..s }, false),
        key.code == KeyCode::Esc || key.code == KeyCode::Char('q') ==> s.on_calendar(
            cursor,
            moving,
            key,
        ) == (AppV { mode: ModeV::Normal, ..s }, false),
        key.code == KeyCode::Left || key.code == KeyCode::Right || key.code == KeyCode::Up
            || key.code == KeyCode::Down || key.code == KeyCode::PageUp || key.code
            == KeyCode::PageDown || key.code == KeyCode::Char('t') ==> s.on_calendar(
            cursor,
            moving,
            key,
        ) == (
            AppV {
                mode: ModeV::Calendar { cursor: calendar_next(s.today, key.code, cursor), moving },
                ..s
            },
            false,
        ),
{
    reveal(AppV::on_calendar);
    reveal(AppV::on_day_chosen);
    reveal(AppV::move_to);
}

// --- typed times ---------------------------------------------------------------

/// The digit for a number below ten, and the number it stands for.
proof fn digits(n: int)
    requires
        0 <= n < 10,
    ensures
        is_digit(digit_char(n)),
        digit_value(digit_char(n)) == n,
        !is_white(digit_char(n)),
{
}

/// The number that one or two digits stand for.
proof fn small_numbers(a: int, b: int)
    requires
        0 <= a < 10,
        0 <= b < 10,
    ensures
        digits_value(seq![digit_char(a)]) == a,
        digits_value(seq![digit_char(a), digit_char(b)]) == 10 * a + b,
        digits_value(Seq::<char>::empty()) == 0,
        all_digits(seq![digit_char(a), digit_char(b)]),
        all_digits(Seq::<char>::empty()),
{
    digits(a);
    digits(b);
    reveal_with_fuel(digits_value, 3);
    let one = seq![digit_char(a)];
    let two = seq![digit_char(a), digit_char(b)];
    assert(one.drop_last() =~= Seq::<char>::empty());
    assert(two.drop_last() =~= one);
}

/// A text with no white space at its ends is trimmed.
proof fn already_trimmed(s: Seq<char>)
    requires
        s.len() > 0,
        !is_white(s[0]),
        !is_white(s.last()),
    ensures
        trimmed(s) == s,
{
}

/// An hour and a minute can be typed with the minute in two digits, right behind the hour or with any
/// one character between that is no digit; the hour takes one or two digits.
pub proof fn hours_and_minutes_can_be_typed(h: int, m: int, c: char)
    requires
        0 <= h < 24,
        0 <= m < 60,
        !is_digit(c),
    ensures
        typed_time(seq![digit_char(h / 10), digit_char(h % 10), digit_char(m / 10), digit_char(m % 10)])
            == Some((h * 3600 + m * 60) * 2_000_000_000),
        typed_time(
            seq![digit_char(h / 10), digit_char(h % 10), c, digit_char(m / 10), digit_char(m % 10)],
        ) == Some((h * 3600 + m * 60) * 2_000_000_000),
        h < 10 ==> typed_time(seq![digit_char(h), digit_char(m / 10), digit_char(m % 10)]) == Some(
            (h * 3600 + m * 60) * 2_000_000_000,
        ),
        h < 10 ==> typed_time(seq![digit_char(h), c, digit_char(m / 10), digit_char(m % 10)]) == Some(
            (h * 3600 + m * 60) * 2_000_000_000,
        ),
{
    typed_parts(h, m, c);
}

/// The hour and the minute of the four forms.
proof fn typed_parts(h: int, m: int, c: char)
    requires
        0 <= h < 24,
        0 <= m < 60,
        !is_digit(c),
    ensures
        ({
            let (a, b, x, y) = (
                digit_char(h / 10),
                digit_char(h % 10),
                digit_char(m / 10),
                digit_char(m % 10),
            );
            &&& typed_clock(trimmed(seq![a, b, x, y])) == Some((h, m))
            &&& typed_clock(trimmed(seq![a, b, c, x, y])) == Some((h, m))
            &&& h < 10 ==> typed_clock(trimmed(seq![digit_char(h), x, y])) == Some((h, m))
            &&& h < 10 ==> typed_clock(trimmed(seq![digit_char(h), c, x, y])) == Some((h, m))
        }),
{
    let (a, b, x, y) = (
        digit_char(h / 10),
        digit_char(h % 10),
        digit_char(m / 10),
        digit_char(m % 10),
    );
    digits(h / 10);
    digits(h % 10);
    digits(m / 10);
    digits(m % 10);
    small_numbers(h / 10, h % 10);
    small_numbers(m / 10, m % 10);
    reveal_with_fuel(separator, 6);
    let one = seq![a, b, x, y];
    already_trimmed(one);
    assert(separator(one, 0) == 4);
    assert(one.take(2) =~= seq![a, b] && one.skip(2) =~= seq![x, y]);
    let two = seq![a, b, c, x, y];
    already_trimmed(two);
    assert(separator(two, 0) == 2);
    assert(two.take(2) =~= seq![a, b] && two.skip(3) =~= seq![x, y]);
    if h < 10 {
        let d = digit_char(h);
        digits(h);
        small_numbers(h, h);
        let three = seq![d, x, y];
        already_trimmed(three);
        assert(separator(three, 0) == 3);
        assert(three.take(1) =~= seq![d] && three.skip(1) =~= seq![x, y]);
        let four = seq![d, c, x, y];
        already_trimmed(four);
        assert(separator(four, 0) == 1);
        assert(four.take(1) =~= seq![d] && four.skip(2) =~= seq![x, y]);
    }
}

/// An hour can be typed alone, in one or two digits, with one character behind it that is neither a
/// digit nor white space, or without.
pub proof fn hours_can_be_typed_alone(h: int, c: char)
    requires
        0 <= h < 24,
        !is_digit(c),
        !is_white(c),
    ensures
        typed_time(seq![digit_char(h / 10), digit_char(h % 10)]) == Some(h * 3600 * 2_000_000_000),
        typed_time(seq![digit_char(h / 10), digit_char(h % 10), c]) == Some(
            h * 3600 * 2_000_000_000,
        ),
        h < 10 ==> typed_time(seq![digit_char(h)]) == Some(h * 3600 * 2_000_000_000),
        h < 10 ==> typed_time(seq![digit_char(h), c]) == Some(h * 3600 * 2_000_000_000),
{
    let (a, b) = (digit_char(h / 10), digit_char(h % 10));
    digits(h / 10);
    digits(h % 10);
    small_numbers(h / 10, h % 10);
    reveal_with_fuel(separator, 4);
    let one = seq![a, b];
    already_trimmed(one);
    assert(separator(one, 0) == 2);
    let two = seq![a, b, c];
    already_trimmed(two);
    assert(separator(two, 0) == 2);
    assert(two.take(2) =~= seq![a, b] && two.skip(3) =~= Seq::<char>::empty());
    if h < 10 {
        let d = digit_char(h);
        digits(h);
        small_numbers(h, h);
        let three = seq![d];
        already_trimmed(three);
        assert(separator(three, 0) == 1);
        let four = seq![d, c];
        already_trimmed(four);
        assert(separator(four, 0) == 1);
        assert(four.take(1) =~= seq![d] && four.skip(2) =~= Seq::<char>::empty());
    }
}

/// A typed time begins with a digit and has at most one character that is no digit and at most four
/// digits, and it stands for the start of a minute of the day.
pub proof fn other_texts_are_no_times(s: Seq<char>)
    requires
        typed_time(s) is Some,
    ensures
        ({
            let t = trimmed(s);
            &&& 1 <= t.len() <= 5
            &&& is_digit(t[0])
            &&& forall|i: int, j: int|
                0 <= i < j < t.len() && !is_digit(#[trigger] t[i]) ==> is_digit(#[trigger] t[j])
        }),
        0 <= typed_time(s)->Some_0 < 24 * 3600 * 2_000_000_000,
        typed_time(s)->Some_0 % 120_000_000_000 == 0,
{
    let t = trimmed(s);
    separator_facts(t, 0);
    let k = separator(t, 0);
    assert forall|i: int, j: int|
        0 <= i < j < t.len() && !is_digit(#[trigger] t[i]) implies is_digit(#[trigger] t[j]) by {
        if k < t.len() {
            assert(i >= k);
            assert(t.skip(k + 1)[j - k - 1] == t[j]);
        }
    }
}

// --- the command line ----------------------------------------------------------

/// The first word of a text ends at its first white space.
pub proof fn words_end_at_white_space(s: Seq<char>)
    ensures
        word_end(s) <= s.len(),
        forall|k: int| 0 <= k < word_end(s) ==> !is_white(#[trigger] s[k]),
        word_end(s) < s.len() ==> is_white(s[word_end(s) as int]),
    decreases s.len(),
{
    if s.len() > 0 && !is_white(s[0]) {
        let rest = s.drop_first();
        words_end_at_white_space(rest);
        assert forall|k: int| 0 <= k < word_end(s) implies !is_white(#[trigger] s[k]) by {
            if k > 0 {
                assert(rest[k - 1] == s[k]);
            }
        }
        if word_end(s) < s.len() {
            assert(rest[word_end(rest) as int] == s[word_end(s) as int]);
        }
    }
}

/// Whether a text is one of the words that quit.
pub open spec fn quits(cmd: Seq<char>) -> bool {
    cmd == "q"@ || cmd == "q!"@ || cmd == "qa"@ || cmd == "quit"@ || cmd == "wq"@ || cmd == "x"@
}

/// A word without white space is its own first word, with nothing behind it.
proof fn one_word(s: Seq<char>)
    requires
        forall|k: int| 0 <= k < s.len() ==> !is_white(#[trigger] s[k]),
    ensures
        command_head(s) == s,
        command_arg(s).len() == 0,
{
    words_end_at_white_space(s);
    assert(s.take(s.len() as int) =~= s);
}

/// A command is its first word where nothing stands behind it.
proof fn bare_command(s: Seq<char>)
    requires
        s.len() > 0 ==> !is_white(s.last()),
    ensures
        command_arg(s).len() == 0 ==> command_head(s) == s,
{
    words_end_at_white_space(s);
    let w = word_end(s) as int;
    if w < s.len() {
        let rest = s.skip(w + 1);
        trimmed_is_the_middle(rest);
        assert(w < s.len() - 1);
        assert(rest[rest.len() - 1] == s.last());
    } else {
        assert(s.take(s.len() as int) =~= s);
    }
}

/// The words that quit or save have no white space in them.
proof fn short_words()
    ensures
        forall|s: Seq<char>|
            quits(s) || s == "w"@ || s == "write"@ ==> command_head(s) == s && command_arg(
                s,
            ).len() == 0,
{
    reveal_strlit("q");
    reveal_strlit("q!");
    reveal_strlit("qa");
    reveal_strlit("quit");
    reveal_strlit("wq");
    reveal_strlit("x");
    reveal_strlit("w");
    reveal_strlit("write");
    one_word("q"@);
    one_word("q!"@);
    one_word("qa"@);
    one_word("quit"@);
    one_word("wq"@);
    one_word("x"@);
    one_word("w"@);
    one_word("write"@);
}

/// A command quits where it is one of the words for it, saves where it is one of those for that, and
/// asks for a list where its first word is the one for that. No other command does any of these, and
/// none changes a task.
pub proof fn commands_do_what_they_say(s: AppV, cmd: Seq<char>)
    requires
        cmd.len() > 0 ==> !is_white(cmd.last()),
        !s.quit,
    ensures
        s.run_command(cmd).0.quit <==> quits(cmd),
        s.run_command(cmd).1 <==> cmd == "w"@ || cmd == "write"@,
        s.run_command(cmd).0.store == s.store,
        s.run_command(cmd).0.others == s.others,
        command_head(cmd) == "newlist"@ && command_arg(cmd).len() > 0 && s.lists_mutable
            && name_error(command_arg(cmd), s.list_names()) is None ==> s.run_command(
            cmd,
        ).0.pending_new_list == Some(command_arg(cmd)),
        command_head(cmd) != "newlist"@ ==> s.run_command(cmd).0.pending_new_list
            == s.pending_new_list,
{
    reveal(AppV::run_command);
    reveal(AppV::open_new_list_prompt);
    reveal(AppV::request_new_list);
    short_words();
    bare_command(cmd);
    different_words();
    assert(!quits("w"@) && !quits("write"@) && !quits("newlist"@));
    assert(is_quit(command_head(cmd)) == quits(command_head(cmd)));
}

/// The words of different commands are different.
proof fn different_words()
    ensures
        forall|s: Seq<char>| #[trigger] quits(s) ==> s != "w"@ && s != "write"@ && s != "newlist"@
            && s.len() > 0,
        "w"@.len() > 0,
        "write"@.len() > 0,
        "newlist"@.len() > 0,
        "w"@ != "newlist"@,
        "write"@ != "newlist"@,
{
    reveal_strlit("q");
    reveal_strlit("q!");
    reveal_strlit("qa");
    reveal_strlit("quit");
    reveal_strlit("wq");
    reveal_strlit("x");
    reveal_strlit("w");
    reveal_strlit("write");
    reveal_strlit("newlist");
    assert("q"@[0] == 'q' && "x"@[0] == 'x' && "w"@[0] == 'w');
    assert("q"@.len() == 1 && "q!"@.len() == 2 && "qa"@.len() == 2 && "quit"@.len() == 4
        && "wq"@.len() == 2 && "x"@.len() == 1 && "w"@.len() == 1 && "write"@.len() == 5
        && "newlist"@.len() == 7);
}

// --- screens that scroll -------------------------------------------------------

/// The key reference and the review scroll by one line or by ten, never before the first, and to the
/// first; the keys that close them change nothing else.
pub proof fn screens_scroll_by_lines(s: AppV, scroll: int, control: bool)
    requires
        0 <= scroll,
    ensures
        AppV::scrolled(scroll, KeyCode::Down) == Some(scroll + 1),
        AppV::scrolled(scroll, KeyCode::Char('j')) == Some(scroll + 1),
        scroll > 0 ==> AppV::scrolled(scroll, KeyCode::Up) == Some(scroll - 1),
        scroll == 0 ==> AppV::scrolled(scroll, KeyCode::Up) == Some(0int),
        AppV::scrolled(scroll, KeyCode::Char('k')) == AppV::scrolled(scroll, KeyCode::Up),
        AppV::scrolled(scroll, KeyCode::PageDown) == Some(scroll + 10),
        scroll >= 10 ==> AppV::scrolled(scroll, KeyCode::PageUp) == Some(scroll - 10),
        scroll < 10 ==> AppV::scrolled(scroll, KeyCode::PageUp) == Some(0int),
        AppV::scrolled(scroll, KeyCode::Home) == Some(0int),
        s.on_help(scroll, KeyEvent { code: KeyCode::Esc, control }) == (AppV {
            mode: ModeV::Normal,
            ..s
        }),
        s.on_review(scroll, KeyEvent { code: KeyCode::Esc, control }) == (AppV {
            mode: ModeV::Normal,
            ..s
        }),
        s.on_help(scroll, KeyEvent { code: KeyCode::Down, control }) == (AppV {
            mode: ModeV::Help { scroll: scroll + 1 },
            ..s
        }),
        s.on_review(scroll, KeyEvent { code: KeyCode::Down, control }) == (AppV {
            mode: ModeV::Review { scroll: scroll + 1 },
            ..s
        }),
{
    reveal(AppV::on_help);
    reveal(AppV::on_review);
}

/// Keys that neither type, erase nor move the cursor leave the editor as it is.
pub proof fn other_keys_leave_the_editor(e: EditorV, control: bool)
    ensures
        e.typed(KeyEvent { code: KeyCode::Tab, control }) == e,
        e.typed(KeyEvent { code: KeyCode::Up, control }) == e,
        e.typed(KeyEvent { code: KeyCode::Down, control }) == e,
        e.typed(KeyEvent { code: KeyCode::PageUp, control }) == e,
        e.typed(KeyEvent { code: KeyCode::PageDown, control }) == e,
        e.typed(KeyEvent { code: KeyCode::Insert, control }) == e,
        forall|n: u8| e.typed(KeyEvent { code: KeyCode::F(n), control }) == e,
{
}

} // verus!
