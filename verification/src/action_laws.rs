//! What the keys of the task list do, told by the state before and after.

use vstd::prelude::*;

use crate::app::{AppV, DeletedV, ModeV};
use crate::app_laws::{every_task_is_shown_once, selecting_selects};
use crate::date::{clock_text, short_date};
use crate::editor::Target;
use crate::keymap::owner;
use crate::keys::{Action, KeyCode, KeyEvent};
use crate::order::{among_grows, filter_sources};
use crate::query_laws::{is_late, the_sorted_view_is_in_order};
use crate::task::{Priority, TaskV};

verus! {

// --- moving around -------------------------------------------------------------

/// The selection moves one row down or up and stays on the rows, to the first or the last row, and
/// the view to the day before, the day after, or today, with the first row selected. Nothing else
/// changes.
pub proof fn moving_around_moves_the_view(s: AppV)
    ensures
        s.act(Action::Down).0 == (AppV { selected: s.act(Action::Down).0.selected, ..s }),
        s.selected + 1 < s.visible().len() ==> s.act(Action::Down).0.selected == s.selected + 1,
        s.selected + 1 >= s.visible().len() ==> s.act(Action::Down).0.selected == s.selected,
        s.act(Action::Up).0 == (AppV { selected: s.act(Action::Up).0.selected, ..s }),
        s.selected > 0 ==> s.act(Action::Up).0.selected == s.selected - 1,
        s.selected <= 0 ==> s.act(Action::Up).0.selected == s.selected,
        s.act(Action::First).0 == (AppV { selected: 0, ..s }),
        s.act(Action::Last).0 == (AppV { selected: s.act(Action::Last).0.selected, ..s }),
        s.visible().len() > 0 ==> s.act(Action::Last).0.selected + 1 == s.visible().len(),
        s.visible().len() == 0 ==> s.act(Action::Last).0.selected == 0,
        s.act(Action::PrevDay).0 == (AppV { date: s.date - 1, selected: 0, ..s }),
        s.act(Action::NextDay).0 == (AppV { date: s.date + 1, selected: 0, ..s }),
        s.act(Action::Today).0 == (AppV { date: s.today, selected: 0, ..s }),
{
    reveal(AppV::act);
    reveal(AppV::navigate);
}

/// Screens and prompts open as they are asked for: the calendar on the day in view, the search, the
/// command line and the prompt for a new task empty. Nothing else changes.
pub proof fn screens_open_fresh(s: AppV)
    ensures
        s.act(Action::Quit).0 == (AppV { quit: true, ..s }),
        s.act(Action::Help).0 == (AppV { mode: ModeV::Help { scroll: 0 }, ..s }),
        s.act(Action::Review).0 == (AppV { mode: ModeV::Review { scroll: 0 }, ..s }),
        s.act(Action::Lists).0 == (AppV { mode: ModeV::Lists { selected: 0 }, ..s }),
        s.act(Action::Calendar).0 == (AppV {
            mode: ModeV::Calendar { cursor: s.date, moving: None },
            ..s
        }),
        ({
            let added = s.act(Action::Add).0;
            &&& added == (AppV { mode: added.mode, ..s })
            &&& added.mode is Insert
            &&& added.mode->Insert_0.text.len() == 0
            &&& added.mode->Insert_0.target == Target::NewTask
        }),
        ({
            let searching = s.act(Action::Search).0;
            &&& searching == (AppV { mode: searching.mode, ..s })
            &&& searching.mode is Search
            &&& searching.mode->Search_editor.text.len() == 0
            &&& searching.mode->Search_selected == 0
        }),
        ({
            let commanded = s.act(Action::Command).0;
            &&& commanded == (AppV { mode: commanded.mode, ..s })
            &&& commanded.mode is Command
            &&& commanded.mode->Command_0.text.len() == 0
        }),
{
    reveal(AppV::act);
    reveal(AppV::open_screen);
    reveal_strlit("");
}

// --- views ---------------------------------------------------------------------

/// Sorting, the focus view and revealing are switched on and off by their keys, each alone. The task
/// that was selected stays selected where it is still shown.
pub proof fn views_are_switched(s: AppV)
    requires
        0 <= s.selected,
    ensures
        s.act(Action::Sort).0.sorted == !s.sorted,
        s.act(Action::Sort).0.hide_done == s.hide_done,
        s.act(Action::Sort).0.reveal == s.reveal,
        s.act(Action::Sort).0.date == s.date,
        s.selected_task() is Some ==> s.act(Action::Sort).0.selected_task() == s.selected_task(),
        s.act(Action::HideDone).0.hide_done == !s.hide_done,
        s.act(Action::HideDone).0.sorted == s.sorted,
        s.act(Action::HideDone).0.reveal == s.reveal,
        s.act(Action::HideDone).0.date == s.date,
        s.selected_task() is Some && (s.hide_done || !s.tasks()[s.selected_task()->Some_0].done)
            ==> s.act(Action::HideDone).0.selected_task() == s.selected_task(),
        s.act(Action::Reveal).0.reveal == !s.reveal,
        s.act(Action::Reveal).0.sorted == s.sorted,
        s.act(Action::Reveal).0.hide_done == s.hide_done,
        s.act(Action::Reveal).0.selected_task() == s.selected_task(),
        s.others.len() > 0 ==> s.act(Action::Split).0.split == !s.split,
        s.others.len() == 0 ==> s.act(Action::Split).0.split == s.split,
{
    reveal(AppV::act);
    reveal(AppV::toggle_sort);
    reveal(AppV::toggle_focus);
    reveal(AppV::toggle_reveal);
    reveal(AppV::toggle_split);
    let sorted = AppV { sorted: !s.sorted, ..s };
    let focus = AppV { hide_done: !s.hide_done, ..s };
    every_task_is_shown_once(s);
    every_task_is_shown_once(sorted);
    every_task_is_shown_once(focus);
    assert(s.act(Action::Reveal).0.visible() == s.visible()) by {
        reveal(AppV::visible);
    }
    if let Some(idx) = s.selected_task() {
        assert(s.visible()[s.selected] == idx);
        assert(s.visible().contains(idx));
        assert(s.store.has(s.date, idx));
        assert(s.tasks()[idx] == sorted.tasks()[idx] && s.tasks()[idx] == focus.tasks()[idx]);
        assert(sorted.visible().contains(idx));
        selecting_selects(sorted, idx);
        selecting_selects(focus, idx);
        assert(s.act(Action::Sort).0.visible() == sorted.select_task(idx).visible()) by {
            reveal(AppV::visible);
        }
        assert(s.act(Action::HideDone).0.visible() == focus.select_task(idx).visible()) by {
            reveal(AppV::visible);
        }
    }
}

/// Whether task `a` may be shown before task `b` of the same day in the sorted view: open before
/// done, overdue before others, high priority before low before none, a reminder before none and an
/// earlier one before a later one.
pub open spec fn may_come_first(a: TaskV, b: TaskV, date: int, today: int, now: int) -> bool {
    let late = is_late(a, date, today, now) == is_late(b, date, today, now);
    &&& a.done ==> b.done
    &&& a.done == b.done && is_late(b, date, today, now) ==> is_late(a, date, today, now)
    &&& a.done == b.done && late && b.priority == Priority::High ==> a.priority == Priority::High
    &&& a.done == b.done && late && b.priority == Priority::Low ==> a.priority != Priority::Plain
    &&& a.done == b.done && late && a.priority == b.priority && b.remind is Some ==> a.remind is Some
        && a.remind->Some_0 <= b.remind->Some_0
}

/// Where two rows come from.
proof fn rows_of_order(order: Seq<int>, open: spec_fn(int) -> bool, hide: bool, j: int, k: int) -> (r: (
    int,
    int,
))
    requires
        0 <= j < k < (if hide {
            order.filter(open)
        } else {
            order
        }).len(),
    ensures
        0 <= r.0 < r.1 < order.len(),
        order[r.0] == (if hide {
            order.filter(open)
        } else {
            order
        })[j],
        order[r.1] == (if hide {
            order.filter(open)
        } else {
            order
        })[k],
{
    if hide {
        let x = filter_sources(order, open, j);
        let y = filter_sources(order, open, k);
        if x >= y {
            among_grows(order, open, y, x);
        }
        (x, y)
    } else {
        (j, k)
    }
}

/// The rows stand in manual order, or in the sorted view by state, overdue reminders, priority and
/// reminder, in the focus view as without it.
pub proof fn rows_are_in_order(s: AppV)
    ensures
        forall|j: int, k: int|
            0 <= j < k < s.visible().len() && !s.sorted ==> #[trigger] s.visible()[j]
                < #[trigger] s.visible()[k],
        forall|j: int, k: int|
            0 <= j < k < s.visible().len() && s.sorted ==> may_come_first(
                s.tasks()[#[trigger] s.visible()[j]],
                s.tasks()[#[trigger] s.visible()[k]],
                s.date,
                s.today,
                s.now,
            ),
{
    reveal(AppV::visible);
    let tasks = s.tasks();
    let order = if s.sorted {
        s.store.sorted_indices(s.date, s.today, s.now)
    } else {
        Seq::new(tasks.len(), |i: int| i)
    };
    let open = |i: int| !tasks[i].done;
    the_sorted_view_is_in_order(s.store, s.date, s.today, s.now);
    assert(s.visible() == (if s.hide_done {
        order.filter(open)
    } else {
        order
    }));
    assert forall|j: int, k: int| 0 <= j < k < s.visible().len() && !s.sorted implies #[trigger]
        s.visible()[j] < #[trigger] s.visible()[k] by {
        let (x, y) = rows_of_order(order, open, s.hide_done, j, k);
        assert(order[x] == x && order[y] == y);
    }
    assert forall|j: int, k: int| 0 <= j < k < s.visible().len() && s.sorted implies may_come_first(
        s.tasks()[#[trigger] s.visible()[j]],
        s.tasks()[#[trigger] s.visible()[k]],
        s.date,
        s.today,
        s.now,
    ) by {
        let (x, y) = rows_of_order(order, open, s.hide_done, j, k);
        let r = s.store.sorted_indices(s.date, s.today, s.now);
        assert(r[x] == s.visible()[j] && r[y] == s.visible()[k]);
    }
}

// --- the selected task ---------------------------------------------------------

/// Each key does to the selected task what it stands for: completing it today, cycling its priority
/// or its repeat setting, hiding it, moving it to the next day, or up or down the page where the
/// order is the manual one. Without a selected task nothing happens.
pub proof fn keys_act_on_the_selected_task(s: AppV, idx: int)
    requires
        s.selected_task() == Some(idx),
    ensures
        s.act(Action::Toggle).0.store == s.store.toggle(s.date, idx, s.today),
        s.act(Action::Priority).0.store == s.store.cycle_priority(s.date, idx),
        s.act(Action::Repeat).0.store == s.store.cycle_repeat(s.date, idx),
        s.act(Action::Hide).0.store == s.store.toggle_hidden(s.date, idx),
        s.act(Action::Postpone).0.store == s.store.move_task(s.date, idx, s.date + 1),
        !s.sorted ==> s.act(Action::MoveUp).0.store == s.store.move_up(s.date, idx),
        !s.sorted ==> s.act(Action::MoveDown).0.store == s.store.move_down(s.date, idx),
        s.sorted ==> s.act(Action::MoveUp).0.store == s.store,
        s.sorted ==> s.act(Action::MoveDown).0.store == s.store,
        s.confirm_delete ==> s.act(Action::Delete).0 == (AppV {
            mode: ModeV::ConfirmDelete(idx),
            ..s
        }),
        !s.confirm_delete ==> s.act(Action::Delete).0.store == s.store.remove(s.date, idx).prune(),
        s.act(Action::MoveToDate).0 == (AppV {
            mode: ModeV::Calendar { cursor: s.date, moving: Some(idx as usize) },
            ..s
        }),
{
    every_task_is_shown_once(s);
    assert(s.store.has(s.date, s.visible()[s.selected]));
    reveal(AppV::act);
    reveal(AppV::act_on);
    reveal(AppV::toggle_task);
    reveal(AppV::cycle_priority);
    reveal(AppV::cycle_repeat);
    reveal(AppV::hide_task);
    reveal(AppV::move_to);
    reveal(AppV::move_task_up);
    reveal(AppV::move_task_down);
    reveal(AppV::delete);
}

/// Without a selected task, the keys that act on one do nothing.
pub proof fn without_a_selected_task_nothing_happens(s: AppV, action: Action)
    requires
        s.selected_task() is None,
        action == Action::Toggle || action == Action::Priority || action == Action::Repeat || action
            == Action::Hide || action == Action::Postpone || action == Action::MoveUp || action
            == Action::MoveDown || action == Action::Delete || action == Action::Edit || action
            == Action::Note || action == Action::Reminder || action == Action::MoveToDate,
    ensures
        s.act(action) == (s, false),
{
    reveal(AppV::act);
}

/// Editing a task opens its text, its note or the time of its reminder, unless text or note are
/// masked.
pub proof fn editing_opens_what_is_there(s: AppV, idx: int)
    requires
        s.selected_task() == Some(idx),
        0 <= idx <= usize::MAX,
    ensures
        !s.tasks()[idx].hidden || s.reveal ==> ({
            let m = s.act(Action::Edit).0.mode;
            m is Insert && m->Insert_0.text == s.tasks()[idx].text && m->Insert_0.target
                == Target::EditTask(idx as usize)
        }),
        !s.tasks()[idx].hidden || s.reveal ==> ({
            let m = s.act(Action::Note).0.mode;
            m is Insert && m->Insert_0.target == Target::Note(idx as usize) && (match s.tasks()[idx].note {
                Some(note) => m->Insert_0.text == note,
                None => m->Insert_0.text.len() == 0,
            })
        }),
        ({
            let m = s.act(Action::Reminder).0.mode;
            m is Insert && m->Insert_0.target == Target::Reminder(idx as usize) && (
            match s.tasks()[idx].remind {
                Some(time) => m->Insert_0.text == clock_text(time),
                None => m->Insert_0.text.len() == 0,
            })
        }),
        s.tasks()[idx].hidden && !s.reveal ==> s.act(Action::Edit).0.mode == s.mode && s.act(
            Action::Note,
        ).0.mode == s.mode,
{
    reveal_strlit("");
    reveal(AppV::act);
    reveal(AppV::act_on);
    reveal(AppV::edit_task);
    reveal(AppV::edit_note);
    reveal(AppV::edit_reminder);
}

/// A question before a task is deleted is answered with `y`, `Y` or Enter; any other key leaves
/// everything as it is.
pub proof fn deleting_is_confirmed(s: AppV, idx: int, key: KeyEvent)
    requires
        s.store.has(s.date, idx),
    ensures
        key.code == KeyCode::Char('y') || key.code == KeyCode::Char('Y') || key.code
            == KeyCode::Enter ==> s.on_confirm(idx, key).0.store == s.store.remove(
            s.date,
            idx,
        ).prune() && s.on_confirm(idx, key).1,
        key.code != KeyCode::Char('y') && key.code != KeyCode::Char('Y') && key.code
            != KeyCode::Enter ==> s.on_confirm(idx, key).0.store == s.store && s.on_confirm(
            idx,
            key,
        ).0.undo == s.undo && !s.on_confirm(idx, key).1,
        s.on_confirm(idx, key).0.mode == ModeV::Normal,
{
    reveal(AppV::on_confirm);
    reveal(AppV::delete);
}

/// What was deleted last is put back first: at its place on its day, which is then in view. Without
/// a deleted task no task changes.
pub proof fn undo_puts_back_the_last(s: AppV)
    ensures
        s.undo.len() > 0 ==> s.act(Action::Undo).0.store == s.store.insert(
            s.undo.last().date,
            s.undo.last().at,
            s.undo.last().task,
        ),
        s.undo.len() > 0 ==> s.act(Action::Undo).0.undo == s.undo.drop_last(),
        s.undo.len() > 0 ==> s.act(Action::Undo).0.date == s.undo.last().date,
        s.undo.len() == 0 ==> s.act(Action::Undo).0.store == s.store && s.act(Action::Undo).0.date
            == s.date,
        s.act(Action::Undo).1 == (s.undo.len() > 0),
{
    reveal(AppV::act);
    reveal(AppV::undo);
}

/// A deleted task is kept to be put back, with its day and its place.
pub proof fn deleting_keeps_the_task(s: AppV, idx: int)
    requires
        s.store.has(s.date, idx),
    ensures
        s.delete(idx).undo == s.undo.push(
            DeletedV { date: s.date, at: idx, task: s.store.on(s.date)[idx] },
        ),
{
    reveal(AppV::delete);
}

// --- the selection after an action ---------------------------------------------

/// The task that was moved, completed, hidden or cycled stays selected where it is still shown.
pub proof fn the_task_stays_selected(s: AppV, idx: int)
    requires
        s.selected_task() == Some(idx),
    ensures
        ({
            let r = s.act(Action::Toggle).0;
            r.visible().contains(idx) ==> r.selected_task() == Some(idx)
        }),
        ({
            let r = s.act(Action::Priority).0;
            r.visible().contains(idx) ==> r.selected_task() == Some(idx)
        }),
        ({
            let r = s.act(Action::MoveDown).0;
            !s.sorted && idx + 1 < s.tasks().len() && r.visible().contains(idx + 1)
                ==> r.selected_task() == Some(idx + 1)
        }),
        ({
            let r = s.act(Action::MoveUp).0;
            !s.sorted && idx > 0 && r.visible().contains(idx - 1) ==> r.selected_task() == Some(
                idx - 1,
            )
        }),
{
    reveal(AppV::act);
    reveal(AppV::act_on);
    reveal(AppV::toggle_task);
    reveal(AppV::cycle_priority);
    reveal(AppV::move_task_up);
    reveal(AppV::move_task_down);
    let done = AppV { store: s.store.toggle(s.date, idx, s.today), ..s };
    let told = match s.store.toggle_next(s.date, idx, s.today) {
        Some(next) => done.say("Next occurrence: "@ + short_date(next)),
        None => done,
    };
    stays_selected(told, idx);
    stays_selected(AppV { store: s.store.cycle_priority(s.date, idx), ..s }, idx);
    stays_selected(AppV { store: s.store.move_down(s.date, idx), ..s }, idx + 1);
    stays_selected(AppV { store: s.store.move_up(s.date, idx), ..s }, idx - 1);
}

/// Selecting changes no row.
proof fn stays_selected(s: AppV, idx: int)
    requires
        0 <= s.selected,
    ensures
        s.select_task(idx).visible() == s.visible(),
        s.select_task(idx).visible().contains(idx) ==> s.select_task(idx).selected_task() == Some(
            idx,
        ),
{
    selecting_selects(s, idx);
    reveal(AppV::visible);
}

/// After a task is deleted or moved away the same row is selected, or the last where there are fewer.
pub proof fn the_same_row_stays_selected(s: AppV, idx: int)
    requires
        s.store.has(s.date, idx),
        0 <= s.selected,
    ensures
        ({
            let r = s.delete(idx);
            let rows = r.visible().len();
            &&& s.selected < rows ==> r.selected == s.selected
            &&& s.selected >= rows && rows > 0 ==> r.selected == rows - 1
            &&& rows == 0 ==> r.selected == 0
            &&& r.date == s.date
        }),
        ({
            let r = s.move_to(idx, s.date + 1);
            let rows = r.visible().len();
            &&& s.selected < rows ==> r.selected == s.selected
            &&& s.selected >= rows && rows > 0 ==> r.selected == rows - 1
            &&& rows == 0 ==> r.selected == 0
            &&& r.date == s.date
        }),
{
    reveal(AppV::delete);
    reveal(AppV::move_to);
    reveal(AppV::visible);
}

// --- keys ----------------------------------------------------------------------

/// A key press on the task list does the action that the key is bound to, and nothing where it is
/// bound to none; with Control held, `c` quits. What was told before is gone.
pub proof fn a_key_does_its_action(s: AppV, key: KeyEvent)
    requires
        s.mode is Normal,
    ensures
        key.code == KeyCode::Char('c') && key.control ==> s.on_key(key) == (
            AppV { status: None, quit: true, ..s },
            false,
        ),
        !(key.code == KeyCode::Char('c') && key.control) ==> (match owner(s.keys, key.code) {
            Some(action) => s.on_key(key) == (AppV { status: None, ..s }).act(action),
            None => s.on_key(key) == (AppV { status: None, ..s }, false),
        }),
{
    reveal(AppV::on_normal);
}

/// While something is open, a key goes to it: to the prompt, the calendar, the search, the command
/// line, the question, the key reference, the review or the list picker.
pub proof fn a_key_goes_to_what_is_open(s: AppV, key: KeyEvent)
    ensures
        ({
            let fresh = AppV { status: None, ..s };
            match s.mode {
                ModeV::Normal => s.on_key(key) == fresh.on_normal(key),
                ModeV::Insert(e) => s.on_key(key) == fresh.on_insert(e, key),
                ModeV::Calendar { cursor, moving } => s.on_key(key) == fresh.on_calendar(
                    cursor,
                    moving,
                    key,
                ),
                ModeV::Search { editor, selected } => s.on_key(key) == (
                    fresh.on_search(editor, selected, key),
                    false,
                ),
                ModeV::Command(e) => s.on_key(key) == fresh.on_command(e, key),
                ModeV::ConfirmDelete(idx) => s.on_key(key) == fresh.on_confirm(idx, key),
                ModeV::Help { scroll } => s.on_key(key) == (fresh.on_help(scroll, key), false),
                ModeV::Review { scroll } => s.on_key(key) == (fresh.on_review(scroll, key), false),
                ModeV::Lists { selected } => s.on_key(key) == fresh.on_lists(selected, key),
            }
        }),
{
}

} // verus!
