//! What holds of the application as a whole: the order of the lists, undo, the views, the
//! selection, and reminders.

use vstd::prelude::*;

use crate::app::{day_order, position_from, shown_order, AppV, DeletedV, ModeV, SlotV};
use crate::cli::fell_due;
use crate::date::typed_time;
use crate::editor::Target;
use crate::keymap::owner;
use crate::keys::{Action, KeyEvent};
use crate::laws::insert_undoes_remove;
use crate::lists::{ringing, rings};
use crate::model::{clamped, kept_note, StoreV};
use crate::pages::{ordered, pruned_facts, with_tasks_facts};
use crate::query_laws::{ordered_alike, sorted_order_is_alike, sorted_order_is_sorted};
use crate::task::TaskV;
use crate::text::{joined, trimmed};

verus! {

// --- the order of the lists ----------------------------------------------------

/// Switching to another list turns the cycle of lists so that the chosen one comes first; the
/// lists keep their cyclic order.
pub proof fn switching_turns_the_cycle(s: AppV, pos: int)
    requires
        0 < pos <= s.others.len(),
    ensures
        s.switch_list_to(pos).list_names() == s.list_names().skip(pos) + s.list_names().take(pos),
        s.switch_list().list_names() == s.list_names().skip(1) + s.list_names().take(1),
{
    reveal(AppV::switch_list_to);
    reveal(AppV::switch_list);
    reveal(AppV::activate);
    let to = s.switch_list_to(pos);
    assert(to.list_names() =~= s.list_names().skip(pos) + s.list_names().take(pos));
    let next = s.switch_list();
    assert(next.list_names() =~= s.list_names().skip(1) + s.list_names().take(1));
}

/// A list that is added becomes the active one, the list that was active goes to the end of the
/// cycle, and no list is lost.
pub proof fn an_added_list_is_active(s: AppV, slot: SlotV)
    ensures
        s.add_list(slot).list_name == slot.name,
        s.add_list(slot).list_names() == seq![slot.name] + s.list_names().skip(1).push(
            s.list_name,
        ),
{
    reveal(AppV::add_list);
    reveal(AppV::switch_list);
    reveal(AppV::activate);
    let with = AppV { others: seq![slot] + s.others, ..s };
    assert(with.others[0] == slot);
    assert(with.others.drop_first() =~= s.others);
    let after = s.add_list(slot);
    assert(after.list_names() =~= seq![slot.name] + s.list_names().skip(1).push(s.list_name));
}

// --- undo ----------------------------------------------------------------------

/// What is shown stays the same where a day holds the same tasks.
proof fn shown_alike(a: AppV, b: AppV)
    requires
        a.store.on(b.date) == b.store.on(b.date),
        a.date == b.date,
        a.today == b.today,
        a.now == b.now,
        a.sorted == b.sorted,
        a.hide_done == b.hide_done,
    ensures
        a.visible() == b.visible(),
{
    reveal(AppV::visible);
    day_order_is_alike(a.store, b.store, b.date, b.today, b.now, b.sorted, b.hide_done);
}

/// The state in which a deleted task is back, before it is selected.
spec fn put_back(s: AppV, idx: int) -> AppV {
    (AppV {
        store: s.delete(idx).store.insert(s.date, idx, s.store.task(s.date, idx)),
        undo: s.undo,
        ..s.delete(idx)
    }).go_to(s.date)
}

/// A day that a task was removed from holds the others, empty pages dropped or not.
proof fn removed_day(s: StoreV, date: int, idx: int)
    requires
        ordered(s.days),
        s.has(date, idx),
    ensures
        s.remove(date, idx).prune().on(date) == s.on(date).remove(idx),
{
    with_tasks_facts(s.days, date, s.on(date).remove(idx));
    pruned_facts(s.remove(date, idx).days);
}

/// What undoing does right after deleting.
proof fn undo_after_delete(s: AppV, idx: int)
    requires
        ordered(s.store.days),
        s.store.has(s.date, idx),
    ensures
        s.delete(idx).undo() == put_back(s, idx).select_task(idx).say("Restored"@),
        s.delete(idx).store == s.store.remove(s.date, idx).prune(),
        put_back(s, idx).today == s.today,
        put_back(s, idx).now == s.now,
        put_back(s, idx).sorted == s.sorted,
        put_back(s, idx).hide_done == s.hide_done,
{
    let gone = s.delete(idx);
    let task = s.store.task(s.date, idx);
    assert(gone.undo == s.undo.push(DeletedV { date: s.date, at: idx, task }) && gone.store
        == s.store.remove(s.date, idx).prune() && gone.today == s.today && gone.now == s.now
        && gone.sorted == s.sorted && gone.hide_done == s.hide_done) by {
        reveal(AppV::delete);
    }
    assert(gone.undo.drop_last() =~= s.undo);
    removed_day(s.store, s.date, idx);
    reveal(AppV::undo);
}

/// Deleting a task and putting it back leaves every day with what it held, the view on that day with
/// the rows that it had, and the tasks that were deleted before as they were. Where the task is
/// shown, it is then selected, as it is where it was selected before.
pub proof fn undo_restores_a_deleted_task(s: AppV, idx: int)
    requires
        ordered(s.store.days),
        s.store.has(s.date, idx),
    ensures
        forall|d: int| #[trigger] s.delete(idx).undo().store.on(d) == s.store.on(d),
        s.delete(idx).undo().store.next_id == s.store.next_id,
        s.delete(idx).undo().date == s.date,
        s.delete(idx).undo().undo == s.undo,
        s.delete(idx).undo().visible() == s.visible(),
        s.visible().contains(idx) ==> s.delete(idx).undo().selected_task() == Some(idx),
        s.selected_task() == Some(idx) ==> s.delete(idx).undo().selected_task() == Some(idx),
{
    let back = s.delete(idx).undo();
    let restored = put_back(s, idx);
    undo_after_delete(s, idx);
    insert_undoes_remove(s.store, s.date, idx);
    assert(back.store == restored.store);
    assert(restored.store.on(s.date) == s.store.on(s.date));
    shown_alike(restored, s);
    shown_alike(restored.select_task(idx), s);
    shown_alike(back, s);
    if s.visible().contains(idx) {
        selecting_selects(restored, idx);
    }
    if s.selected_task() == Some(idx) {
        assert(s.visible()[s.selected] == idx);
    }
}

// --- views ---------------------------------------------------------------------

/// Whether an action only changes what is shown.
pub open spec fn only_changes_the_view(action: Action) -> bool {
    match action {
        Action::Sort
        | Action::HideDone
        | Action::Reveal
        | Action::Split
        | Action::Down
        | Action::Up
        | Action::First
        | Action::Last
        | Action::PrevDay
        | Action::NextDay
        | Action::Today
        | Action::Help
        | Action::Calendar
        | Action::Review
        | Action::Search
        | Action::Command
        | Action::Lists => true,
        _ => false,
    }
}

/// Sorting, the focus view, revealing, the split view, moving around and opening screens are
/// views: they change no task of any list, and report no change.
pub proof fn views_change_no_tasks(s: AppV, action: Action)
    requires
        only_changes_the_view(action),
    ensures
        s.act(action).0.store == s.store,
        s.act(action).0.others == s.others,
        !s.act(action).1,
{
    reveal(AppV::act);
    reveal(AppV::open_screen);
    reveal(AppV::navigate);
    reveal(AppV::toggle_split);
    reveal(AppV::toggle_focus);
    reveal(AppV::toggle_sort);
    reveal(AppV::toggle_reveal);
    reveal(AppV::open_new_list_prompt);
}

/// While a hidden task is masked, neither its text nor its note can be opened for editing.
pub proof fn a_masked_task_is_not_opened(s: AppV, idx: int)
    requires
        s.masked(idx),
    ensures
        s.edit_task(idx).mode == s.mode,
        s.edit_note(idx).mode == s.mode,
        s.edit_task(idx).store == s.store,
        s.edit_note(idx).store == s.store,
{
    reveal(AppV::edit_task);
    reveal(AppV::edit_note);
}

// --- the visible order ---------------------------------------------------------

/// What a filter keeps of different numbers is different.
proof fn filter_keeps_order(order: Seq<int>, tasks: Seq<TaskV>)
    requires
        order.no_duplicates(),
    ensures
        shown_order(order, tasks, true).no_duplicates(),
        forall|k: int|
            0 <= k < shown_order(order, tasks, true).len() ==> !tasks[#[trigger] shown_order(
                order,
                tasks,
                true,
            )[k]].done && order.contains(shown_order(order, tasks, true)[k]),
        forall|i: int|
            order.contains(i) && !(#[trigger] tasks[i]).done ==> shown_order(
                order,
                tasks,
                true,
            ).contains(i),
    decreases order.len(),
{
    reveal(Seq::filter);
    let shown = shown_order(order, tasks, true);
    if order.len() > 0 {
        let rest = order.drop_last();
        let last = order.last();
        assert(rest.no_duplicates());
        filter_keeps_order(rest, tasks);
        let before = shown_order(rest, tasks, true);
        assert forall|k: int| 0 <= k < shown.len() implies !tasks[#[trigger] shown[k]].done
            && order.contains(shown[k]) by {
            if k < before.len() {
                assert(shown[k] == before[k]);
                assert(rest.contains(before[k]));
                let j = choose|j: int| 0 <= j < rest.len() && rest[j] == before[k];
                assert(order[j] == shown[k]);
            } else {
                assert(shown[k] == last);
                assert(order[order.len() - 1] == last);
            }
        }
        assert(shown.no_duplicates()) by {
            if !tasks[last].done {
                assert forall|k: int| 0 <= k < before.len() implies before[k] != last by {
                    assert(rest.contains(before[k]));
                    let j = choose|j: int| 0 <= j < rest.len() && rest[j] == before[k];
                    assert(order[j] != order[order.len() - 1]);
                }
            }
        }
        assert forall|i: int|
            order.contains(i) && !(#[trigger] tasks[i]).done implies shown.contains(i) by {
            let j = choose|j: int| 0 <= j < order.len() && order[j] == i;
            if j < rest.len() {
                assert(rest[j] == i);
                assert(rest.contains(i));
                assert(before.contains(i));
                let k = choose|k: int| 0 <= k < before.len() && before[k] == i;
                assert(shown[k] == i);
            } else {
                assert(shown[before.len() as int] == i);
            }
        }
    }
}

/// The visible order shows every task of the day once; in the focus view, every open task once and
/// no other.
pub proof fn every_task_is_shown_once(s: AppV)
    ensures
        s.visible().no_duplicates(),
        forall|k: int| 0 <= k < s.visible().len() ==> s.store.has(s.date, #[trigger] s.visible()[k]),
        forall|i: int|
            #![trigger s.tasks()[i]]
            s.store.has(s.date, i) ==> (s.visible().contains(i) <==> !(s.hide_done
                && s.tasks()[i].done)),
{
    reveal(AppV::visible);
    let tasks = s.tasks();
    let n = tasks.len() as int;
    let order = if s.sorted {
        s.store.sorted_indices(s.date, s.today, s.now)
    } else {
        Seq::new(tasks.len(), |i: int| i)
    };
    if s.sorted {
        sorted_order_is_sorted(tasks, n, s.date, s.today, s.now);
    } else {
        assert forall|i: int| 0 <= i < n implies #[trigger] order.contains(i) by {
            assert(order[i] == i);
        }
    }
    assert(order.no_duplicates());
    if s.hide_done {
        filter_keeps_order(order, tasks);
        assert forall|k: int| 0 <= k < s.visible().len() implies s.store.has(
            s.date,
            #[trigger] s.visible()[k],
        ) by {
            assert(order.contains(s.visible()[k]));
        }
        assert forall|i: int|
            #![trigger s.tasks()[i]]
            s.store.has(s.date, i) implies (s.visible().contains(i) <==> !(s.hide_done
            && s.tasks()[i].done)) by {
            assert(order.contains(i));
            if s.visible().contains(i) {
                let k = choose|k: int| 0 <= k < s.visible().len() && s.visible()[k] == i;
                assert(!tasks[s.visible()[k]].done);
            }
        }
    }
}

// --- the selection -------------------------------------------------------------

impl AppV {
    /// The selection is on a row, or on the first where there is none.
    pub open spec fn on_a_row(self) -> bool {
        0 <= self.selected && (self.selected < self.visible().len() || self.selected == 0)
    }
}

/// A position that is found is one in the list.
proof fn position_bound(list: Seq<int>, x: int, i: int)
    requires
        0 <= i <= list.len(),
    ensures
        i <= position_from(list, x, i) <= list.len(),
        position_from(list, x, i) < list.len() ==> list[position_from(list, x, i)] == x,
        position_from(list, x, i) == list.len() ==> forall|k: int|
            i <= k < list.len() ==> list[k] != x,
    decreases list.len() - i,
{
    if i < list.len() && list[i] != x {
        position_bound(list, x, i + 1);
    }
}

/// Clamping the selection, and selecting a task, leave the selection on a row; a task that is
/// shown is then the selected one.
pub proof fn selecting_selects(s: AppV, idx: int)
    requires
        0 <= s.selected,
    ensures
        s.clamp_selection().on_a_row(),
        s.select_task(idx).on_a_row(),
        s.visible().contains(idx) ==> s.select_task(idx).selected_task() == Some(idx),
{
    reveal(AppV::visible);
    position_bound(s.visible(), idx, 0);
    if s.visible().contains(idx) {
        let k = choose|k: int| 0 <= k < s.visible().len() && s.visible()[k] == idx;
        assert(s.visible()[k] == idx);
    }
}

/// The same rows are left out of orders in which the same tasks are done.
proof fn shown_order_is_alike(order: Seq<int>, a: Seq<TaskV>, b: Seq<TaskV>)
    requires
        ordered_alike(a, b),
        forall|k: int| 0 <= k < order.len() ==> 0 <= #[trigger] order[k] < a.len(),
    ensures
        shown_order(order, a, true) == shown_order(order, b, true),
    decreases order.len(),
{
    reveal(Seq::filter);
    if order.len() > 0 {
        let rest = order.drop_last();
        assert forall|k: int| 0 <= k < rest.len() implies 0 <= #[trigger] rest[k] < a.len() by {
            assert(rest[k] == order[k]);
        }
        shown_order_is_alike(rest, a, b);
        let i = order[order.len() - 1];
        assert(a[i].done == b[i].done);
    }
}

/// The view of a day goes by the state, the priority and the reminder of its tasks alone.
pub proof fn day_order_is_alike(
    a: StoreV,
    b: StoreV,
    date: int,
    today: int,
    now: int,
    sorted: bool,
    hide_done: bool,
)
    requires
        ordered_alike(a.on(date), b.on(date)),
    ensures
        day_order(a, date, today, now, sorted, hide_done) == day_order(
            b,
            date,
            today,
            now,
            sorted,
            hide_done,
        ),
{
    let n = a.on(date).len() as int;
    sorted_order_is_alike(a.on(date), b.on(date), n, date, today, now);
    sorted_order_is_sorted(a.on(date), n, date, today, now);
    let order = if sorted {
        a.sorted_indices(date, today, now)
    } else {
        Seq::new(a.on(date).len(), |i: int| i)
    };
    assert(sorted ==> order == b.sorted_indices(date, today, now));
    assert(!sorted ==> order =~= Seq::new(b.on(date).len(), |i: int| i));
    shown_order_is_alike(order, a.on(date), b.on(date));
}

/// Setting a task to one with the same state, priority and reminder leaves the view as it was.
proof fn set_leaves_the_view(s: AppV, idx: int, t: TaskV)
    requires
        ordered(s.store.days),
        0 <= idx,
        s.store.has(s.date, idx) ==> t.done == s.store.task(s.date, idx).done && t.priority
            == s.store.task(s.date, idx).priority && t.remind == s.store.task(s.date, idx).remind,
    ensures
        (AppV { store: s.store.set(s.date, idx, t), ..s }).visible() == s.visible(),
{
    reveal(AppV::visible);
    let after = s.store.set(s.date, idx, t);
    if s.store.has(s.date, idx) {
        with_tasks_facts(s.store.days, s.date, s.store.on(s.date).update(idx, t));
    } else {
        with_tasks_facts(s.store.days, s.date, s.store.on(s.date));
    }
    assert(ordered_alike(s.store.on(s.date), after.on(s.date)));
    day_order_is_alike(
        s.store,
        after,
        s.date,
        s.today,
        s.now,
        s.sorted,
        s.hide_done,
    );
}

/// Doing what an action does leaves the selection on a row.
pub proof fn actions_leave_the_selection_on_a_row(s: AppV, action: Action)
    requires
        ordered(s.store.days),
        s.on_a_row(),
    ensures
        s.act(action).0.on_a_row(),
{
    reveal(AppV::act);
    reveal(AppV::visible);
    every_task_is_shown_once(s);
    match action {
        Action::Quit
        | Action::Help
        | Action::Calendar
        | Action::Review
        | Action::Search
        | Action::Command
        | Action::Lists
        | Action::NewList
        | Action::Add => {
            reveal(AppV::open_screen);
            reveal(AppV::open_new_list_prompt);
        },
        Action::Down
        | Action::Up
        | Action::First
        | Action::Last
        | Action::PrevDay
        | Action::NextDay
        | Action::Today => {
            reveal(AppV::navigate);
        },
        Action::Split => {
            reveal(AppV::toggle_split);
        },
        Action::HideDone => {
            reveal(AppV::toggle_focus);
            if let Some(idx) = s.selected_task() {
                selecting_selects(AppV { hide_done: !s.hide_done, ..s }, idx);
            }
        },
        Action::Sort => {
            reveal(AppV::toggle_sort);
            if let Some(idx) = s.selected_task() {
                selecting_selects(AppV { sorted: !s.sorted, ..s }, idx);
            }
        },
        Action::Reveal => {
            reveal(AppV::toggle_reveal);
        },
        Action::NextList => {
            reveal(AppV::switch_list);
            reveal(AppV::activate);
        },
        Action::Undo => {
            reveal(AppV::undo);
            if s.undo.len() > 0 {
                let last = s.undo.last();
                let back = (AppV {
                    store: s.store.insert(last.date, last.at, last.task),
                    undo: s.undo.drop_last(),
                    ..s
                }).go_to(last.date);
                selecting_selects(back, clamped(last.at, s.store.on(last.date).len()));
            }
        },
        _ => {
            if let Some(idx) = s.selected_task() {
                acting_on_leaves_the_selection(s, action, idx);
            }
        },
    }
}

/// The same for an action on the selected task.
proof fn acting_on_leaves_the_selection(s: AppV, action: Action, idx: int)
    requires
        ordered(s.store.days),
        s.on_a_row(),
        s.store.has(s.date, idx),
    ensures
        s.act_on(action, idx).0.on_a_row(),
{
    reveal(AppV::act_on);
    let t = s.store.task(s.date, idx);
    match action {
        Action::Edit => {
            reveal(AppV::edit_task);
            reveal(AppV::visible);
        },
        Action::Reminder => {
            reveal(AppV::edit_reminder);
            reveal(AppV::visible);
        },
        Action::Note => {
            reveal(AppV::edit_note);
            reveal(AppV::visible);
        },
        Action::Hide => {
            reveal(AppV::hide_task);
            set_leaves_the_view(s, idx, TaskV { hidden: !t.hidden, ..t });
            reveal(AppV::visible);
        },
        Action::Toggle => {
            reveal(AppV::toggle_task);
            let done = AppV { store: s.store.toggle(s.date, idx, s.today), ..s };
            let told = match s.store.toggle_next(s.date, idx, s.today) {
                Some(next) => done.say("Next occurrence: "@ + crate::date::short_date(next)),
                None => done,
            };
            selecting_selects(told, idx);
        },
        Action::Delete => {
            if s.confirm_delete {
                reveal(AppV::visible);
            } else {
                deleting_leaves_the_selection(s, idx);
            }
        },
        Action::MoveDown => {
            reveal(AppV::move_task_down);
            if s.sorted {
                reveal(AppV::visible);
            } else {
                selecting_selects(
                    AppV { store: s.store.move_down(s.date, idx), ..s },
                    if idx + 1 < s.tasks().len() {
                        idx + 1
                    } else {
                        idx
                    },
                );
            }
        },
        Action::MoveUp => {
            reveal(AppV::move_task_up);
            if s.sorted {
                reveal(AppV::visible);
            } else {
                selecting_selects(
                    AppV { store: s.store.move_up(s.date, idx), ..s },
                    if idx > 0 {
                        idx - 1
                    } else {
                        idx
                    },
                );
            }
        },
        Action::Priority => {
            reveal(AppV::cycle_priority);
            selecting_selects(
                AppV { store: s.store.cycle_priority(s.date, idx), ..s },
                idx,
            );
        },
        Action::Repeat => {
            reveal(AppV::cycle_repeat);
            set_leaves_the_view(
                s,
                idx,
                TaskV { repeat: crate::task::following_repeat(t.repeat), ..t },
            );
            reveal(AppV::visible);
        },
        Action::Postpone => {
            moving_leaves_the_selection(s, idx, s.date + 1);
        },
        _ => {
            reveal(AppV::visible);
        },
    }
}

/// Moving a task to another day leaves the selection on a row.
proof fn moving_leaves_the_selection(s: AppV, idx: int, target: int)
    requires
        s.on_a_row(),
    ensures
        s.move_to(idx, target).on_a_row(),
{
    reveal(AppV::move_to);
    if s.store.has(s.date, idx) {
        let task = s.store.task(s.date, idx);
        selecting_selects(
            AppV {
                store: s.store.move_task(s.date, idx, target),
                status: Some(
                    "Moved \""@ + task.shown(s.reveal) + "\" to "@ + crate::date::short_date(
                        target,
                    ),
                ),
                ..s
            },
            idx,
        );
    }
}

/// A typed text leaves the selection on a row.
proof fn typing_leaves_the_selection(s: AppV, text: Seq<char>, target: Target)
    requires
        ordered(s.store.days),
        s.on_a_row(),
    ensures
        s.submit(text, target).0.on_a_row(),
{
    reveal(AppV::submit);
    let closed = AppV { mode: ModeV::Normal, ..s };
    assert(closed.visible() == s.visible()) by {
        reveal(AppV::visible);
    }
    match target {
        Target::Reminder(idx) => {
            reveal(AppV::submit_reminder);
            if text.len() > 0 && typed_time(text) is None {
                reveal(AppV::visible);
            } else {
                selecting_selects(
                    AppV {
                        mode: ModeV::Normal,
                        store: s.store.set_reminder(s.date, idx as int, typed_time(text)),
                        ..s
                    },
                    idx as int,
                );
            }
        },
        Target::Note(idx) => {
            reveal(AppV::submit_note);
            let t = s.store.task(s.date, idx as int);
            set_leaves_the_view(closed, idx as int, TaskV { note: kept_note(text), ..t });
            reveal(AppV::visible);
        },
        Target::EditTask(idx) => {
            reveal(AppV::submit_edit);
            let t = s.store.task(s.date, idx as int);
            set_leaves_the_view(closed, idx as int, TaskV { text, ..t });
            reveal(AppV::visible);
        },
        Target::NewTask => {
            reveal(AppV::submit_task);
            selecting_selects(
                AppV { store: s.store.add(s.date, text), ..closed },
                s.tasks().len() as int,
            );
        },
        Target::NewList => {
            reveal(AppV::submit_list);
            reveal(AppV::visible);
        },
        _ => {},
    }
}

/// Deleting a task leaves the selection on a row.
proof fn deleting_leaves_the_selection(s: AppV, idx: int)
    requires
        s.on_a_row(),
    ensures
        s.delete(idx).on_a_row(),
{
    reveal(AppV::delete);
    if s.store.has(s.date, idx) {
        let t = s.store.task(s.date, idx);
        selecting_selects(
            AppV {
                store: s.store.remove(s.date, idx).prune(),
                undo: s.undo.push(DeletedV { date: s.date, at: idx, task: t }),
                status: Some(
                    "Deleted \""@ + t.shown(s.reveal) + "\" — press "@ + s.first_key(Action::Undo)
                        + " to undo"@,
                ),
                ..s
            },
            idx,
        );
    }
}

/// A command leaves the selection on a row.
proof fn commands_leave_the_selection(s: AppV, cmd: Seq<char>)
    requires
        s.on_a_row(),
    ensures
        s.run_command(cmd).0.on_a_row(),
{
    reveal(AppV::run_command);
    reveal(AppV::open_new_list_prompt);
    reveal(AppV::request_new_list);
    reveal(AppV::visible);
}

/// No key press takes the selection off the rows.
pub proof fn keys_leave_the_selection_on_a_row(s: AppV, key: KeyEvent)
    requires
        ordered(s.store.days),
        s.on_a_row(),
    ensures
        s.on_key(key).0.on_a_row(),
{
    let fresh = AppV { status: None, ..s };
    let closed = AppV { mode: ModeV::Normal, ..fresh };
    assert(fresh.on_a_row() && closed.on_a_row()) by {
        reveal(AppV::visible);
    }
    match s.mode {
        ModeV::Normal => {
            reveal(AppV::on_normal);
            if let Some(action) = owner(s.keys, key.code) {
                actions_leave_the_selection_on_a_row(fresh, action);
            }
            reveal(AppV::visible);
        },
        ModeV::Insert(editor) => {
            reveal(AppV::on_insert);
            typing_leaves_the_selection(fresh, trimmed(editor.text), editor.target);
            reveal(AppV::visible);
        },
        ModeV::Command(editor) => {
            reveal(AppV::on_command);
            commands_leave_the_selection(closed, trimmed(editor.text));
            reveal(AppV::visible);
        },
        ModeV::Search { editor, selected } => {
            reveal(AppV::on_search);
            reveal(AppV::open_hit);
            let results = fresh.search_results();
            if 0 <= selected < results.len() {
                selecting_selects(closed.go_to(results[selected].0), results[selected].1);
            }
            reveal(AppV::visible);
        },
        ModeV::Calendar { cursor, moving } => {
            reveal(AppV::on_calendar);
            reveal(AppV::on_day_chosen);
            if let Some(idx) = moving {
                moving_leaves_the_selection(closed, idx as int, cursor);
            }
            reveal(AppV::visible);
        },
        ModeV::ConfirmDelete(idx) => {
            reveal(AppV::on_confirm);
            deleting_leaves_the_selection(closed, idx);
            reveal(AppV::visible);
        },
        ModeV::Help { scroll } => {
            reveal(AppV::on_help);
            reveal(AppV::visible);
        },
        ModeV::Review { scroll } => {
            reveal(AppV::on_review);
            reveal(AppV::visible);
        },
        ModeV::Lists { selected } => {
            reveal(AppV::on_lists);
            reveal(AppV::switch_list_to);
            reveal(AppV::activate);
            reveal(AppV::open_new_list_prompt);
            reveal(AppV::visible);
        },
    }
}

// --- reminders -----------------------------------------------------------------

/// Of two stretches of time, one right behind the other, a reminder that falls into both together
/// rings in exactly one of them, on the screen and as a desktop notification.
pub proof fn reminders_ring_once(t: TaskV, today: int, a: int, b: int, c: int)
    requires
        a <= b <= c,
    ensures
        rings(t, a, c) == (rings(t, a, b) || rings(t, b, c)),
        !(rings(t, a, b) && rings(t, b, c)),
        fell_due(t, today, a, c) == (fell_due(t, today, a, b) || fell_due(t, today, b, c)),
        !(fell_due(t, today, a, b) && fell_due(t, today, b, c)),
{
}

/// When the clock passes the time of a reminder of an unfinished task of today, that task is named,
/// on whichever day it was written down and however often it rang before.
pub proof fn a_reminder_rings_when_its_time_passes(s: AppV, idx: int, before: int, after: int)
    requires
        s.store.has(s.today, idx),
        rings(s.store.task(s.today, idx), before, after),
    ensures
        exists|due: Seq<Seq<char>>|
            due.contains(s.store.task(s.today, idx).shown(s.reveal)) && s.tick(before).tick(
                after,
            ).status == Some("⏰ Reminder: "@ + #[trigger] joined(due, ", "@)),
{
    reveal(AppV::tick);
    let tasks = s.store.on(s.today);
    let t = tasks[idx];
    let keep = |t: TaskV| rings(t, before, after);
    let kept = tasks.filter(keep);
    let due = ringing(tasks, before, after, s.reveal);
    tasks.lemma_filter_contains(keep, idx);
    let k = choose|k: int| 0 <= k < kept.len() && kept[k] == t;
    assert(due[k] == t.shown(s.reveal));
    let there = s.tick(before);
    assert(there.now == before && there.store == s.store && there.today == s.today && there.reveal
        == s.reveal);
    assert(there.tick(after).status == Some("⏰ Reminder: "@ + joined(due, ", "@)));
}

} // verus!
