//! What every key press keeps: the numbers of the tasks, and that changes are reported.

use vstd::prelude::*;

use crate::app::{AppV, DeletedV, ModeV, SlotV};
use crate::count::{count, count_bound, count_in, count_push, one_if};
use crate::date::typed_time;
use crate::editor::Target;
use crate::keymap::owner;
use crate::keys::{Action, KeyEvent};
use crate::laws::{
    add_gives_a_new_number, edits_keep_numbers, insert_keeps_numbers, keeps_numbers,
    moves_keep_numbers, remove_frees_a_number, toggle_keeps_numbers,
    what_keeps_numbers_is_numbered, with_id,
};
use crate::model::StoreV;
use crate::pages::ordered;
use crate::task::TaskV;
use crate::text::trimmed;

verus! {

// --- numbers -------------------------------------------------------------------

/// The tasks that can be put back.
pub open spec fn deleted_tasks(undo: Seq<DeletedV>) -> Seq<TaskV> {
    undo.map_values(|d: DeletedV| d.task)
}

impl AppV {
    /// No two tasks of the active list, those that can be put back included, have the same number,
    /// and the next number to be given is above all of them; the other lists are numbered.
    #[verifier::opaque]
    pub open spec fn numbered(self) -> bool {
        &&& forall|id: int| #[trigger]
            count_in(self.store.days, with_id(id)) + count(deleted_tasks(self.undo), with_id(id))
                <= one_if(id < self.store.next_id)
        &&& forall|i: int|
            0 <= i < self.others.len() ==> (#[trigger] self.others[i]).store.numbered()
    }
}

/// A change of the active list that keeps its numbers keeps the state numbered.
proof fn other_store(s: AppV, t: AppV)
    requires
        s.numbered(),
        keeps_numbers(s.store, t.store),
        t.undo == s.undo,
        t.others == s.others,
    ensures
        t.numbered(),
{
    reveal(AppV::numbered);
    assert forall|id: int| #[trigger]
        count_in(t.store.days, with_id(id)) + count(deleted_tasks(t.undo), with_id(id)) <= one_if(
            id < t.store.next_id,
        ) by {
        assert(count_in(s.store.days, with_id(id)) + count(deleted_tasks(s.undo), with_id(id))
            <= one_if(id < s.store.next_id));
    }
}

/// What shows the same lists is numbered as well.
proof fn same_lists(s: AppV, t: AppV)
    requires
        s.numbered(),
        t.store == s.store,
        t.undo == s.undo,
        t.others == s.others,
    ensures
        t.numbered(),
{
    other_store(s, t);
}

/// The active list is numbered.
proof fn the_active_list_is_numbered(s: AppV)
    requires
        s.numbered(),
    ensures
        s.store.numbered(),
{
    reveal(AppV::numbered);
    assert forall|id: int| #[trigger]
        count_in(s.store.days, with_id(id)) <= one_if(id < s.store.next_id) by {
        count_bound(deleted_tasks(s.undo), with_id(id));
    }
}

/// With nothing to put back, the state is numbered where its lists are.
proof fn numbered_lists(s: AppV)
    requires
        s.store.numbered(),
        s.undo.len() == 0,
        forall|i: int| 0 <= i < s.others.len() ==> (#[trigger] s.others[i]).store.numbered(),
    ensures
        s.numbered(),
{
    reveal(AppV::numbered);
    assert forall|id: int| #[trigger]
        count_in(s.store.days, with_id(id)) + count(deleted_tasks(s.undo), with_id(id)) <= one_if(
            id < s.store.next_id,
        ) by {
        assert(count_in(s.store.days, with_id(id)) <= one_if(id < s.store.next_id));
    }
}

/// Carrying over keeps a list numbered.
proof fn carrying_over_keeps_numbers(store: StoreV, today: int)
    requires
        store.numbered(),
        ordered(store.days),
    ensures
        store.carry_over(today).numbered(),
{
    moves_keep_numbers(store, today, 0, today);
    what_keeps_numbers_is_numbered(store, store.carry_over(today));
}

/// Deleting a task keeps the state numbered: its number stays taken until it is put back.
proof fn deleting_keeps_numbers(s: AppV, idx: int)
    requires
        s.numbered(),
    ensures
        s.delete(idx).numbered(),
{
    reveal(AppV::delete);
    if s.store.has(s.date, idx) {
        let t = s.delete(idx);
        let task = s.store.task(s.date, idx);
        let gone = s.store.remove(s.date, idx);
        remove_frees_a_number(s.store, s.date, idx);
        reveal(AppV::numbered);
        assert(deleted_tasks(t.undo) =~= deleted_tasks(s.undo).push(task));
        assert forall|id: int| #[trigger]
            count_in(t.store.days, with_id(id)) + count(deleted_tasks(t.undo), with_id(id))
                <= one_if(id < t.store.next_id) by {
            assert(count_in(s.store.days, with_id(id)) + count(
                deleted_tasks(s.undo),
                with_id(id),
            ) <= one_if(id < s.store.next_id));
            assert(count_in(gone.days, with_id(id)) == count_in(s.store.days, with_id(id))
                - one_if(task.id == id));
            crate::count::count_in_pruned(gone.days, with_id(id));
            count_push(deleted_tasks(s.undo), task, with_id(id));
        }
    }
}

/// Putting a task back keeps the state numbered.
proof fn restoring_keeps_numbers(s: AppV)
    requires
        s.numbered(),
        s.undo.len() > 0 ==> s.undo.last().at >= 0,
    ensures
        s.undo().numbered(),
{
    reveal(AppV::undo);
    if s.undo.len() > 0 {
        let t = s.undo();
        let last = s.undo.last();
        insert_keeps_numbers(s.store, last.date, last.at, last.task);
        reveal(AppV::numbered);
        assert(deleted_tasks(s.undo) =~= deleted_tasks(t.undo).push(last.task));
        assert forall|id: int| #[trigger]
            count_in(t.store.days, with_id(id)) + count(deleted_tasks(t.undo), with_id(id))
                <= one_if(id < t.store.next_id) by {
            assert(count_in(s.store.days, with_id(id)) + count(
                deleted_tasks(s.undo),
                with_id(id),
            ) <= one_if(id < s.store.next_id));
            count_push(deleted_tasks(t.undo), last.task, with_id(id));
        }
    } else {
        same_lists(s, s.undo());
    }
}

/// Making another list active keeps the state numbered, whatever the order of the others.
proof fn switching_keeps_numbers(s: AppV, next: SlotV, others: Seq<SlotV>)
    requires
        next.store.numbered(),
        ordered(next.store.days),
        forall|i: int| 0 <= i < others.len() ==> (#[trigger] others[i]).store.numbered(),
    ensures
        (AppV { others, ..s.activate(next) }).numbered(),
{
    reveal(AppV::activate);
    carrying_over_keeps_numbers(next.store, s.today);
    numbered_lists(AppV { others, ..s.activate(next) });
}

/// Switching to another list keeps the state numbered.
proof fn list_switches_keep_numbers(s: AppV, pos: int)
    requires
        s.numbered(),
        s.wf(),
    ensures
        s.switch_list().numbered(),
        s.switch_list_to(pos).numbered(),
{
    reveal(AppV::switch_list);
    reveal(AppV::switch_list_to);
    the_active_list_is_numbered(s);
    assert(forall|i: int|
        0 <= i < s.others.len() ==> (#[trigger] s.others[i]).store.numbered() && ordered(
            s.others[i].store.days,
        )) by {
        reveal(AppV::numbered);
        reveal(AppV::wf);
    }
    if s.others.len() > 0 {
        switching_keeps_numbers(s, s.others[0], s.others.drop_first().push(s.active()));
    } else {
        same_lists(s, s.switch_list());
    }
    if 0 < pos <= s.others.len() {
        switching_keeps_numbers(
            s,
            s.others[pos - 1],
            s.others.skip(pos).push(s.active()) + s.others.take(pos - 1),
        );
    }
}

/// An action on a task keeps the state numbered.
proof fn acting_on_keeps_numbers(s: AppV, action: Action, idx: int)
    requires
        s.numbered(),
        ordered(s.store.days),
        0 <= idx,
    ensures
        s.act_on(action, idx).0.numbered(),
{
    reveal(AppV::act_on);
    edits_keep_numbers(s.store, s.date, idx, Seq::empty(), None);
    moves_keep_numbers(s.store, s.date, idx, s.date + 1);
    toggle_keeps_numbers(s.store, s.date, idx, s.today);
    let t = s.act_on(action, idx).0;
    match action {
        Action::Delete => {
            if s.confirm_delete {
                same_lists(s, t);
            } else {
                deleting_keeps_numbers(s, idx);
            }
        },
        Action::Edit | Action::Reminder | Action::Note => {
            reveal(AppV::edit_task);
            reveal(AppV::edit_reminder);
            reveal(AppV::edit_note);
            same_lists(s, t);
        },
        Action::MoveDown => {
            reveal(AppV::move_task_down);
            if s.sorted {
                same_lists(s, t);
            } else {
                other_store(s, t);
            }
        },
        Action::MoveUp => {
            reveal(AppV::move_task_up);
            if s.sorted {
                same_lists(s, t);
            } else {
                other_store(s, t);
            }
        },
        Action::Hide => {
            reveal(AppV::hide_task);
            other_store(s, t);
        },
        Action::Toggle => {
            reveal(AppV::toggle_task);
            other_store(s, t);
        },
        Action::Priority => {
            reveal(AppV::cycle_priority);
            other_store(s, t);
        },
        Action::Repeat => {
            reveal(AppV::cycle_repeat);
            other_store(s, t);
        },
        Action::Postpone => {
            moving_keeps_numbers(s, idx, s.date + 1);
        },
        _ => {
            same_lists(s, t);
        },
    }
}

/// Moving a task to another day keeps the state numbered.
proof fn moving_keeps_numbers(s: AppV, idx: int, target: int)
    requires
        s.numbered(),
        ordered(s.store.days),
    ensures
        s.move_to(idx, target).numbered(),
{
    reveal(AppV::move_to);
    if s.store.has(s.date, idx) {
        moves_keep_numbers(s.store, s.date, idx, target);
        other_store(s, s.move_to(idx, target));
    }
}

/// An action keeps the state numbered.
proof fn actions_keep_numbers(s: AppV, action: Action)
    requires
        s.numbered(),
        s.wf(),
        s.undo.len() > 0 ==> s.undo.last().at >= 0,
    ensures
        s.act(action).0.numbered(),
{
    reveal(AppV::act);
    let t = s.act(action).0;
    match action {
        Action::NextList => {
            list_switches_keep_numbers(s, 0);
        },
        Action::Undo => {
            restoring_keeps_numbers(s);
        },
        Action::Quit
        | Action::Help
        | Action::Calendar
        | Action::Review
        | Action::Search
        | Action::Command
        | Action::Lists
        | Action::NewList
        | Action::Add
        | Action::Down
        | Action::Up
        | Action::First
        | Action::Last
        | Action::PrevDay
        | Action::NextDay
        | Action::Today
        | Action::Split
        | Action::HideDone
        | Action::Sort
        | Action::Reveal => {
            reveal(AppV::open_screen);
            reveal(AppV::open_new_list_prompt);
            reveal(AppV::navigate);
            reveal(AppV::toggle_split);
            reveal(AppV::toggle_focus);
            reveal(AppV::toggle_sort);
            reveal(AppV::toggle_reveal);
            same_lists(s, t);
        },
        _ => {
            if let Some(idx) = s.selected_task() {
                assert(ordered(s.store.days)) by {
                    reveal(AppV::wf);
                }
                crate::app_laws::every_task_is_shown_once(s);
                acting_on_keeps_numbers(s, action, idx);
            }
        },
    }
}

/// A typed text keeps the state numbered.
proof fn typing_keeps_numbers(s: AppV, text: Seq<char>, target: Target)
    requires
        s.numbered(),
    ensures
        s.submit(text, target).0.numbered(),
{
    reveal(AppV::submit);
    reveal(AppV::submit_reminder);
    reveal(AppV::submit_note);
    reveal(AppV::submit_edit);
    reveal(AppV::submit_task);
    reveal(AppV::submit_list);
    let t = s.submit(text, target).0;
    match target {
        Target::Reminder(idx) => {
            edits_keep_numbers(s.store, s.date, idx as int, text, typed_time(text));
            if text.len() > 0 && typed_time(text) is None {
                same_lists(s, t);
            } else {
                other_store(s, t);
            }
        },
        Target::Note(idx) => {
            edits_keep_numbers(s.store, s.date, idx as int, text, None);
            other_store(s, t);
        },
        Target::EditTask(idx) => {
            edits_keep_numbers(s.store, s.date, idx as int, text, None);
            if text.len() > 0 {
                other_store(s, t);
            } else {
                same_lists(s, t);
            }
        },
        Target::NewTask => {
            add_gives_a_new_number(s.store, s.date, text);
            if text.len() > 0 {
                other_store(s, t);
            } else {
                same_lists(s, t);
            }
        },
        _ => {
            same_lists(s, t);
        },
    }
}

/// No key press gives a number twice: tasks that were deleted can be put back without meeting one
/// that took their number since.
pub proof fn keys_keep_numbers(s: AppV, key: KeyEvent)
    requires
        s.numbered(),
        s.wf(),
        s.undo.len() > 0 ==> s.undo.last().at >= 0,
    ensures
        s.on_key(key).0.numbered(),
{
    let fresh = AppV { status: None, ..s };
    let closed = AppV { mode: ModeV::Normal, ..fresh };
    let t = s.on_key(key).0;
    same_lists(s, fresh);
    same_lists(s, closed);
    assert(fresh.wf() && closed.wf() && ordered(s.store.days)) by {
        reveal(AppV::wf);
    }
    match s.mode {
        ModeV::Normal => {
            reveal(AppV::on_normal);
            if let Some(action) = owner(s.keys, key.code) {
                actions_keep_numbers(fresh, action);
            }
            same_lists(s, AppV { quit: true, ..fresh });
        },
        ModeV::Insert(editor) => {
            reveal(AppV::on_insert);
            typing_keeps_numbers(fresh, trimmed(editor.text), editor.target);
            same_lists(s, AppV { mode: ModeV::Insert(editor.typed(key)), ..fresh });
        },
        ModeV::Command(editor) => {
            reveal(AppV::on_command);
            reveal(AppV::run_command);
            reveal(AppV::open_new_list_prompt);
            reveal(AppV::request_new_list);
            same_lists(s, t);
        },
        ModeV::Search { editor, selected } => {
            reveal(AppV::on_search);
            reveal(AppV::open_hit);
            same_lists(s, t);
        },
        ModeV::Calendar { cursor, moving } => {
            reveal(AppV::on_calendar);
            reveal(AppV::on_day_chosen);
            if moving is Some && t.store != s.store {
                moving_keeps_numbers(closed, moving->Some_0 as int, cursor);
            } else {
                if let Some(idx) = moving {
                    moving_keeps_numbers(closed, idx as int, cursor);
                }
                if moving is None {
                    same_lists(s, t);
                }
                same_lists(
                    s,
                    AppV {
                        mode: ModeV::Calendar {
                            cursor: crate::popup_keys::calendar_next(s.today, key.code, cursor),
                            moving,
                        },
                        ..fresh
                    },
                );
            }
        },
        ModeV::ConfirmDelete(idx) => {
            reveal(AppV::on_confirm);
            deleting_keeps_numbers(closed, idx);
            same_lists(s, closed.say("Cancelled"@));
        },
        ModeV::Help { scroll } => {
            reveal(AppV::on_help);
            same_lists(s, t);
        },
        ModeV::Review { scroll } => {
            reveal(AppV::on_review);
            same_lists(s, t);
        },
        ModeV::Lists { selected } => {
            reveal(AppV::on_lists);
            reveal(AppV::open_new_list_prompt);
            list_switches_keep_numbers(closed, selected);
            if t.others == s.others && t.undo == s.undo && t.store == s.store {
                same_lists(s, t);
            }
        },
    }
}

/// A new day keeps the state numbered.
pub proof fn days_keep_numbers(s: AppV, today: int)
    requires
        s.numbered(),
        s.wf(),
    ensures
        s.roll_over(today).numbered(),
{
    reveal(AppV::roll_over);
    reveal(AppV::cancel_pending);
    reveal(AppV::on_day);
    if today != s.today {
        let t = s.roll_over(today);
        assert(ordered(s.store.days)) by {
            reveal(AppV::wf);
        }
        moves_keep_numbers(s.store, today, 0, today);
        let there = AppV { others: s.others, ..t };
        other_store(s, there);
        assert forall|i: int| 0 <= i < t.others.len() implies (
        #[trigger] t.others[i]).store.numbered() by {
            assert(s.others[i].store.numbered() && ordered(s.others[i].store.days)) by {
                reveal(AppV::numbered);
                reveal(AppV::wf);
            }
            carrying_over_keeps_numbers(s.others[i].store, today);
        }
        reveal(AppV::numbered);
    }
}

/// Lists that are numbered make a numbered state, and adding one that is numbered keeps it so.
pub proof fn lists_keep_numbers(lists: Seq<SlotV>, today: int, s: AppV, slot: SlotV)
    requires
        lists.len() > 0,
        forall|i: int|
            0 <= i < lists.len() ==> (#[trigger] lists[i]).store.numbered() && ordered(
                lists[i].store.days,
            ),
        s.numbered(),
        s.wf(),
        slot.store.numbered(),
        ordered(slot.store.days),
    ensures
        AppV::started(lists, today).numbered(),
        s.add_list(slot).numbered(),
{
    let start = AppV::started(lists, today);
    carrying_over_keeps_numbers(lists[0].store, today);
    assert forall|i: int| 0 <= i < start.others.len() implies (
    #[trigger] start.others[i]).store.numbered() by {
        carrying_over_keeps_numbers(lists[i + 1].store, today);
    }
    numbered_lists(start);
    reveal(AppV::add_list);
    let more = AppV { others: seq![slot] + s.others, ..s };
    assert(more.numbered()) by {
        reveal(AppV::numbered);
    }
    assert(more.wf()) by {
        reveal(AppV::wf);
    }
    list_switches_keep_numbers(more, 0);
    same_lists(more.switch_list(), s.add_list(slot));
}

// --- changes -------------------------------------------------------------------

/// A key press that reports no change left every task of every list as it was, so that nothing is
/// lost where only reported changes are saved.
pub proof fn changes_are_reported(s: AppV, key: KeyEvent)
    ensures
        !s.on_key(key).1 ==> s.on_key(key).0.store == s.store && s.on_key(key).0.others
            == s.others,
{
    let fresh = AppV { status: None, ..s };
    reveal(AppV::open_new_list_prompt);
    match s.mode {
        ModeV::Normal => {
            reveal(AppV::on_normal);
            if let Some(action) = owner(s.keys, key.code) {
                action_changes_are_reported(fresh, action);
            }
        },
        ModeV::Insert(editor) => {
            reveal(AppV::on_insert);
            reveal(AppV::submit);
            reveal(AppV::submit_reminder);
            reveal(AppV::submit_note);
            reveal(AppV::submit_edit);
            reveal(AppV::submit_task);
            reveal(AppV::submit_list);
        },
        ModeV::Command(editor) => {
            reveal(AppV::on_command);
            reveal(AppV::run_command);
            reveal(AppV::request_new_list);
        },
        ModeV::Search { editor, selected } => {
            reveal(AppV::on_search);
            reveal(AppV::open_hit);
        },
        ModeV::Calendar { cursor, moving } => {
            reveal(AppV::on_calendar);
            reveal(AppV::on_day_chosen);
            reveal(AppV::move_to);
        },
        ModeV::ConfirmDelete(idx) => {
            reveal(AppV::on_confirm);
            reveal(AppV::delete);
        },
        ModeV::Help { scroll } => {
            reveal(AppV::on_help);
        },
        ModeV::Review { scroll } => {
            reveal(AppV::on_review);
        },
        ModeV::Lists { selected } => {
            reveal(AppV::on_lists);
            reveal(AppV::switch_list_to);
        },
    }
}

/// The same for an action on the task list.
proof fn action_changes_are_reported(s: AppV, action: Action)
    ensures
        !s.act(action).1 ==> s.act(action).0.store == s.store && s.act(action).0.others
            == s.others,
{
    reveal(AppV::act);
    reveal(AppV::open_screen);
    reveal(AppV::open_new_list_prompt);
    reveal(AppV::navigate);
    reveal(AppV::toggle_split);
    reveal(AppV::toggle_focus);
    reveal(AppV::toggle_sort);
    reveal(AppV::toggle_reveal);
    reveal(AppV::switch_list);
    reveal(AppV::undo);
    reveal(AppV::act_on);
    reveal(AppV::edit_task);
    reveal(AppV::edit_reminder);
    reveal(AppV::edit_note);
    reveal(AppV::move_task_down);
    reveal(AppV::move_task_up);
}

} // verus!
