//! What holds of several lists, of the clock, and of a new day, told by the state before and after.

use vstd::prelude::*;

use crate::app::{AppV, ModeV, SlotV};
use crate::config::{lists_error, lists_error_from, name_error};
use crate::editor::{EditorV, Target};
use crate::keys::{Action, KeyCode, KeyEvent};
use crate::lists::{any_carried, ringing, rings};
use crate::model::StoreV;
use crate::order::{ahead, among, filter_places, filter_sources, same_filter};
use crate::pages::{carried, PageV};
use crate::popup_keys::picked_row;
use crate::query_laws::open_tasks_are_listed_by_age;
use crate::storage::{pid_of, stale, top_id, top_id_in};
use crate::store_laws::{
    carried_count, is_open, is_past, open_tasks_of_the_past_are_counted, something_is_carried,
};
use crate::task::{MASK, TaskV};
use crate::text::{decimal, joined, trimmed};

verus! {

// --- reminders on the screen ---------------------------------------------------

/// Whether a task is open and has a reminder behind `prev` and not behind `now`.
pub open spec fn open_and_crossed(prev: int, now: int) -> spec_fn(TaskV) -> bool {
    |t: TaskV|
        match t.remind {
            Some(time) => !t.done && prev < time && time <= now,
            None => false,
        }
}

/// The reminders that ring are those of the open tasks whose time was crossed, each once and in
/// manual order, named by their text, or by the mask where the task is hidden and not revealed.
pub proof fn crossed_reminders_ring(tasks: Seq<TaskV>, prev: int, now: int, reveal: bool)
    ensures
        ringing(tasks, prev, now, reveal).len() == among(
            tasks,
            open_and_crossed(prev, now),
            tasks.len() as int,
        ),
        forall|i: int|
            0 <= i < tasks.len() && open_and_crossed(prev, now)(#[trigger] tasks[i]) ==> ringing(
                tasks,
                prev,
                now,
                reveal,
            )[among(tasks, open_and_crossed(prev, now), i)] == (if tasks[i].hidden && !reveal {
                MASK@
            } else {
                tasks[i].text
            }),
{
    let keep = open_and_crossed(prev, now);
    same_filter(tasks, |t: TaskV| rings(t, prev, now), keep);
    filter_places(tasks, keep);
}

/// When the clock goes on, the reminders of today's open tasks that it crosses are named, and where
/// there are none the message stays. Nothing changes but the time and the message, and a clock that
/// goes back names none.
pub proof fn the_clock_names_what_it_crosses(s: AppV, now: int)
    ensures
        s.tick(now) == (AppV { now, status: s.tick(now).status, ..s }),
        ({
            let due = ringing(s.store.on(s.today), s.now, now, s.reveal);
            if now > s.now && exists|i: int|
                0 <= i < s.store.on(s.today).len() && open_and_crossed(s.now, now)(
                    #[trigger] s.store.on(s.today)[i],
                ) {
                s.tick(now).status == Some("⏰ Reminder: "@ + joined(due, ", "@))
            } else {
                s.tick(now).status == s.status
            }
        }),
{
    reveal(AppV::tick);
    let tasks = s.store.on(s.today);
    let keep = open_and_crossed(s.now, now);
    let due = ringing(tasks, s.now, now, s.reveal);
    crossed_reminders_ring(tasks, s.now, now, s.reveal);
    same_filter(tasks, |t: TaskV| rings(t, s.now, now), keep);
    if due.len() > 0 {
        let i = filter_sources(tasks, keep, 0);
        assert(keep(tasks[i]));
    }
    if exists|i: int| 0 <= i < tasks.len() && keep(#[trigger] tasks[i]) {
        let i = choose|i: int| 0 <= i < tasks.len() && keep(#[trigger] tasks[i]);
        filter_places(tasks, keep);
        assert(keep(tasks[i]));
    }
}

// --- a new day -----------------------------------------------------------------

/// On a new day the unfinished tasks of every list are carried over to it. A view of the day that was
/// today follows, any other stays; lists, settings and what can be put back stay as they are.
pub proof fn a_new_day_carries_over_every_list(s: AppV, today: int)
    requires
        today != s.today,
    ensures
        s.roll_over(today).today == today,
        s.roll_over(today).store == s.store.carry_over(today),
        s.roll_over(today).others.len() == s.others.len(),
        forall|i: int|
            0 <= i < s.others.len() ==> (#[trigger] s.roll_over(today).others[i]).store
                == s.others[i].store.carry_over(today) && s.roll_over(today).others[i].name
                == s.others[i].name,
        s.date == s.today ==> s.roll_over(today).date == today,
        s.date != s.today ==> s.roll_over(today).date == s.date,
        s.roll_over(today).list_name == s.list_name,
        s.roll_over(today).undo == s.undo,
        s.roll_over(today).sorted == s.sorted,
        s.roll_over(today).hide_done == s.hide_done,
        s.roll_over(today).reveal == s.reveal,
        s.roll_over(today).now == s.now,
        s.roll_over(today).quit == s.quit,
{
    reveal(AppV::roll_over);
    reveal(AppV::cancel_pending);
    reveal(AppV::on_day);
}

/// On the same day nothing happens.
pub proof fn the_same_day_changes_nothing(s: AppV)
    ensures
        s.roll_over(s.today) == s,
{
    reveal(AppV::roll_over);
}

/// A question, a move or an edit that knows its task by the place on the page is given up on a new
/// day; a new task being typed, a search and the other screens stay open.
pub proof fn a_new_day_gives_up_what_goes_by_place(s: AppV, today: int)
    requires
        today != s.today,
    ensures
        s.mode is ConfirmDelete ==> s.roll_over(today).mode == ModeV::Normal,
        s.mode is Calendar && s.mode->Calendar_moving is Some ==> s.roll_over(today).mode
            == ModeV::Normal,
        s.mode is Calendar && s.mode->Calendar_moving is None ==> s.roll_over(today).mode == s.mode,
        s.mode is Insert && (s.mode->Insert_0.target is EditTask || s.mode->Insert_0.target is Note
            || s.mode->Insert_0.target is Reminder) ==> s.roll_over(today).mode == ModeV::Normal,
        s.mode is Insert && (s.mode->Insert_0.target is NewTask || s.mode->Insert_0.target is NewList)
            ==> s.roll_over(today).mode == s.mode,
        s.mode is Search || s.mode is Command || s.mode is Help || s.mode is Review
            || s.mode is Lists || s.mode is Normal ==> s.roll_over(today).mode == s.mode,
{
    reveal(AppV::roll_over);
    reveal(AppV::cancel_pending);
    reveal(AppV::on_day);
}

/// The other lists have to be saved after a new day where one of them had an open task in the past.
pub proof fn carried_lists_are_marked(s: AppV, today: int)
    requires
        today != s.today,
    ensures
        s.roll_over(today).others_dirty == (s.others_dirty || exists|i: int, p: int, j: int|
            0 <= i < s.others.len() && 0 <= p < s.others[i].store.days.len()
                && s.others[i].store.days[p].date < today && 0 <= j
                < s.others[i].store.days[p].tasks.len()
                && !(#[trigger] s.others[i].store.days[p].tasks[j]).done),
{
    reveal(AppV::roll_over);
    reveal(AppV::cancel_pending);
    reveal(AppV::on_day);
    let n = s.others.len() as int;
    if any_carried(s.others, today, n) {
        let i = choose|i: int|
            0 <= i < n && carried((#[trigger] s.others[i]).store.days, today).len() > 0;
        let (p, j) = carried_count(s.others[i].store.days, today);
        assert(!s.others[i].store.days[p].tasks[j].done);
    }
    if exists|i: int, p: int, j: int|
        0 <= i < s.others.len() && 0 <= p < s.others[i].store.days.len()
            && s.others[i].store.days[p].date < today && 0 <= j
            < s.others[i].store.days[p].tasks.len()
            && !(#[trigger] s.others[i].store.days[p].tasks[j]).done {
        let (i, p, j) = choose|i: int, p: int, j: int|
            0 <= i < s.others.len() && 0 <= p < s.others[i].store.days.len()
                && s.others[i].store.days[p].date < today && 0 <= j
                < s.others[i].store.days[p].tasks.len()
                && !(#[trigger] s.others[i].store.days[p].tasks[j]).done;
        something_is_carried(s.others[i].store.days, today, p, j);
    }
}

// --- several lists -------------------------------------------------------------

/// Switching makes the next list active, or the chosen one, with its unfinished tasks carried over and
/// today in view. The lists that are not active keep their tasks, in cyclic order, and what was
/// deleted before cannot be put back into another list.
pub proof fn switching_keeps_the_other_lists(s: AppV, pos: int)
    requires
        0 < pos <= s.others.len(),
    ensures
        s.switch_list_to(pos).store == s.others[pos - 1].store.carry_over(s.today),
        s.switch_list_to(pos).list_name == s.others[pos - 1].name,
        s.switch_list_to(pos).path == s.others[pos - 1].path,
        s.switch_list_to(pos).date == s.today,
        s.switch_list_to(pos).undo.len() == 0,
        s.switch_list_to(pos).others.len() == s.others.len(),
        forall|i: int|
            0 <= i < s.others.len() - pos ==> #[trigger] s.switch_list_to(pos).others[i]
                == s.others[pos + i],
        s.switch_list_to(pos).others[s.others.len() - pos] == (SlotV {
            name: s.list_name,
            path: s.path,
            store: s.store,
        }),
        forall|i: int|
            s.others.len() - pos < i < s.others.len() ==> #[trigger] s.switch_list_to(
                pos,
            ).others[i] == s.others[i - (s.others.len() - pos) - 1],
        s.act(Action::NextList).0.store == s.others[0].store.carry_over(s.today),
        s.act(Action::NextList).0.list_name == s.others[0].name,
        s.act(Action::NextList).0.others == s.switch_list_to(1).others,
        s.act(Action::NextList).1,
{
    reveal(AppV::act);
    reveal(AppV::switch_list);
    reveal(AppV::switch_list_to);
    reveal(AppV::activate);
    let one = s.others.skip(1).push(s.active()) + s.others.take(0);
    assert(one =~= s.others.drop_first().push(s.active()));
}

/// Without another list, switching changes no list and asks for no saving.
pub proof fn one_list_stays_active(s: AppV)
    requires
        s.others.len() == 0,
    ensures
        s.act(Action::NextList).0 == (AppV { status: s.act(Action::NextList).0.status, ..s }),
        !s.act(Action::NextList).1,
{
    reveal(AppV::act);
    reveal(AppV::switch_list);
}

/// A list that is added becomes active, with its tasks, and the one before it comes last in the
/// cycle; the others stay as they are.
pub proof fn adding_a_list_keeps_the_others(s: AppV, slot: SlotV)
    ensures
        s.add_list(slot).store == slot.store.carry_over(s.today),
        s.add_list(slot).list_name == slot.name,
        s.add_list(slot).path == slot.path,
        s.add_list(slot).others == s.others.push(
            SlotV { name: s.list_name, path: s.path, store: s.store },
        ),
{
    reveal(AppV::add_list);
    reveal(AppV::switch_list);
    reveal(AppV::activate);
    assert((seq![slot] + s.others).drop_first() =~= s.others);
}

/// At the start the first list is active and today in view; every list has its unfinished tasks
/// carried over, and the lists keep their names and their order.
pub proof fn the_first_list_is_active_at_the_start(lists: Seq<SlotV>, today: int)
    requires
        lists.len() > 0,
    ensures
        AppV::started(lists, today).store == lists[0].store.carry_over(today),
        AppV::started(lists, today).list_name == lists[0].name,
        AppV::started(lists, today).date == today,
        AppV::started(lists, today).today == today,
        AppV::started(lists, today).mode == ModeV::Normal,
        AppV::started(lists, today).others.len() == lists.len() - 1,
        forall|i: int|
            0 <= i < lists.len() - 1 ==> (#[trigger] AppV::started(lists, today).others[i]).store
                == lists[i + 1].store.carry_over(today) && AppV::started(
                lists,
                today,
            ).others[i].name == lists[i + 1].name,
        !AppV::started(lists, today).sorted,
        !AppV::started(lists, today).hide_done,
        !AppV::started(lists, today).reveal,
        !AppV::started(lists, today).quit,
        AppV::started(lists, today).undo.len() == 0,
{
}

/// The list picker shows every list with the number of its open tasks of today and earlier, the
/// active one first and marked.
pub proof fn the_picker_counts_open_tasks(s: AppV)
    ensures
        s.list_rows().len() == s.others.len() + 1,
        s.list_rows()[0].name == s.list_name,
        s.list_rows()[0].active,
        s.list_rows()[0].open == ahead(
            s.store.days,
            |page: PageV| page.date <= s.today,
            is_open(),
            s.store.days.len() as int,
        ),
        forall|i: int|
            0 < i <= s.others.len() ==> {
                let row = #[trigger] s.list_rows()[i];
                &&& row.name == s.others[i - 1].name
                &&& !row.active
                &&& row.open == ahead(
                    s.others[i - 1].store.days,
                    |page: PageV| page.date <= s.today,
                    is_open(),
                    s.others[i - 1].store.days.len() as int,
                )
            },
{
    open_tasks_are_listed_by_age(s.store, s.today);
    assert forall|i: int| 0 < i <= s.others.len() implies {
        let row = #[trigger] s.list_rows()[i];
        &&& row.name == s.others[i - 1].name
        &&& !row.active
        &&& row.open == ahead(
            s.others[i - 1].store.days,
            |page: PageV| page.date <= s.today,
            is_open(),
            s.others[i - 1].store.days.len() as int,
        )
    } by {
        open_tasks_are_listed_by_age(s.others[i - 1].store, s.today);
        assert(s.cycle()[i] == s.others[i - 1]);
    }
}

/// The side pane shows the next list of the cycle, where the split view is on and there is one.
pub proof fn the_side_pane_shows_the_next_list(s: AppV)
    ensures
        s.split && s.others.len() > 0 ==> s.side_list() == Some(s.others[0]),
        !s.split || s.others.len() == 0 ==> s.side_list() is None,
{
}

/// In the list picker the keys move the selection by a row, to the first or to the last, and stay on
/// the rows.
pub proof fn the_picker_moves_by_rows(selected: int, last: int)
    requires
        0 <= selected <= last,
    ensures
        picked_row(selected, last, KeyCode::Down) == Some(
            if selected < last {
                selected + 1
            } else {
                last
            },
        ),
        picked_row(selected, last, KeyCode::Up) == Some(
            if selected > 0 {
                selected - 1
            } else {
                0
            },
        ),
        picked_row(selected, last, KeyCode::Home) == Some(0int),
        picked_row(selected, last, KeyCode::End) == Some(last),
        picked_row(selected, last, KeyCode::Char('j')) == picked_row(selected, last, KeyCode::Down),
        picked_row(selected, last, KeyCode::Char('k')) == picked_row(selected, last, KeyCode::Up),
        picked_row(selected, last, KeyCode::Char('g')) == picked_row(selected, last, KeyCode::Home),
        picked_row(selected, last, KeyCode::Char('G')) == picked_row(selected, last, KeyCode::End),
{
}

// --- names of lists ------------------------------------------------------------

/// A name can be used for a list where it has a character, no path separator, and no list has it.
pub proof fn good_names_have_no_separator(name: Seq<char>, existing: Seq<Seq<char>>)
    ensures
        name_error(name, existing) is None <==> name.len() > 0 && (forall|i: int|
            0 <= i < name.len() ==> #[trigger] name[i] != '/' && name[i] != '\\') && (forall|i: int|
            0 <= i < existing.len() ==> #[trigger] existing[i] != name),
{
    if name_error(name, existing) is None {
        assert forall|i: int| 0 <= i < name.len() implies #[trigger] name[i] != '/' && name[i]
            != '\\' by {
            assert(name.contains(name[i]));
        }
        assert forall|i: int| 0 <= i < existing.len() implies #[trigger] existing[i] != name by {
            assert(existing.contains(existing[i]));
        }
    }
}

/// The names of lists can be used where there is one at least, each can be used by itself, and no two
/// are the same.
pub proof fn good_lists_have_good_names(lists: Seq<Seq<char>>)
    ensures
        lists_error(lists) is None <==> lists.len() > 0 && (forall|i: int|
            0 <= i < lists.len() ==> name_error(#[trigger] lists[i], Seq::empty()) is None) && (
        forall|i: int, j: int|
            0 <= i < j < lists.len() ==> #[trigger] lists[i] != #[trigger] lists[j]),
{
    good_from(lists, 0);
    assert forall|i: int| 0 <= i < lists.len() implies (name_error(
        #[trigger] lists[i],
        lists.take(i),
    ) is None <==> name_error(lists[i], Seq::empty()) is None && forall|j: int|
        0 <= j < i ==> #[trigger] lists[j] != lists[i]) by {
        good_names_have_no_separator(lists[i], lists.take(i));
        good_names_have_no_separator(lists[i], Seq::empty());
        assert forall|j: int| 0 <= j < i implies #[trigger] lists[j] == lists.take(i)[j] by {}
        if name_error(lists[i], lists.take(i)) is None {
            assert forall|j: int| 0 <= j < i implies #[trigger] lists[j] != lists[i] by {
                assert(lists.take(i)[j] != lists[i]);
            }
        }
    }
    if lists_error(lists) is None {
        assert forall|i: int, j: int| 0 <= i < j < lists.len() implies #[trigger] lists[i]
            != #[trigger] lists[j] by {
            assert(name_error(lists[j], lists.take(j)) is None);
        }
    }
}

/// The names from the `n`-th on are good where each is beside those before it.
proof fn good_from(lists: Seq<Seq<char>>, n: int)
    requires
        0 <= n <= lists.len(),
    ensures
        lists_error_from(lists, n) is None <==> forall|i: int|
            n <= i < lists.len() ==> name_error(#[trigger] lists[i], lists.take(i)) is None,
    decreases lists.len() - n,
{
    if n < lists.len() {
        good_from(lists, n + 1);
        if lists_error_from(lists, n) is None {
            assert forall|i: int| n <= i < lists.len() implies name_error(
                #[trigger] lists[i],
                lists.take(i),
            ) is None by {
                if i > n {
                    assert(lists_error_from(lists, n + 1) is None);
                }
            }
        } else if name_error(lists[n], lists.take(n)) is None {
            let i = choose|i: int|
                n + 1 <= i < lists.len() && !(name_error(#[trigger] lists[i], lists.take(i)) is None);
            assert(n <= i);
        }
    }
}

// --- files ---------------------------------------------------------------------

/// A lock is stale where it names a process and the machine lists its processes but not that one; one
/// that names none, or is held on a machine that lists none, is not.
pub proof fn only_a_dead_process_leaves_a_stale_lock(
    contents: Option<Seq<char>>,
    lists_processes: bool,
    is_running: bool,
)
    ensures
        contents is None ==> !stale(pid_of(contents), lists_processes, is_running),
        is_running ==> !stale(pid_of(contents), lists_processes, is_running),
        !lists_processes ==> !stale(pid_of(contents), lists_processes, is_running),
        pid_of(contents) is Some && lists_processes && !is_running ==> stale(
            pid_of(contents),
            lists_processes,
            is_running,
        ),
{
}

/// The next number after loading is the one that was saved, or, where a task has that number or a
/// greater one, the number behind the greatest.
pub proof fn the_next_number_is_behind_all(s: StoreV)
    ensures
        forall|p: int, i: int|
            0 <= p < s.days.len() && 0 <= i < s.days[p].tasks.len() ==> (
            #[trigger] s.days[p].tasks[i]).id < s.reconciled().next_id,
        s.reconciled().next_id >= s.next_id,
        s.reconciled().next_id > s.next_id ==> s.reconciled().next_id == 1 || exists|p: int, i: int|
            0 <= p < s.days.len() && 0 <= i < s.days[p].tasks.len() && (
            #[trigger] s.days[p].tasks[i]).id + 1 == s.reconciled().next_id,
        s.reconciled().days == s.days,
        s.reconciled().version == s.version,
{
    top_in(s.days, s.days.len() as int);
}

/// What the greatest number of some tasks is.
proof fn top_of(tasks: Seq<TaskV>, n: int)
    requires
        0 <= n <= tasks.len(),
    ensures
        0 <= top_id(tasks, n),
        forall|i: int| 0 <= i < n ==> (#[trigger] tasks[i]).id <= top_id(tasks, n),
        top_id(tasks, n) == 0 || exists|i: int|
            0 <= i < n && (#[trigger] tasks[i]).id == top_id(tasks, n),
    decreases n,
{
    if n > 0 {
        top_of(tasks, n - 1);
        if tasks[n - 1].id > top_id(tasks, n - 1) {
            assert(tasks[n - 1].id == top_id(tasks, n));
        } else if top_id(tasks, n) != 0 {
            let i = choose|i: int|
                0 <= i < n - 1 && (#[trigger] tasks[i]).id == top_id(tasks, n - 1);
            assert(tasks[i].id == top_id(tasks, n));
        }
    }
}

/// What the greatest number on some pages is.
proof fn top_in(pages: Seq<PageV>, n: int)
    requires
        0 <= n <= pages.len(),
    ensures
        0 <= top_id_in(pages, n),
        forall|p: int, i: int|
            0 <= p < n && 0 <= i < pages[p].tasks.len() ==> (#[trigger] pages[p].tasks[i]).id
                <= top_id_in(pages, n),
        top_id_in(pages, n) == 0 || exists|p: int, i: int|
            0 <= p < n && 0 <= i < pages[p].tasks.len() && (#[trigger] pages[p].tasks[i]).id
                == top_id_in(pages, n),
    decreases n,
{
    if n > 0 {
        top_in(pages, n - 1);
        let tasks = pages[n - 1].tasks;
        let top = top_id(tasks, tasks.len() as int);
        top_of(tasks, tasks.len() as int);
        assert forall|p: int, i: int| 0 <= p < n && 0 <= i < pages[p].tasks.len() implies (
        #[trigger] pages[p].tasks[i]).id <= top_id_in(pages, n) by {
            if p == n - 1 {
                assert(tasks[i].id <= top);
            }
        }
        if top > top_id_in(pages, n - 1) {
            let i = choose|i: int| 0 <= i < tasks.len() && (#[trigger] tasks[i]).id == top;
            assert(pages[n - 1].tasks[i].id == top_id_in(pages, n));
        } else if top_id_in(pages, n) != 0 {
            let (p, i) = choose|p: int, i: int|
                0 <= p < n - 1 && 0 <= i < pages[p].tasks.len() && (
                #[trigger] pages[p].tasks[i]).id == top_id_in(pages, n - 1);
            assert(pages[p].tasks[i].id == top_id_in(pages, n));
        }
    }
}

// --- what is told of lists -----------------------------------------------------

/// How many tasks were carried over is told at the start, on a new day and when a list becomes active,
/// and only where there were any.
pub proof fn the_number_carried_is_told(s: AppV, lists: Seq<SlotV>, today: int, pos: int)
    requires
        lists.len() > 0,
        today != s.today,
        0 < pos <= s.others.len(),
    ensures
        ({
            let n = open_in_the_past(lists[0].store, today);
            &&& n == 0 ==> AppV::started(lists, today).status is None
            &&& n > 0 ==> AppV::started(lists, today).status == Some(
                "Carried over "@ + decimal(n as nat) + " unfinished task(s)"@,
            )
        }),
        ({
            let n = open_in_the_past(s.store, today);
            n > 0 ==> s.roll_over(today).status == Some(
                "New day: carried over "@ + decimal(n as nat) + " task(s)"@,
            )
        }),
        ({
            let n = open_in_the_past(s.others[pos - 1].store, s.today);
            &&& n == 0 ==> s.switch_list_to(pos).status == Some("List: "@ + s.others[pos - 1].name)
            &&& n > 0 ==> s.switch_list_to(pos).status == Some(
                "List: "@ + s.others[pos - 1].name + " · carried over "@ + decimal(n as nat)
                    + " task(s)"@,
            )
        }),
{
    reveal(AppV::roll_over);
    reveal(AppV::switch_list_to);
    reveal(AppV::activate);
    open_tasks_of_the_past_are_counted(lists[0].store.days, today);
    open_tasks_of_the_past_are_counted(s.store.days, today);
    open_tasks_of_the_past_are_counted(s.others[pos - 1].store.days, s.today);
}

/// How many open tasks a store has on the days before `today`.
pub open spec fn open_in_the_past(s: StoreV, today: int) -> int {
    ahead(s.days, is_past(today), is_open(), s.days.len() as int)
}

/// A new list is asked for where the lists can be changed and the name can be used; else nothing is
/// asked for and the reason is told. Nothing but white space closes the prompt.
pub proof fn a_new_list_needs_a_good_name(s: AppV, name: Seq<char>, cursor: int, control: bool)
    ensures
        s.lists_mutable && name_error(name, s.list_names()) is None ==> s.request_new_list(name) == (
        AppV { pending_new_list: Some(name), ..s }),
        s.lists_mutable && name_error(name, s.list_names()) is Some ==> s.request_new_list(name) == (
        AppV { status: name_error(name, s.list_names()), ..s }),
        !s.lists_mutable ==> s.request_new_list(name).pending_new_list == s.pending_new_list
            && s.request_new_list(name).mode == s.mode,
        s.lists_mutable ==> s.act(Action::NewList).0.mode is Insert && s.act(
            Action::NewList,
        ).0.mode->Insert_0.target == Target::NewList && s.act(
            Action::NewList,
        ).0.mode->Insert_0.text.len() == 0,
        !s.lists_mutable ==> s.act(Action::NewList).0.mode == s.mode,
        ({
            let e = EditorV { text: name, cursor, target: Target::NewList };
            let r = s.on_insert(e, KeyEvent { code: KeyCode::Enter, control }).0;
            let typed = trimmed(name);
            &&& typed.len() == 0 ==> r == (AppV { mode: ModeV::Normal, ..s })
            &&& typed.len() > 0 && name_error(typed, s.list_names()) is None ==> r == (AppV {
                mode: ModeV::Normal,
                pending_new_list: Some(typed),
                ..s
            })
            &&& typed.len() > 0 && name_error(typed, s.list_names()) is Some ==> r == (AppV {
                status: name_error(typed, s.list_names()),
                ..s
            })
        }),
{
    reveal_strlit("");
    reveal(AppV::act);
    reveal(AppV::open_screen);
    reveal(AppV::open_new_list_prompt);
    reveal(AppV::request_new_list);
    reveal(AppV::on_insert);
    reveal(AppV::submit);
    reveal(AppV::submit_list);
}

/// In the list picker, Enter makes the chosen list active, or opens the prompt for a new one on the
/// last row; Escape closes it, and no key changes a list otherwise.
pub proof fn the_picker_chooses_a_list(s: AppV, selected: int, key: KeyEvent)
    requires
        0 <= selected <= s.others.len() + 1,
    ensures
        key.code == KeyCode::Enter && 0 < selected <= s.others.len() ==> s.on_lists(
            selected,
            key,
        ).0.store == s.others[selected - 1].store.carry_over(s.today) && s.on_lists(
            selected,
            key,
        ).0.list_name == s.others[selected - 1].name && s.on_lists(selected, key).0.mode
            == ModeV::Normal && s.on_lists(selected, key).1,
        key.code == KeyCode::Enter && selected == 0 ==> s.on_lists(selected, key) == (
            AppV { mode: ModeV::Normal, ..s },
            false,
        ),
        key.code == KeyCode::Enter && selected == s.others.len() + 1 && s.lists_mutable
            ==> s.on_lists(selected, key).0.mode is Insert && s.on_lists(
            selected,
            key,
        ).0.mode->Insert_0.target == Target::NewList,
        key.code == KeyCode::Esc ==> s.on_lists(selected, key) == (
            AppV { mode: ModeV::Normal, ..s },
            false,
        ),
        key.code != KeyCode::Enter ==> s.on_lists(selected, key).0.store == s.store && s.on_lists(
            selected,
            key,
        ).0.others == s.others && !s.on_lists(selected, key).1,
        picked_row(selected, s.others.len() as int + 1, key.code) is Some ==> s.on_lists(selected, key) == (
            AppV {
                mode: ModeV::Lists {
                    selected: picked_row(selected, s.others.len() as int + 1, key.code)->Some_0,
                },
                ..s
            },
            false,
        ),
{
    reveal(AppV::on_lists);
    reveal(AppV::open_new_list_prompt);
    reveal(AppV::switch_list_to);
    reveal(AppV::activate);
}

} // verus!
