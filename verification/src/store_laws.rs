//! What every operation on the list of tasks does, told by the tasks on each day before and after.

use vstd::prelude::*;

use crate::date::{civil, MAX_DAY, MIN_DAY};
use crate::date_laws::{
    every_day_has_a_date, next_day_is_later, other_repeats_are_the_next_such_day,
    the_next_month_can_be_represented,
};
use crate::laws::{
    carry_over_moves_the_unfinished_past, completing_spawns_one_copy, move_task_moves_one_task,
    occurrence_on_facts, occurrence_on_is,
};
use crate::model::{
    clamped, is_occurrence, kept_note, new_task, occurrence_on, pristine, swapped, StoreV,
};
use crate::order::{
    ahead, ahead_grows, among, among_grows, filter_places, gathered, gathered_places,
    gathered_sources,
};
use crate::pages::{
    carried, finished, has_page_at, ordered, place, place_facts, pruned, pruned_facts, tasks_on,
    unfinished, with_page, with_tasks, with_tasks_facts, PageV,
};
use crate::task::{following_repeat, Priority, Repeat, TaskV};
use crate::text::is_white;
use crate::text_laws::{is_trimmed_to, trimmed_is_the_middle};

verus! {

// --- carrying over -------------------------------------------------------------

/// Whether a page is dated before `today`.
pub open spec fn is_past(today: int) -> spec_fn(PageV) -> bool {
    |page: PageV| page.date < today
}

/// Whether a task is not done.
pub open spec fn is_open() -> spec_fn(TaskV) -> bool {
    |t: TaskV| !t.done
}

/// The position on `today`'s page that the open task at position `i` of page `p` is carried over to:
/// behind all open tasks of the pages before, and behind those before it on its own page.
pub open spec fn carried_to(pages: Seq<PageV>, today: int, p: int, i: int) -> int {
    ahead(pages, is_past(today), is_open(), p) + among(pages[p].tasks, is_open(), i)
}

/// What is carried over is gathered from the pages of the past.
proof fn carried_is_gathered(pages: Seq<PageV>, today: int)
    ensures
        carried(pages, today) == gathered(pages, is_past(today), is_open()),
    decreases pages.len(),
{
    if pages.len() > 0 {
        carried_is_gathered(pages.drop_last(), today);
        assert(unfinished(pages.last().tasks) == pages.last().tasks.filter(is_open()));
    }
}

/// Where something is carried over, there is an open task in the past.
pub proof fn carried_count(pages: Seq<PageV>, today: int) -> (at: (int, int))
    requires
        carried(pages, today).len() > 0,
    ensures
        0 <= at.0 < pages.len(),
        pages[at.0].date < today,
        0 <= at.1 < pages[at.0].tasks.len(),
        !pages[at.0].tasks[at.1].done,
{
    carried_is_gathered(pages, today);
    gathered_sources(pages, is_past(today), is_open(), 0)
}

/// Where there is an open task in the past, something is carried over.
pub proof fn something_is_carried(pages: Seq<PageV>, today: int, p: int, j: int)
    requires
        0 <= p < pages.len(),
        pages[p].date < today,
        0 <= j < pages[p].tasks.len(),
        !pages[p].tasks[j].done,
    ensures
        carried(pages, today).len() > 0,
{
    carried_is_gathered(pages, today);
    gathered_places(pages, is_past(today), is_open());
    assert(is_past(today)(pages[p]) && is_open()(pages[p].tasks[j]));
}

/// Carrying over puts every open task of the past on `today`'s page, a task of an earlier day before
/// one of a later day and the tasks of one day in their manual order, and then what `today` held, in
/// its order. Nothing else is put there.
pub proof fn carry_over_keeps_the_manual_order(s: StoreV, today: int)
    requires
        ordered(s.days),
    ensures
        forall|p: int, i: int|
            0 <= p < s.days.len() && s.days[p].date < today && 0 <= i < s.days[p].tasks.len()
                && !(#[trigger] s.days[p].tasks[i]).done ==> 0 <= carried_to(s.days, today, p, i)
                < s.carry_over(today).on(today).len() - s.on(today).len() && s.carry_over(today).on(
                today,
            )[carried_to(s.days, today, p, i)] == s.days[p].tasks[i],
        forall|p: int, i: int, q: int, j: int|
            0 <= p <= q < s.days.len() && s.days[p].date < today && s.days[q].date < today && 0 <= i
                < s.days[p].tasks.len() && 0 <= j < s.days[q].tasks.len()
                && !(#[trigger] s.days[p].tasks[i]).done && !(#[trigger] s.days[q].tasks[j]).done
                && (p < q || i < j) ==> carried_to(s.days, today, p, i) < carried_to(
                s.days,
                today,
                q,
                j,
            ),
        s.carry_over(today).on(today).len() == ahead(
            s.days,
            is_past(today),
            is_open(),
            s.days.len() as int,
        ) + s.on(today).len(),
        forall|k: int|
            0 <= k < s.on(today).len() ==> s.carry_over(today).on(today)[k + s.carry_over(today).on(
                today,
            ).len() - s.on(today).len()] == #[trigger] s.on(today)[k],
{
    carry_over_moves_the_unfinished_past(s, today);
    carried_is_gathered(s.days, today);
    gathered_places(s.days, is_past(today), is_open());
    assert forall|p: int, i: int, q: int, j: int|
        0 <= p <= q < s.days.len() && s.days[p].date < today && s.days[q].date < today && 0 <= i
            < s.days[p].tasks.len() && 0 <= j < s.days[q].tasks.len()
            && !(#[trigger] s.days[p].tasks[i]).done && !(#[trigger] s.days[q].tasks[j]).done && (p
            < q || i < j) implies carried_to(s.days, today, p, i) < carried_to(
        s.days,
        today,
        q,
        j,
    ) by {
        let (a, b) = (s.days[p].tasks, s.days[q].tasks);
        assert(is_open()(a[i]) && is_past(today)(s.days[p]));
        if p < q {
            among_grows(a, is_open(), i, a.len() as int);
            among_grows(b, is_open(), 0, j);
            ahead_grows(s.days, is_past(today), is_open(), p, q);
        } else {
            among_grows(a, is_open(), i, j);
        }
    }
    assert forall|p: int, i: int|
        0 <= p < s.days.len() && s.days[p].date < today && 0 <= i < s.days[p].tasks.len()
            && !(#[trigger] s.days[p].tasks[i]).done implies 0 <= carried_to(s.days, today, p, i)
        < s.carry_over(today).on(today).len() - s.on(today).len() && s.carry_over(today).on(
        today,
    )[carried_to(s.days, today, p, i)] == s.days[p].tasks[i] by {
        assert(is_open()(s.days[p].tasks[i]) && is_past(today)(s.days[p]));
    }
}

/// Of two open tasks of the past, the one of the earlier day, or the one that stands first on the
/// same day, stands first on `today`'s page after carrying over.
pub proof fn carried_tasks_stay_behind_each_other(
    s: StoreV,
    today: int,
    p: int,
    i: int,
    q: int,
    j: int,
)
    requires
        ordered(s.days),
        0 <= p <= q < s.days.len(),
        s.days[q].date < today,
        0 <= i < s.days[p].tasks.len(),
        0 <= j < s.days[q].tasks.len(),
        !s.days[p].tasks[i].done,
        !s.days[q].tasks[j].done,
        p < q || i < j,
    ensures
        exists|a: int, b: int|
            0 <= a < b < s.carry_over(today).on(today).len() && #[trigger] s.carry_over(today).on(
                today,
            )[a] == s.days[p].tasks[i] && #[trigger] s.carry_over(today).on(today)[b]
                == s.days[q].tasks[j],
{
    carry_over_keeps_the_manual_order(s, today);
    assert(s.days[p].date <= s.days[q].date);
    let a = carried_to(s.days, today, p, i);
    let b = carried_to(s.days, today, q, j);
    let after = s.carry_over(today).on(today);
    assert(after[a] == s.days[p].tasks[i] && after[b] == s.days[q].tasks[j]);
}

/// Carrying over leaves the done tasks of the past on their day, in their order, and nothing else
/// there. Days to come stay as they are, and no number is used up.
pub proof fn carry_over_leaves_what_is_done(s: StoreV, today: int)
    requires
        ordered(s.days),
    ensures
        forall|p: int|
            0 <= p < s.days.len() && s.days[p].date < today ==> s.carry_over(today).on(
                (#[trigger] s.days[p]).date,
            ).len() == s.days[p].tasks.len() - among(
                s.days[p].tasks,
                is_open(),
                s.days[p].tasks.len() as int,
            ),
        forall|p: int, i: int|
            0 <= p < s.days.len() && s.days[p].date < today && 0 <= i < s.days[p].tasks.len()
                && (#[trigger] s.days[p].tasks[i]).done ==> s.carry_over(today).on(
                s.days[p].date,
            )[i - among(s.days[p].tasks, is_open(), i)] == s.days[p].tasks[i],
        forall|p: int|
            0 <= p < s.days.len() && s.days[p].date > today ==> s.carry_over(today).on(
                (#[trigger] s.days[p]).date,
            ) == s.days[p].tasks,
        s.carry_over(today).next_id == s.next_id,
        s.carry_over(today).version == s.version,
{
    carry_over_moves_the_unfinished_past(s, today);
    let done = |t: TaskV| t.done;
    assert forall|p: int| 0 <= p < s.days.len() && s.days[p].date < today implies s.carry_over(
        today,
    ).on((#[trigger] s.days[p]).date).len() == s.days[p].tasks.len() - among(
        s.days[p].tasks,
        is_open(),
        s.days[p].tasks.len() as int,
    ) by {
        has_page_at(s.days, s.days[p].date, p);
        assert(finished(s.days[p].tasks) == s.days[p].tasks.filter(done));
        filter_places(s.days[p].tasks, done);
        among_others(s.days[p].tasks, s.days[p].tasks.len() as int);
    }
    assert forall|p: int, i: int|
        0 <= p < s.days.len() && s.days[p].date < today && 0 <= i < s.days[p].tasks.len()
            && (#[trigger] s.days[p].tasks[i]).done implies s.carry_over(today).on(
        s.days[p].date,
    )[i - among(s.days[p].tasks, is_open(), i)] == s.days[p].tasks[i] by {
        has_page_at(s.days, s.days[p].date, p);
        assert(finished(s.days[p].tasks) == s.days[p].tasks.filter(done));
        filter_places(s.days[p].tasks, done);
        among_others(s.days[p].tasks, i);
        assert(done(s.days[p].tasks[i]));
    }
    assert forall|p: int| 0 <= p < s.days.len() && s.days[p].date > today implies s.carry_over(
        today,
    ).on((#[trigger] s.days[p]).date) == s.days[p].tasks by {
        has_page_at(s.days, s.days[p].date, p);
    }
}

/// The first tasks are open or done.
proof fn among_others(tasks: Seq<TaskV>, n: int)
    requires
        0 <= n,
    ensures
        among(tasks, |t: TaskV| t.done, n) + among(tasks, is_open(), n) == n,
    decreases n,
{
    if n > 0 {
        among_others(tasks, n - 1);
    }
}

// --- one task ------------------------------------------------------------------

/// Whether two stores hold the same tasks but for the one at `idx` on `date`'s page, and number new
/// tasks alike.
pub open spec fn same_but_one(a: StoreV, b: StoreV, date: int, idx: int) -> bool {
    &&& b.version == a.version
    &&& b.next_id == a.next_id
    &&& b.on(date).len() == a.on(date).len()
    &&& forall|i: int|
        0 <= i < a.on(date).len() && i != idx ==> #[trigger] b.on(date)[i] == a.on(date)[i]
    &&& forall|d: int| d != date ==> #[trigger] b.on(d) == a.on(d)
}

/// Whether two stores hold the same tasks on every day, and number new tasks alike.
pub open spec fn same_tasks(a: StoreV, b: StoreV) -> bool {
    &&& b.version == a.version
    &&& b.next_id == a.next_id
    &&& forall|d: int| #[trigger] b.on(d) == a.on(d)
}

/// Setting a task changes that task alone.
proof fn set_sets_one(s: StoreV, date: int, idx: int, t: TaskV)
    requires
        ordered(s.days),
        0 <= idx,
    ensures
        ordered(s.set(date, idx, t).days),
        s.has(date, idx) ==> same_but_one(s, s.set(date, idx, t), date, idx) && s.set(
            date,
            idx,
            t,
        ).has(date, idx) && s.set(date, idx, t).task(date, idx) == t && s.set(date, idx, t).on(date)
            == s.on(date).update(idx, t),
        !s.has(date, idx) ==> same_tasks(s, s.set(date, idx, t)),
{
    with_tasks_facts(s.days, date, s.on(date).update(idx, t));
    let b = s.set(date, idx, t);
    if s.has(date, idx) {
        assert(b.days == with_tasks(s.days, date, s.on(date).update(idx, t)));
        assert forall|d: int| d != date implies #[trigger] b.on(d) == s.on(d) by {
            assert(tasks_on(with_tasks(s.days, date, s.on(date).update(idx, t)), d) == tasks_on(
                s.days,
                d,
            ));
        }
    } else {
        assert(b.days == with_page(s.days, date));
        assert forall|d: int| #[trigger] b.on(d) == s.on(d) by {
            assert(d != date ==> tasks_on(with_page(s.days, date), d) == tasks_on(s.days, d));
        }
    }
}

/// Editing replaces the text of the task, a reminder is set or taken away, and nothing else of that
/// task or of any other changes.
pub proof fn edits_change_one_field(
    s: StoreV,
    date: int,
    idx: int,
    text: Seq<char>,
    remind: Option<int>,
)
    requires
        ordered(s.days),
        s.has(date, idx),
    ensures
        same_but_one(s, s.edit(date, idx, text), date, idx),
        s.edit(date, idx, text).task(date, idx) == (TaskV { text, ..s.task(date, idx) }),
        same_but_one(s, s.set_reminder(date, idx, remind), date, idx),
        s.set_reminder(date, idx, remind).task(date, idx) == (TaskV {
            remind,
            ..s.task(date, idx)
        }),
        same_but_one(s, s.toggle_hidden(date, idx), date, idx),
        s.toggle_hidden(date, idx).task(date, idx) == (TaskV {
            hidden: !s.task(date, idx).hidden,
            ..s.task(date, idx)
        }),
{
    let t = s.task(date, idx);
    set_sets_one(s, date, idx, TaskV { text, ..t });
    set_sets_one(s, date, idx, TaskV { remind, ..t });
    set_sets_one(s, date, idx, TaskV { hidden: !t.hidden, ..t });
}

/// A note is kept without the white space around it, one of white space alone is taken away, and
/// nothing else of that task or of any other changes.
pub proof fn a_note_is_kept_trimmed(s: StoreV, date: int, idx: int, note: Seq<char>)
    requires
        ordered(s.days),
        s.has(date, idx),
    ensures
        same_but_one(s, s.set_note(date, idx, note), date, idx),
        s.set_note(date, idx, note).task(date, idx) == (TaskV {
            note: s.set_note(date, idx, note).task(date, idx).note,
            ..s.task(date, idx)
        }),
        match s.set_note(date, idx, note).task(date, idx).note {
            None => forall|i: int| 0 <= i < note.len() ==> is_white(#[trigger] note[i]),
            Some(kept) => is_trimmed_to(note, kept) && kept.len() > 0,
        },
{
    let t = s.task(date, idx);
    set_sets_one(s, date, idx, TaskV { note: kept_note(note), ..t });
    trimmed_is_the_middle(note);
}

/// A priority goes from none to low, from low to high, and from high to none; a repeat setting from
/// none to daily, weekdays, weekly, monthly, and to none again. Nothing else changes.
pub proof fn cycles_take_one_step(s: StoreV, date: int, idx: int)
    requires
        ordered(s.days),
        s.has(date, idx),
    ensures
        same_but_one(s, s.cycle_priority(date, idx), date, idx),
        same_but_one(s, s.cycle_repeat(date, idx), date, idx),
        s.cycle_priority(date, idx).task(date, idx) == (TaskV {
            priority: s.cycle_priority(date, idx).task(date, idx).priority,
            ..s.task(date, idx)
        }),
        s.cycle_repeat(date, idx).task(date, idx) == (TaskV {
            repeat: s.cycle_repeat(date, idx).task(date, idx).repeat,
            ..s.task(date, idx)
        }),
        s.task(date, idx).priority == Priority::Plain <==> s.cycle_priority(date, idx).task(
            date,
            idx,
        ).priority == Priority::Low,
        s.task(date, idx).priority == Priority::Low <==> s.cycle_priority(date, idx).task(
            date,
            idx,
        ).priority == Priority::High,
        s.task(date, idx).repeat is None <==> s.cycle_repeat(date, idx).task(date, idx).repeat
            == Some(Repeat::Daily),
        s.task(date, idx).repeat == Some(Repeat::Daily) <==> s.cycle_repeat(date, idx).task(
            date,
            idx,
        ).repeat == Some(Repeat::Weekdays),
        s.task(date, idx).repeat == Some(Repeat::Weekdays) <==> s.cycle_repeat(date, idx).task(
            date,
            idx,
        ).repeat == Some(Repeat::Weekly),
        s.task(date, idx).repeat == Some(Repeat::Weekly) <==> s.cycle_repeat(date, idx).task(
            date,
            idx,
        ).repeat == Some(Repeat::Monthly),
{
    let t = s.task(date, idx);
    set_sets_one(s, date, idx, TaskV { priority: t.priority.following(), ..t });
    set_sets_one(s, date, idx, TaskV { repeat: following_repeat(t.repeat), ..t });
}

/// Without a task at that place, no task changes.
pub proof fn without_a_task_nothing_changes(
    s: StoreV,
    date: int,
    idx: int,
    text: Seq<char>,
    remind: Option<int>,
    day: int,
)
    requires
        ordered(s.days),
        0 <= idx,
        !s.has(date, idx),
    ensures
        same_tasks(s, s.edit(date, idx, text)),
        same_tasks(s, s.set_note(date, idx, text)),
        same_tasks(s, s.set_reminder(date, idx, remind)),
        same_tasks(s, s.cycle_priority(date, idx)),
        same_tasks(s, s.cycle_repeat(date, idx)),
        same_tasks(s, s.toggle_hidden(date, idx)),
        same_tasks(s, s.toggle(date, idx, day)),
        same_tasks(s, s.remove(date, idx)),
        same_tasks(s, s.move_task(date, idx, day)),
        s.toggle_next(date, idx, day) is None,
        s.move_task_index(date, idx, day) is None,
{
    let t = s.task(date, idx);
    set_sets_one(s, date, idx, TaskV { text, ..t });
    set_sets_one(s, date, idx, TaskV { note: kept_note(text), ..t });
    set_sets_one(s, date, idx, TaskV { remind, ..t });
    set_sets_one(s, date, idx, TaskV { priority: t.priority.following(), ..t });
    set_sets_one(s, date, idx, TaskV { repeat: following_repeat(t.repeat), ..t });
    set_sets_one(s, date, idx, TaskV { hidden: !t.hidden, ..t });
    set_sets_one(s, date, idx, s.flipped(date, idx, day));
}

/// A new task is put at the end of its day: open, plain, written down that day, with the next
/// number, and without completion, reminder, note, repeat setting or mask.
pub proof fn add_puts_an_open_task_last(s: StoreV, date: int, text: Seq<char>)
    requires
        ordered(s.days),
    ensures
        s.add(date, text).on(date).len() == s.on(date).len() + 1,
        forall|i: int|
            0 <= i < s.on(date).len() ==> #[trigger] s.add(date, text).on(date)[i] == s.on(date)[i],
        s.add(date, text).on(date).last().text == text,
        s.add(date, text).on(date).last().id == s.next_id,
        s.add(date, text).on(date).last().created == date,
        !s.add(date, text).on(date).last().done,
        !s.add(date, text).on(date).last().hidden,
        s.add(date, text).on(date).last().priority == Priority::Plain,
        s.add(date, text).on(date).last().completed is None,
        s.add(date, text).on(date).last().remind is None,
        s.add(date, text).on(date).last().note is None,
        s.add(date, text).on(date).last().repeat is None,
        forall|d: int| d != date ==> #[trigger] s.add(date, text).on(d) == s.on(d),
        s.add(date, text).next_id == s.next_id + 1,
        s.add(date, text).version == s.version,
{
    let tasks = s.on(date).push(new_task(s.next_id, text, date));
    with_tasks_facts(s.days, date, tasks);
    let b = s.add(date, text);
    assert(b.days == with_tasks(s.days, date, tasks));
    assert forall|d: int| d != date implies #[trigger] b.on(d) == s.on(d) by {
        assert(tasks_on(with_tasks(s.days, date, tasks), d) == tasks_on(s.days, d));
    }
}

/// A removed task is gone, those behind it move up, and the other days stay as they are.
pub proof fn remove_takes_one_task(s: StoreV, date: int, idx: int)
    requires
        ordered(s.days),
        s.has(date, idx),
    ensures
        s.remove(date, idx).on(date).len() == s.on(date).len() - 1,
        forall|i: int|
            0 <= i < idx ==> #[trigger] s.remove(date, idx).on(date)[i] == s.on(date)[i],
        forall|i: int|
            idx <= i < s.on(date).len() - 1 ==> #[trigger] s.remove(date, idx).on(date)[i] == s.on(
                date,
            )[i + 1],
        forall|d: int| d != date ==> #[trigger] s.remove(date, idx).on(d) == s.on(d),
        s.remove(date, idx).next_id == s.next_id,
        s.remove(date, idx).version == s.version,
{
    let tasks = s.on(date).remove(idx);
    with_tasks_facts(s.days, date, tasks);
    let b = s.remove(date, idx);
    assert(b.days == with_tasks(s.days, date, tasks));
    assert forall|d: int| d != date implies #[trigger] b.on(d) == s.on(d) by {
        assert(tasks_on(with_tasks(s.days, date, tasks), d) == tasks_on(s.days, d));
    }
}

/// A task is put in at its place, or at the end where there are fewer; those behind it move down,
/// and the other days stay as they are.
pub proof fn insert_puts_in_one_task(s: StoreV, date: int, idx: int, t: TaskV)
    requires
        ordered(s.days),
        0 <= idx,
    ensures
        s.insert(date, idx, t).on(date).len() == s.on(date).len() + 1,
        idx <= s.on(date).len() ==> s.insert(date, idx, t).on(date)[idx] == t,
        idx > s.on(date).len() ==> s.insert(date, idx, t).on(date).last() == t,
        forall|i: int|
            0 <= i < s.on(date).len() && i < idx ==> #[trigger] s.insert(date, idx, t).on(date)[i]
                == s.on(date)[i],
        forall|i: int|
            idx < i <= s.on(date).len() ==> #[trigger] s.insert(date, idx, t).on(date)[i] == s.on(
                date,
            )[i - 1],
        forall|d: int| d != date ==> #[trigger] s.insert(date, idx, t).on(d) == s.on(d),
        s.insert(date, idx, t).next_id == s.next_id,
        s.insert(date, idx, t).version == s.version,
{
    let tasks = s.on(date).insert(clamped(idx, s.on(date).len()), t);
    with_tasks_facts(s.days, date, tasks);
    let b = s.insert(date, idx, t);
    assert(b.days == with_tasks(s.days, date, tasks));
    assert forall|d: int| d != date implies #[trigger] b.on(d) == s.on(d) by {
        assert(tasks_on(with_tasks(s.days, date, tasks), d) == tasks_on(s.days, d));
    }
}

/// Moving a task up or down changes places with its neighbour. At the end of the page nothing moves.
pub proof fn neighbours_change_places(s: StoreV, date: int, idx: int)
    requires
        ordered(s.days),
        s.has(date, idx),
    ensures
        forall|d: int| d != date ==> #[trigger] s.move_up(date, idx).on(d) == s.on(d),
        forall|d: int| d != date ==> #[trigger] s.move_down(date, idx).on(d) == s.on(d),
        s.move_up(date, idx).on(date).len() == s.on(date).len(),
        s.move_down(date, idx).on(date).len() == s.on(date).len(),
        idx > 0 ==> s.move_up(date, idx).task(date, idx - 1) == s.task(date, idx) && s.move_up(
            date,
            idx,
        ).task(date, idx) == s.task(date, idx - 1),
        idx + 1 < s.on(date).len() ==> s.move_down(date, idx).task(date, idx + 1) == s.task(
            date,
            idx,
        ) && s.move_down(date, idx).task(date, idx) == s.task(date, idx + 1),
        forall|i: int|
            0 <= i < s.on(date).len() && i != idx && (i != idx - 1) ==> #[trigger] s.move_up(
                date,
                idx,
            ).on(date)[i] == s.on(date)[i],
        forall|i: int|
            0 <= i < s.on(date).len() && i != idx && i != idx + 1 ==> #[trigger] s.move_down(
                date,
                idx,
            ).on(date)[i] == s.on(date)[i],
        idx == 0 ==> same_tasks(s, s.move_up(date, idx)),
        idx + 1 == s.on(date).len() ==> same_tasks(s, s.move_down(date, idx)),
        s.move_up(date, idx).next_id == s.next_id,
        s.move_down(date, idx).next_id == s.next_id,
{
    let up = swapped(s.on(date), idx, idx - 1);
    let down = swapped(s.on(date), idx, idx + 1);
    with_tasks_facts(s.days, date, up);
    with_tasks_facts(s.days, date, down);
    let (a, b) = (s.move_up(date, idx), s.move_down(date, idx));
    assert forall|d: int| d != date implies #[trigger] a.on(d) == s.on(d) by {
        assert(tasks_on(with_tasks(s.days, date, up), d) == tasks_on(s.days, d));
        assert(tasks_on(with_page(s.days, date), d) == tasks_on(s.days, d));
    }
    assert forall|d: int| d != date implies #[trigger] b.on(d) == s.on(d) by {
        assert(tasks_on(with_tasks(s.days, date, down), d) == tasks_on(s.days, d));
        assert(tasks_on(with_page(s.days, date), d) == tasks_on(s.days, d));
    }
}

/// A task that is moved to another day stands last there, as it was, under the index that is told;
/// it is gone from its own day, and all other tasks keep their days and their order.
pub proof fn move_task_puts_it_last(s: StoreV, from: int, idx: int, to: int)
    requires
        ordered(s.days),
        s.has(from, idx),
        from != to,
    ensures
        s.move_task(from, idx, to).on(to).len() == s.on(to).len() + 1,
        s.move_task(from, idx, to).on(to).last() == s.task(from, idx),
        s.move_task_index(from, idx, to) == Some(s.on(to).len() as int),
        forall|i: int|
            0 <= i < s.on(to).len() ==> #[trigger] s.move_task(from, idx, to).on(to)[i] == s.on(
                to,
            )[i],
        s.move_task(from, idx, to).on(from).len() == s.on(from).len() - 1,
        forall|i: int|
            0 <= i < idx ==> #[trigger] s.move_task(from, idx, to).on(from)[i] == s.on(from)[i],
        forall|i: int|
            idx <= i < s.on(from).len() - 1 ==> #[trigger] s.move_task(from, idx, to).on(from)[i]
                == s.on(from)[i + 1],
        forall|d: int|
            d != from && d != to ==> #[trigger] s.move_task(from, idx, to).on(d) == s.on(d),
        s.move_task(from, idx, to).next_id == s.next_id,
        s.move_task(from, idx, to).version == s.version,
{
    move_task_moves_one_task(s, from, idx, to);
    remove_takes_one_task(s, from, idx);
    with_tasks_facts(s.days, from, s.on(from).remove(idx));
    pruned_facts(s.remove(from, idx).days);
    assert(tasks_on(pruned(s.remove(from, idx).days), to) == tasks_on(s.remove(from, idx).days, to));
}

/// Pruning drops pages without tasks, and no others.
pub proof fn prune_drops_empty_pages(s: StoreV)
    requires
        ordered(s.days),
    ensures
        same_tasks(s, s.prune()),
        forall|p: int| 0 <= p < s.prune().days.len() ==> (#[trigger] s.prune().days[p]).tasks.len() > 0,
{
    pruned_facts(s.days);
    assert forall|d: int| #[trigger] s.prune().on(d) == s.on(d) by {
        assert(tasks_on(pruned(s.days), d) == tasks_on(s.days, d));
    }
}

// --- completing ----------------------------------------------------------------

/// Completing a task that does not repeat marks it done and records the day; opening it again takes
/// both back. Nothing else changes.
pub proof fn toggle_flips_one_task(s: StoreV, date: int, idx: int, on: int)
    requires
        ordered(s.days),
        s.has(date, idx),
        s.task(date, idx).repeat is None,
    ensures
        same_but_one(s, s.toggle(date, idx, on), date, idx),
        !s.task(date, idx).done ==> s.toggle(date, idx, on).task(date, idx) == (TaskV {
            done: true,
            completed: Some(on),
            ..s.task(date, idx)
        }),
        s.task(date, idx).done ==> s.toggle(date, idx, on).task(date, idx) == (TaskV {
            done: false,
            completed: None,
            ..s.task(date, idx)
        }),
        s.toggle_next(date, idx, on) is None,
{
    set_sets_one(s, date, idx, s.flipped(date, idx, on));
}

/// Whether an open task with that text and repeat setting stands at position `j` of page `q`, on day
/// `from` or later.
pub open spec fn open_like_at(
    s: StoreV,
    text: Seq<char>,
    repeat: Option<Repeat>,
    from: int,
    q: int,
    j: int,
) -> bool {
    0 <= q < s.days.len() && s.days[q].date >= from && 0 <= j < s.days[q].tasks.len()
        && !s.days[q].tasks[j].done && s.days[q].tasks[j].text == text && s.days[q].tasks[j].repeat
        == repeat
}

/// Completing a repeating task marks it done and records the day. Where no open task with its text
/// and repeat setting is listed on its next day or later, an open copy of it is put at the end of
/// that day: with the next number, written down on that day, and like the task in all else. Where
/// one is listed, nothing more happens. Either way the day is told.
pub proof fn completing_brings_it_back(s: StoreV, date: int, idx: int, on: int)
    requires
        ordered(s.days),
        s.has(date, idx),
        !s.task(date, idx).done,
        s.task(date, idx).repeat is Some,
    ensures
        ({
            let t = s.task(date, idx);
            let next = t.repeat->Some_0.next_day(date);
            let after = s.toggle(date, idx, on);
            &&& s.toggle_next(date, idx, on) == Some(next)
            &&& after.task(date, idx) == (TaskV { done: true, completed: Some(on), ..t })
            &&& (forall|q: int, j: int| !open_like_at(s, t.text, t.repeat, next, q, j)) ==> {
                &&& after.next_id == s.next_id + 1
                &&& after.on(next) == s.on(next).push(
                    TaskV { id: s.next_id, done: false, completed: None, created: next, ..t },
                )
                &&& after.on(date) == s.on(date).update(idx, after.task(date, idx))
                &&& forall|d: int| d != date && d != next ==> #[trigger] after.on(d) == s.on(d)
            }
            &&& (exists|q: int, j: int| open_like_at(s, t.text, t.repeat, next, q, j))
                ==> same_but_one(s, after, date, idx)
        }),
{
    let t = s.task(date, idx);
    let next = t.repeat->Some_0.next_day(date);
    let done = s.flipped(date, idx, on);
    let flipped = s.set(date, idx, done);
    next_day_is_later(t.repeat->Some_0, date);
    set_sets_one(s, date, idx, done);
    occurrence_on_facts(flipped.days, done, next, 0);
    later_pages_stay(s, date, idx, done);
    if occurrence_on(flipped.days, done, next, 0) is None {
        completing_spawns_one_copy(flipped, done, next);
        assert forall|q: int, j: int| !open_like_at(s, t.text, t.repeat, next, q, j) by {
            if open_like_at(s, t.text, t.repeat, next, q, j) {
                assert(flipped.days[q] == s.days[q]);
                assert(is_occurrence(flipped.days[q].tasks[j], done));
            }
        }
        let copy = TaskV {
            id: flipped.next_id,
            done: false,
            completed: None,
            created: next,
            ..done
        };
        assert(flipped.on(next) == s.on(next));
        assert(copy == (TaskV { id: s.next_id, done: false, completed: None, created: next, ..t }));
        assert forall|d: int| d != date && d != next implies #[trigger] s.toggle(
            date,
            idx,
            on,
        ).on(d) == s.on(d) by {
            assert(flipped.spawn(done, next).on(d) == flipped.on(d));
        }
        assert(flipped.spawn(done, next).on(date) == flipped.on(date));
    } else {
        let (q, j) = occurrence_on(flipped.days, done, next, 0)->Some_0;
        assert(is_occurrence(flipped.days[q].tasks[j], done));
        assert(flipped.days[q] == s.days[q]);
        assert(open_like_at(s, t.text, t.repeat, next, q, j));
    }
}

/// Setting a task leaves the pages of later days as they are.
proof fn later_pages_stay(s: StoreV, date: int, idx: int, t: TaskV)
    requires
        ordered(s.days),
        s.has(date, idx),
    ensures
        s.set(date, idx, t).days.len() == s.days.len(),
        forall|q: int|
            0 <= q < s.days.len() && s.days[q].date != date ==> #[trigger] s.set(
                date,
                idx,
                t,
            ).days[q] == s.days[q],
        forall|q: int|
            0 <= q < s.days.len() ==> (#[trigger] s.set(date, idx, t).days[q]).date
                == s.days[q].date,
{
    place_facts(s.days, date, 0);
}

/// Opening a repeating task again marks it open and takes its day of completion back. The first open
/// task with its text and repeat setting on its next day or later is then removed, but only where it
/// has the task's priority, reminder, note and mask. Nothing else changes.
pub proof fn uncompleting_takes_the_copy_back(s: StoreV, date: int, idx: int, on: int, q: int, j: int)
    requires
        ordered(s.days),
        s.has(date, idx),
        s.task(date, idx).done,
        s.task(date, idx).repeat is Some,
    ensures
        ({
            let t = s.task(date, idx);
            let next = t.repeat->Some_0.next_day(date);
            let after = s.toggle(date, idx, on);
            let copy = s.days[q].tasks[j];
            &&& s.toggle_next(date, idx, on) is None
            &&& after.next_id == s.next_id
            &&& after.on(date) == s.on(date).update(
                idx,
                TaskV { done: false, completed: None, ..t },
            )
            &&& (forall|p: int, i: int| !open_like_at(s, t.text, t.repeat, next, p, i))
                ==> same_but_one(s, after, date, idx)
            &&& open_like_at(s, t.text, t.repeat, next, q, j) && (forall|p: int, i: int|
                open_like_at(s, t.text, t.repeat, next, p, i) ==> q < p || (q == p && j <= i)) ==> {
                if copy.priority == t.priority && copy.remind == t.remind && copy.note == t.note
                    && copy.hidden == t.hidden {
                    &&& after.on(s.days[q].date) == s.days[q].tasks.remove(j)
                    &&& forall|d: int|
                        d != date && d != s.days[q].date ==> #[trigger] after.on(d) == s.on(d)
                } else {
                    same_but_one(s, after, date, idx)
                }
            }
        }),
{
    let t = s.task(date, idx);
    let next = t.repeat->Some_0.next_day(date);
    let open = s.flipped(date, idx, on);
    let flipped = s.set(date, idx, open);
    next_day_is_later(t.repeat->Some_0, date);
    set_sets_one(s, date, idx, open);
    occurrence_on_facts(flipped.days, open, next, 0);
    later_pages_stay(s, date, idx, open);
    let after = s.toggle(date, idx, on);
    match occurrence_on(flipped.days, open, next, 0) {
        None => {
            if open_like_at(s, t.text, t.repeat, next, q, j) {
                assert(flipped.days[q] == s.days[q]);
                assert(is_occurrence(flipped.days[q].tasks[j], open));
            }
        },
        Some((p, pos)) => {
            assert(flipped.days[p] == s.days[p]);
            assert(open_like_at(s, t.text, t.repeat, next, p, pos));
            let less = s.days[p].tasks.remove(pos);
            let gone = flipped.days.update(p, PageV { date: s.days[p].date, tasks: less });
            has_page_at(flipped.days, s.days[p].date, p);
            with_tasks_facts(flipped.days, s.days[p].date, less);
            assert(gone =~= with_tasks(flipped.days, s.days[p].date, less));
            pruned_facts(gone);
            if pristine(flipped.days[p].tasks[pos], open) {
                assert(after.days == pruned(gone));
                assert forall|d: int| #[trigger] after.on(d) == (if d == s.days[p].date {
                    less
                } else {
                    flipped.on(d)
                }) by {
                    assert(tasks_on(pruned(gone), d) == tasks_on(gone, d));
                }
            }
            if open_like_at(s, t.text, t.repeat, next, q, j) && (forall|p: int, i: int|
                open_like_at(s, t.text, t.repeat, next, p, i) ==> q < p || (q == p && j <= i)) {
                assert forall|i: int, k: int|
                    0 <= i < q && flipped.days[i].date >= next && 0 <= k
                        < flipped.days[i].tasks.len() implies !is_occurrence(
                    #[trigger] flipped.days[i].tasks[k],
                    open,
                ) by {
                    assert(flipped.days[i] == s.days[i]);
                    assert(!open_like_at(s, t.text, t.repeat, next, i, k));
                }
                assert(flipped.days[q] == s.days[q]);
                assert forall|k: int| 0 <= k < j implies !is_occurrence(
                    #[trigger] flipped.days[q].tasks[k],
                    open,
                ) by {
                    assert(!open_like_at(s, t.text, t.repeat, next, q, k));
                }
                occurrence_on_is(flipped.days, open, next, 0, q, j);
            }
        },
    }
}

/// A task can be completed where its next day can be represented, which is so but for the last month
/// of all.
pub proof fn next_days_can_be_represented(repeat: Repeat, n: int)
    requires
        MIN_DAY <= n,
        n + 31 <= MAX_DAY,
    ensures
        repeat.next_in_range(n),
        MIN_DAY <= repeat.next_day(n) <= MAX_DAY,
{
    next_day_is_later(repeat, n);
    every_day_has_a_date(n);
    the_next_month_can_be_represented(civil(n), n);
    other_repeats_are_the_next_such_day(n);
}

/// Completing a task makes a copy where it is open, repeats, and no open task with its text and
/// repeat setting is listed on its next day or later; only then a number is needed for it.
pub proof fn a_copy_is_made_where_none_is_listed(s: StoreV, date: int, idx: int)
    requires
        s.has(date, idx),
        s.task(date, idx).repeat is Some,
    ensures
        s.toggle_spawns(date, idx) <==> !s.task(date, idx).done && forall|q: int, j: int|
            !open_like_at(
                s,
                s.task(date, idx).text,
                s.task(date, idx).repeat,
                s.task(date, idx).repeat->Some_0.next_day(date),
                q,
                j,
            ),
        s.next_id < u64::MAX ==> s.toggle_numbered(date, idx),
        s.task(date, idx).done ==> s.toggle_numbered(date, idx),
{
    let t = s.task(date, idx);
    let next = t.repeat->Some_0.next_day(date);
    occurrence_on_facts(s.days, t, next, 0);
    if occurrence_on(s.days, t, next, 0) is Some {
        let (q, j) = occurrence_on(s.days, t, next, 0)->Some_0;
        assert(open_like_at(s, t.text, t.repeat, next, q, j));
    } else {
        assert forall|q: int, j: int| !open_like_at(s, t.text, t.repeat, next, q, j) by {
            if open_like_at(s, t.text, t.repeat, next, q, j) {
                assert(is_occurrence(s.days[q].tasks[j], t));
            }
        }
    }
}

/// A day holds the tasks of its page, and none where it has no page. An empty store has no tasks and
/// gives the first task the number one.
pub proof fn a_day_holds_its_page(s: StoreV, date: int)
    requires
        ordered(s.days),
    ensures
        forall|p: int|
            0 <= p < s.days.len() && (#[trigger] s.days[p]).date == date ==> s.on(date)
                == s.days[p].tasks,
        (forall|p: int| 0 <= p < s.days.len() ==> (#[trigger] s.days[p]).date != date) ==> s.on(
            date,
        ).len() == 0,
        StoreV::empty().on(date).len() == 0,
        StoreV::empty().days.len() == 0,
        StoreV::empty().next_id == 1,
{
    assert forall|p: int| 0 <= p < s.days.len() && (#[trigger] s.days[p]).date == date implies s.on(
        date,
    ) == s.days[p].tasks by {
        has_page_at(s.days, date, p);
    }
    place_facts(s.days, date, 0);
}

/// As many tasks are carried over as there are open ones on the pages of the past.
pub proof fn open_tasks_of_the_past_are_counted(pages: Seq<PageV>, today: int)
    ensures
        carried(pages, today).len() == ahead(pages, is_past(today), is_open(), pages.len() as int),
{
    carried_is_gathered(pages, today);
    gathered_places(pages, is_past(today), is_open());
}

} // verus!
