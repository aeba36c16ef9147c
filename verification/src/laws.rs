//! What holds of the list of tasks as a whole, whatever is done to it.

use vstd::prelude::*;

use crate::count::{
    count, count_add, count_carried, count_in, count_in_pruned, count_in_update, count_in_with_page,
    count_in_with_tasks, count_insert, count_push, count_remove, count_update, one_if,
};
use crate::date_laws::next_day_is_later;
use crate::model::{
    clamped, is_occurrence, new_task, occurrence_from, occurrence_on, pristine, swapped, StoreV,
};
use crate::pages::{
    carried, finished, has_page, has_page_at, left_behind, ordered, pages_are_what_they_hold, place,
    place_facts, place_is, pruned, pruned_facts, tasks_on, unfinished, with_page, with_tasks,
    with_tasks_facts, PageV,
};
use crate::task::TaskV;

verus! {

// --- carrying over -------------------------------------------------------------

/// What is left behind stands on the same pages.
proof fn left_behind_facts(pages: Seq<PageV>, today: int)
    requires
        ordered(pages),
    ensures
        ordered(left_behind(pages, today)),
        forall|date: int| #[trigger]
            tasks_on(left_behind(pages, today), date) == (if date < today {
                finished(tasks_on(pages, date))
            } else {
                tasks_on(pages, date)
            }),
{
    let left = left_behind(pages, today);
    assert forall|date: int| #[trigger]
        tasks_on(left, date) == (if date < today {
            finished(tasks_on(pages, date))
        } else {
            tasks_on(pages, date)
        }) by {
        place_facts(pages, date, 0);
        let p = place(pages, date);
        assert forall|j: int| 0 <= j < p implies left[j].date < date by {
            assert(pages[j].date < date);
        }
        place_is(left, date, 0, p);
        assert(finished(Seq::<TaskV>::empty()) =~= Seq::<TaskV>::empty()) by {
            reveal(Seq::filter);
        }
    }
}

/// Carrying over leaves the past with what was completed, puts the unfinished tasks of the past,
/// oldest day first and in their order, before what `today` already held, and leaves the future
/// alone.
pub proof fn carry_over_moves_the_unfinished_past(s: StoreV, today: int)
    requires
        ordered(s.days),
    ensures
        ordered(s.carry_over(today).days),
        s.carry_over(today).next_id == s.next_id,
        forall|date: int|
            date < today ==> #[trigger] s.carry_over(today).on(date) == finished(s.on(date)),
        s.carry_over(today).on(today) == carried(s.days, today) + s.on(today),
        forall|date: int| date > today ==> #[trigger] s.carry_over(today).on(date) == s.on(date),
        forall|date: int|
            #![trigger has_page(s.carry_over(today).days, date)]
            has_page(s.carry_over(today).days, date) <==> s.carry_over(today).on(date).len() > 0,
{
    left_behind_facts(s.days, today);
    let left = left_behind(s.days, today);
    let moved = carried(s.days, today);
    let filled = if moved.len() > 0 {
        with_tasks(left, today, moved + tasks_on(left, today))
    } else {
        left
    };
    with_tasks_facts(left, today, moved + tasks_on(left, today));
    assert(moved.len() == 0 ==> moved + s.on(today) =~= s.on(today));
    pruned_facts(filled);
    assert(s.carry_over(today).days == pruned(filled));
    assert forall|date: int| date < today implies #[trigger] s.carry_over(today).on(date)
        == finished(s.on(date)) by {
        assert(tasks_on(pruned(filled), date) == tasks_on(filled, date));
        assert(tasks_on(filled, date) == tasks_on(left, date));
    }
    assert forall|date: int| date > today implies #[trigger] s.carry_over(today).on(date) == s.on(
        date,
    ) by {
        assert(tasks_on(pruned(filled), date) == tasks_on(filled, date));
        assert(tasks_on(filled, date) == tasks_on(left, date));
    }
    assert(tasks_on(pruned(filled), today) == tasks_on(filled, today));
    assert forall|date: int|
        #![trigger has_page(s.carry_over(today).days, date)]
        has_page(s.carry_over(today).days, date) <==> s.carry_over(today).on(date).len() > 0 by {
        assert(has_page(pruned(filled), date) <==> tasks_on(filled, date).len() > 0);
        assert(tasks_on(pruned(filled), date) == tasks_on(filled, date));
    }
}

/// Done tasks are all finished, and none of them is unfinished.
proof fn all_done_parts(tasks: Seq<TaskV>)
    requires
        forall|i: int| 0 <= i < tasks.len() ==> (#[trigger] tasks[i]).done,
    ensures
        finished(tasks) == tasks,
        unfinished(tasks) == Seq::<TaskV>::empty(),
    decreases tasks.len(),
{
    reveal(Seq::filter);
    if tasks.len() > 0 {
        let rest = tasks.drop_last();
        assert forall|i: int| 0 <= i < rest.len() implies (#[trigger] rest[i]).done by {
            assert(rest[i] == tasks[i]);
        }
        all_done_parts(rest);
        assert(tasks[tasks.len() - 1].done);
        assert(rest.push(tasks.last()) =~= tasks);
    } else {
        assert(finished(tasks) =~= tasks);
    }
}

/// What is finished is done.
proof fn finished_done(tasks: Seq<TaskV>)
    ensures
        forall|i: int| 0 <= i < finished(tasks).len() ==> (#[trigger] finished(tasks)[i]).done,
    decreases tasks.len(),
{
    reveal(Seq::filter);
    if tasks.len() > 0 {
        finished_done(tasks.drop_last());
    }
}

/// Where the past is done, there is nothing to carry over.
proof fn nothing_to_carry(pages: Seq<PageV>, today: int)
    requires
        forall|i: int, j: int|
            0 <= i < pages.len() && pages[i].date < today && 0 <= j < pages[i].tasks.len()
                ==> (#[trigger] pages[i].tasks[j]).done,
    ensures
        carried(pages, today) == Seq::<TaskV>::empty(),
        left_behind(pages, today) == pages,
    decreases pages.len(),
{
    let left = left_behind(pages, today);
    assert forall|i: int| 0 <= i < pages.len() implies #[trigger] left[i] == pages[i] by {
        if pages[i].date < today {
            all_done_parts(pages[i].tasks);
        }
    }
    assert(left =~= pages);
    if pages.len() > 0 {
        let rest = pages.drop_last();
        assert forall|i: int, j: int|
            0 <= i < rest.len() && rest[i].date < today && 0 <= j
                < rest[i].tasks.len() implies (#[trigger] rest[i].tasks[j]).done by {
            assert(pages[i].tasks[j].done);
        }
        nothing_to_carry(rest, today);
        if pages.last().date < today {
            all_done_parts(pages[pages.len() - 1].tasks);
            assert(carried(pages, today) =~= Seq::<TaskV>::empty());
        }
    }
}

/// Pages that all hold tasks are kept.
proof fn pruned_same(pages: Seq<PageV>)
    requires
        forall|i: int| 0 <= i < pages.len() ==> (#[trigger] pages[i]).tasks.len() > 0,
    ensures
        pruned(pages) == pages,
    decreases pages.len(),
{
    if pages.len() > 0 {
        let rest = pages.drop_last();
        assert forall|i: int| 0 <= i < rest.len() implies (#[trigger] rest[i]).tasks.len() > 0 by {
            assert(rest[i] == pages[i]);
        }
        pruned_same(rest);
        assert(pages[pages.len() - 1].tasks.len() > 0);
        assert(rest.push(pages.last()) =~= pages);
    } else {
        assert(pruned(pages) =~= pages);
    }
}

/// Carrying over a second time on the same day moves nothing and changes nothing.
pub proof fn carry_over_again_is_a_no_op(s: StoreV, today: int)
    requires
        ordered(s.days),
    ensures
        carried(s.carry_over(today).days, today).len() == 0,
        s.carry_over(today).carry_over(today) == s.carry_over(today),
{
    carry_over_moves_the_unfinished_past(s, today);
    let once = s.carry_over(today);
    let pages = once.days;
    assert forall|i: int, j: int|
        0 <= i < pages.len() && pages[i].date < today && 0 <= j
            < pages[i].tasks.len() implies (#[trigger] pages[i].tasks[j]).done by {
        has_page_at(pages, pages[i].date, i);
        assert(once.on(pages[i].date) == finished(s.on(pages[i].date)));
        finished_done(s.on(pages[i].date));
    }
    nothing_to_carry(pages, today);
    assert forall|i: int| 0 <= i < pages.len() implies (#[trigger] pages[i]).tasks.len() > 0 by {
        has_page_at(pages, pages[i].date, i);
        assert(has_page(once.days, pages[i].date));
    }
    pruned_same(pages);
    assert(once.with_days(pages) == once);
}

/// Carrying over neither drops nor doubles nor changes a task: of every kind there are as many as
/// before.
pub proof fn carry_over_keeps_every_task(s: StoreV, today: int, kind: spec_fn(TaskV) -> bool)
    requires
        ordered(s.days),
    ensures
        count_in(s.carry_over(today).days, kind) == count_in(s.days, kind),
{
    let left = left_behind(s.days, today);
    let moved = carried(s.days, today);
    count_carried(s.days, today, kind);
    if moved.len() > 0 {
        let filled = with_tasks(left, today, moved + tasks_on(left, today));
        count_in_with_tasks(left, today, moved + tasks_on(left, today), kind);
        count_add(moved, tasks_on(left, today), kind);
        count_in_pruned(filled, kind);
    } else {
        count_in_pruned(left, kind);
    }
}

// --- numbers of tasks ----------------------------------------------------------

/// The kind of task that has a given number.
pub open spec fn with_id(id: int) -> spec_fn(TaskV) -> bool {
    |t: TaskV| t.id == id
}

impl StoreV {
    /// No two tasks have the same number, and the next number to be given is above all of them.
    pub open spec fn numbered(self) -> bool {
        forall|id: int| #[trigger]
            count_in(self.days, with_id(id)) <= one_if(id < self.next_id)
    }
}

/// The empty store is numbered.
pub proof fn empty_is_numbered()
    ensures
        StoreV::empty().numbered(),
{
}

/// Whether the tasks of `b` have numbers that they had in `a`, none more often than there, or
/// numbers that were given since, each of those once.
pub open spec fn keeps_numbers(a: StoreV, b: StoreV) -> bool {
    &&& a.next_id <= b.next_id
    &&& forall|id: int| #[trigger]
        count_in(b.days, with_id(id)) <= count_in(a.days, with_id(id)) + one_if(
            a.next_id <= id < b.next_id,
        )
}

/// What keeps the numbers of a numbered store is numbered.
pub proof fn what_keeps_numbers_is_numbered(a: StoreV, b: StoreV)
    requires
        a.numbered(),
        keeps_numbers(a, b),
    ensures
        b.numbered(),
{
    assert forall|id: int| #[trigger]
        count_in(b.days, with_id(id)) <= one_if(id < b.next_id) by {
        assert(count_in(a.days, with_id(id)) <= one_if(id < a.next_id));
    }
}

/// Numbers that are kept twice are kept.
proof fn keeps_numbers_twice(a: StoreV, b: StoreV, c: StoreV)
    requires
        keeps_numbers(a, b),
        keeps_numbers(b, c),
    ensures
        keeps_numbers(a, c),
{
    assert forall|id: int| #[trigger]
        count_in(c.days, with_id(id)) <= count_in(a.days, with_id(id)) + one_if(
            a.next_id <= id < c.next_id,
        ) by {
        assert(count_in(b.days, with_id(id)) <= count_in(a.days, with_id(id)) + one_if(
            a.next_id <= id < b.next_id,
        ));
    }
}

/// Setting a task that keeps its number keeps the numbers.
proof fn set_keeps_numbers(s: StoreV, date: int, idx: int, t: TaskV)
    requires
        0 <= idx,
        s.has(date, idx) ==> t.id == s.task(date, idx).id,
    ensures
        keeps_numbers(s, s.set(date, idx, t)),
{
    let after = s.set(date, idx, t);
    assert forall|id: int| #[trigger]
        count_in(after.days, with_id(id)) <= count_in(s.days, with_id(id)) + one_if(
            s.next_id <= id < after.next_id,
        ) by {
        if s.has(date, idx) {
            let tasks = s.on(date).update(idx, t);
            count_in_with_tasks(s.days, date, tasks, with_id(id));
            count_update(s.on(date), idx, t, with_id(id));
        } else {
            count_in_with_page(s.days, date, with_id(id));
        }
    }
}

/// Other tasks on one page keep the numbers where each number occurs on that page as often as
/// before, but for the next number, which may be used once.
proof fn with_tasks_keeps_numbers(s: StoreV, date: int, tasks: Seq<TaskV>, fresh: bool)
    requires
        forall|id: int| #[trigger]
            count(tasks, with_id(id)) <= count(s.on(date), with_id(id)) + one_if(
                fresh && id == s.next_id,
            ),
    ensures
        keeps_numbers(
            s,
            (StoreV {
                next_id: s.next_id + one_if(fresh),
                days: with_tasks(s.days, date, tasks),
                ..s
            }),
        ),
{
    let after = StoreV {
        next_id: s.next_id + one_if(fresh),
        days: with_tasks(s.days, date, tasks),
        ..s
    };
    assert forall|id: int| #[trigger]
        count_in(after.days, with_id(id)) <= count_in(s.days, with_id(id)) + one_if(
            s.next_id <= id < after.next_id,
        ) by {
        count_in_with_tasks(s.days, date, tasks, with_id(id));
        assert(count(tasks, with_id(id)) <= count(s.on(date), with_id(id)) + one_if(
            fresh && id == s.next_id,
        ));
    }
}

/// Dropping empty pages keeps the numbers.
proof fn prune_keeps_numbers(s: StoreV)
    ensures
        keeps_numbers(s, s.prune()),
{
    assert forall|id: int| #[trigger]
        count_in(s.prune().days, with_id(id)) <= count_in(s.days, with_id(id)) + one_if(
            s.next_id <= id < s.prune().next_id,
        ) by {
        count_in_pruned(s.days, with_id(id));
    }
}

/// Adding a task gives it the next number, which no other task of a numbered store has.
pub proof fn add_gives_a_new_number(s: StoreV, date: int, text: Seq<char>)
    ensures
        keeps_numbers(s, s.add(date, text)),
        s.numbered() ==> s.add(date, text).numbered(),
        s.numbered() ==> count_in(s.days, with_id(s.next_id)) == 0,
        s.add(date, text).next_id == s.next_id + 1,
{
    let t = new_task(s.next_id, text, date);
    crate::count::count_in_least(s.days, with_id(s.next_id));
    assert forall|id: int| #[trigger]
        count(s.on(date).push(t), with_id(id)) <= count(s.on(date), with_id(id)) + one_if(
            true && id == s.next_id,
        ) by {
        count_push(s.on(date), t, with_id(id));
    }
    with_tasks_keeps_numbers(s, date, s.on(date).push(t), true);
    if s.numbered() {
        assert(count_in(s.days, with_id(s.next_id)) <= one_if(s.next_id < s.next_id));
        what_keeps_numbers_is_numbered(s, s.add(date, text));
    }
}

/// Editing a task, its reminder, note, priority, privacy or repeat setting keeps the numbers.
pub proof fn edits_keep_numbers(
    s: StoreV,
    date: int,
    idx: int,
    text: Seq<char>,
    remind: Option<int>,
)
    requires
        0 <= idx,
    ensures
        keeps_numbers(s, s.edit(date, idx, text)),
        keeps_numbers(s, s.set_note(date, idx, text)),
        keeps_numbers(s, s.set_reminder(date, idx, remind)),
        keeps_numbers(s, s.cycle_priority(date, idx)),
        keeps_numbers(s, s.toggle_hidden(date, idx)),
        keeps_numbers(s, s.cycle_repeat(date, idx)),
{
    let t = s.task(date, idx);
    set_keeps_numbers(s, date, idx, TaskV { text, ..t });
    set_keeps_numbers(s, date, idx, TaskV { note: crate::model::kept_note(text), ..t });
    set_keeps_numbers(s, date, idx, TaskV { remind, ..t });
    set_keeps_numbers(s, date, idx, TaskV { priority: t.priority.following(), ..t });
    set_keeps_numbers(s, date, idx, TaskV { hidden: !t.hidden, ..t });
    set_keeps_numbers(
        s,
        date,
        idx,
        TaskV { repeat: crate::task::following_repeat(t.repeat), ..t },
    );
}

/// Removing a task keeps the numbers of the others, and frees its own.
pub proof fn remove_frees_a_number(s: StoreV, date: int, idx: int)
    requires
        s.has(date, idx),
    ensures
        keeps_numbers(s, s.remove(date, idx)),
        forall|id: int| #[trigger]
            count_in(s.remove(date, idx).days, with_id(id)) == count_in(s.days, with_id(id))
                - one_if(s.task(date, idx).id == id),
        s.numbered() ==> count_in(
            s.remove(date, idx).days,
            with_id(s.task(date, idx).id),
        ) == 0,
{
    let tasks = s.on(date);
    let t = s.task(date, idx);
    let less = tasks.remove(idx);
    let gone = s.remove(date, idx);
    assert forall|id: int| #[trigger]
        count_in(gone.days, with_id(id)) == count_in(s.days, with_id(id)) - one_if(
            t.id == id,
        ) by {
        count_in_with_tasks(s.days, date, less, with_id(id));
        count_remove(tasks, idx, with_id(id));
    }
    if s.numbered() {
        assert(count_in(s.days, with_id(t.id)) <= one_if(t.id < s.next_id));
        crate::count::count_in_least(gone.days, with_id(t.id));
    }
}

/// Moving and reordering tasks, dropping empty pages and carrying over keep the numbers.
pub proof fn moves_keep_numbers(s: StoreV, date: int, idx: int, to: int)
    requires
        ordered(s.days),
        0 <= idx,
    ensures
        keeps_numbers(s, s.prune()),
        keeps_numbers(s, s.move_task(date, idx, to)),
        keeps_numbers(s, s.move_up(date, idx)),
        keeps_numbers(s, s.move_down(date, idx)),
        keeps_numbers(s, s.carry_over(to)),
{
    let tasks = s.on(date);
    prune_keeps_numbers(s);
    if s.has(date, idx) {
        let t = s.task(date, idx);
        let gone = s.remove(date, idx);
        let rest = gone.prune();
        let after = s.move_task(date, idx, to);
        remove_frees_a_number(s, date, idx);
        assert forall|id: int| #[trigger]
            count_in(after.days, with_id(id)) <= count_in(s.days, with_id(id)) + one_if(
                s.next_id <= id < after.next_id,
            ) by {
            assert(count_in(gone.days, with_id(id)) == count_in(s.days, with_id(id)) - one_if(
                t.id == id,
            ));
            count_in_pruned(gone.days, with_id(id));
            count_in_with_tasks(rest.days, to, rest.on(to).push(t), with_id(id));
            count_push(rest.on(to), t, with_id(id));
        }
    }
    if 0 < idx < tasks.len() {
        swap_keeps_numbers(s, date, idx, idx - 1);
    } else {
        with_page_keeps_numbers(s, date);
    }
    if idx + 1 < tasks.len() {
        swap_keeps_numbers(s, date, idx, idx + 1);
    } else {
        with_page_keeps_numbers(s, date);
    }
    let later = s.carry_over(to);
    assert forall|id: int| #[trigger]
        count_in(later.days, with_id(id)) <= count_in(s.days, with_id(id)) + one_if(
            s.next_id <= id < later.next_id,
        ) by {
        carry_over_keeps_every_task(s, to, with_id(id));
    }
}

/// Swapping two tasks keeps how many there are of each kind.
proof fn count_swapped(tasks: Seq<TaskV>, i: int, j: int, kind: spec_fn(TaskV) -> bool)
    requires
        0 <= i < tasks.len(),
        0 <= j < tasks.len(),
        i != j,
    ensures
        count(swapped(tasks, i, j), kind) == count(tasks, kind),
{
    count_update(tasks, i, tasks[j], kind);
    count_update(tasks.update(i, tasks[j]), j, tasks[i], kind);
}

/// Swapping two tasks keeps the numbers.
proof fn swap_keeps_numbers(s: StoreV, date: int, i: int, j: int)
    requires
        0 <= i < s.on(date).len(),
        0 <= j < s.on(date).len(),
        i != j,
    ensures
        keeps_numbers(s, s.with_days(with_tasks(s.days, date, swapped(s.on(date), i, j)))),
{
    let tasks = swapped(s.on(date), i, j);
    assert forall|id: int| #[trigger]
        count(tasks, with_id(id)) <= count(s.on(date), with_id(id)) + one_if(
            false && id == s.next_id,
        ) by {
        count_swapped(s.on(date), i, j, with_id(id));
    }
    with_tasks_keeps_numbers(s, date, tasks, false);
    let after = s.with_days(with_tasks(s.days, date, tasks));
    assert(after == (StoreV { next_id: s.next_id + one_if(false), days: after.days, ..s }));
}

/// Putting in an empty page keeps the numbers.
proof fn with_page_keeps_numbers(s: StoreV, date: int)
    ensures
        keeps_numbers(s, s.with_days(with_page(s.days, date))),
{
    let after = s.with_days(with_page(s.days, date));
    assert forall|id: int| #[trigger]
        count_in(after.days, with_id(id)) <= count_in(s.days, with_id(id)) + one_if(
            s.next_id <= id < after.next_id,
        ) by {
        count_in_with_page(s.days, date, with_id(id));
    }
}

/// Putting a task back adds its number once; where that is free and was given before, the store
/// stays numbered.
pub proof fn insert_keeps_numbers(s: StoreV, date: int, idx: int, t: TaskV)
    requires
        0 <= idx,
    ensures
        forall|id: int| #[trigger]
            count_in(s.insert(date, idx, t).days, with_id(id)) == count_in(s.days, with_id(id))
                + one_if(t.id == id),
        s.numbered() && t.id < s.next_id && count_in(s.days, with_id(t.id)) == 0 ==> s.insert(
            date,
            idx,
            t,
        ).numbered(),
{
    let after = s.insert(date, idx, t);
    let at = clamped(idx, s.on(date).len());
    assert forall|id: int| #[trigger]
        count_in(after.days, with_id(id)) == count_in(s.days, with_id(id)) + one_if(t.id == id) by {
        count_in_with_tasks(s.days, date, s.on(date).insert(at, t), with_id(id));
        count_insert(s.on(date), at, t, with_id(id));
    }
    if s.numbered() && t.id < s.next_id && count_in(s.days, with_id(t.id)) == 0 {
        assert forall|id: int| #[trigger]
            count_in(after.days, with_id(id)) <= one_if(id < after.next_id) by {
            assert(count_in(s.days, with_id(id)) <= one_if(id < s.next_id));
        }
    }
}

/// The position that `occurrence_on` finds is one of a task like the template.
pub proof fn occurrence_on_facts(pages: Seq<PageV>, template: TaskV, from: int, p: int)
    requires
        0 <= p,
    ensures
        match occurrence_on(pages, template, from, p) {
            Some((q, pos)) => p <= q < pages.len() && pages[q].date >= from && 0 <= pos
                < pages[q].tasks.len() && is_occurrence(pages[q].tasks[pos], template),
            None => forall|q: int, pos: int|
                p <= q < pages.len() && pages[q].date >= from && 0 <= pos < pages[q].tasks.len()
                    ==> !is_occurrence(#[trigger] pages[q].tasks[pos], template),
        },
    decreases pages.len() - p,
{
    if p < pages.len() {
        occurrence_from_facts(pages[p].tasks, template, 0);
        occurrence_on_facts(pages, template, from, p + 1);
    }
}

/// What `occurrence_from` says of the tasks before it and of the one it finds.
proof fn occurrence_from_facts(tasks: Seq<TaskV>, template: TaskV, i: int)
    requires
        0 <= i <= tasks.len(),
    ensures
        i <= occurrence_from(tasks, template, i) <= tasks.len(),
        forall|j: int|
            i <= j < occurrence_from(tasks, template, i) ==> !is_occurrence(
                #[trigger] tasks[j],
                template,
            ),
        occurrence_from(tasks, template, i) < tasks.len() ==> is_occurrence(
            tasks[occurrence_from(tasks, template, i)],
            template,
        ),
    decreases tasks.len() - i,
{
    if i < tasks.len() && !is_occurrence(tasks[i], template) {
        occurrence_from_facts(tasks, template, i + 1);
    }
}

/// Toggling a task, with all that it does to its next occurrence, keeps the numbers: a copy that it
/// makes has the next number.
pub proof fn toggle_keeps_numbers(s: StoreV, date: int, idx: int, on: int)
    requires
        0 <= idx,
    ensures
        keeps_numbers(s, s.toggle(date, idx, on)),
{
    let t = s.flipped(date, idx, on);
    let flipped = s.set(date, idx, t);
    set_keeps_numbers(s, date, idx, t);
    if s.has(date, idx) && t.repeat is Some {
        let next = t.repeat->Some_0.next_day(date);
        if t.done {
            let copy = TaskV {
                id: flipped.next_id,
                done: false,
                completed: None,
                created: next,
                ..t
            };
            let tasks = flipped.on(next).push(copy);
            assert forall|id: int| #[trigger]
                count(tasks, with_id(id)) <= count(flipped.on(next), with_id(id)) + one_if(
                    true && id == flipped.next_id,
                ) by {
                count_push(flipped.on(next), copy, with_id(id));
            }
            with_tasks_keeps_numbers(flipped, next, tasks, true);
            keeps_numbers_twice(
                s,
                flipped,
                StoreV {
                    next_id: flipped.next_id + one_if(true),
                    days: with_tasks(flipped.days, next, tasks),
                    ..flipped
                },
            );
        } else {
            occurrence_on_facts(flipped.days, t, next, 0);
            if let Some((p, pos)) = occurrence_on(flipped.days, t, next, 0) {
                let page = PageV {
                    date: flipped.days[p].date,
                    tasks: flipped.days[p].tasks.remove(pos),
                };
                let less = flipped.with_days(flipped.days.update(p, page));
                assert forall|id: int| #[trigger]
                    count_in(less.days, with_id(id)) <= count_in(flipped.days, with_id(id))
                        + one_if(flipped.next_id <= id < less.next_id) by {
                    count_in_update(flipped.days, p, page, with_id(id));
                    count_remove(flipped.days[p].tasks, pos, with_id(id));
                }
                prune_keeps_numbers(less);
                keeps_numbers_twice(s, flipped, less);
                keeps_numbers_twice(s, less, less.prune());
            }
        }
    }
}

// --- what one call undoes ------------------------------------------------------

/// Setting a task twice is setting it the second time.
proof fn set_twice(s: StoreV, date: int, idx: int, a: TaskV, b: TaskV)
    requires
        ordered(s.days),
        s.has(date, idx),
    ensures
        s.set(date, idx, a).has(date, idx),
        s.set(date, idx, a).task(date, idx) == a,
        ordered(s.set(date, idx, a).days),
        s.set(date, idx, a).set(date, idx, b) == s.set(date, idx, b),
{
    let tasks = s.on(date).update(idx, a);
    with_tasks_facts(s.days, date, tasks);
    with_tasks_facts(s.days, date, s.on(date).update(idx, b));
    place_facts(s.days, date, 0);
    assert(tasks.update(idx, b) =~= s.on(date).update(idx, b));
    let one = s.set(date, idx, a);
    assert(one.on(date) == tasks);
    assert(has_page(one.days, date));
    assert(one.days == s.days.update(place(s.days, date), PageV { date, tasks }));
    assert(s.set(date, idx, a).set(date, idx, b).days =~= s.set(date, idx, b).days);
}

/// Setting a task to what it is changes nothing.
proof fn set_same(s: StoreV, date: int, idx: int)
    requires
        ordered(s.days),
        s.has(date, idx),
    ensures
        s.set(date, idx, s.task(date, idx)) == s,
{
    place_facts(s.days, date, 0);
    assert(s.on(date).update(idx, s.task(date, idx)) =~= s.on(date));
    assert(s.set(date, idx, s.task(date, idx)).days =~= s.days);
}

/// Cycling the priority three times, the repeat setting five times, or the privacy twice leaves
/// the store as it was.
pub proof fn cycles_come_back(s: StoreV, date: int, idx: int)
    requires
        ordered(s.days),
        s.has(date, idx),
    ensures
        s.cycle_priority(date, idx).cycle_priority(date, idx).cycle_priority(date, idx) == s,
        s.toggle_hidden(date, idx).toggle_hidden(date, idx) == s,
        s.cycle_repeat(date, idx).cycle_repeat(date, idx).cycle_repeat(date, idx).cycle_repeat(
            date,
            idx,
        ).cycle_repeat(date, idx) == s,
{
    let t = s.task(date, idx);
    set_same(s, date, idx);

    let p1 = TaskV { priority: t.priority.following(), ..t };
    let p2 = TaskV { priority: p1.priority.following(), ..t };
    set_twice(s, date, idx, p1, p2);
    set_twice(s, date, idx, p2, t);

    let h1 = TaskV { hidden: !t.hidden, ..t };
    set_twice(s, date, idx, h1, t);

    let r1 = TaskV { repeat: crate::task::following_repeat(t.repeat), ..t };
    let r2 = TaskV { repeat: crate::task::following_repeat(r1.repeat), ..t };
    let r3 = TaskV { repeat: crate::task::following_repeat(r2.repeat), ..t };
    let r4 = TaskV { repeat: crate::task::following_repeat(r3.repeat), ..t };
    set_twice(s, date, idx, r1, r2);
    set_twice(s, date, idx, r2, r3);
    set_twice(s, date, idx, r3, r4);
    set_twice(s, date, idx, r4, t);
}

/// Moving a task down and up again, or up and down again, leaves the store as it was.
pub proof fn moving_down_and_up_again(s: StoreV, date: int, idx: int)
    requires
        ordered(s.days),
        s.has(date, idx),
    ensures
        idx + 1 < s.on(date).len() ==> s.move_down(date, idx).move_up(date, idx + 1) == s,
        idx > 0 ==> s.move_up(date, idx).move_down(date, idx - 1) == s,
{
    let tasks = s.on(date);
    place_facts(s.days, date, 0);
    if idx + 1 < tasks.len() {
        let other = swapped(tasks, idx, idx + 1);
        with_tasks_facts(s.days, date, other);
        assert(swapped(other, idx + 1, idx) =~= tasks);
        assert(s.move_down(date, idx).move_up(date, idx + 1).days =~= s.days);
    }
    if idx > 0 {
        let other = swapped(tasks, idx, idx - 1);
        with_tasks_facts(s.days, date, other);
        assert(swapped(other, idx - 1, idx) =~= tasks);
        assert(s.move_up(date, idx).move_down(date, idx - 1).days =~= s.days);
    }
}

/// Putting a removed task back where it was restores the store; if empty pages were dropped in
/// between, every day holds what it held.
pub proof fn insert_undoes_remove(s: StoreV, date: int, idx: int)
    requires
        ordered(s.days),
        s.has(date, idx),
    ensures
        s.remove(date, idx).insert(date, idx, s.task(date, idx)) == s,
        s.remove(date, idx).prune().insert(date, idx, s.task(date, idx)).next_id == s.next_id,
        forall|d: int| #[trigger]
            s.remove(date, idx).prune().insert(date, idx, s.task(date, idx)).on(d) == s.on(d),
{
    let t = s.task(date, idx);
    let less = s.on(date).remove(idx);
    place_facts(s.days, date, 0);
    with_tasks_facts(s.days, date, less);
    assert(less.insert(idx, t) =~= s.on(date));
    assert(s.remove(date, idx).insert(date, idx, t).days =~= s.days);
    let gone = s.remove(date, idx);
    pruned_facts(gone.days);
    assert(tasks_on(pruned(gone.days), date) == less);
    with_tasks_facts(gone.prune().days, date, s.on(date));
    assert forall|d: int| #[trigger] gone.prune().insert(date, idx, t).on(d) == s.on(d) by {
        assert(tasks_on(pruned(gone.days), d) == tasks_on(gone.days, d));
        assert(tasks_on(with_tasks(gone.prune().days, date, s.on(date)), d) == if d == date {
            s.on(date)
        } else {
            tasks_on(gone.prune().days, d)
        });
        if d != date {
            assert(tasks_on(with_tasks(s.days, date, less), d) == tasks_on(s.days, d));
        }
    }
}

/// Moving a task puts it, unchanged, behind what the other day held, takes it off its own day, and
/// leaves every other day alone. On its own day it goes to the end.
pub proof fn move_task_moves_one_task(s: StoreV, from: int, idx: int, to: int)
    requires
        ordered(s.days),
        s.has(from, idx),
    ensures
        ordered(s.move_task(from, idx, to).days),
        from != to ==> s.move_task(from, idx, to).on(to) == s.on(to).push(s.task(from, idx)),
        from != to ==> s.move_task(from, idx, to).on(from) == s.on(from).remove(idx),
        from == to ==> s.move_task(from, idx, to).on(to) == s.on(from).remove(idx).push(
            s.task(from, idx),
        ),
        forall|d: int|
            d != from && d != to ==> #[trigger] s.move_task(from, idx, to).on(d) == s.on(d),
{
    let less = s.on(from).remove(idx);
    with_tasks_facts(s.days, from, less);
    let gone = s.remove(from, idx);
    pruned_facts(gone.days);
    let rest = gone.prune();
    with_tasks_facts(rest.days, to, rest.on(to).push(s.task(from, idx)));
    assert(tasks_on(pruned(gone.days), to) == tasks_on(gone.days, to));
    assert(tasks_on(pruned(gone.days), from) == tasks_on(gone.days, from));
    assert(from != to ==> tasks_on(with_tasks(s.days, from, less), to) == tasks_on(s.days, to));
    let after = with_tasks(rest.days, to, rest.on(to).push(s.task(from, idx)));
    assert(from != to ==> tasks_on(after, from) == tasks_on(rest.days, from));
    assert forall|d: int| d != from && d != to implies #[trigger] s.move_task(from, idx, to).on(d)
        == s.on(d) by {
        assert(tasks_on(after, d) == tasks_on(rest.days, d));
        assert(tasks_on(pruned(gone.days), d) == tasks_on(gone.days, d));
        assert(tasks_on(with_tasks(s.days, from, less), d) == tasks_on(s.days, d));
    }
}

// --- toggling ------------------------------------------------------------------

/// Toggling a task that does not repeat twice leaves it open as it was, and the store with it.
pub proof fn toggling_twice_reopens(s: StoreV, date: int, idx: int, on: int, again: int)
    requires
        ordered(s.days),
        s.has(date, idx),
        !s.task(date, idx).done,
        s.task(date, idx).completed is None,
        s.task(date, idx).repeat is None,
    ensures
        s.toggle(date, idx, on).toggle(date, idx, again) == s,
{
    let t = s.task(date, idx);
    let done = s.flipped(date, idx, on);
    set_twice(s, date, idx, done, t);
    set_same(s, date, idx);
    assert(s.set(date, idx, done).flipped(date, idx, again) == t);
}

/// A page behind those that were searched in vain is where the first occurrence is found.
pub proof fn occurrence_on_is(pages: Seq<PageV>, template: TaskV, from: int, p: int, q: int, pos: int)
    requires
        0 <= p <= q < pages.len(),
        pages[q].date >= from,
        forall|i: int, j: int|
            p <= i < q && pages[i].date >= from && 0 <= j < pages[i].tasks.len()
                ==> !is_occurrence(#[trigger] pages[i].tasks[j], template),
        0 <= pos < pages[q].tasks.len(),
        forall|j: int| 0 <= j < pos ==> !is_occurrence(#[trigger] pages[q].tasks[j], template),
        is_occurrence(pages[q].tasks[pos], template),
    ensures
        occurrence_on(pages, template, from, p) == Some((q, pos)),
    decreases q - p,
{
    occurrence_from_facts(pages[p].tasks, template, 0);
    if p < q {
        let i = occurrence_from(pages[p].tasks, template, 0);
        if pages[p].date >= from && i < pages[p].tasks.len() {
            assert(!is_occurrence(pages[p].tasks[i], template));
        }
        occurrence_on_is(pages, template, from, p + 1, q, pos);
    } else {
        let i = occurrence_from(pages[q].tasks, template, 0);
        if i < pos {
            assert(!is_occurrence(pages[q].tasks[i], template));
        }
    }
}

/// Completing a repeating task puts exactly one open copy of it, with the same text, priority,
/// reminder, note, repeat setting and privacy, at the end of its next day, unless an open one is
/// already listed there or later.
pub proof fn completing_spawns_one_copy(s: StoreV, template: TaskV, next: int)
    requires
        ordered(s.days),
        occurrence_on(s.days, template, next, 0) is None,
    ensures
        ordered(s.spawn(template, next).days),
        s.spawn(template, next).on(next) == s.on(next).push(
            TaskV {
                id: s.next_id,
                done: false,
                completed: None,
                created: next,
                ..template
            },
        ),
        forall|d: int| d != next ==> #[trigger] s.spawn(template, next).on(d) == s.on(d),
        s.spawn(template, next).spawn(template, next) == s.spawn(template, next),
        occurrence_on(s.spawn(template, next).days, template, next, 0) == Some(
            (place(s.days, next), s.on(next).len() as int),
        ),
{
    let copy = TaskV { id: s.next_id, done: false, completed: None, created: next, ..template };
    let tasks = s.on(next).push(copy);
    with_tasks_facts(s.days, next, tasks);
    place_facts(s.days, next, 0);
    occurrence_on_facts(s.days, template, next, 0);
    let after = s.spawn(template, next);
    let p = place(s.days, next);
    let pages = after.days;
    assert forall|i: int, j: int|
        0 <= i < p && pages[i].date >= next && 0 <= j < pages[i].tasks.len() implies !is_occurrence(
        #[trigger] pages[i].tasks[j],
        template,
    ) by {
        assert(pages[i] == s.days[i]);
    }
    assert forall|j: int| 0 <= j < s.on(next).len() implies !is_occurrence(
        #[trigger] pages[p].tasks[j],
        template,
    ) by {
        assert(has_page(s.days, next));
        assert(!is_occurrence(s.days[p].tasks[j], template));
    }
    occurrence_on_is(pages, template, next, 0, p, s.on(next).len() as int);
    assert forall|d: int| d != next implies #[trigger] s.spawn(template, next).on(d) == s.on(d) by {
        assert(tasks_on(with_tasks(s.days, next, tasks), d) == tasks_on(s.days, d));
    }
}

/// Completing a repeating task that has no open occurrence ahead and un-completing it again leaves
/// every day with what it held: the copy that was made is removed, and only its number stays used.
/// Where no page was empty, the pages as a whole are as they were.
pub proof fn uncompleting_removes_the_copy(s: StoreV, date: int, idx: int, on: int, again: int)
    requires
        ordered(s.days),
        s.has(date, idx),
        !s.task(date, idx).done,
        s.task(date, idx).completed is None,
        s.task(date, idx).repeat is Some,
        occurrence_on(
            s.days,
            s.task(date, idx),
            s.task(date, idx).repeat->Some_0.next_day(date),
            0,
        ) is None,
    ensures
        forall|d: int| #[trigger]
            s.toggle(date, idx, on).toggle(date, idx, again).on(d) == s.on(d),
        s.toggle(date, idx, on).toggle(date, idx, again).next_id == s.next_id + 1,
        (forall|i: int| 0 <= i < s.days.len() ==> #[trigger] s.days[i].tasks.len() > 0) ==> s.toggle(
            date,
            idx,
            on,
        ).toggle(date, idx, again) == (StoreV { next_id: s.next_id + 1, ..s }),
{
    let t = s.task(date, idx);
    let next = t.repeat->Some_0.next_day(date);
    next_day_is_later(t.repeat->Some_0, date);
    let done = s.flipped(date, idx, on);
    let flipped = s.set(date, idx, done);
    with_tasks_facts(s.days, date, s.on(date).update(idx, done));
    place_facts(s.days, date, 0);
    // Nothing changed on the later pages, so there is still no open occurrence on them.
    occurrence_on_facts(s.days, t, next, 0);
    occurrence_on_facts(flipped.days, done, next, 0);
    assert(occurrence_on(flipped.days, done, next, 0) is None) by {
        if let Some((q, pos)) = occurrence_on(flipped.days, done, next, 0) {
            assert(flipped.days[q] == s.days[q]);
            assert(!is_occurrence(s.days[q].tasks[pos], t));
        }
    }
    completing_spawns_one_copy(flipped, done, next);
    let spawned = flipped.spawn(done, next);
    let copy = TaskV { id: flipped.next_id, done: false, completed: None, created: next, ..done };
    assert(spawned.on(date) == flipped.on(date));
    assert(spawned.on(date)[idx] == done);
    assert(s.toggle(date, idx, on) == spawned);
    // Un-completing sets the task back ...
    assert(spawned.flipped(date, idx, again) == t);
    let back = spawned.set(date, idx, t);
    let own = spawned.on(date).update(idx, t);
    assert(own =~= s.on(date));
    with_tasks_facts(spawned.days, date, own);
    assert(tasks_on(back.days, next) == tasks_on(spawned.days, next));
    // ... and finds the copy where it was put.
    let p = place(flipped.days, next);
    let last = flipped.on(next).len() as int;
    occurrence_on_facts(spawned.days, done, next, 0);
    place_facts(spawned.days, date, 0);
    place_facts(spawned.days, next, 0);
    assert(place(spawned.days, next) == p) by {
        with_tasks_facts(flipped.days, next, flipped.on(next).push(copy));
    }
    let d0 = place(spawned.days, date);
    assert(back.days =~= spawned.days.update(d0, PageV { date, tasks: own }));
    assert(d0 != p);
    assert(back.days[p] == spawned.days[p]);
    assert forall|i: int, j: int|
        0 <= i < p && back.days[i].date >= next && 0 <= j
            < back.days[i].tasks.len() implies !is_occurrence(
        #[trigger] back.days[i].tasks[j],
        t,
    ) by {
        assert(back.days[i].date < next);
    }
    assert forall|j: int| 0 <= j < last implies !is_occurrence(
        #[trigger] back.days[p].tasks[j],
        t,
    ) by {
        assert(back.days[p].tasks[j] == flipped.on(next)[j]);
        occurrence_on_facts(flipped.days, done, next, 0);
        place_facts(flipped.days, next, 0);
        assert(flipped.days[p].tasks[j] == flipped.on(next)[j]);
        assert(!is_occurrence(flipped.days[p].tasks[j], done));
    }
    assert(back.days[p].tasks[last] == copy);
    occurrence_on_is(back.days, t, next, 0, p, last);
    let less = PageV { date: next, tasks: back.days[p].tasks.remove(last) };
    assert(less.tasks =~= flipped.on(next));
    let gone = back.days.update(p, less);
    assert(s.toggle(date, idx, on).toggle(date, idx, again) == back.with_days(pruned(gone)));
    // Every day then holds what it held.
    assert(ordered(gone));
    pruned_facts(gone);
    assert forall|d: int| #[trigger]
        s.toggle(date, idx, on).toggle(date, idx, again).on(d) == s.on(d) by {
        assert(tasks_on(pruned(gone), d) == tasks_on(gone, d));
        assert(gone =~= with_tasks(back.days, next, less.tasks)) by {
            assert(place(back.days, next) == p) by {
                has_page_at(back.days, next, p);
            }
            has_page_at(back.days, next, p);
        }
        with_tasks_facts(back.days, next, less.tasks);
        assert(tasks_on(gone, d) == if d == next {
            less.tasks
        } else {
            tasks_on(back.days, d)
        });
        if d == next {
            assert(tasks_on(flipped.days, next) == tasks_on(s.days, next));
        } else if d == date {
            assert(tasks_on(back.days, d) == own);
        } else {
            assert(tasks_on(back.days, d) == tasks_on(spawned.days, d));
            assert(spawned.on(d) == flipped.on(d));
            assert(tasks_on(flipped.days, d) == tasks_on(s.days, d));
        }
    }
    if forall|i: int| 0 <= i < s.days.len() ==> #[trigger] s.days[i].tasks.len() > 0 {
        assert forall|d: int| #[trigger] tasks_on(pruned(gone), d) == tasks_on(s.days, d) by {
            assert(s.toggle(date, idx, on).toggle(date, idx, again).on(d) == s.on(d));
        }
        pages_are_what_they_hold(pruned(gone), s.days);
    }
}

/// Un-completing a repeating task never removes a copy that was customized: of every kind of task
/// that no untouched open copy belongs to, there are as many as with the task merely marked open.
pub proof fn uncompleting_keeps_customized_copies(
    s: StoreV,
    date: int,
    idx: int,
    on: int,
    kind: spec_fn(TaskV) -> bool,
)
    requires
        s.has(date, idx),
        s.task(date, idx).done,
        forall|t: TaskV|
            is_occurrence(t, s.flipped(date, idx, on)) && pristine(t, s.flipped(date, idx, on))
                ==> !(#[trigger] kind(t)),
    ensures
        count_in(s.toggle(date, idx, on).days, kind) == count_in(
            s.set(date, idx, s.flipped(date, idx, on)).days,
            kind,
        ),
{
    let t = s.flipped(date, idx, on);
    let flipped = s.set(date, idx, t);
    if t.repeat is Some {
        let next = t.repeat->Some_0.next_day(date);
        occurrence_on_facts(flipped.days, t, next, 0);
        if let Some((p, pos)) = occurrence_on(flipped.days, t, next, 0) {
            let copy = flipped.days[p].tasks[pos];
            if pristine(copy, t) {
                let page = PageV {
                    date: flipped.days[p].date,
                    tasks: flipped.days[p].tasks.remove(pos),
                };
                assert(!kind(copy));
                count_in_update(flipped.days, p, page, kind);
                count_remove(flipped.days[p].tasks, pos, kind);
                count_in_pruned(flipped.days.update(p, page), kind);
            }
        }
    }
}

} // verus!
