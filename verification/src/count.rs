//! How many tasks of a kind there are, and how that changes.

use vstd::prelude::*;

use crate::pages::{
    carried, finished, kept_on, left_behind, place, place_facts, pruned, tasks_on, unfinished,
    with_page, with_tasks, PageV,
};
use crate::task::TaskV;

verus! {

/// 1 if it is so, else 0.
pub open spec fn one_if(b: bool) -> int {
    if b {
        1
    } else {
        0
    }
}

/// How many of the tasks are of a kind.
pub open spec fn count(tasks: Seq<TaskV>, kind: spec_fn(TaskV) -> bool) -> int
    decreases tasks.len(),
{
    if tasks.len() == 0 {
        0
    } else {
        count(tasks.drop_last(), kind) + one_if(kind(tasks.last()))
    }
}

/// How many tasks on the pages are of a kind.
pub open spec fn count_in(pages: Seq<PageV>, kind: spec_fn(TaskV) -> bool) -> int
    decreases pages.len(),
{
    if pages.len() == 0 {
        0
    } else {
        count_in(pages.drop_last(), kind) + count(pages.last().tasks, kind)
    }
}

/// One task more, at the end.
pub proof fn count_push(tasks: Seq<TaskV>, t: TaskV, kind: spec_fn(TaskV) -> bool)
    ensures
        count(tasks.push(t), kind) == count(tasks, kind) + one_if(kind(t)),
{
    assert(tasks.push(t).drop_last() =~= tasks);
}

/// Two lists in a row.
pub proof fn count_add(a: Seq<TaskV>, b: Seq<TaskV>, kind: spec_fn(TaskV) -> bool)
    ensures
        count(a + b, kind) == count(a, kind) + count(b, kind),
    decreases b.len(),
{
    if b.len() == 0 {
        assert(a + b =~= a);
    } else {
        assert((a + b).drop_last() =~= a + b.drop_last());
        count_add(a, b.drop_last(), kind);
    }
}

/// A list taken apart around one of its tasks.
proof fn count_around(tasks: Seq<TaskV>, i: int, kind: spec_fn(TaskV) -> bool)
    requires
        0 <= i < tasks.len(),
    ensures
        count(tasks, kind) == count(tasks.take(i), kind) + one_if(kind(tasks[i])) + count(
            tasks.skip(i + 1),
            kind,
        ),
{
    assert(tasks =~= tasks.take(i).push(tasks[i]) + tasks.skip(i + 1));
    count_add(tasks.take(i).push(tasks[i]), tasks.skip(i + 1), kind);
    count_push(tasks.take(i), tasks[i], kind);
}

/// One task less.
pub proof fn count_remove(tasks: Seq<TaskV>, i: int, kind: spec_fn(TaskV) -> bool)
    requires
        0 <= i < tasks.len(),
    ensures
        count(tasks.remove(i), kind) == count(tasks, kind) - one_if(kind(tasks[i])),
{
    count_around(tasks, i, kind);
    assert(tasks.remove(i) =~= tasks.take(i) + tasks.skip(i + 1));
    count_add(tasks.take(i), tasks.skip(i + 1), kind);
}

/// One task more, put in anywhere.
pub proof fn count_insert(tasks: Seq<TaskV>, i: int, t: TaskV, kind: spec_fn(TaskV) -> bool)
    requires
        0 <= i <= tasks.len(),
    ensures
        count(tasks.insert(i, t), kind) == count(tasks, kind) + one_if(kind(t)),
{
    let more = tasks.insert(i, t);
    count_remove(more, i, kind);
    assert(more.remove(i) =~= tasks);
}

/// One task in place of another.
pub proof fn count_update(tasks: Seq<TaskV>, i: int, t: TaskV, kind: spec_fn(TaskV) -> bool)
    requires
        0 <= i < tasks.len(),
    ensures
        count(tasks.update(i, t), kind) == count(tasks, kind) - one_if(kind(tasks[i])) + one_if(
            kind(t),
        ),
{
    let other = tasks.update(i, t);
    count_remove(tasks, i, kind);
    count_remove(other, i, kind);
    assert(other.remove(i) =~= tasks.remove(i));
}

/// There are no fewer than none, and no more than all.
pub proof fn count_bound(tasks: Seq<TaskV>, kind: spec_fn(TaskV) -> bool)
    ensures
        0 <= count(tasks, kind) <= tasks.len(),
    decreases tasks.len(),
{
    if tasks.len() > 0 {
        count_bound(tasks.drop_last(), kind);
    }
}

/// There is at least one where one is seen.
pub proof fn count_one(tasks: Seq<TaskV>, i: int, kind: spec_fn(TaskV) -> bool)
    requires
        0 <= i < tasks.len(),
        kind(tasks[i]),
    ensures
        count(tasks, kind) >= 1,
{
    count_remove(tasks, i, kind);
    count_bound(tasks.remove(i), kind);
}

/// A task is either done or not.
pub proof fn count_parts(tasks: Seq<TaskV>, kind: spec_fn(TaskV) -> bool)
    ensures
        count(tasks, kind) == count(unfinished(tasks), kind) + count(finished(tasks), kind),
    decreases tasks.len(),
{
    reveal(Seq::filter);
    if tasks.len() > 0 {
        let rest = tasks.drop_last();
        count_parts(rest, kind);
        count_push(unfinished(rest), tasks.last(), kind);
        count_push(finished(rest), tasks.last(), kind);
    }
}

/// One page more, at the end.
proof fn count_in_push(pages: Seq<PageV>, page: PageV, kind: spec_fn(TaskV) -> bool)
    ensures
        count_in(pages.push(page), kind) == count_in(pages, kind) + count(page.tasks, kind),
{
    assert(pages.push(page).drop_last() =~= pages);
}

/// Two rows of pages behind each other.
proof fn count_in_add(a: Seq<PageV>, b: Seq<PageV>, kind: spec_fn(TaskV) -> bool)
    ensures
        count_in(a + b, kind) == count_in(a, kind) + count_in(b, kind),
    decreases b.len(),
{
    if b.len() == 0 {
        assert(a + b =~= a);
    } else {
        assert((a + b).drop_last() =~= a + b.drop_last());
        count_in_add(a, b.drop_last(), kind);
    }
}

/// The pages taken apart around one of them.
proof fn count_in_around(pages: Seq<PageV>, i: int, kind: spec_fn(TaskV) -> bool)
    requires
        0 <= i < pages.len(),
    ensures
        count_in(pages, kind) == count_in(pages.take(i), kind) + count(pages[i].tasks, kind)
            + count_in(pages.skip(i + 1), kind),
{
    assert(pages =~= pages.take(i).push(pages[i]) + pages.skip(i + 1));
    count_in_add(pages.take(i).push(pages[i]), pages.skip(i + 1), kind);
    count_in_push(pages.take(i), pages[i], kind);
}

/// One page in place of another.
pub proof fn count_in_update(
    pages: Seq<PageV>,
    i: int,
    page: PageV,
    kind: spec_fn(TaskV) -> bool,
)
    requires
        0 <= i < pages.len(),
    ensures
        count_in(pages.update(i, page), kind) == count_in(pages, kind) - count(
            pages[i].tasks,
            kind,
        ) + count(page.tasks, kind),
{
    let other = pages.update(i, page);
    count_in_around(pages, i, kind);
    count_in_around(other, i, kind);
    assert(other.take(i) =~= pages.take(i));
    assert(other.skip(i + 1) =~= pages.skip(i + 1));
}

/// A page that is put in empty adds nothing.
pub proof fn count_in_with_page(pages: Seq<PageV>, date: int, kind: spec_fn(TaskV) -> bool)
    ensures
        count_in(with_page(pages, date), kind) == count_in(pages, kind),
{
    let p = place(pages, date);
    place_facts(pages, date, 0);
    let more = with_page(pages, date);
    if more != pages {
        count_in_around(more, p, kind);
        assert(more.take(p) =~= pages.take(p));
        assert(more.skip(p + 1) =~= pages.skip(p));
        assert(pages =~= pages.take(p) + pages.skip(p));
        count_in_add(pages.take(p), pages.skip(p), kind);
    }
}

/// Other tasks on one page.
pub proof fn count_in_with_tasks(
    pages: Seq<PageV>,
    date: int,
    tasks: Seq<TaskV>,
    kind: spec_fn(TaskV) -> bool,
)
    ensures
        count_in(with_tasks(pages, date, tasks), kind) == count_in(pages, kind) - count(
            tasks_on(pages, date),
            kind,
        ) + count(tasks, kind),
{
    count_in_with_page(pages, date, kind);
    place_facts(pages, date, 0);
    count_in_update(with_page(pages, date), place(pages, date), PageV { date, tasks }, kind);
}

/// Dropping empty pages drops no task.
pub proof fn count_in_pruned(pages: Seq<PageV>, kind: spec_fn(TaskV) -> bool)
    ensures
        count_in(pruned(pages), kind) == count_in(pages, kind),
    decreases pages.len(),
{
    if pages.len() > 0 {
        count_in_pruned(pages.drop_last(), kind);
        if pages.last().tasks.len() > 0 {
            count_in_push(pruned(pages.drop_last()), pages.last(), kind);
        }
    }
}

/// No task on the pages is counted less than on one of them.
pub proof fn count_in_bound(pages: Seq<PageV>, i: int, kind: spec_fn(TaskV) -> bool)
    requires
        0 <= i < pages.len(),
    ensures
        0 <= count(pages[i].tasks, kind) <= count_in(pages, kind),
{
    count_in_around(pages, i, kind);
    count_in_least(pages.take(i), kind);
    count_in_least(pages.skip(i + 1), kind);
    count_bound(pages[i].tasks, kind);
}

/// There are no fewer than none.
pub proof fn count_in_least(pages: Seq<PageV>, kind: spec_fn(TaskV) -> bool)
    ensures
        0 <= count_in(pages, kind),
    decreases pages.len(),
{
    if pages.len() > 0 {
        count_in_least(pages.drop_last(), kind);
        count_bound(pages.last().tasks, kind);
    }
}

/// What is on one day is among what is on all.
pub proof fn count_on_bound(pages: Seq<PageV>, date: int, kind: spec_fn(TaskV) -> bool)
    ensures
        0 <= count(tasks_on(pages, date), kind) <= count_in(pages, kind),
{
    place_facts(pages, date, 0);
    count_in_least(pages, kind);
    let p = place(pages, date);
    if 0 <= p < pages.len() {
        count_in_bound(pages, p, kind);
    }
}

/// What is carried over and what is left behind make up what there was.
pub proof fn count_carried(pages: Seq<PageV>, today: int, kind: spec_fn(TaskV) -> bool)
    ensures
        count_in(left_behind(pages, today), kind) + count(carried(pages, today), kind) == count_in(
            pages,
            kind,
        ),
    decreases pages.len(),
{
    let left = left_behind(pages, today);
    if pages.len() > 0 {
        let rest = pages.drop_last();
        let last = pages.last();
        count_carried(rest, today, kind);
        assert(left.drop_last() =~= left_behind(rest, today));
        assert(left.last() == kept_on(last, today));
        count_parts(last.tasks, kind);
        if last.date < today {
            count_add(carried(rest, today), unfinished(last.tasks), kind);
        }
    }
}

} // verus!
