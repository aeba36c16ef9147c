//! Tasks grouped by day: one page per date, in the order of the dates.

use vstd::prelude::*;

use crate::date::Date;
use crate::task::{Task, TaskV};

verus! {

/// One day's tasks, in manual order.
#[derive(Debug, PartialEq, Eq)]
pub struct Page {
    pub date: Date,
    pub tasks: Vec<Task>,
}

/// What a page holds.
#[verifier::ext_equal]
pub ghost struct PageV {
    pub date: int,
    pub tasks: Seq<TaskV>,
}

/// What a list of tasks holds.
pub open spec fn task_views(tasks: Seq<Task>) -> Seq<TaskV> {
    Seq::new(tasks.len(), |i: int| tasks[i]@)
}

impl View for Page {
    type V = PageV;

    open spec fn view(&self) -> PageV {
        PageV { date: self.date@, tasks: task_views(self.tasks@) }
    }
}

impl Clone for Page {
    fn clone(&self) -> (r: Self)
        ensures
            r@ == self@,
    {
        let mut tasks: Vec<Task> = Vec::new();
        let mut i: usize = 0;
        while i < self.tasks.len()
            invariant
                i <= self.tasks@.len(),
                tasks@.len() == i,
                forall|k: int| 0 <= k < i ==> (#[trigger] tasks@[k])@ == self.tasks@[k]@,
            decreases self.tasks@.len() - i,
        {
            tasks.push(self.tasks[i].clone());
            i += 1;
        }
        assert(task_views(tasks@) =~= task_views(self.tasks@));
        Page { date: self.date, tasks }
    }
}

/// What a list of pages holds.
pub open spec fn page_views(pages: Seq<Page>) -> Seq<PageV> {
    Seq::new(pages.len(), |i: int| pages[i]@)
}

/// Whether the pages are in the order of their dates, with at most one page to a date.
pub open spec fn ordered(pages: Seq<PageV>) -> bool {
    forall|i: int, j: int| 0 <= i < j < pages.len() ==> pages[i].date < pages[j].date
}

/// The position from `i` on of the first page that is not before `date`, or the end.
pub open spec fn place_from(pages: Seq<PageV>, date: int, i: int) -> int
    decreases pages.len() - i,
{
    if i < pages.len() && pages[i].date < date {
        place_from(pages, date, i + 1)
    } else {
        i
    }
}

/// Where the page for `date` is, or where it would have to be put.
pub open spec fn place(pages: Seq<PageV>, date: int) -> int {
    place_from(pages, date, 0)
}

/// Whether there is a page for `date`.
pub open spec fn has_page(pages: Seq<PageV>, date: int) -> bool {
    place(pages, date) < pages.len() && pages[place(pages, date)].date == date
}

/// The tasks on `date`'s page; none where there is no page.
pub open spec fn tasks_on(pages: Seq<PageV>, date: int) -> Seq<TaskV> {
    if has_page(pages, date) {
        pages[place(pages, date)].tasks
    } else {
        Seq::empty()
    }
}

/// The pages with one for `date`: an empty one is put in where it was missing.
pub open spec fn with_page(pages: Seq<PageV>, date: int) -> Seq<PageV> {
    if has_page(pages, date) {
        pages
    } else {
        pages.insert(place(pages, date), PageV { date, tasks: Seq::empty() })
    }
}

/// The pages with `tasks` on `date`'s page.
pub open spec fn with_tasks(pages: Seq<PageV>, date: int, tasks: Seq<TaskV>) -> Seq<PageV> {
    with_page(pages, date).update(place(pages, date), PageV { date, tasks })
}

/// The pages with `task` in place of the one at `idx` on `date`'s page, which is there in any case;
/// without such a task nothing else changes.
pub open spec fn with_task(pages: Seq<PageV>, date: int, idx: int, task: TaskV) -> Seq<PageV> {
    if idx < tasks_on(pages, date).len() {
        with_tasks(pages, date, tasks_on(pages, date).update(idx, task))
    } else {
        with_page(pages, date)
    }
}

/// The pages that hold tasks.
pub open spec fn pruned(pages: Seq<PageV>) -> Seq<PageV>
    decreases pages.len(),
{
    if pages.len() == 0 {
        Seq::empty()
    } else if pages.last().tasks.len() == 0 {
        pruned(pages.drop_last())
    } else {
        pruned(pages.drop_last()).push(pages.last())
    }
}

/// The tasks that are not done, in their order.
pub open spec fn unfinished(tasks: Seq<TaskV>) -> Seq<TaskV> {
    tasks.filter(|t: TaskV| !t.done)
}

/// The tasks that are done, in their order.
pub open spec fn finished(tasks: Seq<TaskV>) -> Seq<TaskV> {
    tasks.filter(|t: TaskV| t.done)
}

/// What is carried over to `today`: the unfinished tasks of the days before it, oldest day first.
pub open spec fn carried(pages: Seq<PageV>, today: int) -> Seq<TaskV>
    decreases pages.len(),
{
    if pages.len() == 0 {
        Seq::empty()
    } else if pages.last().date < today {
        carried(pages.drop_last(), today) + unfinished(pages.last().tasks)
    } else {
        carried(pages.drop_last(), today)
    }
}

/// What a page keeps when unfinished tasks are carried over to `today`.
pub open spec fn kept_on(page: PageV, today: int) -> PageV {
    if page.date < today {
        PageV { date: page.date, tasks: finished(page.tasks) }
    } else {
        page
    }
}

/// What is left on the pages when unfinished tasks are carried over to `today`.
pub open spec fn left_behind(pages: Seq<PageV>, today: int) -> Seq<PageV> {
    pages.map_values(|page: PageV| kept_on(page, today))
}

/// What `place_from` says of the pages before it and of the one it finds.
pub proof fn place_facts(pages: Seq<PageV>, date: int, i: int)
    requires
        0 <= i <= pages.len(),
    ensures
        i <= place_from(pages, date, i) <= pages.len(),
        forall|j: int| i <= j < place_from(pages, date, i) ==> pages[j].date < date,
        place_from(pages, date, i) < pages.len() ==> pages[place_from(pages, date, i)].date >= date,
    decreases pages.len() - i,
{
    if i < pages.len() && pages[i].date < date {
        place_facts(pages, date, i + 1);
    }
}

/// A position with only earlier pages before it and a page not earlier at it is the place.
pub proof fn place_is(pages: Seq<PageV>, date: int, i: int, p: int)
    requires
        0 <= i <= p <= pages.len(),
        forall|j: int| i <= j < p ==> pages[j].date < date,
        p < pages.len() ==> pages[p].date >= date,
    ensures
        place_from(pages, date, i) == p,
    decreases pages.len() - i,
{
    if i < p {
        place_is(pages, date, i + 1, p);
    }
}

/// Without the last page, only its date loses its tasks.
proof fn without_last_page(pages: Seq<PageV>, date: int)
    requires
        ordered(pages),
        pages.len() > 0,
    ensures
        tasks_on(pages.drop_last(), date) == if date == pages.last().date {
            Seq::empty()
        } else {
            tasks_on(pages, date)
        },
{
    let rest = pages.drop_last();
    place_facts(pages, date, 0);
    place_facts(rest, date, 0);
    if has_page(rest, date) {
        assert(rest[place(rest, date)] == pages[place(rest, date)]);
        has_page_at(pages, date, place(rest, date));
    } else if has_page(pages, date) && date != pages.last().date {
        assert(pages[place(pages, date)] == rest[place(pages, date)]);
        has_page_at(rest, date, place(pages, date));
    }
}

/// Pages none of which is empty are told by what every date holds.
pub proof fn pages_are_what_they_hold(a: Seq<PageV>, b: Seq<PageV>)
    requires
        ordered(a),
        ordered(b),
        forall|i: int| 0 <= i < a.len() ==> #[trigger] a[i].tasks.len() > 0,
        forall|i: int| 0 <= i < b.len() ==> #[trigger] b[i].tasks.len() > 0,
        forall|d: int| #[trigger] tasks_on(a, d) == tasks_on(b, d),
    ensures
        a == b,
    decreases a.len(),
{
    if a.len() > 0 {
        has_page_at(a, a.last().date, a.len() - 1);
        assert(a[a.len() - 1].tasks.len() > 0);
        assert(tasks_on(a, a.last().date) == tasks_on(b, a.last().date));
        place_facts(b, a.last().date, 0);
        assert(has_page(b, a.last().date));
    }
    if b.len() > 0 {
        has_page_at(b, b.last().date, b.len() - 1);
        assert(b[b.len() - 1].tasks.len() > 0);
        assert(tasks_on(a, b.last().date) == tasks_on(b, b.last().date));
        place_facts(a, b.last().date, 0);
        assert(has_page(a, b.last().date));
    }
    if a.len() > 0 {
        let (x, y) = (a.drop_last(), b.drop_last());
        assert(a.last().date == b.last().date);
        assert(a.last() == b.last());
        assert forall|d: int| #[trigger] tasks_on(x, d) == tasks_on(y, d) by {
            without_last_page(a, d);
            without_last_page(b, d);
        }
        pages_are_what_they_hold(x, y);
        assert(a =~= x.push(a.last()) && b =~= y.push(b.last()));
    } else {
        assert(a =~= b);
    }
}

/// In ordered pages, the page for `date` is the one at its place.
pub proof fn has_page_at(pages: Seq<PageV>, date: int, p: int)
    requires
        ordered(pages),
        0 <= p < pages.len(),
        pages[p].date == date,
    ensures
        place(pages, date) == p,
        has_page(pages, date),
        tasks_on(pages, date) == pages[p].tasks,
{
    place_is(pages, date, 0, p);
}

/// Putting a page in, or tasks on it, keeps the pages ordered, changes what is on that page, and
/// leaves every other date as it was.
pub proof fn with_tasks_facts(pages: Seq<PageV>, date: int, tasks: Seq<TaskV>)
    requires
        ordered(pages),
    ensures
        ordered(with_page(pages, date)),
        ordered(with_tasks(pages, date, tasks)),
        has_page(with_page(pages, date), date),
        has_page(with_tasks(pages, date, tasks), date),
        place(with_page(pages, date), date) == place(pages, date),
        place(with_tasks(pages, date, tasks), date) == place(pages, date),
        tasks_on(with_page(pages, date), date) == tasks_on(pages, date),
        tasks_on(with_tasks(pages, date, tasks), date) == tasks,
        forall|other: int|
            other != date ==> #[trigger] tasks_on(with_page(pages, date), other) == tasks_on(
                pages,
                other,
            ),
        forall|other: int|
            other != date ==> #[trigger] tasks_on(with_tasks(pages, date, tasks), other)
                == tasks_on(pages, other),
{
    place_facts(pages, date, 0);
    let p = place(pages, date);
    let one = with_page(pages, date);
    let two = with_tasks(pages, date, tasks);
    assert forall|i: int, j: int| 0 <= i < j < one.len() implies one[i].date < one[j].date by {
        if !has_page(pages, date) {
            if i < p {
                assert(one[i] == pages[i]);
            }
            if j > p {
                assert(one[j] == pages[j - 1]);
                if p < pages.len() && p < j - 1 {
                    assert(pages[p].date < pages[j - 1].date);
                }
            }
            if i > p {
                assert(one[i] == pages[i - 1]);
            }
        }
    }
    has_page_at(one, date, p);
    has_page_at(two, date, p);
    assert forall|other: int| other != date implies #[trigger] tasks_on(one, other) == tasks_on(
        pages,
        other,
    ) by {
        other_page(pages, date, other);
    }
    assert forall|other: int| other != date implies #[trigger] tasks_on(two, other) == tasks_on(
        pages,
        other,
    ) by {
        other_page(pages, date, other);
        place_facts(one, other, 0);
        let q = place(one, other);
        place_is(two, other, 0, q);
    }
}

/// Putting in a page leaves the other dates as they were.
proof fn other_page(pages: Seq<PageV>, date: int, other: int)
    requires
        ordered(pages),
        other != date,
    ensures
        tasks_on(with_page(pages, date), other) == tasks_on(pages, other),
        has_page(with_page(pages, date), other) == has_page(pages, other),
{
    let one = with_page(pages, date);
    if !has_page(pages, date) {
        place_facts(pages, date, 0);
        place_facts(pages, other, 0);
        let p = place(pages, date);
        let q = place(pages, other);
        if other < date {
            assert(q <= p) by {
                if p < q {
                    assert(pages[p].date < other);
                }
            }
            if q < p {
                place_is(one, other, 0, q);
            } else {
                place_is(one, other, 0, q);
            }
        } else {
            assert(p <= q) by {
                if q < p {
                    assert(pages[q].date < date);
                }
            }
            assert forall|j: int| 0 <= j < q + 1 implies one[j].date < other by {
                if j < p {
                    assert(one[j] == pages[j]);
                } else if j > p {
                    assert(one[j] == pages[j - 1]);
                }
            }
            if q + 1 < one.len() {
                assert(one[q + 1] == pages[q]);
            }
            place_is(one, other, 0, q + 1);
        }
    }
}

/// Dropping empty pages keeps the pages ordered and what is on every date.
pub proof fn pruned_facts(pages: Seq<PageV>)
    requires
        ordered(pages),
    ensures
        ordered(pruned(pages)),
        forall|date: int|
            #![trigger tasks_on(pruned(pages), date)]
            tasks_on(pruned(pages), date) == tasks_on(pages, date),
        forall|date: int|
            #![trigger has_page(pruned(pages), date)]
            has_page(pruned(pages), date) <==> tasks_on(pages, date).len() > 0,
        forall|i: int| 0 <= i < pruned(pages).len() ==> #[trigger] pruned(pages)[i].tasks.len() > 0,
        forall|i: int|
            0 <= i < pruned(pages).len() ==> pages.contains(#[trigger] pruned(pages)[i]),
    decreases pages.len(),
{
    let rest = pages.drop_last();
    let after = pruned(pages);
    if pages.len() > 0 {
        let last = pages.last();
        pruned_facts(rest);
        let before = pruned(rest);
        assert(pages =~= rest.push(last));
        assert forall|i: int| 0 <= i < after.len() implies pages.contains(#[trigger] after[i]) by {
            if i < before.len() {
                assert(rest.contains(before[i]));
                let k = choose|k: int| 0 <= k < rest.len() && rest[k] == before[i];
                assert(pages[k] == after[i]);
            } else {
                assert(pages[pages.len() - 1] == after[i]);
            }
        }
        assert forall|i: int| 0 <= i < before.len() implies (#[trigger] before[i]).date
            < last.date by {
            assert(rest.contains(before[i]));
            let k = choose|k: int| 0 <= k < rest.len() && rest[k] == before[i];
            assert(pages[k].date < pages[pages.len() - 1].date);
        }
        assert(ordered(after));
        assert forall|date: int|
            #![trigger tasks_on(after, date)]
            tasks_on(after, date) == tasks_on(pages, date) && (has_page(after, date) <==> tasks_on(
                pages,
                date,
            ).len() > 0) by {
            assert(tasks_on(before, date) == tasks_on(rest, date));
            assert(has_page(before, date) <==> tasks_on(rest, date).len() > 0);
            push_page(rest, last, date);
            if last.tasks.len() > 0 {
                push_page(before, last, date);
            }
        }
        assert forall|date: int|
            #![trigger has_page(after, date)]
            has_page(after, date) <==> tasks_on(pages, date).len() > 0 by {
            assert(tasks_on(after, date) == tasks_on(pages, date));
        }
    } else {
        assert forall|date: int|
            #![trigger tasks_on(after, date)]
            tasks_on(after, date) == tasks_on(pages, date) by {
            assert(after =~= pages);
        }
    }
}

/// What one more page behind all others adds.
pub proof fn push_page(rest: Seq<PageV>, last: PageV, date: int)
    requires
        ordered(rest.push(last)),
    ensures
        tasks_on(rest.push(last), date) == (if date == last.date {
            last.tasks
        } else {
            tasks_on(rest, date)
        }),
        has_page(rest.push(last), date) == (date == last.date || has_page(rest, date)),
        date == last.date ==> !has_page(rest, date),
{
    let all = rest.push(last);
    let n = rest.len();
    assert forall|j: int| 0 <= j < n implies rest[j].date < last.date by {
        assert(all[j].date < all[n as int].date);
    }
    place_facts(rest, date, 0);
    let p = place(rest, date);
    if date == last.date {
        place_is(all, date, 0, n as int);
        assert(p == n) by {
            if p < n {
                assert(rest[p].date < last.date);
            }
        }
    } else if p < n {
        place_is(all, date, 0, p);
    } else if date < last.date {
        place_is(all, date, 0, n as int);
    } else {
        place_is(all, date, 0, n as int + 1);
    }
}

} // verus!
