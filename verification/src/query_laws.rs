//! What holds of what is read off the list of tasks.

use vstd::prelude::*;

use crate::date::MIN_DAY;
use crate::model::StoreV;
use crate::order::{
    ahead, ahead_alike, ahead_grows, among, among_alike, among_grows, filter_places, gathered,
    gathered_places, gathered_sources, same_filter,
};
use crate::pages::{ordered, PageV};
use crate::query::{
    age_place, all_hits, by_age, completed, done_count, earliest, goes_before, matches_query,
    open_on, open_until, page_hits, sort_place, sorted_order, waits, Listed,
};
use crate::task::{Priority, TaskV};
use crate::text::{has_part, lowered, trimmed};

verus! {

// --- the sorted order ----------------------------------------------------------

/// What `sort_place` says of the tasks before it and of the one it finds.
proof fn sort_place_facts(
    order: Seq<int>,
    tasks: Seq<TaskV>,
    t: TaskV,
    listed: int,
    today: int,
    now: int,
    k: int,
)
    requires
        0 <= k <= order.len(),
    ensures
        k <= sort_place(order, tasks, t, listed, today, now, k) <= order.len(),
        forall|j: int|
            k <= j < sort_place(order, tasks, t, listed, today, now, k) ==> !goes_before(
                t,
                tasks[#[trigger] order[j]],
                listed,
                today,
                now,
            ),
        sort_place(order, tasks, t, listed, today, now, k) < order.len() ==> goes_before(
            t,
            tasks[order[sort_place(order, tasks, t, listed, today, now, k)]],
            listed,
            today,
            now,
        ),
    decreases order.len() - k,
{
    if k < order.len() && !goes_before(t, tasks[order[k]], listed, today, now) {
        sort_place_facts(order, tasks, t, listed, today, now, k + 1);
    }
}

/// The sorted order shows every task exactly once. Of two tasks, the one that goes before the
/// other is shown first, and where neither does, manual order decides.
pub proof fn sorted_order_is_sorted(tasks: Seq<TaskV>, n: int, listed: int, today: int, now: int)
    requires
        0 <= n <= tasks.len(),
    ensures
        sorted_order(tasks, n, listed, today, now).len() == n,
        forall|k: int|
            0 <= k < n ==> 0 <= #[trigger] sorted_order(tasks, n, listed, today, now)[k] < n,
        forall|i: int|
            0 <= i < n ==> #[trigger] sorted_order(tasks, n, listed, today, now).contains(i),
        forall|j: int, k: int|
            0 <= j < k < n ==> {
                let a = #[trigger] sorted_order(tasks, n, listed, today, now)[j];
                let b = #[trigger] sorted_order(tasks, n, listed, today, now)[k];
                a != b && !goes_before(tasks[b], tasks[a], listed, today, now) && (goes_before(
                    tasks[a],
                    tasks[b],
                    listed,
                    today,
                    now,
                ) || a < b)
            },
    decreases n,
{
    if n > 0 {
        sorted_order_is_sorted(tasks, n - 1, listed, today, now);
        let before = sorted_order(tasks, n - 1, listed, today, now);
        let after = sorted_order(tasks, n, listed, today, now);
        let t = tasks[n - 1];
        let p = sort_place(before, tasks, t, listed, today, now, 0);
        sort_place_facts(before, tasks, t, listed, today, now, 0);
        assert(after == before.insert(p, n - 1));
        assert forall|k: int| 0 <= k < n implies 0 <= #[trigger] after[k] < n by {
            if k < p {
                assert(after[k] == before[k]);
            } else if k > p {
                assert(after[k] == before[k - 1]);
            }
        }
        assert forall|i: int| 0 <= i < n implies #[trigger] after.contains(i) by {
            if i == n - 1 {
                assert(after[p] == i);
            } else {
                assert(before.contains(i));
                let k = choose|k: int| 0 <= k < before.len() && before[k] == i;
                if k < p {
                    assert(after[k] == i);
                } else {
                    assert(after[k + 1] == i);
                }
            }
        }
        assert forall|j: int, k: int| 0 <= j < k < n implies {
            let a = #[trigger] after[j];
            let b = #[trigger] after[k];
            a != b && !goes_before(tasks[b], tasks[a], listed, today, now) && (goes_before(
                tasks[a],
                tasks[b],
                listed,
                today,
                now,
            ) || a < b)
        } by {
            let a = after[j];
            let b = after[k];
            if j < p && k < p {
                assert(a == before[j] && b == before[k]);
            } else if j < p && k > p {
                assert(a == before[j] && b == before[k - 1]);
            } else if j > p {
                assert(a == before[j - 1] && b == before[k - 1]);
            } else if k == p {
                assert(a == before[j]);
                assert(!goes_before(t, tasks[a], listed, today, now));
                assert(a < n - 1);
            } else {
                assert(j == p);
                assert(b == before[k - 1]);
                let first = before[p];
                assert(goes_before(t, tasks[first], listed, today, now));
                if k - 1 > p {
                    assert(!goes_before(tasks[b], tasks[first], listed, today, now));
                }
                assert(goes_before(t, tasks[b], listed, today, now));
            }
        }
    }
}

/// Whether two lists of tasks agree in all that the sorted order and the focus view go by: state,
/// priority and reminder.
pub open spec fn ordered_alike(a: Seq<TaskV>, b: Seq<TaskV>) -> bool {
    a.len() == b.len() && forall|i: int|
        #![trigger a[i]]
        #![trigger b[i]]
        0 <= i < a.len() ==> a[i].done == b[i].done && a[i].priority == b[i].priority
            && a[i].remind == b[i].remind
}

/// The place of a task in the order is the same in lists that agree.
proof fn sort_place_alike(
    order: Seq<int>,
    a: Seq<TaskV>,
    b: Seq<TaskV>,
    i: int,
    listed: int,
    today: int,
    now: int,
    k: int,
)
    requires
        ordered_alike(a, b),
        0 <= i < a.len(),
        0 <= k,
        forall|j: int| 0 <= j < order.len() ==> 0 <= #[trigger] order[j] < a.len(),
    ensures
        sort_place(order, a, a[i], listed, today, now, k) == sort_place(
            order,
            b,
            b[i],
            listed,
            today,
            now,
            k,
        ),
    decreases order.len() - k,
{
    if k < order.len() {
        let j = order[k];
        assert(goes_before(a[i], a[j], listed, today, now) == goes_before(
            b[i],
            b[j],
            listed,
            today,
            now,
        ));
        sort_place_alike(order, a, b, i, listed, today, now, k + 1);
    }
}

/// The sorted order goes by state, priority and reminder alone.
pub proof fn sorted_order_is_alike(
    a: Seq<TaskV>,
    b: Seq<TaskV>,
    n: int,
    listed: int,
    today: int,
    now: int,
)
    requires
        ordered_alike(a, b),
        0 <= n <= a.len(),
    ensures
        sorted_order(a, n, listed, today, now) == sorted_order(b, n, listed, today, now),
    decreases n,
{
    if n > 0 {
        sorted_order_is_alike(a, b, n - 1, listed, today, now);
        sorted_order_is_sorted(a, n - 1, listed, today, now);
        let order = sorted_order(a, n - 1, listed, today, now);
        sort_place_alike(order, a, b, n - 1, listed, today, now, 0);
    }
}

// --- reminders -----------------------------------------------------------------

/// The reminder that is found is one that waits; none that waits is earlier, and of those at the
/// same time it is the first on the page. Where none is found, none waits.
pub proof fn earliest_is_earliest(tasks: Seq<TaskV>, now: int, due: bool)
    ensures
        match earliest(tasks, now, due) {
            Some(i) => 0 <= i < tasks.len() && waits(tasks[i], now, due) && forall|j: int|
                0 <= j < tasks.len() && waits(#[trigger] tasks[j], now, due) ==> tasks[i].remind->Some_0
                    < tasks[j].remind->Some_0 || (tasks[i].remind == tasks[j].remind && i <= j),
            None => forall|j: int|
                0 <= j < tasks.len() ==> !waits(#[trigger] tasks[j], now, due),
        },
    decreases tasks.len(),
{
    if tasks.len() > 0 {
        let rest = tasks.drop_last();
        earliest_is_earliest(rest, now, due);
        match earliest(tasks, now, due) {
            Some(i) => {
                assert forall|j: int|
                    0 <= j < tasks.len() && waits(
                        #[trigger] tasks[j],
                        now,
                        due,
                    ) implies tasks[i].remind->Some_0 < tasks[j].remind->Some_0 || (tasks[i].remind
                    == tasks[j].remind && i <= j) by {
                    if j < rest.len() {
                        assert(waits(rest[j], now, due));
                    }
                }
            },
            None => {
                assert forall|j: int| 0 <= j < tasks.len() implies !waits(
                    #[trigger] tasks[j],
                    now,
                    due,
                ) by {
                    if j < rest.len() {
                        assert(!waits(rest[j], now, due));
                    }
                }
            },
        }
    }
}

// --- search --------------------------------------------------------------------

/// Whether a hit is a matching task on one of the pages.
pub open spec fn is_hit(pages: Seq<PageV>, query: Seq<char>, hit: (int, int)) -> bool {
    exists|p: int|
        0 <= p < pages.len() && #[trigger] pages[p].date == hit.0 && 0 <= hit.1
            < pages[p].tasks.len() && matches_query(pages[p].tasks[hit.1], query)
}

/// Whether hit `a` is shown before hit `b`: newer days first, and in manual order on one day.
pub open spec fn newer(a: (int, int), b: (int, int)) -> bool {
    a.0 > b.0 || (a.0 == b.0 && a.1 < b.1)
}

/// The hits on one page are its matching tasks, in order.
proof fn page_hits_facts(page: PageV, query: Seq<char>, n: int)
    requires
        0 <= n <= page.tasks.len(),
    ensures
        forall|k: int|
            0 <= k < page_hits(page, query, n).len() ==> {
                let h = #[trigger] page_hits(page, query, n)[k];
                h.0 == page.date && 0 <= h.1 < n && matches_query(page.tasks[h.1], query)
            },
        forall|i: int|
            0 <= i < n && matches_query(#[trigger] page.tasks[i], query) ==> page_hits(
                page,
                query,
                n,
            ).contains((page.date, i)),
        forall|j: int, k: int|
            0 <= j < k < page_hits(page, query, n).len() ==> (#[trigger] page_hits(
                page,
                query,
                n,
            )[j]).1 < (#[trigger] page_hits(page, query, n)[k]).1,
    decreases n,
{
    if n > 0 {
        page_hits_facts(page, query, n - 1);
        let before = page_hits(page, query, n - 1);
        let after = page_hits(page, query, n);
        assert forall|i: int|
            0 <= i < n && matches_query(#[trigger] page.tasks[i], query) implies after.contains(
            (page.date, i),
        ) by {
            if i == n - 1 {
                assert(after[before.len() as int] == (page.date, i));
            } else {
                assert(before.contains((page.date, i)));
                let k = choose|k: int| 0 <= k < before.len() && before[k] == (page.date, i);
                assert(after[k] == (page.date, i));
            }
        }
    }
}

/// A search finds the matching tasks and nothing else, newest day first and in manual order on
/// each day.
pub proof fn search_finds_what_matches(pages: Seq<PageV>, query: Seq<char>)
    requires
        ordered(pages),
    ensures
        forall|k: int|
            0 <= k < all_hits(pages, query).len() ==> is_hit(
                pages,
                query,
                #[trigger] all_hits(pages, query)[k],
            ),
        forall|p: int, i: int|
            0 <= p < pages.len() && 0 <= i < pages[p].tasks.len() && matches_query(
                #[trigger] pages[p].tasks[i],
                query,
            ) ==> all_hits(pages, query).contains((pages[p].date, i)),
        forall|j: int, k: int|
            0 <= j < k < all_hits(pages, query).len() ==> newer(
                #[trigger] all_hits(pages, query)[j],
                #[trigger] all_hits(pages, query)[k],
            ),
    decreases pages.len(),
{
    if pages.len() > 0 {
        let rest = pages.drop_last();
        let last = pages.last();
        let n = rest.len() as int;
        search_finds_what_matches(rest, query);
        page_hits_facts(last, query, last.tasks.len() as int);
        let first = page_hits(last, query, last.tasks.len() as int);
        let others = all_hits(rest, query);
        let all = all_hits(pages, query);
        assert(all == first + others);
        assert forall|k: int| 0 <= k < all.len() implies is_hit(pages, query, #[trigger] all[k]) by {
            if k < first.len() {
                assert(all[k] == first[k]);
                assert(pages[n].date == all[k].0);
            } else {
                let h = others[k - first.len()];
                assert(all[k] == h);
                assert(is_hit(rest, query, h));
                let p = choose|p: int|
                    0 <= p < rest.len() && #[trigger] rest[p].date == h.0 && 0 <= h.1
                        < rest[p].tasks.len() && matches_query(rest[p].tasks[h.1], query);
                assert(pages[p] == rest[p]);
                assert(pages[p].date == h.0);
            }
        }
        assert forall|p: int, i: int|
            0 <= p < pages.len() && 0 <= i < pages[p].tasks.len() && matches_query(
                #[trigger] pages[p].tasks[i],
                query,
            ) implies all.contains((pages[p].date, i)) by {
            let h = (pages[p].date, i);
            if p == n {
                assert(matches_query(last.tasks[i], query));
                assert(first.contains(h));
                let k = choose|k: int| 0 <= k < first.len() && first[k] == h;
                assert(all[k] == h);
            } else {
                assert(matches_query(rest[p].tasks[i], query));
                assert(others.contains(h));
                let k = choose|k: int| 0 <= k < others.len() && others[k] == h;
                assert(all[k + first.len()] == h);
            }
        }
        assert forall|j: int, k: int| 0 <= j < k < all.len() implies newer(
            #[trigger] all[j],
            #[trigger] all[k],
        ) by {
            if k < first.len() {
                assert(all[j] == first[j] && all[k] == first[k]);
            } else if j >= first.len() {
                assert(all[j] == others[j - first.len()] && all[k] == others[k - first.len()]);
            } else {
                let h = others[k - first.len()];
                assert(all[j] == first[j] && all[k] == h);
                assert(is_hit(rest, query, h));
                let p = choose|p: int|
                    0 <= p < rest.len() && #[trigger] rest[p].date == h.0 && 0 <= h.1
                        < rest[p].tasks.len() && matches_query(rest[p].tasks[h.1], query);
                assert(pages[p].date < pages[n].date);
            }
        }
    }
}

// --- open tasks ----------------------------------------------------------------

/// What `age_place` says of the tasks before it and of the one it finds.
proof fn age_place_facts(list: Seq<Listed>, created: int, k: int)
    requires
        0 <= k <= list.len(),
    ensures
        k <= age_place(list, created, k) <= list.len(),
        forall|j: int|
            k <= j < age_place(list, created, k) ==> (#[trigger] list[j]).task.created <= created,
        age_place(list, created, k) < list.len() ==> list[age_place(
            list,
            created,
            k,
        )].task.created > created,
    decreases list.len() - k,
{
    if k < list.len() && list[k].task.created <= created {
        age_place_facts(list, created, k + 1);
    }
}

/// The list by age is in the order of the days the tasks were written down, and holds what the
/// list held.
pub proof fn by_age_is_by_age(list: Seq<Listed>)
    ensures
        by_age(list).len() == list.len(),
        by_age(list).to_multiset() == list.to_multiset(),
        forall|j: int, k: int|
            0 <= j < k < list.len() ==> (#[trigger] by_age(list)[j]).task.created
                <= (#[trigger] by_age(list)[k]).task.created,
    decreases list.len(),
{
    if list.len() == 0 {
        assert(by_age(list) =~= list);
    } else {
        let rest = list.drop_last();
        let last = list.last();
        by_age_is_by_age(rest);
        let before = by_age(rest);
        let p = age_place(before, last.task.created, 0);
        age_place_facts(before, last.task.created, 0);
        let after = by_age(list);
        assert(after == before.insert(p, last));
        after.to_multiset_ensures();
        assert(after.remove(p) =~= before);
        assert(after[p] == last);
        rest.to_multiset_ensures();
        assert(rest.push(last) =~= list);
        assert(after.contains(last));
        assert(after.to_multiset() =~= before.to_multiset().insert(last));
        assert forall|j: int, k: int| 0 <= j < k < list.len() implies (
        #[trigger] after[j]).task.created <= (#[trigger] after[k]).task.created by {
            if k < p {
                assert(after[j] == before[j] && after[k] == before[k]);
            } else if j < p && k > p {
                assert(after[j] == before[j] && after[k] == before[k - 1]);
            } else if j > p {
                assert(after[j] == before[j - 1] && after[k] == before[k - 1]);
            } else if k == p {
                assert(after[j] == before[j]);
            } else {
                assert(after[k] == before[k - 1]);
                assert(before[p].task.created > last.task.created);
            }
        }
    }
}

/// The open tasks are exactly those on a page of today or earlier that are not done.
pub proof fn open_tasks_are_open(pages: Seq<PageV>, today: int)
    ensures
        forall|k: int|
            0 <= k < open_until(pages, today).len() ==> {
                let l = #[trigger] open_until(pages, today)[k];
                l.date <= today && !l.task.done && exists|p: int|
                    0 <= p < pages.len() && #[trigger] pages[p].date == l.date
                        && pages[p].tasks.contains(l.task)
            },
        forall|p: int, i: int|
            0 <= p < pages.len() && pages[p].date <= today && 0 <= i < pages[p].tasks.len()
                && !(#[trigger] pages[p].tasks[i]).done ==> open_until(pages, today).contains(
                Listed { date: pages[p].date, task: pages[p].tasks[i] },
            ),
    decreases pages.len(),
{
    if pages.len() > 0 {
        let rest = pages.drop_last();
        let last = pages.last();
        let n = rest.len() as int;
        open_tasks_are_open(rest, today);
        let before = open_until(rest, today);
        let after = open_until(pages, today);
        let open = last.tasks.filter(|t: TaskV| !t.done);
        broadcast use {Seq::lemma_filter_pred, Seq::lemma_filter_contains};

        filter_from(last.tasks);
        assert forall|k: int| 0 <= k < after.len() implies {
            let l = #[trigger] after[k];
            l.date <= today && !l.task.done && exists|p: int|
                0 <= p < pages.len() && #[trigger] pages[p].date == l.date
                    && pages[p].tasks.contains(l.task)
        } by {
            if k < before.len() {
                let l = before[k];
                assert(after[k] == l);
                let p = choose|p: int|
                    0 <= p < rest.len() && #[trigger] rest[p].date == l.date
                        && rest[p].tasks.contains(l.task);
                assert(pages[p] == rest[p]);
                assert(pages[p].date == l.date);
            } else {
                let i = k - before.len();
                assert(after[k] == open_on(last)[i]);
                assert(open.contains(open[i]));
                assert(pages[n].date == after[k].date);
                assert(pages[n].tasks.contains(after[k].task));
            }
        }
        assert forall|p: int, i: int|
            0 <= p < pages.len() && pages[p].date <= today && 0 <= i < pages[p].tasks.len()
                && !(#[trigger] pages[p].tasks[i]).done implies after.contains(
            Listed { date: pages[p].date, task: pages[p].tasks[i] },
        ) by {
            let l = Listed { date: pages[p].date, task: pages[p].tasks[i] };
            if p < n {
                assert(!rest[p].tasks[i].done);
                assert(before.contains(l));
                let k = choose|k: int| 0 <= k < before.len() && before[k] == l;
                assert(after[k] == l);
            } else {
                assert(open.contains(last.tasks[i]));
                let k = choose|k: int| 0 <= k < open.len() && open[k] == last.tasks[i];
                assert(open_on(last)[k] == l);
                assert(after[before.len() + k] == l);
            }
        }
    }
}

/// What a filter keeps was there.
proof fn filter_from(tasks: Seq<TaskV>)
    ensures
        forall|t: TaskV|
            tasks.filter(|t: TaskV| !t.done).contains(t) ==> #[trigger] tasks.contains(t),
    decreases tasks.len(),
{
    reveal(Seq::filter);
    if tasks.len() > 0 {
        let rest = tasks.drop_last();
        filter_from(rest);
        let open = tasks.filter(|t: TaskV| !t.done);
        assert forall|t: TaskV| open.contains(t) implies #[trigger] tasks.contains(t) by {
            let k = choose|k: int| 0 <= k < open.len() && open[k] == t;
            if rest.filter(|t: TaskV| !t.done).contains(t) {
                assert(rest.contains(t));
                let j = choose|j: int| 0 <= j < rest.len() && rest[j] == t;
                assert(tasks[j] == t);
            } else {
                if k < rest.filter(|t: TaskV| !t.done).len() {
                    assert(rest.filter(|t: TaskV| !t.done)[k] == t);
                }
                assert(tasks[tasks.len() - 1] == t);
            }
        }
    }
}

// --- completions ---------------------------------------------------------------

/// The completions of some days are those of the first of them and those of the rest, so that
/// counting day by day gives the same number.
pub proof fn completions_add_up(pages: Seq<PageV>, from: int, mid: int, to: int)
    requires
        from <= mid + 1,
        mid <= to,
    ensures
        completed(pages, from, to).len() == completed(pages, from, mid).len() + completed(
            pages,
            mid + 1,
            to,
        ).len(),
    decreases pages.len(),
{
    if pages.len() > 0 {
        completions_add_up(pages.drop_last(), from, mid, to);
        filter_parts(pages.last().tasks, from, mid, to);
    }
}

/// The completions of the last seven days are those of today and of each of the six days before.
pub proof fn seven_days_add_up(s: StoreV, today: int)
    ensures
        s.done_recently(today) == s.completed_on(today).len() + s.completed_on(today - 1).len()
            + s.completed_on(today - 2).len() + s.completed_on(today - 3).len() + s.completed_on(
            today - 4,
        ).len() + s.completed_on(today - 5).len() + s.completed_on(today - 6).len(),
{
    completions_add_up(s.days, today - 6, today - 1, today);
    completions_add_up(s.days, today - 6, today - 2, today - 1);
    completions_add_up(s.days, today - 6, today - 3, today - 2);
    completions_add_up(s.days, today - 6, today - 4, today - 3);
    completions_add_up(s.days, today - 6, today - 5, today - 4);
    completions_add_up(s.days, today - 6, today - 6, today - 5);
}

/// The same for the tasks of one page.
proof fn filter_parts(tasks: Seq<TaskV>, from: int, mid: int, to: int)
    requires
        from <= mid + 1,
        mid <= to,
    ensures
        tasks.filter(|t: TaskV| t.completed is Some && from <= t.completed->Some_0 <= to).len()
            == tasks.filter(
            |t: TaskV| t.completed is Some && from <= t.completed->Some_0 <= mid,
        ).len() + tasks.filter(
            |t: TaskV| t.completed is Some && mid + 1 <= t.completed->Some_0 <= to,
        ).len(),
    decreases tasks.len(),
{
    reveal(Seq::filter);
    if tasks.len() > 0 {
        filter_parts(tasks.drop_last(), from, mid, to);
    }
}

// --- what the sorted view shows ------------------------------------------------

/// Whether an open task's reminder has passed at `now` on `today`, where the task is listed on
/// `date`.
pub open spec fn is_late(t: TaskV, date: int, today: int, now: int) -> bool {
    match t.remind {
        Some(time) => !t.done && (date < today || (date == today && time <= now)),
        None => false,
    }
}

/// A task is overdue where it is open and its reminder has passed: at any time of an earlier day, and
/// on today's page from its time on. Without a reminder, done, or on a day to come it is not.
pub proof fn overdue_is_late(t: TaskV, date: int, today: int, now: int)
    ensures
        t.overdue(date, today, now) == is_late(t, date, today, now),
        t.done ==> !t.overdue(date, today, now),
        t.remind is None ==> !t.overdue(date, today, now),
        date > today ==> !t.overdue(date, today, now),
        !t.done && t.remind is Some && date < today ==> t.overdue(date, today, now),
        !t.done && t.remind is Some && date == today ==> (t.overdue(date, today, now)
            <==> t.remind->Some_0 <= now),
{
}

/// The sorted view shows every task of the day once: open tasks before done ones, of those that are
/// alike in that overdue ones before others, then high priority before low and low before none, then
/// tasks with a reminder before those without, an earlier reminder before a later one, and what is
/// alike in all that in manual order.
pub proof fn the_sorted_view_is_in_order(s: StoreV, date: int, today: int, now: int)
    ensures
        s.sorted_indices(date, today, now).len() == s.on(date).len(),
        forall|i: int|
            0 <= i < s.on(date).len() ==> #[trigger] s.sorted_indices(date, today, now).contains(i),
        forall|j: int, k: int|
            0 <= j < k < s.on(date).len() ==> {
                let i = #[trigger] s.sorted_indices(date, today, now)[j];
                let l = #[trigger] s.sorted_indices(date, today, now)[k];
                let a = s.on(date)[i];
                let b = s.on(date)[l];
                let late = is_late(a, date, today, now) == is_late(b, date, today, now);
                &&& 0 <= i < s.on(date).len()
                &&& 0 <= l < s.on(date).len()
                &&& i != l
                &&& a.done ==> b.done
                &&& a.done == b.done && is_late(b, date, today, now) ==> is_late(
                    a,
                    date,
                    today,
                    now,
                )
                &&& a.done == b.done && late && b.priority == Priority::High ==> a.priority
                    == Priority::High
                &&& a.done == b.done && late && b.priority == Priority::Low ==> a.priority
                    != Priority::Plain
                &&& a.done == b.done && late && a.priority == b.priority && b.remind is Some
                    ==> a.remind is Some && a.remind->Some_0 <= b.remind->Some_0
                &&& a.done == b.done && late && a.priority == b.priority && a.remind == b.remind
                    ==> i < l
            },
{
    let n = s.on(date).len() as int;
    sorted_order_is_sorted(s.on(date), n, date, today, now);
    let r = s.sorted_indices(date, today, now);
    assert(r == sorted_order(s.on(date), n, date, today, now));
    assert forall|j: int, k: int| 0 <= j < k < n implies {
        let i = #[trigger] r[j];
        let l = #[trigger] r[k];
        let a = s.on(date)[i];
        let b = s.on(date)[l];
        let late = is_late(a, date, today, now) == is_late(b, date, today, now);
        &&& 0 <= i < s.on(date).len()
        &&& 0 <= l < s.on(date).len()
        &&& i != l
        &&& a.done ==> b.done
        &&& a.done == b.done && is_late(b, date, today, now) ==> is_late(a, date, today, now)
        &&& a.done == b.done && late && b.priority == Priority::High ==> a.priority
            == Priority::High
        &&& a.done == b.done && late && b.priority == Priority::Low ==> a.priority
            != Priority::Plain
        &&& a.done == b.done && late && a.priority == b.priority && b.remind is Some
            ==> a.remind is Some && a.remind->Some_0 <= b.remind->Some_0
        &&& a.done == b.done && late && a.priority == b.priority && a.remind == b.remind ==> i < l
    } by {
        let a = s.on(date)[r[j]];
        let b = s.on(date)[r[k]];
        overdue_is_late(a, date, today, now);
        overdue_is_late(b, date, today, now);
        assert(!goes_before(b, a, date, today, now));
    }
}

// --- what reminders are shown --------------------------------------------------

/// The reminder that is shown as overdue is that of an open task whose time has come, the one that
/// is shown as next that of an open task whose time is yet to come. No such task has an earlier one,
/// and of those at the same time it is the first on the page. Where none is shown, there is none.
pub proof fn the_first_reminder_is_shown(tasks: Seq<TaskV>, now: int)
    ensures
        match earliest(tasks, now, true) {
            Some(i) => {
                &&& 0 <= i < tasks.len()
                &&& !tasks[i].done
                &&& tasks[i].remind is Some
                &&& tasks[i].remind->Some_0 <= now
                &&& forall|j: int|
                    0 <= j < tasks.len() && !(#[trigger] tasks[j]).done && tasks[j].remind is Some
                        ==> tasks[i].remind->Some_0 < tasks[j].remind->Some_0 || (
                    tasks[i].remind->Some_0 == tasks[j].remind->Some_0 && i <= j)
            },
            None => forall|j: int|
                0 <= j < tasks.len() && !(#[trigger] tasks[j]).done && tasks[j].remind is Some
                    ==> tasks[j].remind->Some_0 > now,
        },
        match earliest(tasks, now, false) {
            Some(i) => {
                &&& 0 <= i < tasks.len()
                &&& !tasks[i].done
                &&& tasks[i].remind is Some
                &&& tasks[i].remind->Some_0 > now
                &&& forall|j: int|
                    0 <= j < tasks.len() && !(#[trigger] tasks[j]).done && tasks[j].remind is Some
                        && tasks[j].remind->Some_0 > now ==> tasks[i].remind->Some_0
                        < tasks[j].remind->Some_0 || (tasks[i].remind->Some_0
                        == tasks[j].remind->Some_0 && i <= j)
            },
            None => forall|j: int|
                0 <= j < tasks.len() && !(#[trigger] tasks[j]).done && tasks[j].remind is Some
                    ==> tasks[j].remind->Some_0 <= now,
        },
{
    earliest_is_earliest(tasks, now, true);
    earliest_is_earliest(tasks, now, false);
    if earliest(tasks, now, true) is None {
        assert forall|j: int|
            0 <= j < tasks.len() && !(#[trigger] tasks[j]).done
                && tasks[j].remind is Some implies tasks[j].remind->Some_0 > now by {
            assert(!waits(tasks[j], now, true));
        }
    } else {
        let i = earliest(tasks, now, true)->Some_0;
        assert forall|j: int|
            0 <= j < tasks.len() && !(#[trigger] tasks[j]).done
                && tasks[j].remind is Some implies tasks[i].remind->Some_0
            < tasks[j].remind->Some_0 || (tasks[i].remind->Some_0 == tasks[j].remind->Some_0 && i
            <= j) by {
            assert(waits(tasks[j], now, true) || tasks[j].remind->Some_0 > now);
        }
    }
    if earliest(tasks, now, false) is None {
        assert forall|j: int|
            0 <= j < tasks.len() && !(#[trigger] tasks[j]).done
                && tasks[j].remind is Some implies tasks[j].remind->Some_0 <= now by {
            assert(!waits(tasks[j], now, false));
        }
    } else {
        let i = earliest(tasks, now, false)->Some_0;
        assert forall|j: int|
            0 <= j < tasks.len() && !(#[trigger] tasks[j]).done && tasks[j].remind is Some
                && tasks[j].remind->Some_0 > now implies tasks[i].remind->Some_0
            < tasks[j].remind->Some_0 || (tasks[i].remind->Some_0 == tasks[j].remind->Some_0 && i
            <= j) by {
            assert(waits(tasks[j], now, false));
        }
    }
}

// --- what a search finds -------------------------------------------------------

/// A search finds every task whose text, and every task whose note has the query as a part, whatever
/// the case of the letters and the white space around the query, and whatever else the task is. It
/// finds nothing else, and nothing for an empty query. The newest day comes first, and each day is
/// in manual order.
pub proof fn a_search_finds_texts_and_notes(s: StoreV, query: Seq<char>)
    requires
        ordered(s.days),
    ensures
        lowered(trimmed(query)).len() == 0 ==> s.search(query).len() == 0,
        forall|p: int, i: int|
            0 <= p < s.days.len() && 0 <= i < s.days[p].tasks.len() && lowered(
                trimmed(query),
            ).len() > 0 && has_part(
                lowered((#[trigger] s.days[p].tasks[i]).text),
                lowered(trimmed(query)),
            ) ==> s.search(query).contains((s.days[p].date, i)),
        forall|p: int, i: int|
            0 <= p < s.days.len() && 0 <= i < s.days[p].tasks.len() && lowered(
                trimmed(query),
            ).len() > 0 && (#[trigger] s.days[p].tasks[i]).note is Some && has_part(
                lowered(s.days[p].tasks[i].note->Some_0),
                lowered(trimmed(query)),
            ) ==> s.search(query).contains((s.days[p].date, i)),
        forall|k: int|
            0 <= k < s.search(query).len() ==> {
                let hit = #[trigger] s.search(query)[k];
                exists|p: int|
                    0 <= p < s.days.len() && (#[trigger] s.days[p]).date == hit.0 && 0 <= hit.1
                        < s.days[p].tasks.len() && (has_part(
                        lowered(s.days[p].tasks[hit.1].text),
                        lowered(trimmed(query)),
                    ) || (s.days[p].tasks[hit.1].note is Some && has_part(
                        lowered(s.days[p].tasks[hit.1].note->Some_0),
                        lowered(trimmed(query)),
                    )))
            },
        forall|j: int, k: int|
            0 <= j < k < s.search(query).len() ==> {
                let a = #[trigger] s.search(query)[j];
                let b = #[trigger] s.search(query)[k];
                a.0 > b.0 || (a.0 == b.0 && a.1 < b.1)
            },
{
    let q = lowered(trimmed(query));
    search_finds_what_matches(s.days, q);
    let found = s.search(query);
    if q.len() > 0 {
        assert(found == all_hits(s.days, q));
        assert forall|p: int, i: int|
            0 <= p < s.days.len() && 0 <= i < s.days[p].tasks.len() && has_part(
                lowered((#[trigger] s.days[p].tasks[i]).text),
                q,
            ) implies found.contains((s.days[p].date, i)) by {
            assert(matches_query(s.days[p].tasks[i], q));
        }
        assert forall|p: int, i: int|
            0 <= p < s.days.len() && 0 <= i < s.days[p].tasks.len() && (
            #[trigger] s.days[p].tasks[i]).note is Some && has_part(
                lowered(s.days[p].tasks[i].note->Some_0),
                q,
            ) implies found.contains((s.days[p].date, i)) by {
            assert(matches_query(s.days[p].tasks[i], q));
        }
        assert forall|k: int| 0 <= k < found.len() implies {
            let hit = #[trigger] found[k];
            exists|p: int|
                0 <= p < s.days.len() && (#[trigger] s.days[p]).date == hit.0 && 0 <= hit.1
                    < s.days[p].tasks.len() && (has_part(lowered(s.days[p].tasks[hit.1].text), q)
                    || (s.days[p].tasks[hit.1].note is Some && has_part(
                    lowered(s.days[p].tasks[hit.1].note->Some_0),
                    q,
                )))
        } by {
            let hit = found[k];
            assert(is_hit(s.days, q, all_hits(s.days, q)[k]));
            let p = choose|p: int|
                0 <= p < s.days.len() && #[trigger] s.days[p].date == hit.0 && 0 <= hit.1
                    < s.days[p].tasks.len() && matches_query(s.days[p].tasks[hit.1], q);
            assert(s.days[p].date == hit.0);
        }
        assert forall|j: int, k: int| 0 <= j < k < found.len() implies {
            let a = #[trigger] found[j];
            let b = #[trigger] found[k];
            a.0 > b.0 || (a.0 == b.0 && a.1 < b.1)
        } by {
            assert(newer(all_hits(s.days, q)[j], all_hits(s.days, q)[k]));
        }
    }
}

// --- what was completed --------------------------------------------------------

/// Whether a task was completed from day `from` to day `to`.
pub open spec fn completed_within(from: int, to: int) -> spec_fn(TaskV) -> bool {
    |t: TaskV|
        match t.completed {
            Some(day) => from <= day && day <= to,
            None => false,
        }
}

/// Every page.
pub open spec fn any_page() -> spec_fn(PageV) -> bool {
    |page: PageV| true
}

/// What was completed is gathered from all pages.
proof fn completed_is_gathered(pages: Seq<PageV>, from: int, to: int)
    ensures
        completed(pages, from, to) == gathered(pages, any_page(), completed_within(from, to)),
    decreases pages.len(),
{
    if pages.len() > 0 {
        completed_is_gathered(pages.drop_last(), from, to);
        same_filter(
            pages.last().tasks,
            |t: TaskV| t.completed is Some && from <= t.completed->Some_0 <= to,
            completed_within(from, to),
        );
    }
}

/// The tasks completed on a day are those that have that day as their day of completion, whatever
/// day they are listed on and whatever else they are: each of them once, in the order of the pages
/// and in manual order.
pub proof fn completed_on_is_by_the_day_of_completion(s: StoreV, date: int)
    ensures
        s.completed_on(date).len() == ahead(
            s.days,
            any_page(),
            completed_within(date, date),
            s.days.len() as int,
        ),
        forall|k: int|
            0 <= k < s.completed_on(date).len() ==> (#[trigger] s.completed_on(date)[k]).completed
                == Some(date) && exists|p: int|
                0 <= p < s.days.len() && (#[trigger] s.days[p]).tasks.contains(
                    s.completed_on(date)[k],
                ),
        forall|p: int, i: int|
            0 <= p < s.days.len() && 0 <= i < s.days[p].tasks.len() && (
            #[trigger] s.days[p].tasks[i]).completed == Some(date) ==> s.completed_on(date)[ahead(
                s.days,
                any_page(),
                completed_within(date, date),
                p,
            ) + among(s.days[p].tasks, completed_within(date, date), i)] == s.days[p].tasks[i]
                && s.completed_on(date).contains(s.days[p].tasks[i]),
{
    let keep = completed_within(date, date);
    completed_is_gathered(s.days, date, date);
    gathered_places(s.days, any_page(), keep);
    let done = s.completed_on(date);
    assert forall|k: int| 0 <= k < done.len() implies (#[trigger] done[k]).completed == Some(date)
        && exists|p: int| 0 <= p < s.days.len() && (#[trigger] s.days[p]).tasks.contains(done[k]) by {
        let (p, i) = gathered_sources(s.days, any_page(), keep, k);
        assert(keep(s.days[p].tasks[i]));
        assert(s.days[p].tasks.contains(done[k]));
    }
    assert forall|p: int, i: int|
        0 <= p < s.days.len() && 0 <= i < s.days[p].tasks.len() && (
        #[trigger] s.days[p].tasks[i]).completed == Some(date) implies done[ahead(
        s.days,
        any_page(),
        keep,
        p,
    ) + among(s.days[p].tasks, keep, i)] == s.days[p].tasks[i] && done.contains(
        s.days[p].tasks[i],
    ) by {
        assert(keep(s.days[p].tasks[i]));
        assert(any_page()(s.days[p]));
    }
}

/// As many tasks are counted as done in the last seven days as there are with a day of completion
/// after the day a week ago and not after today.
pub proof fn seven_days_are_counted(s: StoreV, today: int)
    ensures
        s.done_recently(today) == ahead(
            s.days,
            any_page(),
            completed_within(today - 7 + 1, today),
            s.days.len() as int,
        ),
{
    completed_is_gathered(s.days, today - 6, today);
    gathered_places(s.days, any_page(), completed_within(today - 6, today));
}

/// Whether some task was completed on a day.
pub open spec fn something_completed(s: StoreV, day: int) -> bool {
    exists|p: int, i: int|
        0 <= p < s.days.len() && 0 <= i < s.days[p].tasks.len() && (
        #[trigger] s.days[p].tasks[i]).completed == Some(day)
}

/// There are tasks completed on a day where some task has that day as its day of completion.
proof fn something_is_listed(s: StoreV, day: int)
    ensures
        s.completed_on(day).len() > 0 <==> something_completed(s, day),
{
    completed_on_is_by_the_day_of_completion(s, day);
    if s.completed_on(day).len() > 0 {
        let t = s.completed_on(day)[0];
        let p = choose|p: int|
            0 <= p < s.days.len() && (#[trigger] s.days[p]).tasks.contains(t);
        let i = choose|i: int| 0 <= i < s.days[p].tasks.len() && s.days[p].tasks[i] == t;
        assert(s.days[p].tasks[i].completed == Some(day));
    }
    if something_completed(s, day) {
        let (p, i) = choose|p: int, i: int|
            0 <= p < s.days.len() && 0 <= i < s.days[p].tasks.len() && (
            #[trigger] s.days[p].tasks[i]).completed == Some(day);
        assert(s.completed_on(day).contains(s.days[p].tasks[i]));
    }
}

/// A streak up to a day is the greatest number of days in a row up to it with a completion each.
proof fn streak_to_is_a_row(s: StoreV, day: int)
    ensures
        forall|d: int|
            day - s.streak_to(day) < d <= day ==> #[trigger] something_completed(s, d),
        day - s.streak_to(day) < MIN_DAY || !something_completed(s, day - s.streak_to(day)),
    decreases day - MIN_DAY + 1,
{
    something_is_listed(s, day);
    if day >= MIN_DAY && s.completed_on(day).len() > 0 {
        streak_to_is_a_row(s, day - 1);
        assert forall|d: int| day - s.streak_to(day) < d <= day implies #[trigger]
            something_completed(s, d) by {
            if d < day {
                assert(day - 1 - s.streak_to(day - 1) < d);
            }
        }
    }
}

/// The streak counts the days in a row on each of which some task was completed. It ends today where
/// today has tasks, all of them are done and something was completed today, and yesterday where not.
/// The day before its first has no completion.
pub proof fn the_streak_is_a_row_of_days(s: StoreV, today: int)
    ensures
        ({
            let all_done = s.on(today).len() > 0 && forall|i: int|
                0 <= i < s.on(today).len() ==> (#[trigger] s.on(today)[i]).done;
            let end = if all_done && something_completed(s, today) {
                today
            } else {
                today - 1
            };
            &&& forall|d: int|
                end - s.streak(today) < d <= end ==> #[trigger] something_completed(s, d)
            &&& end - s.streak(today) < MIN_DAY || !something_completed(s, end - s.streak(today))
        }),
{
    progress_counts_the_done(s.on(today));
    something_is_listed(s, today);
    streak_to_is_a_row(s, today);
    streak_to_is_a_row(s, today - 1);
}

/// The progress of a day counts the tasks that are done: all of them count where each is done, none
/// where no one is.
pub proof fn progress_counts_the_done(tasks: Seq<TaskV>)
    ensures
        done_count(tasks) == among(tasks, |t: TaskV| t.done, tasks.len() as int),
        done_count(tasks) == tasks.len() <==> forall|i: int|
            0 <= i < tasks.len() ==> (#[trigger] tasks[i]).done,
        done_count(tasks) == 0 <==> forall|i: int|
            0 <= i < tasks.len() ==> !(#[trigger] tasks[i]).done,
        done_count(tasks) <= tasks.len(),
    decreases tasks.len(),
{
    if tasks.len() > 0 {
        let rest = tasks.drop_last();
        let n = rest.len() as int;
        progress_counts_the_done(rest);
        among_alike(rest, tasks, |t: TaskV| t.done, n);
        assert(tasks[n] == tasks.last());
        if forall|i: int| 0 <= i < n ==> (#[trigger] rest[i]).done {
            assert forall|i: int| 0 <= i < n implies (#[trigger] tasks[i]).done by {
                assert(rest[i].done);
            }
        } else {
            let i = choose|i: int| 0 <= i < n && !(#[trigger] rest[i]).done;
            assert(!tasks[i].done);
        }
        if forall|i: int| 0 <= i < n ==> !(#[trigger] rest[i]).done {
            assert forall|i: int| 0 <= i < n implies !(#[trigger] tasks[i]).done by {
                assert(!rest[i].done);
            }
        } else {
            let i = choose|i: int| 0 <= i < n && (#[trigger] rest[i]).done;
            assert(tasks[i].done);
        }
    }
}

// --- what is open --------------------------------------------------------------

/// The open tasks of a page stand in the list behind those of the pages before.
proof fn open_until_places(pages: Seq<PageV>, today: int)
    ensures
        ({
            let on = |page: PageV| page.date <= today;
            let open = |t: TaskV| !t.done;
            &&& open_until(pages, today).len() == ahead(pages, on, open, pages.len() as int)
            &&& forall|p: int, i: int|
                0 <= p < pages.len() && pages[p].date <= today && 0 <= i < pages[p].tasks.len()
                    && !(#[trigger] pages[p].tasks[i]).done ==> {
                    let at = ahead(pages, on, open, p) + among(pages[p].tasks, open, i);
                    0 <= at < open_until(pages, today).len() && open_until(pages, today)[at] == (
                    Listed { date: pages[p].date, task: pages[p].tasks[i] })
                }
        }),
    decreases pages.len(),
{
    let on = |page: PageV| page.date <= today;
    let open = |t: TaskV| !t.done;
    if pages.len() > 0 {
        let rest = pages.drop_last();
        let last = pages.last();
        let n = rest.len() as int;
        open_until_places(rest, today);
        ahead_alike(rest, pages, on, open, n);
        filter_places(last.tasks, open);
        assert forall|p: int, i: int|
            0 <= p < pages.len() && pages[p].date <= today && 0 <= i < pages[p].tasks.len()
                && !(#[trigger] pages[p].tasks[i]).done implies {
            let at = ahead(pages, on, open, p) + among(pages[p].tasks, open, i);
            0 <= at < open_until(pages, today).len() && open_until(pages, today)[at] == (Listed {
                date: pages[p].date,
                task: pages[p].tasks[i],
            })
        } by {
            ahead_alike(rest, pages, on, open, p);
            ahead_grows(pages, on, open, p, n);
            if p < n {
                assert(!rest[p].tasks[i].done);
            } else {
                assert(open(last.tasks[i]));
            }
        }
    }
}

/// Lists with the same elements hold the same.
proof fn same_members(a: Seq<Listed>, b: Seq<Listed>, l: Listed)
    requires
        a.to_multiset() == b.to_multiset(),
    ensures
        a.contains(l) == b.contains(l),
{
    a.to_multiset_ensures();
    b.to_multiset_ensures();
    assert(a.contains(l) <==> a.to_multiset().count(l) > 0);
    assert(b.contains(l) <==> b.to_multiset().count(l) > 0);
}

/// What a list holds, it holds by age.
proof fn by_age_holds(list: Seq<Listed>, a: int) -> (k: int)
    requires
        0 <= a < list.len(),
    ensures
        0 <= k < by_age(list).len(),
        by_age(list)[k] == list[a],
{
    by_age_is_by_age(list);
    assert(list.contains(list[a]));
    same_members(list, by_age(list), list[a]);
    choose|k: int| 0 <= k < by_age(list).len() && by_age(list)[k] == list[a]
}

/// Two tasks of a list keep their order by age unless the second was written down before the first.
proof fn by_age_keeps_order(list: Seq<Listed>, a: int, b: int) -> (at: (int, int))
    requires
        0 <= a < b < list.len(),
        list[a].task.created <= list[b].task.created,
    ensures
        0 <= at.0 < at.1 < by_age(list).len(),
        by_age(list)[at.0] == list[a],
        by_age(list)[at.1] == list[b],
    decreases list.len(),
{
    let rest = list.drop_last();
    let last = list.last();
    let before = by_age(rest);
    by_age_is_by_age(rest);
    let p = age_place(before, last.task.created, 0);
    age_place_facts(before, last.task.created, 0);
    let after = by_age(list);
    assert(after == before.insert(p, last));
    if b < rest.len() {
        let (x, y) = by_age_keeps_order(rest, a, b);
        let x2 = if x < p {
            x
        } else {
            x + 1
        };
        let y2 = if y < p {
            y
        } else {
            y + 1
        };
        assert(after[x2] == before[x] && after[y2] == before[y]);
        (x2, y2)
    } else {
        let x = by_age_holds(rest, a);
        if x >= p {
            assert(before[p].task.created > last.task.created);
            if x > p {
                assert(before[p].task.created <= before[x].task.created);
            }
        }
        assert(after[x] == before[x] && after[p] == last);
        (x, p)
    }
}

/// The open tasks are those listed today or earlier that are not done, each of them once. They come
/// in the order of the days they were written down, and what was written down on one day in the order
/// of the pages and in manual order.
pub proof fn open_tasks_are_listed_by_age(s: StoreV, today: int)
    ensures
        s.open_tasks(today).len() == ahead(
            s.days,
            |page: PageV| page.date <= today,
            |t: TaskV| !t.done,
            s.days.len() as int,
        ),
        forall|k: int|
            0 <= k < s.open_tasks(today).len() ==> {
                let l = #[trigger] s.open_tasks(today)[k];
                !l.task.done && l.date <= today && exists|p: int|
                    0 <= p < s.days.len() && (#[trigger] s.days[p]).date == l.date
                        && s.days[p].tasks.contains(l.task)
            },
        forall|p: int, i: int|
            0 <= p < s.days.len() && s.days[p].date <= today && 0 <= i < s.days[p].tasks.len()
                && !(#[trigger] s.days[p].tasks[i]).done ==> s.open_tasks(today).contains(
                Listed { date: s.days[p].date, task: s.days[p].tasks[i] },
            ),
        forall|j: int, k: int|
            0 <= j < k < s.open_tasks(today).len() ==> (#[trigger] s.open_tasks(
                today,
            )[j]).task.created <= (#[trigger] s.open_tasks(today)[k]).task.created,
{
    let list = open_until(s.days, today);
    let aged = s.open_tasks(today);
    open_until_places(s.days, today);
    open_tasks_are_open(s.days, today);
    by_age_is_by_age(list);
    assert forall|k: int| 0 <= k < aged.len() implies {
        let l = #[trigger] aged[k];
        !l.task.done && l.date <= today && exists|p: int|
            0 <= p < s.days.len() && (#[trigger] s.days[p]).date == l.date
                && s.days[p].tasks.contains(l.task)
    } by {
        assert(aged.contains(aged[k]));
        same_members(list, aged, aged[k]);
        let j = choose|j: int| 0 <= j < list.len() && list[j] == aged[k];
        assert(list[j] == aged[k]);
    }
    assert forall|p: int, i: int|
        0 <= p < s.days.len() && s.days[p].date <= today && 0 <= i < s.days[p].tasks.len()
            && !(#[trigger] s.days[p].tasks[i]).done implies aged.contains(
        Listed { date: s.days[p].date, task: s.days[p].tasks[i] },
    ) by {
        let l = Listed { date: s.days[p].date, task: s.days[p].tasks[i] };
        assert(list.contains(l));
        same_members(list, aged, l);
    }
}

/// Of two open tasks, the one on the earlier page, or before the other on the same page, is listed
/// first, unless it was written down later.
pub proof fn open_tasks_of_one_age_keep_their_order(
    s: StoreV,
    today: int,
    p: int,
    i: int,
    q: int,
    j: int,
)
    requires
        0 <= p <= q < s.days.len(),
        s.days[p].date <= today,
        s.days[q].date <= today,
        0 <= i < s.days[p].tasks.len(),
        0 <= j < s.days[q].tasks.len(),
        !s.days[p].tasks[i].done,
        !s.days[q].tasks[j].done,
        p < q || i < j,
        s.days[p].tasks[i].created <= s.days[q].tasks[j].created,
    ensures
        exists|a: int, b: int|
            0 <= a < b < s.open_tasks(today).len() && #[trigger] s.open_tasks(today)[a] == (Listed {
                date: s.days[p].date,
                task: s.days[p].tasks[i],
            }) && #[trigger] s.open_tasks(today)[b] == (Listed {
                date: s.days[q].date,
                task: s.days[q].tasks[j],
            }),
{
    let on = |page: PageV| page.date <= today;
    let open = |t: TaskV| !t.done;
    open_until_places(s.days, today);
    let a = ahead(s.days, on, open, p) + among(s.days[p].tasks, open, i);
    let b = ahead(s.days, on, open, q) + among(s.days[q].tasks, open, j);
    assert(open(s.days[p].tasks[i]) && on(s.days[p]));
    if p < q {
        among_grows(s.days[p].tasks, open, i, s.days[p].tasks.len() as int);
        among_grows(s.days[q].tasks, open, 0, j);
        ahead_grows(s.days, on, open, p, q);
    } else {
        among_grows(s.days[p].tasks, open, i, j);
    }
    let (x, y) = by_age_keeps_order(open_until(s.days, today), a, b);
    assert(s.open_tasks(today)[x] == open_until(s.days, today)[a]);
    assert(s.open_tasks(today)[y] == open_until(s.days, today)[b]);
}

} // verus!
