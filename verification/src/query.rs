//! What can be read off the list of tasks: progress, reminders, orders, search and statistics.

use vstd::prelude::*;

use crate::date::{Date, Time, MIN_DAY};
use crate::model::{Store, StoreV};
use crate::pages::{task_views, PageV};
use crate::task::{opt_text, Priority, Task, TaskV};
use crate::text::{contains, has_part, lowered, to_lowercase, trim, trimmed};

verus! {

// --- progress and reminders ----------------------------------------------------

/// How many of the tasks are done.
pub open spec fn done_count(tasks: Seq<TaskV>) -> nat
    decreases tasks.len(),
{
    if tasks.len() == 0 {
        0
    } else if tasks.last().done {
        done_count(tasks.drop_last()) + 1
    } else {
        done_count(tasks.drop_last())
    }
}

/// Whether a task waits for a reminder that is due at `now` (`due`), or later than that (not
/// `due`).
pub open spec fn waits(t: TaskV, now: int, due: bool) -> bool {
    !t.done && t.remind is Some && (t.remind->Some_0 <= now) == due
}

/// The position of the first task with the earliest reminder among those that wait.
pub open spec fn earliest(tasks: Seq<TaskV>, now: int, due: bool) -> Option<int>
    decreases tasks.len(),
{
    if tasks.len() == 0 {
        None
    } else {
        let best = earliest(tasks.drop_last(), now, due);
        let t = tasks.last();
        if waits(t, now, due) && (best is None || t.remind->Some_0
            < tasks[best->Some_0].remind->Some_0) {
            Some(tasks.len() - 1)
        } else {
            best
        }
    }
}

/// The position that `earliest` finds is the one of a waiting task.
pub proof fn earliest_waits(tasks: Seq<TaskV>, now: int, due: bool)
    ensures
        match earliest(tasks, now, due) {
            Some(i) => 0 <= i < tasks.len() && waits(tasks[i], now, due),
            None => true,
        },
    decreases tasks.len(),
{
    if tasks.len() > 0 {
        earliest_waits(tasks.drop_last(), now, due);
    }
}

/// What a task that may be missing holds.
pub open spec fn opt_task(t: Option<&Task>) -> Option<TaskV> {
    match t {
        Some(t) => Some(t@),
        None => None,
    }
}

/// The task at a position that may be missing.
pub open spec fn task_at(tasks: Seq<TaskV>, i: Option<int>) -> Option<TaskV> {
    match i {
        Some(i) => Some(tasks[i]),
        None => None,
    }
}

/// The position of the first task with the earliest reminder among those that wait.
fn find_earliest(tasks: &[Task], now: Time, due: bool) -> (r: Option<usize>)
    ensures
        match r {
            Some(i) => earliest(task_views(tasks@), now@, due) == Some(i as int) && i < tasks@.len(),
            None => earliest(task_views(tasks@), now@, due) is None,
        },
{
    let ghost all = task_views(tasks@);
    let mut best: Option<usize> = None;
    let mut i: usize = 0;
    while i < tasks.len()
        invariant
            i <= tasks@.len(),
            all == task_views(tasks@),
            match best {
                Some(b) => earliest(all.take(i as int), now@, due) == Some(b as int) && b < i,
                None => earliest(all.take(i as int), now@, due) is None,
            },
        decreases tasks@.len() - i,
    {
        proof {
            assert(all.take(i + 1).drop_last() =~= all.take(i as int));
            earliest_waits(all.take(i as int), now@, due);
        }
        let t = &tasks[i];
        assert(all[i as int] == t@);
        if let Some(remind) = t.remind {
            if !t.done && !now.before(remind) == due {
                let first = match best {
                    None => true,
                    Some(b) => match tasks[b].remind {
                        Some(other) => remind.before(other),
                        None => false,
                    },
                };
                if first {
                    best = Some(i);
                }
            }
        }
        i += 1;
    }
    assert(all.take(all.len() as int) =~= all);
    best
}

impl Store {
    /// `(done, total)` for the given day.
    pub fn progress(&self, date: Date) -> (r: (usize, usize))
        ensures
            r.0 == done_count(self@.on(date@)),
            r.1 == self@.on(date@).len(),
    {
        let tasks = self.tasks(date);
        let ghost all = task_views(tasks@);
        let mut done: usize = 0;
        let mut i: usize = 0;
        while i < tasks.len()
            invariant
                i <= tasks@.len(),
                all == task_views(tasks@),
                done == done_count(all.take(i as int)),
                done <= i,
            decreases tasks@.len() - i,
        {
            assert(all.take(i + 1).drop_last() =~= all.take(i as int));
            if tasks[i].done {
                done += 1;
            }
            i += 1;
        }
        assert(all.take(all.len() as int) =~= all);
        (done, tasks.len())
    }

    /// The earliest unfinished reminder on `date`, split into overdue
    /// (`<= now`) and upcoming (`> now`). Only meaningful for today.
    pub fn reminders(&self, date: Date, now: Time) -> (r: (Option<&Task>, Option<&Task>))
        ensures
            opt_task(r.0) == task_at(self@.on(date@), earliest(self@.on(date@), now@, true)),
            opt_task(r.1) == task_at(self@.on(date@), earliest(self@.on(date@), now@, false)),
    {
        let tasks = self.tasks(date);
        let overdue = match find_earliest(tasks, now, true) {
            Some(i) => {
                assert(task_views(tasks@)[i as int] == tasks@[i as int]@);
                Some(&tasks[i])
            },
            None => None,
        };
        let upcoming = match find_earliest(tasks, now, false) {
            Some(i) => {
                assert(task_views(tasks@)[i as int] == tasks@[i as int]@);
                Some(&tasks[i])
            },
            None => None,
        };
        (overdue, upcoming)
    }
}

// --- the sorted order ----------------------------------------------------------

/// The weight of a priority: the more it matters, the more it weighs.
pub open spec fn weight(p: Priority) -> int {
    match p {
        Priority::Plain => 0,
        Priority::Low => 1,
        Priority::High => 2,
    }
}

/// The weight of a priority.
fn to_weight(p: Priority) -> (r: u8)
    ensures
        r == weight(p),
{
    match p {
        Priority::Plain => 0,
        Priority::Low => 1,
        Priority::High => 2,
    }
}

/// Whether `a` goes before `b` whatever their manual order: open before done, overdue reminders
/// first, then by priority, then those with a reminder, the earlier one first.
pub open spec fn goes_before(a: TaskV, b: TaskV, listed: int, today: int, now: int) -> bool {
    if a.done != b.done {
        b.done
    } else if a.overdue(listed, today, now) != b.overdue(listed, today, now) {
        a.overdue(listed, today, now)
    } else if a.priority != b.priority {
        weight(a.priority) > weight(b.priority)
    } else if (a.remind is Some) != (b.remind is Some) {
        a.remind is Some
    } else {
        a.remind is Some && a.remind->Some_0 < b.remind->Some_0
    }
}

/// The place in `order`, from `k` on, of the first task that `t` goes before, or the end.
pub open spec fn sort_place(
    order: Seq<int>,
    tasks: Seq<TaskV>,
    t: TaskV,
    listed: int,
    today: int,
    now: int,
    k: int,
) -> int
    decreases order.len() - k,
{
    if k < order.len() && !goes_before(t, tasks[order[k]], listed, today, now) {
        sort_place(order, tasks, t, listed, today, now, k + 1)
    } else {
        k
    }
}

/// The sorted order of the first `n` tasks: each is put behind those that it does not go before.
pub open spec fn sorted_order(
    tasks: Seq<TaskV>,
    n: int,
    listed: int,
    today: int,
    now: int,
) -> Seq<int>
    decreases n,
{
    if n <= 0 {
        Seq::empty()
    } else {
        let order = sorted_order(tasks, n - 1, listed, today, now);
        order.insert(sort_place(order, tasks, tasks[n - 1], listed, today, now, 0), n - 1)
    }
}

impl StoreV {
    /// The display order for `date`: overdue reminders first, then by priority, then by reminder
    /// time, then in manual order, with the done tasks at the end.
    pub open spec fn sorted_indices(self, date: int, today: int, now: int) -> Seq<int> {
        sorted_order(self.on(date), self.on(date).len() as int, date, today, now)
    }
}

/// What indices stand for.
pub open spec fn indices(list: Seq<usize>) -> Seq<int> {
    list.map_values(|i: usize| i as int)
}

impl Task {
    /// Whether it goes before `other` whatever their manual order.
    fn goes_before(&self, other: &Task, listed: Date, today: Date, now: Time) -> (r: bool)
        ensures
            r == goes_before(self@, other@, listed@, today@, now@),
    {
        let late = self.is_overdue(listed, today, now);
        if self.done != other.done {
            other.done
        } else if late != other.is_overdue(listed, today, now) {
            late
        } else if self.priority != other.priority {
            to_weight(self.priority) > to_weight(other.priority)
        } else {
            match (self.remind, other.remind) {
                (Some(a), Some(b)) => a.before(b),
                (Some(_), None) => true,
                (None, _) => false,
            }
        }
    }
}

impl Store {
    /// Display order for `date` with overdue reminders first, then priority
    /// (high → low → none), then reminder time, then manual order. Done tasks
    /// sink to the bottom.
    pub fn sorted_indices(&self, date: Date, today: Date, now: Time) -> (r: Vec<usize>)
        ensures
            indices(r@) == self@.sorted_indices(date@, today@, now@),
            forall|k: int| 0 <= k < r@.len() ==> #[trigger] r@[k] < self@.on(date@).len(),
    {
        let tasks = self.tasks(date);
        let ghost all = task_views(tasks@);
        let mut order: Vec<usize> = Vec::new();
        let mut i: usize = 0;
        assert(indices(order@) =~= Seq::<int>::empty());
        while i < tasks.len()
            invariant
                i <= tasks@.len(),
                all == task_views(tasks@),
                indices(order@) == sorted_order(all, i as int, date@, today@, now@),
                forall|k: int| 0 <= k < order@.len() ==> #[trigger] order@[k] < i,
            decreases tasks@.len() - i,
        {
            let mut k: usize = 0;
            while k < order.len() && !tasks[i].goes_before(&tasks[order[k]], date, today, now)
                invariant
                    i < tasks@.len(),
                    k <= order@.len(),
                    all == task_views(tasks@),
                    forall|k: int| 0 <= k < order@.len() ==> #[trigger] order@[k] < i,
                    sort_place(indices(order@), all, all[i as int], date@, today@, now@, 0)
                        == sort_place(
                        indices(order@),
                        all,
                        all[i as int],
                        date@,
                        today@,
                        now@,
                        k as int,
                    ),
                decreases order@.len() - k,
            {
                assert(indices(order@)[k as int] == order@[k as int]);
                k += 1;
            }
            assert(k < order@.len() ==> indices(order@)[k as int] == order@[k as int]);
            let ghost before = order@;
            order.insert(k, i);
            proof {
                assert(indices(order@) =~= indices(before).insert(k as int, i as int));
                assert forall|j: int| 0 <= j < order@.len() implies #[trigger] order@[j] < i + 1 by {
                    if j < k {
                        assert(order@[j] == before[j]);
                    } else if j > k {
                        assert(order@[j] == before[j - 1]);
                    }
                }
            }
            i += 1;
        }
        order
    }
}

// --- search --------------------------------------------------------------------

/// Whether a task matches a query that is trimmed and in lower case: its text or its note has it
/// as a part, whatever the case of the letters.
pub open spec fn matches_query(t: TaskV, query: Seq<char>) -> bool {
    has_part(lowered(t.text), query) || (t.note is Some && has_part(
        lowered(t.note->Some_0),
        query,
    ))
}

/// The hits on one page, in manual order.
pub open spec fn page_hits(page: PageV, query: Seq<char>, n: int) -> Seq<(int, int)>
    decreases n,
{
    if n <= 0 {
        Seq::empty()
    } else if matches_query(page.tasks[n - 1], query) {
        page_hits(page, query, n - 1).push((page.date, n - 1))
    } else {
        page_hits(page, query, n - 1)
    }
}

/// The hits on all pages, newest day first.
pub open spec fn all_hits(pages: Seq<PageV>, query: Seq<char>) -> Seq<(int, int)>
    decreases pages.len(),
{
    if pages.len() == 0 {
        Seq::empty()
    } else {
        page_hits(pages.last(), query, pages.last().tasks.len() as int) + all_hits(
            pages.drop_last(),
            query,
        )
    }
}

impl StoreV {
    /// The hits for a query as it was typed; none for an empty one.
    pub open spec fn search(self, query: Seq<char>) -> Seq<(int, int)> {
        if lowered(trimmed(query)).len() == 0 {
            Seq::empty()
        } else {
            all_hits(self.days, lowered(trimmed(query)))
        }
    }
}

/// What search hits stand for.
pub open spec fn hits(list: Seq<(Date, usize)>) -> Seq<(int, int)> {
    list.map_values(|h: (Date, usize)| (h.0@, h.1 as int))
}

/// Whether a text or a note has a query as a part.
pub open spec fn part_of_either(
    text: Seq<char>,
    note: Option<Seq<char>>,
    query: Seq<char>,
) -> bool {
    has_part(text, query) || (note is Some && has_part(note->Some_0, query))
}

/// Whether a text or a note has a query as a part; all three are in lower case.
pub fn either_has(text: &str, note: &Option<String>, query: &str) -> (r: bool)
    ensures
        r == part_of_either(text@, opt_text(*note), query@),
{
    if contains(text, query) {
        return true;
    }
    match note {
        Some(note) => contains(note.as_str(), query),
        None => false,
    }
}

impl Task {
    /// Whether the task matches a query that is trimmed and in lower case.
    fn matches_query(&self, query: &str) -> (r: bool)
        ensures
            r == matches_query(self@, query@),
    {
        let note = match &self.note {
            Some(note) => Some(to_lowercase(note.as_str())),
            None => None,
        };
        either_has(to_lowercase(self.text.as_str()).as_str(), &note, query)
    }
}

impl Store {
    /// Case-insensitive substring search over text and notes, newest day first.
    pub fn search(&self, query: &str) -> (r: Vec<(Date, usize)>)
        ensures
            hits(r@) == self@.search(query@),
    {
        self.search_lowered(to_lowercase(trim(query).as_str()).as_str())
    }

    /// The tasks that match a query that is trimmed and in lower case, newest day first; none for
    /// an empty one.
    pub fn search_lowered(&self, query: &str) -> (r: Vec<(Date, usize)>)
        ensures
            hits(r@) == (if query@.len() == 0 {
                Seq::empty()
            } else {
                all_hits(self@.days, query@)
            }),
    {
        let mut found: Vec<(Date, usize)> = Vec::new();
        assert(hits(found@) =~= Seq::<(int, int)>::empty());
        if query.is_empty() {
            return found;
        }
        let ghost pages = self@.days;
        let mut p: usize = self.days.len();
        assert(pages.take(p as int) =~= pages);
        while p > 0
            invariant
                p <= self.days@.len(),
                pages == self@.days,
                hits(found@) + all_hits(pages.take(p as int), query@) == all_hits(pages, query@),
            decreases p,
        {
            let page = &self.days[p - 1];
            let ghost before = hits(found@);
            assert(page@ == pages[p - 1]);
            assert(pages.take(p as int).drop_last() =~= pages.take(p - 1));
            let mut i: usize = 0;
            assert(hits(found@) =~= before + page_hits(page@, query@, 0));
            while i < page.tasks.len()
                invariant
                    i <= page.tasks@.len(),
                    hits(found@) == before + page_hits(page@, query@, i as int),
                decreases page.tasks@.len() - i,
            {
                assert(page@.tasks[i as int] == page.tasks@[i as int]@);
                if page.tasks[i].matches_query(query) {
                    let ghost shorter = found@;
                    found.push((page.date, i));
                    proof {
                        assert(hits(found@) =~= hits(shorter).push((page@.date, i as int)));
                        assert(hits(found@) =~= before + page_hits(page@, query@, i + 1));
                    }
                }
                i += 1;
            }
            proof {
                let more = page_hits(page@, query@, page.tasks@.len() as int);
                let rest = all_hits(pages.take(p - 1), query@);
                assert(before + (more + rest) =~= (before + more) + rest);
            }
            p -= 1;
        }
        assert(hits(found@) + all_hits(pages.take(0), query@) =~= hits(found@));
        found
    }
}

// --- what was done, and what is open -------------------------------------------

/// What references to tasks hold.
pub open spec fn ref_views(list: Seq<&Task>) -> Seq<TaskV> {
    list.map_values(|t: &Task| t@)
}

/// The tasks that were completed from day `from` to day `to`, wherever they are listed.
pub open spec fn completed(pages: Seq<PageV>, from: int, to: int) -> Seq<TaskV>
    decreases pages.len(),
{
    if pages.len() == 0 {
        Seq::empty()
    } else {
        completed(pages.drop_last(), from, to) + pages.last().tasks.filter(
            |t: TaskV| t.completed is Some && from <= t.completed->Some_0 <= to,
        )
    }
}

/// A task as it is listed on a day.
#[verifier::ext_equal]
pub ghost struct Listed {
    pub date: int,
    pub task: TaskV,
}

/// The open tasks of one page.
pub open spec fn open_on(page: PageV) -> Seq<Listed> {
    page.tasks.filter(|t: TaskV| !t.done).map_values(
        |t: TaskV| Listed { date: page.date, task: t },
    )
}

/// The open tasks listed today or earlier, in the order of the pages.
pub open spec fn open_until(pages: Seq<PageV>, today: int) -> Seq<Listed>
    decreases pages.len(),
{
    if pages.len() == 0 {
        Seq::empty()
    } else if pages.last().date <= today {
        open_until(pages.drop_last(), today) + open_on(pages.last())
    } else {
        open_until(pages.drop_last(), today)
    }
}

/// The place in the list, from `k` on, of the first task written down after day `created`, or the
/// end.
pub open spec fn age_place(list: Seq<Listed>, created: int, k: int) -> int
    decreases list.len() - k,
{
    if k < list.len() && list[k].task.created <= created {
        age_place(list, created, k + 1)
    } else {
        k
    }
}

/// The list in the order of the days the tasks were written down; tasks of one day stay in order.
pub open spec fn by_age(list: Seq<Listed>) -> Seq<Listed>
    decreases list.len(),
{
    if list.len() == 0 {
        Seq::empty()
    } else {
        let rest = by_age(list.drop_last());
        rest.insert(age_place(rest, list.last().task.created, 0), list.last())
    }
}

impl StoreV {
    /// The tasks completed on `date`.
    pub open spec fn completed_on(self, date: int) -> Seq<TaskV> {
        completed(self.days, date, date)
    }

    /// The unfinished tasks listed today or earlier, oldest first.
    pub open spec fn open_tasks(self, today: int) -> Seq<Listed> {
        by_age(open_until(self.days, today))
    }
}

/// What listed tasks hold.
pub open spec fn listed(list: Seq<(Date, &Task)>) -> Seq<Listed> {
    list.map_values(|l: (Date, &Task)| Listed { date: l.0@, task: l.1@ })
}

/// The place of an age from `k` on is no less than `k` and no more than the length.
pub proof fn age_place_bound(list: Seq<Listed>, created: int, k: int)
    requires
        0 <= k <= list.len(),
    ensures
        k <= age_place(list, created, k) <= list.len(),
    decreases list.len() - k,
{
    if k < list.len() && list[k].task.created <= created {
        age_place_bound(list, created, k + 1);
    }
}

/// Sorting keeps the number of tasks.
pub proof fn by_age_len(list: Seq<Listed>)
    ensures
        by_age(list).len() == list.len(),
    decreases list.len(),
{
    if list.len() > 0 {
        by_age_len(list.drop_last());
        age_place_bound(by_age(list.drop_last()), list.last().task.created, 0);
    }
}

impl Store {
    /// The tasks that were completed from day `from` to day `to`, wherever they are listed.
    fn completed_between(&self, from: i32, to: i32) -> (r: Vec<&Task>)
        ensures
            ref_views(r@) == completed(self@.days, from as int, to as int),
    {
        let ghost pages = self@.days;
        let mut found: Vec<&Task> = Vec::new();
        let mut p: usize = 0;
        assert(ref_views(found@) =~= completed(pages.take(0), from as int, to as int));
        while p < self.days.len()
            invariant
                p <= self.days@.len(),
                pages == self@.days,
                ref_views(found@) == completed(pages.take(p as int), from as int, to as int),
            decreases self.days@.len() - p,
        {
            let page = &self.days[p];
            let ghost before = ref_views(found@);
            let ghost keep = |t: TaskV|
                t.completed is Some && from <= t.completed->Some_0 <= to;
            let ghost all = page@.tasks;
            assert(page@ == pages[p as int]);
            assert(pages.take(p + 1).drop_last() =~= pages.take(p as int));
            let mut i: usize = 0;
            proof {
                reveal(Seq::filter);
                assert(ref_views(found@) =~= before + all.take(0).filter(keep));
            }
            while i < page.tasks.len()
                invariant
                    i <= page.tasks@.len(),
                    all == page@.tasks,
                    keep == (|t: TaskV| t.completed is Some && from <= t.completed->Some_0 <= to),
                    ref_views(found@) == before + all.take(i as int).filter(keep),
                decreases page.tasks@.len() - i,
            {
                let task = &page.tasks[i];
                proof {
                    reveal(Seq::filter);
                    assert(all[i as int] == task@);
                    assert(all.take(i + 1).drop_last() =~= all.take(i as int));
                }
                let ghost shorter = found@;
                let hit = match task.completed {
                    Some(day) => from <= day.day() && day.day() <= to,
                    None => false,
                };
                if hit {
                    found.push(task);
                    proof {
                        assert(ref_views(found@) =~= ref_views(shorter).push(task@));
                        assert(ref_views(found@) =~= before + all.take(i + 1).filter(keep));
                    }
                }
                i += 1;
            }
            assert(all.take(all.len() as int) =~= all);
            p += 1;
        }
        assert(pages.take(pages.len() as int) =~= pages);
        found
    }

    /// Tasks completed on `date`, wherever they are listed.
    pub fn completed_on(&self, date: Date) -> (r: Vec<&Task>)
        ensures
            ref_views(r@) == self@.completed_on(date@),
    {
        self.completed_between(date.day(), date.day())
    }

    /// Unfinished tasks listed today or earlier, oldest first.
    pub fn open_tasks(&self, today: Date) -> (r: Vec<(Date, &Task)>)
        ensures
            listed(r@) == self@.open_tasks(today@),
    {
        let ghost pages = self@.days;
        let mut open: Vec<(Date, &Task)> = Vec::new();
        let mut p: usize = 0;
        assert(listed(open@) =~= by_age(open_until(pages.take(0), today@)));
        while p < self.days.len()
            invariant
                p <= self.days@.len(),
                pages == self@.days,
                listed(open@) == by_age(open_until(pages.take(p as int), today@)),
            decreases self.days@.len() - p,
        {
            let page = &self.days[p];
            let ghost before = open_until(pages.take(p as int), today@);
            let ghost all = page@.tasks;
            assert(page@ == pages[p as int]);
            assert(pages.take(p + 1).drop_last() =~= pages.take(p as int));
            if !today.before(page.date) {
                let mut i: usize = 0;
                proof {
                    reveal(Seq::filter);
                    let none = PageV { date: page@.date, tasks: all.take(0) };
                    assert(before =~= before + open_on(none));
                }
                while i < page.tasks.len()
                    invariant
                        i <= page.tasks@.len(),
                        all == page@.tasks,
                        listed(open@) == by_age(
                            before + open_on(
                                PageV { date: page@.date, tasks: all.take(i as int) },
                            ),
                        ),
                    decreases page.tasks@.len() - i,
                {
                    let task = &page.tasks[i];
                    let ghost short = PageV { date: page@.date, tasks: all.take(i as int) };
                    let ghost long = PageV { date: page@.date, tasks: all.take(i + 1) };
                    proof {
                        reveal(Seq::filter);
                        assert(all[i as int] == task@);
                        assert(all.take(i + 1).drop_last() =~= all.take(i as int));
                    }
                    if !task.done {
                        let ghost sorted = listed(open@);
                        let mut k: usize = 0;
                        while k < open.len() && !task.created.before(open[k].1.created)
                            invariant
                                k <= open@.len(),
                                sorted == listed(open@),
                                age_place(sorted, task@.created, 0) == age_place(
                                    sorted,
                                    task@.created,
                                    k as int,
                                ),
                            decreases open@.len() - k,
                        {
                            assert(sorted[k as int].task == open@[k as int].1@);
                            k += 1;
                        }
                        assert(k < open@.len() ==> sorted[k as int].task == open@[k as int].1@);
                        let ghost shorter = open@;
                        open.insert(k, (page.date, task));
                        proof {
                            let new = Listed { date: page@.date, task: task@ };
                            assert(listed(open@) =~= sorted.insert(k as int, new));
                            assert(open_on(long) =~= open_on(short).push(new));
                            assert((before + open_on(long)) =~= (before + open_on(short)).push(
                                new,
                            ));
                            assert((before + open_on(short)).push(new).drop_last() =~= before
                                + open_on(short));
                        }
                    } else {
                        assert(open_on(long) =~= open_on(short));
                    }
                    i += 1;
                }
                assert(all.take(all.len() as int) =~= all);
            }
            p += 1;
        }
        assert(pages.take(pages.len() as int) =~= pages);
        open
    }
}

// --- statistics ----------------------------------------------------------------

/// Summary numbers for the review screen.
#[derive(Debug, Clone, Copy, PartialEq, Eq, Default)]
pub struct Stats {
    /// Consecutive days (ending today or yesterday) with at least one task completed.
    pub streak: u32,
    pub done_last_7_days: usize,
    /// Unfinished tasks listed today or earlier.
    pub open: usize,
}

impl StoreV {
    /// How many days in a row up to `day` have at least one task completed on them. The count ends
    /// at the first day that can be represented.
    pub open spec fn streak_to(self, day: int) -> nat
        decreases day - MIN_DAY + 1,
    {
        if day < MIN_DAY || self.completed_on(day).len() == 0 {
            0
        } else {
            self.streak_to(day - 1) + 1
        }
    }

    /// Whether there are tasks on `today` and all of them are done.
    pub open spec fn all_done(self, today: int) -> bool {
        self.on(today).len() > 0 && done_count(self.on(today)) == self.on(today).len()
    }

    /// The streak as of `today`, which counts itself once everything on it is done and something
    /// was completed on it.
    pub open spec fn streak(self, today: int) -> nat {
        if self.all_done(today) && self.completed_on(today).len() > 0 {
            self.streak_to(today)
        } else {
            self.streak_to(today - 1)
        }
    }

    /// How many tasks were completed on `today` and on the six days before it.
    pub open spec fn done_recently(self, today: int) -> nat {
        completed(self.days, today - 6, today).len()
    }
}

impl Store {
    /// The summary numbers as of `today`.
    pub fn stats(&self, today: Date) -> (r: Stats)
        ensures
            r.streak == self@.streak(today@),
            r.done_last_7_days == self@.done_recently(today@),
            r.open == self@.open_tasks(today@).len(),
    {
        let (done, total) = self.progress(today);
        let now = today.day();
        let finished = total > 0 && done == total && self.completed_between(now, now).len() > 0;
        let mut day: i32 = if finished {
            now
        } else {
            now - 1
        };
        let mut streak: u32 = 0;
        let ghost start = day as int;
        while day >= MIN_DAY && self.completed_between(day, day).len() > 0
            invariant
                MIN_DAY - 1 <= day <= start <= now,
                now <= 100_000_000,
                streak == start - day,
                self@.streak_to(start) == streak + self@.streak_to(day as int),
            decreases day - MIN_DAY + 1,
        {
            streak += 1;
            day -= 1;
        }
        let recent = self.completed_between(now - 6, now);
        let open = self.open_tasks(today);
        Stats { streak, done_last_7_days: recent.len(), open: open.len() }
    }
}

} // verus!
