//! What the commands give: which reminders are due, and what an export holds.

use vstd::prelude::*;

use crate::cli::{
    all_due, any_day_shown, body_text, command_of, dates_of, day_shown, due_in, export_range,
    fell_due, list_sections, markdown, notify_window, priority_mark, quoted_lines, summary_text,
    task_text, with_day_section, with_day_sections, with_task_lines, without_show_hidden, ArgsFault,
    Command, Due, ExportRangeV, NamedStore,
};
use crate::date::{clock_text, date_of_text, earlier, long_date, moment, DAY_TICKS};
use crate::date_laws::earlier_is_that_many_seconds;
use crate::model::StoreV;
use crate::order::{among, among_grows, filter_places, filter_sources, same_filter};
use crate::pages::PageV;
use crate::task::{MASK, Priority, TaskV};
use crate::text::{is_white, lines_of, unsigned};
use crate::text_laws::trim_back_is_the_start;

verus! {

// --- due reminders -------------------------------------------------------------

/// Whether a task is open and has a reminder whose moment on `day` lies behind `start` and not
/// behind `now`.
pub open spec fn open_and_due(day: int, start: int, now: int) -> spec_fn(TaskV) -> bool {
    |t: TaskV|
        match t.remind {
            Some(time) => !t.done && start < day * 172_800_000_000_000 + time && day
                * 172_800_000_000_000 + time <= now,
            None => false,
        }
}

/// How many tasks of a kind the first `n` lists have on `day`.
pub open spec fn listed_before(
    lists: Seq<NamedStore>,
    day: int,
    keep: spec_fn(TaskV) -> bool,
    n: int,
) -> int
    decreases n,
{
    if n <= 0 {
        0
    } else {
        listed_before(lists, day, keep, n - 1) + among(
            lists[n - 1].store.on(day),
            keep,
            lists[n - 1].store.on(day).len() as int,
        )
    }
}

/// Lists that begin alike have as many tasks in their first lists.
proof fn listed_before_alike(
    a: Seq<NamedStore>,
    b: Seq<NamedStore>,
    day: int,
    keep: spec_fn(TaskV) -> bool,
    n: int,
)
    requires
        forall|i: int| 0 <= i < n ==> #[trigger] a[i] == b[i],
    ensures
        listed_before(a, day, keep, n) == listed_before(b, day, keep, n),
    decreases n,
{
    if n > 0 {
        listed_before_alike(a, b, day, keep, n - 1);
        assert(a[n - 1] == b[n - 1]);
    }
}

/// More lists have no fewer tasks.
proof fn listed_before_grows(
    lists: Seq<NamedStore>,
    day: int,
    keep: spec_fn(TaskV) -> bool,
    m: int,
    n: int,
)
    requires
        0 <= m <= n,
    ensures
        0 <= listed_before(lists, day, keep, m) <= listed_before(lists, day, keep, n),
        m < n ==> listed_before(lists, day, keep, m) + among(
            lists[m].store.on(day),
            keep,
            lists[m].store.on(day).len() as int,
        ) <= listed_before(lists, day, keep, n),
    decreases n,
{
    if n > 0 {
        let tasks = lists[n - 1].store.on(day);
        among_grows(tasks, keep, 0, tasks.len() as int);
    }
    if m < n {
        listed_before_grows(lists, day, keep, m, n - 1);
    } else if n > 0 {
        listed_before_grows(lists, day, keep, n - 1, n - 1);
    }
}

/// What is due in one list.
proof fn due_in_is(list: NamedStore, day: int, start: int, now: int)
    ensures
        due_in(list, day, start, now) == list.store.on(day).filter(
            open_and_due(day, start, now),
        ).map_values(|t: TaskV| Due { list: list.name, task: t }),
{
    same_filter(
        list.store.on(day),
        |t: TaskV| fell_due(t, day, start, now),
        open_and_due(day, start, now),
    );
}

/// Where the due tasks of each list stand.
proof fn due_places(lists: Seq<NamedStore>, day: int, start: int, now: int)
    ensures
        all_due(lists, day, start, now).len() == listed_before(
            lists,
            day,
            open_and_due(day, start, now),
            lists.len() as int,
        ),
        forall|l: int, i: int|
            0 <= l < lists.len() && 0 <= i < lists[l].store.on(day).len() && open_and_due(
                day,
                start,
                now,
            )(#[trigger] lists[l].store.on(day)[i]) ==> {
                let at = listed_before(lists, day, open_and_due(day, start, now), l) + among(
                    lists[l].store.on(day),
                    open_and_due(day, start, now),
                    i,
                );
                0 <= at < all_due(lists, day, start, now).len() && all_due(
                    lists,
                    day,
                    start,
                    now,
                )[at] == (Due { list: lists[l].name, task: lists[l].store.on(day)[i] })
            },
    decreases lists.len(),
{
    let keep = open_and_due(day, start, now);
    if lists.len() > 0 {
        let rest = lists.drop_last();
        let last = lists.last();
        let n = rest.len() as int;
        let tasks = last.store.on(day);
        due_places(rest, day, start, now);
        listed_before_alike(rest, lists, day, keep, n);
        due_in_is(last, day, start, now);
        filter_places(tasks, keep);
        let before = all_due(rest, day, start, now);
        let more = due_in(last, day, start, now);
        let all = all_due(lists, day, start, now);
        assert(all == before + more);
        assert forall|l: int, i: int|
            0 <= l < lists.len() && 0 <= i < lists[l].store.on(day).len() && keep(
                #[trigger] lists[l].store.on(day)[i],
            ) implies {
            let at = listed_before(lists, day, keep, l) + among(lists[l].store.on(day), keep, i);
            0 <= at < all.len() && all[at] == (Due {
                list: lists[l].name,
                task: lists[l].store.on(day)[i],
            })
        } by {
            listed_before_alike(rest, lists, day, keep, l);
            listed_before_grows(lists, day, keep, l, n);
            let at = listed_before(lists, day, keep, l) + among(lists[l].store.on(day), keep, i);
            if l < n {
                assert(rest[l] == lists[l]);
                assert(keep(rest[l].store.on(day)[i]));
                assert(all[at] == before[at]);
            } else {
                assert(lists[l] == last);
                let j = among(tasks, keep, i);
                assert(tasks.filter(keep)[j] == tasks[i]);
                assert(more[j] == (Due { list: last.name, task: tasks[i] }));
                assert(all[at] == more[j]);
            }
        }
    }
}

/// Where a due task comes from.
proof fn due_source(lists: Seq<NamedStore>, day: int, start: int, now: int, k: int) -> (at: (
    int,
    int,
))
    requires
        0 <= k < all_due(lists, day, start, now).len(),
    ensures
        0 <= at.0 < lists.len(),
        0 <= at.1 < lists[at.0].store.on(day).len(),
        open_and_due(day, start, now)(lists[at.0].store.on(day)[at.1]),
        all_due(lists, day, start, now)[k] == (Due {
            list: lists[at.0].name,
            task: lists[at.0].store.on(day)[at.1],
        }),
    decreases lists.len(),
{
    let rest = lists.drop_last();
    let before = all_due(rest, day, start, now);
    if lists.len() == 0 {
        (0, 0)
    } else if k < before.len() {
        due_source(rest, day, start, now, k)
    } else {
        let last = lists.last();
        due_in_is(last, day, start, now);
        let i = filter_sources(
            last.store.on(day),
            open_and_due(day, start, now),
            k - before.len(),
        );
        (rest.len() as int, i)
    }
}

/// The reminders that are due are those of the open tasks on that day's page of every list whose
/// moment lies behind `start` and not behind `now`. Each of them is given once, with the name of its
/// list, list by list and in manual order, and nothing else is.
pub proof fn due_reminders_are_those_of_open_tasks(
    lists: Seq<NamedStore>,
    day: int,
    start: int,
    now: int,
)
    ensures
        all_due(lists, day, start, now).len() == listed_before(
            lists,
            day,
            open_and_due(day, start, now),
            lists.len() as int,
        ),
        forall|l: int, i: int|
            0 <= l < lists.len() && 0 <= i < lists[l].store.on(day).len() && open_and_due(
                day,
                start,
                now,
            )(#[trigger] lists[l].store.on(day)[i]) ==> {
                let at = listed_before(lists, day, open_and_due(day, start, now), l) + among(
                    lists[l].store.on(day),
                    open_and_due(day, start, now),
                    i,
                );
                0 <= at < all_due(lists, day, start, now).len() && all_due(
                    lists,
                    day,
                    start,
                    now,
                )[at] == (Due { list: lists[l].name, task: lists[l].store.on(day)[i] })
            },
        forall|k: int|
            0 <= k < all_due(lists, day, start, now).len() ==> {
                let d = #[trigger] all_due(lists, day, start, now)[k];
                &&& !d.task.done
                &&& d.task.remind is Some
                &&& start < day * 172_800_000_000_000 + d.task.remind->Some_0
                &&& day * 172_800_000_000_000 + d.task.remind->Some_0 <= now
                &&& exists|l: int|
                    0 <= l < lists.len() && (#[trigger] lists[l]).name == d.list
                        && lists[l].store.on(day).contains(d.task)
            },
{
    due_places(lists, day, start, now);
    let all = all_due(lists, day, start, now);
    assert forall|k: int| 0 <= k < all.len() implies {
        let d = #[trigger] all[k];
        &&& !d.task.done
        &&& d.task.remind is Some
        &&& start < day * 172_800_000_000_000 + d.task.remind->Some_0
        &&& day * 172_800_000_000_000 + d.task.remind->Some_0 <= now
        &&& exists|l: int|
            0 <= l < lists.len() && (#[trigger] lists[l]).name == d.list && lists[l].store.on(
                day,
            ).contains(d.task)
    } by {
        let (l, i) = due_source(lists, day, start, now, k);
        assert(lists[l].store.on(day)[i] == all[k].task);
    }
}

/// With a window of some seconds, a reminder is due where its time of the day is not behind `now`,
/// and less than the window before it.
pub proof fn the_window_looks_back_from_now(
    lists: Seq<NamedStore>,
    day: int,
    ticks: int,
    window: int,
    k: int,
)
    requires
        0 <= ticks < DAY_TICKS,
        ticks % 2_000_000_000 < 1_000_000_000,
        0 <= k < all_due(
            lists,
            day,
            earlier(day, ticks, window),
            moment(day, ticks),
        ).len(),
    ensures
        ({
            let d = all_due(lists, day, earlier(day, ticks, window), moment(day, ticks))[k];
            &&& !d.task.done
            &&& d.task.remind is Some
            &&& ticks - window * 2_000_000_000 < d.task.remind->Some_0 <= ticks
        }),
{
    due_reminders_are_those_of_open_tasks(
        lists,
        day,
        earlier(day, ticks, window),
        moment(day, ticks),
    );
    earlier_is_that_many_seconds(day, ticks, window);
}

/// Every open task of the day with a reminder in the window is among those that are due.
pub proof fn no_reminder_in_the_window_is_missed(
    lists: Seq<NamedStore>,
    day: int,
    ticks: int,
    window: int,
    l: int,
    i: int,
)
    requires
        0 <= ticks < DAY_TICKS,
        ticks % 2_000_000_000 < 1_000_000_000,
        0 <= l < lists.len(),
        0 <= i < lists[l].store.on(day).len(),
        !lists[l].store.on(day)[i].done,
        lists[l].store.on(day)[i].remind is Some,
        ticks - window * 2_000_000_000 < lists[l].store.on(day)[i].remind->Some_0 <= ticks,
    ensures
        all_due(lists, day, earlier(day, ticks, window), moment(day, ticks)).contains(
            Due { list: lists[l].name, task: lists[l].store.on(day)[i] },
        ),
{
    let start = earlier(day, ticks, window);
    let now = moment(day, ticks);
    due_reminders_are_those_of_open_tasks(lists, day, start, now);
    earlier_is_that_many_seconds(day, ticks, window);
    assert(open_and_due(day, start, now)(lists[l].store.on(day)[i]));
}

// --- the export ----------------------------------------------------------------

/// A text stands at the start of itself with more behind it, and what stands at the start of a start
/// stands at the start.
proof fn starts(a: Seq<char>, b: Seq<char>, c: Seq<char>)
    ensures
        a.is_prefix_of(a + b),
        a.is_prefix_of(b) && b.is_prefix_of(c) ==> a.is_prefix_of(c),
        a.is_prefix_of(a),
{
    assert((a + b).subrange(0, a.len() as int) =~= a);
    if a.is_prefix_of(b) && b.is_prefix_of(c) {
        assert(c.subrange(0, a.len() as int) =~= b.subrange(0, a.len() as int));
    }
    assert(a.subrange(0, a.len() as int) =~= a);
}

/// The lines of more tasks begin with those of fewer.
proof fn task_lines_grow(out: Seq<char>, tasks: Seq<TaskV>, show: bool, m: int, n: int)
    requires
        0 <= m <= n,
    ensures
        with_task_lines(out, tasks, show, m).is_prefix_of(with_task_lines(out, tasks, show, n)),
    decreases n,
{
    let a = with_task_lines(out, tasks, show, m);
    if m < n {
        task_lines_grow(out, tasks, show, m, n - 1);
        let b = with_task_lines(out, tasks, show, n - 1);
        let line = task_text(tasks[n - 1], show);
        starts(b, line + "\n"@, b);
        assert(b + (line + "\n"@) =~= b + line + "\n"@);
        starts(a, b, with_task_lines(out, tasks, show, n));
    } else {
        starts(a, a, a);
    }
}

/// What stands before the lines of a day's tasks.
spec fn headed(out: Seq<char>, date: int) -> Seq<char> {
    out + "## "@ + long_date(date) + "\n\n"@
}

/// The section of a day begins with what stood before it, and with its heading and lines where it
/// has tasks.
proof fn day_section_grows(
    out: Seq<char>,
    store: StoreV,
    date: int,
    range: ExportRangeV,
    show: bool,
)
    ensures
        out.is_prefix_of(with_day_section(out, store, date, range, show)),
        store.on(date).len() > 0 ==> with_task_lines(
            headed(out, date),
            store.on(date),
            show,
            store.on(date).len() as int,
        ).is_prefix_of(with_day_section(out, store, date, range, show)),
        range is Day || store.on(date).len() > 0 ==> headed(out, date).is_prefix_of(
            with_day_section(out, store, date, range, show),
        ),
{
    let tasks = store.on(date);
    let n = tasks.len() as int;
    let head = headed(out, date);
    let all = with_day_section(out, store, date, range, show);
    let lines = with_task_lines(head, tasks, show, n);
    assert(head =~= out + ("## "@ + long_date(date) + "\n\n"@));
    starts(out, "## "@ + long_date(date) + "\n\n"@, out);
    starts(out, out, out);
    task_lines_grow(head, tasks, show, 0, n);
    starts(lines, "\n"@, all);
    starts(head, "_No tasks._\n\n"@, all);
    starts(head, lines, lines + "\n"@);
    starts(out, head, all);
}

/// The sections of more days begin with those of fewer.
proof fn day_sections_grow(
    out: Seq<char>,
    store: StoreV,
    dates: Seq<int>,
    range: ExportRangeV,
    show: bool,
    m: int,
    n: int,
)
    requires
        0 <= m <= n,
    ensures
        with_day_sections(out, store, dates, range, show, m).is_prefix_of(
            with_day_sections(out, store, dates, range, show, n),
        ),
    decreases n,
{
    let a = with_day_sections(out, store, dates, range, show, m);
    if m < n {
        day_sections_grow(out, store, dates, range, show, m, n - 1);
        let b = with_day_sections(out, store, dates, range, show, n - 1);
        day_section_grows(b, store, dates[n - 1], range, show);
        starts(a, b, with_day_sections(out, store, dates, range, show, n));
    } else {
        starts(a, a, a);
    }
}

/// What stands before the sections of a list's days.
spec fn named(lists: Seq<NamedStore>, range: ExportRangeV, today: int, show: bool, l: int) -> Seq<
    char,
> {
    let out = list_sections(lists, range, today, show, l);
    if lists.len() > 1 {
        out + "# "@ + lists[l].name + "\n\n"@
    } else {
        out
    }
}

/// The section of a list begins with what stood before it, with its name, and with the sections of
/// its days.
proof fn list_section_grows(
    lists: Seq<NamedStore>,
    range: ExportRangeV,
    today: int,
    show: bool,
    l: int,
)
    requires
        0 <= l < lists.len(),
    ensures
        list_sections(lists, range, today, show, l).is_prefix_of(
            named(lists, range, today, show, l),
        ),
        named(lists, range, today, show, l).is_prefix_of(
            list_sections(lists, range, today, show, l + 1),
        ),
        with_day_sections(
            named(lists, range, today, show, l),
            lists[l].store,
            dates_of(range, today, lists[l].store.days),
            range,
            show,
            dates_of(range, today, lists[l].store.days).len() as int,
        ).is_prefix_of(list_sections(lists, range, today, show, l + 1)),
{
    let out = list_sections(lists, range, today, show, l);
    let name = named(lists, range, today, show, l);
    let dates = dates_of(range, today, lists[l].store.days);
    let n = dates.len() as int;
    let filled = with_day_sections(name, lists[l].store, dates, range, show, n);
    let all = list_sections(lists, range, today, show, l + 1);
    if lists.len() > 1 {
        assert(name =~= out + ("# "@ + lists[l].name + "\n\n"@));
        starts(out, "# "@ + lists[l].name + "\n\n"@, out);
    } else {
        starts(out, out, out);
    }
    starts(filled, "_No tasks._\n\n"@, filled);
    starts(filled, filled, filled);
    day_sections_grow(name, lists[l].store, dates, range, show, 0, n);
    starts(name, filled, all);
}

/// The sections of more lists begin with those of fewer.
proof fn list_sections_grow(
    lists: Seq<NamedStore>,
    range: ExportRangeV,
    today: int,
    show: bool,
    m: int,
    n: int,
)
    requires
        0 <= m <= n <= lists.len(),
    ensures
        list_sections(lists, range, today, show, m).is_prefix_of(
            list_sections(lists, range, today, show, n),
        ),
    decreases n,
{
    let a = list_sections(lists, range, today, show, m);
    if m < n {
        list_sections_grow(lists, range, today, show, m, n - 1);
        let b = list_sections(lists, range, today, show, n - 1);
        let c = list_sections(lists, range, today, show, n);
        list_section_grows(lists, range, today, show, n - 1);
        starts(b, named(lists, range, today, show, n - 1), c);
        starts(a, b, c);
    } else {
        starts(a, a, a);
    }
}

/// What stands before the sections of the day at `k` of a list.
spec fn before_day(
    lists: Seq<NamedStore>,
    range: ExportRangeV,
    today: int,
    show: bool,
    l: int,
    k: int,
) -> Seq<char> {
    with_day_sections(
        named(lists, range, today, show, l),
        lists[l].store,
        dates_of(range, today, lists[l].store.days),
        range,
        show,
        k,
    )
}

/// What stands before the line of the task at `i` of the day at `k` of a list.
spec fn before_line(
    lists: Seq<NamedStore>,
    range: ExportRangeV,
    today: int,
    show: bool,
    l: int,
    k: int,
    i: int,
) -> Seq<char> {
    let date = dates_of(range, today, lists[l].store.days)[k];
    with_task_lines(
        headed(before_day(lists, range, today, show, l, k), date),
        lists[l].store.on(date),
        show,
        i,
    )
}

/// Whether there is a task at `i` of the day at `k` of the range in a list.
pub open spec fn exported(
    lists: Seq<NamedStore>,
    range: ExportRangeV,
    today: int,
    l: int,
    k: int,
    i: int,
) -> bool {
    0 <= l < lists.len() && 0 <= k < dates_of(range, today, lists[l].store.days).len() && 0 <= i
        < lists[l].store.on(dates_of(range, today, lists[l].store.days)[k]).len()
}

/// The task at `i` of the day at `k` of the range in a list.
pub open spec fn exported_task(
    lists: Seq<NamedStore>,
    range: ExportRangeV,
    today: int,
    l: int,
    k: int,
    i: int,
) -> TaskV {
    lists[l].store.on(dates_of(range, today, lists[l].store.days)[k])[i]
}

/// A line and what stands before it begin the section of the days up to its own.
proof fn line_in_day(
    lists: Seq<NamedStore>,
    range: ExportRangeV,
    today: int,
    show: bool,
    l: int,
    k: int,
    i: int,
)
    requires
        exported(lists, range, today, l, k, i),
    ensures
        before_line(lists, range, today, show, l, k, i + 1) == before_line(
            lists,
            range,
            today,
            show,
            l,
            k,
            i,
        ) + task_text(exported_task(lists, range, today, l, k, i), show) + "\n"@,
        before_line(lists, range, today, show, l, k, i + 1).is_prefix_of(
            before_day(lists, range, today, show, l, k + 1),
        ),
        before_day(lists, range, today, show, l, k).is_prefix_of(
            before_line(lists, range, today, show, l, k, 0),
        ),
{
    let date = dates_of(range, today, lists[l].store.days)[k];
    let out = before_day(lists, range, today, show, l, k);
    let tasks = lists[l].store.on(date);
    task_lines_grow(headed(out, date), tasks, show, i + 1, tasks.len() as int);
    day_section_grows(out, lists[l].store, date, range, show);
    starts(
        before_line(lists, range, today, show, l, k, i + 1),
        with_task_lines(headed(out, date), tasks, show, tasks.len() as int),
        before_day(lists, range, today, show, l, k + 1),
    );
    assert(headed(out, date) =~= out + ("## "@ + long_date(date) + "\n\n"@));
    starts(out, "## "@ + long_date(date) + "\n\n"@, out);
}

/// A line and what stands before it begin the section of its list.
proof fn line_in_list(
    lists: Seq<NamedStore>,
    range: ExportRangeV,
    today: int,
    show: bool,
    l: int,
    k: int,
    i: int,
)
    requires
        exported(lists, range, today, l, k, i),
    ensures
        before_line(lists, range, today, show, l, k, i + 1).is_prefix_of(
            list_sections(lists, range, today, show, l + 1),
        ),
        list_sections(lists, range, today, show, l).is_prefix_of(
            before_line(lists, range, today, show, l, k, 0),
        ),
{
    let dates = dates_of(range, today, lists[l].store.days);
    let name = named(lists, range, today, show, l);
    let a = before_line(lists, range, today, show, l, k, i + 1);
    let b = before_day(lists, range, today, show, l, k + 1);
    let c = before_day(lists, range, today, show, l, dates.len() as int);
    line_in_day(lists, range, today, show, l, k, i);
    day_sections_grow(name, lists[l].store, dates, range, show, k + 1, dates.len() as int);
    day_sections_grow(name, lists[l].store, dates, range, show, 0, k);
    list_section_grows(lists, range, today, show, l);
    starts(a, b, c);
    starts(a, c, list_sections(lists, range, today, show, l + 1));
    let d = before_day(lists, range, today, show, l, k);
    let e = before_line(lists, range, today, show, l, k, 0);
    starts(name, d, e);
    starts(list_sections(lists, range, today, show, l), name, e);
}

/// An export holds the line of every task of every day of the range in every list.
pub proof fn every_task_is_exported(
    lists: Seq<NamedStore>,
    range: ExportRangeV,
    today: int,
    show: bool,
    l: int,
    k: int,
    i: int,
)
    requires
        exported(lists, range, today, l, k, i),
    ensures
        exists|before: Seq<char>, behind: Seq<char>|
            list_sections(lists, range, today, show, lists.len() as int) == #[trigger] (before
                + task_text(exported_task(lists, range, today, l, k, i), show) + "\n"@ + behind),
{
    let a = before_line(lists, range, today, show, l, k, i + 1);
    let all = list_sections(lists, range, today, show, lists.len() as int);
    line_in_day(lists, range, today, show, l, k, i);
    line_in_list(lists, range, today, show, l, k, i);
    list_sections_grow(lists, range, today, show, l + 1, lists.len() as int);
    starts(a, list_sections(lists, range, today, show, l + 1), all);
    let behind = all.skip(a.len() as int);
    assert(all =~= a + behind);
    let before = before_line(lists, range, today, show, l, k, i);
    let line = task_text(exported_task(lists, range, today, l, k, i), show);
    assert(all == before + line + "\n"@ + behind);
}

/// Two lines of an export stand in the order of the lists, then of the days, then in manual order.
pub proof fn exported_tasks_are_in_order(
    lists: Seq<NamedStore>,
    range: ExportRangeV,
    today: int,
    show: bool,
    a: (int, int, int),
    b: (int, int, int),
)
    requires
        exported(lists, range, today, a.0, a.1, a.2),
        exported(lists, range, today, b.0, b.1, b.2),
        a.0 < b.0 || (a.0 == b.0 && (a.1 < b.1 || (a.1 == b.1 && a.2 < b.2))),
    ensures
        exists|before: Seq<char>, between: Seq<char>, behind: Seq<char>|
            list_sections(lists, range, today, show, lists.len() as int) == #[trigger] (before
                + task_text(exported_task(lists, range, today, a.0, a.1, a.2), show) + "\n"@
                + between + task_text(
                exported_task(lists, range, today, b.0, b.1, b.2),
                show,
            ) + "\n"@ + behind),
{
    let all = list_sections(lists, range, today, show, lists.len() as int);
    let first = before_line(lists, range, today, show, a.0, a.1, a.2);
    let to_first = before_line(lists, range, today, show, a.0, a.1, a.2 + 1);
    let second = before_line(lists, range, today, show, b.0, b.1, b.2);
    let to_second = before_line(lists, range, today, show, b.0, b.1, b.2 + 1);
    line_in_day(lists, range, today, show, a.0, a.1, a.2);
    line_in_list(lists, range, today, show, a.0, a.1, a.2);
    line_in_day(lists, range, today, show, b.0, b.1, b.2);
    line_in_list(lists, range, today, show, b.0, b.1, b.2);
    // The second line comes behind the first.
    assert(to_first.is_prefix_of(second)) by {
        let start = before_line(lists, range, today, show, b.0, b.1, 0);
        let date = dates_of(range, today, lists[b.0].store.days)[b.1];
        let head = headed(before_day(lists, range, today, show, b.0, b.1), date);
        let tasks = lists[b.0].store.on(date);
        task_lines_grow(head, tasks, show, 0, b.2);
        if a.0 < b.0 {
            list_sections_grow(lists, range, today, show, a.0 + 1, b.0);
            let x = list_sections(lists, range, today, show, a.0 + 1);
            let y = list_sections(lists, range, today, show, b.0);
            starts(to_first, x, y);
            starts(to_first, y, start);
            starts(to_first, start, second);
        } else if a.1 < b.1 {
            day_sections_grow(
                named(lists, range, today, show, a.0),
                lists[a.0].store,
                dates_of(range, today, lists[a.0].store.days),
                range,
                show,
                a.1 + 1,
                b.1,
            );
            let x = before_day(lists, range, today, show, a.0, a.1 + 1);
            let y = before_day(lists, range, today, show, b.0, b.1);
            starts(to_first, x, y);
            starts(to_first, y, start);
            starts(to_first, start, second);
        } else {
            task_lines_grow(head, tasks, show, a.2 + 1, b.2);
        }
    }
    list_sections_grow(lists, range, today, show, b.0 + 1, lists.len() as int);
    starts(to_second, list_sections(lists, range, today, show, b.0 + 1), all);
    let between = second.skip(to_first.len() as int);
    let behind = all.skip(to_second.len() as int);
    let one = task_text(exported_task(lists, range, today, a.0, a.1, a.2), show);
    let two = task_text(exported_task(lists, range, today, b.0, b.1, b.2), show);
    assert(second =~= to_first + between);
    assert(all =~= to_second + behind);
    assert(all == first + one + "\n"@ + between + two + "\n"@ + behind);
}

/// The first task of a day stands right below the heading with that day's date.
pub proof fn a_day_is_headed_by_its_date(
    lists: Seq<NamedStore>,
    range: ExportRangeV,
    today: int,
    show: bool,
    l: int,
    k: int,
)
    requires
        exported(lists, range, today, l, k, 0),
    ensures
        exists|before: Seq<char>, behind: Seq<char>|
            list_sections(lists, range, today, show, lists.len() as int) == #[trigger] (before
                + "## "@ + long_date(dates_of(range, today, lists[l].store.days)[k]) + "\n\n"@
                + task_text(exported_task(lists, range, today, l, k, 0), show) + "\n"@ + behind),
{
    let a = before_line(lists, range, today, show, l, k, 1);
    let all = list_sections(lists, range, today, show, lists.len() as int);
    line_in_day(lists, range, today, show, l, k, 0);
    line_in_list(lists, range, today, show, l, k, 0);
    list_sections_grow(lists, range, today, show, l + 1, lists.len() as int);
    starts(a, list_sections(lists, range, today, show, l + 1), all);
    let behind = all.skip(a.len() as int);
    assert(all =~= a + behind);
    let before = before_day(lists, range, today, show, l, k);
    let date = dates_of(range, today, lists[l].store.days)[k];
    let line = task_text(exported_task(lists, range, today, l, k, 0), show);
    assert(all == before + "## "@ + long_date(date) + "\n\n"@ + line + "\n"@ + behind);
}

/// Where several lists are exported, each has its name above it.
pub proof fn several_lists_are_named(
    lists: Seq<NamedStore>,
    range: ExportRangeV,
    today: int,
    show: bool,
    l: int,
)
    requires
        0 <= l < lists.len(),
        lists.len() > 1,
    ensures
        exists|before: Seq<char>, behind: Seq<char>|
            list_sections(lists, range, today, show, lists.len() as int) == #[trigger] (before
                + "# "@ + lists[l].name + "\n\n"@ + behind),
{
    let all = list_sections(lists, range, today, show, lists.len() as int);
    let a = named(lists, range, today, show, l);
    list_section_grows(lists, range, today, show, l);
    list_sections_grow(lists, range, today, show, l + 1, lists.len() as int);
    starts(a, list_sections(lists, range, today, show, l + 1), all);
    let before = list_sections(lists, range, today, show, l);
    let behind = all.skip(a.len() as int);
    assert(all =~= a + behind);
    assert(all == before + "# "@ + lists[l].name + "\n\n"@ + behind);
}

/// An export of a day takes that day, one of a week today and the six days before it, oldest first,
/// and one of everything the day of every page.
pub proof fn ranges_are_their_days(day: int, today: int, pages: Seq<PageV>)
    ensures
        dates_of(ExportRangeV::Day(day), today, pages) == seq![day],
        dates_of(ExportRangeV::Week, today, pages).len() == 7,
        dates_of(ExportRangeV::Week, today, pages).last() == today,
        forall|i: int|
            0 < i < 7 ==> #[trigger] dates_of(ExportRangeV::Week, today, pages)[i] == dates_of(
                ExportRangeV::Week,
                today,
                pages,
            )[i - 1] + 1,
        dates_of(ExportRangeV::All, today, pages).len() == pages.len(),
        forall|i: int|
            0 <= i < pages.len() ==> #[trigger] dates_of(ExportRangeV::All, today, pages)[i]
                == pages[i].date,
{
}

/// A day without tasks is left out, unless it was asked for by its date: then it is said that it has
/// none.
pub proof fn days_without_tasks_are_left_out(
    out: Seq<char>,
    store: StoreV,
    date: int,
    range: ExportRangeV,
    show: bool,
)
    requires
        store.on(date).len() == 0,
    ensures
        !(range is Day) ==> with_day_section(out, store, date, range, show) == out,
        range is Day ==> with_day_section(out, store, date, range, show) == out + "## "@ + long_date(
            date,
        ) + "\n\n"@ + "_No tasks._\n\n"@,
{
}

/// An export ends with one line feed, behind its sections without the white space at their end.
pub proof fn an_export_ends_with_one_line_feed(
    lists: Seq<NamedStore>,
    range: ExportRangeV,
    today: int,
    show: bool,
)
    ensures
        ({
            let all = list_sections(lists, range, today, show, lists.len() as int);
            let text = markdown(lists, range, today, show);
            &&& text.len() > 0
            &&& text.last() == '\n'
            &&& text.drop_last().is_prefix_of(all)
            &&& text.len() > 1 ==> !is_white(text[text.len() - 2])
            &&& forall|i: int| text.len() - 1 <= i < all.len() ==> is_white(#[trigger] all[i])
        }),
{
    let all = list_sections(lists, range, today, show, lists.len() as int);
    let n = trim_back_is_the_start(all);
    reveal_strlit("\n");
    let text = markdown(lists, range, today, show);
    assert(text.drop_last() =~= all.take(n));
    assert(all.subrange(0, n) =~= all.take(n));
}

// --- the line of a task --------------------------------------------------------

/// A line begins with a box that is ticked where the task is done, and the text of the task, or the
/// mask where the task is hidden and hidden tasks are not asked for.
pub proof fn a_line_begins_with_state_and_text(t: TaskV, show: bool)
    ensures
        t.done && !(t.hidden && !show) ==> ("- [x] "@ + t.text).is_prefix_of(task_text(t, show)),
        !t.done && !(t.hidden && !show) ==> ("- [ ] "@ + t.text).is_prefix_of(task_text(t, show)),
        t.done && t.hidden && !show ==> ("- [x] "@ + MASK@).is_prefix_of(task_text(t, show)),
        !t.done && t.hidden && !show ==> ("- [ ] "@ + MASK@).is_prefix_of(task_text(t, show)),
{
    reveal_strlit("- [x] ");
    reveal_strlit("- [ ] ");
    reveal_strlit("- [");
    reveal_strlit("x");
    reveal_strlit(" ");
    reveal_strlit("] ");
    let shown = if t.hidden && !show {
        MASK@
    } else {
        t.text
    };
    let state = if t.done {
        "x"@
    } else {
        " "@
    };
    let start = "- ["@ + state + "] "@ + shown;
    let line = task_text(t, show);
    assert("- [x] "@ =~= "- ["@ + "x"@ + "] "@);
    assert("- [ ] "@ =~= "- ["@ + " "@ + "] "@);
    assert(line.subrange(0, start.len() as int) =~= start);
}

/// Texts can be put together in any grouping.
proof fn grouped(
    a: Seq<char>,
    b: Seq<char>,
    c: Seq<char>,
    d: Seq<char>,
    e: Seq<char>,
    f: Seq<char>,
    g: Seq<char>,
)
    ensures
        a + b + c + d + e + f + g == a + (b + c + d + e + f + g),
{
    assert(a + b + c + d + e + f + g =~= a + (b + c + d + e + f + g));
}

/// Nothing behind a text changes nothing.
proof fn nothing_behind(a: Seq<char>, e: Seq<char>)
    requires
        e.len() == 0,
    ensures
        a + e == a,
{
    assert(a + e =~= a);
}

/// What a line begins with.
spec fn line_start(t: TaskV, show: bool) -> Seq<char> {
    "- ["@ + (if t.done {
        "x"@
    } else {
        " "@
    }) + "] "@ + t.shown(show)
}

/// The lines of two tasks that are alike in all but the state differ in the box alone.
pub proof fn the_box_alone_tells_the_state(t: TaskV, show: bool)
    ensures
        exists|behind: Seq<char>|
            task_text(TaskV { done: false, ..t }, show) == #[trigger] ("- ["@ + " "@ + behind)
                && task_text(TaskV { done: true, ..t }, show) == "- ["@ + "x"@ + behind,
{
    let marks = priority_mark(t.priority);
    let remind = match t.remind {
        Some(time) => " ⏰ "@ + clock_text(time),
        None => ""@,
    };
    let repeat = match t.repeat {
        Some(repeat) => " ↻ "@ + repeat.word(),
        None => ""@,
    };
    let note = match t.note {
        Some(note) => if t.hidden && !show {
            ""@
        } else {
            quoted_lines(lines_of(note))
        },
        None => ""@,
    };
    grouped("- ["@ + " "@, "] "@, t.shown(show), marks, remind, repeat, note);
    grouped("- ["@ + "x"@, "] "@, t.shown(show), marks, remind, repeat, note);
    let behind = "] "@ + t.shown(show) + marks + remind + repeat + note;
    let open = TaskV { done: false, ..t };
    let done = TaskV { done: true, ..t };
    assert(t.shown(show) == open.shown(show) && t.shown(show) == done.shown(show));
    assert(task_text(open, show) == "- ["@ + " "@ + behind);
    assert(task_text(done, show) == "- ["@ + "x"@ + behind);
}

/// A line without priority, reminder, repeat setting and note, or with some of them.
proof fn line_of(t: TaskV, show: bool)
    ensures
        t.note is None && t.repeat is None && t.remind is None && t.priority == Priority::Plain
            ==> task_text(t, show) == line_start(t, show),
        t.note is None && t.repeat is None && t.remind is None ==> task_text(t, show) == line_start(
            t,
            show,
        ) + priority_mark(t.priority),
        t.note is None && t.repeat is None && t.remind is Some ==> task_text(t, show) == line_start(
            t,
            show,
        ) + priority_mark(t.priority) + (" ⏰ "@ + clock_text(t.remind->Some_0)),
{
    reveal_strlit("");
    let start = line_start(t, show);
    let marks = priority_mark(t.priority);
    let remind = match t.remind {
        Some(time) => " ⏰ "@ + clock_text(time),
        None => ""@,
    };
    if t.note is None && t.repeat is None {
        assert(task_text(t, show) == start + marks + remind + ""@ + ""@);
        nothing_behind(start + marks + remind, ""@);
        if t.remind is None {
            nothing_behind(start + marks, ""@);
            if t.priority == Priority::Plain {
                nothing_behind(start, ""@);
            }
        }
    }
}

/// The priority of a task stands behind its text.
pub proof fn a_line_tells_the_priority(t: TaskV, show: bool)
    requires
        t.priority == Priority::Plain,
        t.remind is None,
        t.repeat is None,
        t.note is None,
    ensures
        task_text(TaskV { priority: Priority::High, ..t }, show) == task_text(t, show)
            + " **!**"@,
        task_text(TaskV { priority: Priority::Low, ..t }, show) == task_text(t, show)
            + " _(low)_"@,
{
    let high = TaskV { priority: Priority::High, ..t };
    let low = TaskV { priority: Priority::Low, ..t };
    line_of(t, show);
    line_of(high, show);
    line_of(low, show);
    assert(line_start(high, show) == line_start(t, show));
    assert(line_start(low, show) == line_start(t, show));
}

/// The reminder of a task stands behind its priority.
pub proof fn a_line_tells_the_reminder(t: TaskV, show: bool)
    requires
        t.remind is Some,
        t.repeat is None,
        t.note is None,
    ensures
        task_text(t, show) == task_text(TaskV { remind: None, ..t }, show) + (" ⏰ "@ + clock_text(
            t.remind->Some_0,
        )),
{
    let without = TaskV { remind: None, ..t };
    line_of(t, show);
    line_of(without, show);
    assert(line_start(without, show) == line_start(t, show));
}

/// The repeat setting of a task stands behind its reminder.
pub proof fn a_line_tells_the_repeat_setting(t: TaskV, show: bool)
    requires
        t.repeat is Some,
        t.note is None,
    ensures
        task_text(t, show) == task_text(TaskV { repeat: None, ..t }, show) + (" ↻ "@
            + t.repeat->Some_0.word()),
{
    reveal_strlit("");
    let without = TaskV { repeat: None, ..t };
    let remind = match t.remind {
        Some(time) => " ⏰ "@ + clock_text(time),
        None => ""@,
    };
    let start = line_start(t, show) + priority_mark(t.priority) + remind;
    assert(line_start(without, show) == line_start(t, show));
    assert(task_text(without, show) == start + ""@ + ""@);
    assert(task_text(t, show) == start + (" ↻ "@ + t.repeat->Some_0.word()) + ""@);
    nothing_behind(start, ""@);
    nothing_behind(start + (" ↻ "@ + t.repeat->Some_0.word()), ""@);
}

/// The lines of the note stand below the line of a task, each quoted, unless the task is hidden and
/// hidden tasks are not asked for.
pub proof fn a_line_tells_the_note(t: TaskV, show: bool)
    requires
        t.note is Some,
    ensures
        t.hidden && !show ==> task_text(t, show) == task_text(TaskV { note: None, ..t }, show),
        !(t.hidden && !show) ==> task_text(t, show) == task_text(TaskV { note: None, ..t }, show)
            + quoted_lines(lines_of(t.note->Some_0)),
{
    reveal_strlit("");
    let without = TaskV { note: None, ..t };
    let remind = match t.remind {
        Some(time) => " ⏰ "@ + clock_text(time),
        None => ""@,
    };
    let repeat = match t.repeat {
        Some(repeat) => " ↻ "@ + repeat.word(),
        None => ""@,
    };
    let start = line_start(t, show) + priority_mark(t.priority) + remind + repeat;
    assert(line_start(without, show) == line_start(t, show));
    assert(task_text(without, show) == start + ""@);
    nothing_behind(start, ""@);
}

/// Each line of a note is quoted on a line of its own, in order.
pub proof fn notes_are_quoted_line_by_line(lines: Seq<Seq<char>>, i: int)
    requires
        0 <= i < lines.len(),
    ensures
        exists|before: Seq<char>, behind: Seq<char>|
            quoted_lines(lines) == #[trigger] (before + "\n  > "@ + lines[i] + behind) && before
                == quoted_lines(lines.take(i)),
    decreases lines.len(),
{
    let rest = lines.drop_last();
    let last = "\n  > "@ + lines.last();
    if i == lines.len() - 1 {
        let before = quoted_lines(rest);
        assert(lines.take(i) =~= rest);
        assert(quoted_lines(lines) =~= before + "\n  > "@ + lines[i] + Seq::<char>::empty());
    } else {
        notes_are_quoted_line_by_line(rest, i);
        let (before, behind) = choose|before: Seq<char>, behind: Seq<char>|
            quoted_lines(rest) == #[trigger] (before + "\n  > "@ + rest[i] + behind) && before
                == quoted_lines(rest.take(i));
        assert(rest.take(i) =~= lines.take(i));
        assert(quoted_lines(lines) =~= before + "\n  > "@ + lines[i] + (behind + last));
    }
}

/// A notification tells the time of the reminder and the text, the mask in place of the text of a
/// hidden task, whose note is not told either. The list is named where there are several.
pub proof fn a_notification_tells_time_text_and_note(t: TaskV, list: Seq<char>)
    requires
        t.remind is Some,
    ensures
        !t.hidden ==> summary_text(t) == "⏰ "@ + clock_text(t.remind->Some_0) + " — "@ + t.text,
        t.hidden ==> summary_text(t) == "⏰ "@ + clock_text(t.remind->Some_0) + " — "@ + MASK@,
        !t.hidden && t.note is Some ==> body_text(list, t, false) == t.note->Some_0,
        !t.hidden && t.note is Some ==> body_text(list, t, true) == t.note->Some_0 + "\n["@ + list
            + "]"@,
        t.hidden || t.note is None ==> body_text(list, t, false).len() == 0,
        t.hidden || t.note is None ==> body_text(list, t, true) == "["@ + list + "]"@,
{
    reveal_strlit("");
}

// --- arguments -----------------------------------------------------------------

/// Whether the arguments are these.
pub open spec fn args_are(args: Seq<Seq<char>>, word: Seq<char>) -> bool {
    args.len() == 1 && args[0] == word
}

/// A week is exported where that alone is asked for, everything likewise, and a day where it is asked
/// for or nothing is: today, unless a date stands behind it.
pub proof fn the_range_is_the_one_asked_for(args: Seq<Seq<char>>, today: int)
    ensures
        export_range(args, today) == Ok::<ExportRangeV, ArgsFault>(ExportRangeV::Week) <==> args_are(
            args,
            "--week"@,
        ),
        export_range(args, today) == Ok::<ExportRangeV, ArgsFault>(ExportRangeV::All) <==> args_are(
            args,
            "--all"@,
        ),
        args.len() == 0 || args_are(args, "--day"@) ==> export_range(args, today) == Ok::<
            ExportRangeV,
            ArgsFault,
        >(ExportRangeV::Day(today)),
        args.len() == 2 && args[0] == "--day"@ ==> (match date_of_text(args[1]) {
            Some(day) => export_range(args, today) == Ok::<ExportRangeV, ArgsFault>(
                ExportRangeV::Day(day),
            ),
            None => export_range(args, today) == Err::<ExportRangeV, ArgsFault>(
                ArgsFault::InvalidDate(args[1]),
            ),
        }),
        args.len() > 2 ==> export_range(args, today) is Err,
        args.len() > 0 && args[0] != "--day"@ && args[0] != "--week"@ && args[0] != "--all"@
            ==> export_range(args, today) is Err,
{
    reveal_strlit("--day");
    reveal_strlit("--week");
    reveal_strlit("--all");
    assert("--day"@.len() == 5 && "--week"@.len() == 6);
    assert("--day"@[2] == 'd' && "--all"@[2] == 'a');
}

/// The window is the one given behind `--window`, a number of seconds, or the usual one where there
/// are no arguments.
pub proof fn the_window_is_the_one_asked_for(args: Seq<Seq<char>>, usual: int)
    ensures
        args.len() == 0 ==> notify_window(args, usual) == Ok::<int, ArgsFault>(usual),
        args.len() == 2 && args[0] == "--window"@ ==> (match unsigned(args[1], u64::MAX as nat) {
            Some(n) => notify_window(args, usual) == Ok::<int, ArgsFault>(n as int),
            None => notify_window(args, usual) is Err,
        }),
        args.len() != 0 && args.len() != 2 ==> notify_window(args, usual) is Err,
        args.len() == 2 && args[0] != "--window"@ ==> notify_window(args, usual) is Err,
{
}

/// The first argument chooses the command, and without arguments the task list is opened.
pub proof fn the_first_argument_chooses_the_command(args: Seq<Seq<char>>)
    ensures
        command_of(args) == Command::Open <==> args.len() == 0,
        command_of(args) == Command::Export <==> args.len() > 0 && args[0] == "export"@,
        command_of(args) == Command::Notify <==> args.len() > 0 && args[0] == "notify"@,
        command_of(args) == Command::Help <==> args.len() > 0 && (args[0] == "-h"@ || args[0]
            == "--help"@ || args[0] == "help"@),
        command_of(args) == Command::Version <==> args.len() > 0 && (args[0] == "-V"@ || args[0]
            == "--version"@),
{
    reveal_strlit("export");
    reveal_strlit("notify");
    reveal_strlit("-h");
    reveal_strlit("--help");
    reveal_strlit("help");
    reveal_strlit("-V");
    reveal_strlit("--version");
    assert("export"@[0] == 'e' && "notify"@[0] == 'n' && "help"@[0] == 'h' && "-h"@[0] == '-'
        && "--help"@[0] == '-' && "-V"@[0] == '-' && "--version"@[0] == '-');
    assert("-h"@.len() == 2 && "-V"@.len() == 2 && "-h"@[1] == 'h' && "-V"@[1] == 'V'
        && "--help"@.len() == 6 && "--version"@.len() == 9);
}

/// Asking for hidden tasks leaves the other arguments as they are, in their order.
pub proof fn other_arguments_keep_their_order(args: Seq<Seq<char>>, i: int)
    requires
        0 <= i < args.len(),
        args[i] != "--show-hidden"@,
    ensures
        ({
            let other = |a: Seq<char>| a != "--show-hidden"@;
            &&& without_show_hidden(args).len() == among(args, other, args.len() as int)
            &&& without_show_hidden(args)[among(args, other, i)] == args[i]
        }),
{
    filter_places(args, |a: Seq<char>| a != "--show-hidden"@);
}

/// A list without a task in the range says so, unless a day was asked for, which says so itself.
pub proof fn a_list_without_tasks_says_so(
    lists: Seq<NamedStore>,
    range: ExportRangeV,
    today: int,
    show: bool,
    l: int,
)
    requires
        0 <= l < lists.len(),
        !(range is Day),
        forall|k: int|
            0 <= k < dates_of(range, today, lists[l].store.days).len() ==> lists[l].store.on(
                #[trigger] dates_of(range, today, lists[l].store.days)[k],
            ).len() == 0,
    ensures
        list_sections(lists, range, today, show, l + 1) == list_sections(
            lists,
            range,
            today,
            show,
            l,
        ) + (if lists.len() > 1 {
            "# "@ + lists[l].name + "\n\n"@
        } else {
            Seq::empty()
        }) + "_No tasks._\n\n"@,
{
    let dates = dates_of(range, today, lists[l].store.days);
    let n = dates.len() as int;
    let name = named(lists, range, today, show, l);
    no_sections(name, lists[l].store, dates, range, show, n);
    assert(!any_day_shown(lists[l].store, dates, range, n));
    let out = list_sections(lists, range, today, show, l);
    if lists.len() > 1 {
        assert(name =~= out + ("# "@ + lists[l].name + "\n\n"@));
    } else {
        assert(name =~= out + Seq::<char>::empty());
    }
}

/// Days without tasks add nothing.
proof fn no_sections(
    out: Seq<char>,
    store: StoreV,
    dates: Seq<int>,
    range: ExportRangeV,
    show: bool,
    n: int,
)
    requires
        !(range is Day),
        0 <= n <= dates.len(),
        forall|k: int| 0 <= k < dates.len() ==> store.on(#[trigger] dates[k]).len() == 0,
    ensures
        with_day_sections(out, store, dates, range, show, n) == out,
    decreases n,
{
    if n > 0 {
        no_sections(out, store, dates, range, show, n - 1);
        assert(store.on(dates[n - 1]).len() == 0);
    }
}

/// Where a day in the range has tasks, nothing is said of a list without tasks: its section ends with
/// the sections of its days.
pub proof fn a_list_with_tasks_does_not(
    lists: Seq<NamedStore>,
    range: ExportRangeV,
    today: int,
    show: bool,
    l: int,
    k: int,
)
    requires
        exported(lists, range, today, l, k, 0),
    ensures
        list_sections(lists, range, today, show, l + 1) == with_day_sections(
            (if lists.len() > 1 {
                list_sections(lists, range, today, show, l) + "# "@ + lists[l].name + "\n\n"@
            } else {
                list_sections(lists, range, today, show, l)
            }),
            lists[l].store,
            dates_of(range, today, lists[l].store.days),
            range,
            show,
            dates_of(range, today, lists[l].store.days).len() as int,
        ),
{
    let dates = dates_of(range, today, lists[l].store.days);
    assert(day_shown(lists[l].store, dates[k], range));
}

} // verus!
