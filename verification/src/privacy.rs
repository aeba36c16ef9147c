//! Screen privacy: what is shown of hidden tasks while they are masked does not depend on their
//! texts or notes.

use vstd::prelude::*;

use crate::app::{day_order, hidden_at, AppV, DeletedV, ModeV, SlotV};
use crate::app_laws::day_order_is_alike;
use crate::cli::{
    any_day_shown, body_text, dates_of, day_shown, list_sections, markdown, summary_text, task_text,
    with_day_sections, with_list_section, with_task_lines, ExportRangeV, NamedStore,
};
use crate::editor::EditorV;
use crate::lists::{ringing, rings};
use crate::model::StoreV;
use crate::pages::{has_page_at, ordered, place, place_facts, place_is, PageV};
use crate::popup::DayMarkV;
use crate::query::{
    age_place, all_hits, by_age, completed, done_count, earliest, open_on, open_until, page_hits,
    Listed,
};
use crate::query_laws::ordered_alike;
use crate::screen::{input_prefix, task_row};
use crate::style::SpanV;
use crate::task::TaskV;
use crate::text::{lowered, trimmed};

verus! {

// --- redaction -----------------------------------------------------------------

/// A task without its secrets: a hidden one has an empty text and no note.
pub open spec fn redacted(t: TaskV) -> TaskV {
    if t.hidden {
        TaskV { text: Seq::empty(), note: None, ..t }
    } else {
        t
    }
}

/// Tasks without their secrets.
pub open spec fn redacted_tasks(tasks: Seq<TaskV>) -> Seq<TaskV> {
    tasks.map_values(|t: TaskV| redacted(t))
}

/// A page without its secrets.
pub open spec fn redacted_page(page: PageV) -> PageV {
    PageV { date: page.date, tasks: redacted_tasks(page.tasks) }
}

/// Pages without their secrets.
pub open spec fn redacted_pages(pages: Seq<PageV>) -> Seq<PageV> {
    pages.map_values(|page: PageV| redacted_page(page))
}

/// A store without its secrets.
pub open spec fn redacted_store(s: StoreV) -> StoreV {
    s.with_days(redacted_pages(s.days))
}

/// Lists without their secrets.
pub open spec fn redacted_slots(list: Seq<SlotV>) -> Seq<SlotV> {
    list.map_values(|slot: SlotV| SlotV { store: redacted_store(slot.store), ..slot })
}

/// Deleted tasks without their secrets.
pub open spec fn redacted_deleted(list: Seq<DeletedV>) -> Seq<DeletedV> {
    list.map_values(|d: DeletedV| DeletedV { task: redacted(d.task), ..d })
}

/// The state without the secrets of any list, nor of tasks that can be put back.
pub open spec fn redacted_app(s: AppV) -> AppV {
    AppV {
        store: redacted_store(s.store),
        others: redacted_slots(s.others),
        undo: redacted_deleted(s.undo),
        ..s
    }
}

/// A store in which pages have the dates of the pages of another has a date at the same place.
proof fn same_place(s: StoreV, pages: Seq<PageV>, date: int)
    requires
        pages.len() == s.days.len(),
        forall|j: int| 0 <= j < pages.len() ==> (#[trigger] pages[j]).date == s.days[j].date,
    ensures
        place(pages, date) == place(s.days, date),
{
    place_facts(s.days, date, 0);
    let p = place(s.days, date);
    assert forall|j: int| 0 <= j < p implies pages[j].date < date by {
        assert(s.days[j].date < date);
    }
    place_is(pages, date, 0, p);
}

/// What is on a day of a redacted store is what was on it, redacted.
proof fn redacted_on(s: StoreV, date: int)
    ensures
        redacted_store(s).on(date) == redacted_tasks(s.on(date)),
        ordered(s.days) ==> ordered(redacted_store(s).days),
{
    same_place(s, redacted_pages(s.days), date);
    place_facts(s.days, date, 0);
    assert(redacted_tasks(Seq::<TaskV>::empty()) =~= Seq::<TaskV>::empty());
}

/// Keeping tasks by anything but their secrets, and redacting them, can be done in either order.
proof fn filter_redacted(tasks: Seq<TaskV>, keep: spec_fn(TaskV) -> bool)
    requires
        forall|t: TaskV| #[trigger] keep(redacted(t)) == keep(t),
    ensures
        redacted_tasks(tasks).filter(keep) == redacted_tasks(tasks.filter(keep)),
    decreases tasks.len(),
{
    reveal(Seq::filter);
    if tasks.len() == 0 {
        assert(redacted_tasks(tasks) =~= tasks);
        assert(redacted_tasks(tasks.filter(keep)) =~= tasks.filter(keep));
    } else {
        let rest = tasks.drop_last();
        filter_redacted(rest, keep);
        assert(redacted_tasks(tasks).drop_last() =~= redacted_tasks(rest));
        assert(redacted_tasks(tasks).last() == redacted(tasks.last()));
        let kept = rest.filter(keep);
        if keep(tasks.last()) {
            assert(redacted_tasks(kept.push(tasks.last())) =~= redacted_tasks(kept).push(
                redacted(tasks.last()),
            ));
        }
    }
}

// --- the list and its surroundings ---------------------------------------------

/// As many tasks are done.
proof fn done_count_redacted(tasks: Seq<TaskV>)
    ensures
        done_count(redacted_tasks(tasks)) == done_count(tasks),
    decreases tasks.len(),
{
    if tasks.len() > 0 {
        done_count_redacted(tasks.drop_last());
        assert(redacted_tasks(tasks).drop_last() =~= redacted_tasks(tasks.drop_last()));
    }
}

/// The same reminder comes first.
proof fn earliest_redacted(tasks: Seq<TaskV>, now: int, due: bool)
    ensures
        earliest(redacted_tasks(tasks), now, due) == earliest(tasks, now, due),
    decreases tasks.len(),
{
    if tasks.len() > 0 {
        let rest = tasks.drop_last();
        earliest_redacted(rest, now, due);
        crate::query::earliest_waits(rest, now, due);
        assert(redacted_tasks(tasks).drop_last() =~= redacted_tasks(rest));
    }
}

/// The view of a day is the same.
proof fn day_order_redacted(s: AppV, store: StoreV)
    ensures
        day_order(
            redacted_store(store),
            s.date,
            s.today,
            s.now,
            s.sorted,
            s.hide_done,
        ) == day_order(store, s.date, s.today, s.now, s.sorted, s.hide_done),
{
    redacted_on(store, s.date);
    assert(ordered_alike(redacted_store(store).on(s.date), store.on(s.date)));
    day_order_is_alike(
        redacted_store(store),
        store,
        s.date,
        s.today,
        s.now,
        s.sorted,
        s.hide_done,
    );
}

/// A task of which a hidden one shows only whether it has a note.
pub open spec fn outlined(t: TaskV) -> TaskV {
    if t.hidden {
        TaskV {
            text: Seq::empty(),
            note: match t.note {
                Some(_) => Some(Seq::empty()),
                None => None,
            },
            ..t
        }
    } else {
        t
    }
}

/// Tasks of which hidden ones show only whether they have a note.
pub open spec fn outlined_tasks(tasks: Seq<TaskV>) -> Seq<TaskV> {
    tasks.map_values(|t: TaskV| outlined(t))
}

/// A page on which hidden tasks show only whether they have a note.
pub open spec fn outlined_page(page: PageV) -> PageV {
    PageV { date: page.date, tasks: outlined_tasks(page.tasks) }
}

/// A store in which hidden tasks show only whether they have a note.
pub open spec fn outlined_store(s: StoreV) -> StoreV {
    s.with_days(s.days.map_values(|page: PageV| outlined_page(page)))
}

/// While hidden tasks are masked, the rows of a list do not depend on their texts, nor on what
/// their notes say.
pub proof fn rows_keep_secrets(s: AppV, store: StoreV)
    requires
        !s.reveal,
    ensures
        s.rows_of(outlined_store(store)) == s.rows_of(store),
{
    let other = outlined_store(store);
    same_place(store, other.days, s.date);
    place_facts(store.days, s.date, 0);
    assert(outlined_tasks(Seq::<TaskV>::empty()) =~= Seq::<TaskV>::empty());
    assert(other.on(s.date) == outlined_tasks(store.on(s.date)));
    assert(ordered_alike(other.on(s.date), store.on(s.date)));
    day_order_is_alike(other, store, s.date, s.today, s.now, s.sorted, s.hide_done);
    day_order_in_range(s, store);
    let order = day_order(store, s.date, s.today, s.now, s.sorted, s.hide_done);
    assert forall|k: int| 0 <= k < order.len() implies s.rows_of(other)[k] == s.rows_of(
        store,
    )[k] by {
        let i = order[k];
        let t = store.on(s.date)[i];
        assert(other.on(s.date)[i] == outlined(t));
        let masked = t.hidden && !s.reveal;
        assert(task_row(outlined(t), s.date, s.today, s.now, s.theme, masked) =~= task_row(
            t,
            s.date,
            s.today,
            s.now,
            s.theme,
            masked,
        ));
    }
    assert(s.rows_of(other) =~= s.rows_of(store));
}

/// Every row of the view is a task of the day.
proof fn day_order_in_range(s: AppV, store: StoreV)
    ensures
        forall|k: int|
            #![trigger day_order(store, s.date, s.today, s.now, s.sorted, s.hide_done)[k]]
            0 <= k < day_order(store, s.date, s.today, s.now, s.sorted, s.hide_done).len()
                ==> store.has(
                s.date,
                day_order(store, s.date, s.today, s.now, s.sorted, s.hide_done)[k],
            ),
{
    let t = AppV { store, ..s };
    crate::app_laws::every_task_is_shown_once(t);
    reveal(AppV::visible);
    let order = day_order(store, s.date, s.today, s.now, s.sorted, s.hide_done);
    assert(t.visible() == order);
    assert forall|k: int| #![trigger order[k]] 0 <= k < order.len() implies store.has(
        s.date,
        order[k],
    ) by {
        assert(store.has(t.date, t.visible()[k]));
    }
}

/// While hidden tasks are masked, the header, the note panel, the progress and the footer do not
/// depend on their texts or notes.
pub proof fn surroundings_keep_secrets(s: AppV)
    requires
        !s.reveal,
    ensures
        redacted_app(s).header() == s.header(),
        redacted_app(s).shown_note() == s.shown_note(),
        redacted_app(s).progress() == s.progress(),
        redacted_app(s).footer() == s.footer(),
{
    let r = redacted_app(s);
    redacted_on(s.store, s.date);
    redacted_on(s.store, s.today);
    done_count_redacted(s.tasks());
    let tasks = s.store.on(s.today);
    earliest_redacted(tasks, s.now, true);
    earliest_redacted(tasks, s.now, false);
    crate::query::earliest_waits(tasks, s.now, true);
    crate::query::earliest_waits(tasks, s.now, false);
    assert(r.header_reminder() =~= s.header_reminder());
    assert(r.list_names() =~= s.list_names());
    assert(r.header_lists() =~= s.header_lists());
    assert(r.header() =~= s.header());
    day_order_redacted(s, s.store);
    day_order_in_range(s, s.store);
    reveal(AppV::visible);
    assert(r.visible() == s.visible());
    assert(r.key_hints() == s.key_hints());
}

/// While hidden tasks are masked, what is said when reminders ring does not depend on their texts.
pub proof fn reminders_keep_secrets(s: AppV, now: int)
    requires
        !s.reveal,
    ensures
        redacted_app(s).tick(now).status == s.tick(now).status,
{
    reveal(AppV::tick);
    redacted_on(s.store, s.today);
    let tasks = s.store.on(s.today);
    let keep = |t: TaskV| rings(t, s.now, now);
    filter_redacted(tasks, keep);
    let r = redacted_tasks(tasks);
    assert(ringing(r, s.now, now, false) =~= ringing(tasks, s.now, now, false));
}

/// While hidden tasks are masked, what is said when a task is deleted or moved does not depend on
/// its text or note.
pub proof fn messages_keep_secrets(s: AppV, idx: int, target: int)
    requires
        !s.reveal,
    ensures
        redacted_app(s).delete(idx).status == s.delete(idx).status,
        redacted_app(s).move_to(idx, target).status == s.move_to(idx, target).status,
{
    reveal(AppV::delete);
    reveal(AppV::move_to);
    redacted_on(s.store, s.date);
}

// --- the review ----------------------------------------------------------------

/// The same tasks were completed.
proof fn completed_redacted(pages: Seq<PageV>, from: int, to: int)
    ensures
        completed(redacted_pages(pages), from, to) == redacted_tasks(completed(pages, from, to)),
    decreases pages.len(),
{
    let r = redacted_pages(pages);
    if pages.len() == 0 {
        assert(completed(r, from, to) =~= redacted_tasks(completed(pages, from, to)));
    } else {
        let rest = pages.drop_last();
        completed_redacted(rest, from, to);
        assert(r.drop_last() =~= redacted_pages(rest));
        let keep = |t: TaskV| t.completed is Some && from <= t.completed->Some_0 <= to;
        filter_redacted(pages.last().tasks, keep);
        assert(completed(r, from, to) =~= redacted_tasks(completed(pages, from, to)));
    }
}

/// A listed task without its secrets.
pub open spec fn redacted_listed(l: Listed) -> Listed {
    Listed { date: l.date, task: redacted(l.task) }
}

/// Listed tasks without their secrets.
pub open spec fn redacted_list(list: Seq<Listed>) -> Seq<Listed> {
    list.map_values(|l: Listed| redacted_listed(l))
}

/// The same tasks are open.
proof fn open_until_redacted(pages: Seq<PageV>, today: int)
    ensures
        open_until(redacted_pages(pages), today) == redacted_list(open_until(pages, today)),
    decreases pages.len(),
{
    let r = redacted_pages(pages);
    if pages.len() == 0 {
        assert(open_until(r, today) =~= redacted_list(open_until(pages, today)));
    } else {
        let rest = pages.drop_last();
        let last = pages.last();
        open_until_redacted(rest, today);
        assert(r.drop_last() =~= redacted_pages(rest));
        let keep = |t: TaskV| !t.done;
        filter_redacted(last.tasks, keep);
        assert(open_on(redacted_page(last)) =~= redacted_list(open_on(last)));
        assert(open_until(r, today) =~= redacted_list(open_until(pages, today)));
    }
}

/// The age of a task has the same place.
proof fn age_place_redacted(list: Seq<Listed>, created: int, k: int)
    requires
        0 <= k,
    ensures
        age_place(redacted_list(list), created, k) == age_place(list, created, k),
    decreases list.len() - k,
{
    if k < list.len() {
        age_place_redacted(list, created, k + 1);
    }
}

/// The order by age is the same.
proof fn by_age_redacted(list: Seq<Listed>)
    ensures
        by_age(redacted_list(list)) == redacted_list(by_age(list)),
    decreases list.len(),
{
    let r = redacted_list(list);
    if list.len() == 0 {
        assert(by_age(r) =~= redacted_list(by_age(list)));
    } else {
        let rest = list.drop_last();
        let last = list.last();
        by_age_redacted(rest);
        assert(r.drop_last() =~= redacted_list(rest));
        let before = by_age(rest);
        let p = age_place(before, last.task.created, 0);
        age_place_redacted(before, last.task.created, 0);
        crate::query::by_age_len(rest);
        crate::query::age_place_bound(before, last.task.created, 0);
        assert(redacted_list(before.insert(p, last)) =~= redacted_list(before).insert(
            p,
            redacted_listed(last),
        ));
    }
}

/// The open tasks are the same, redacted.
proof fn open_tasks_redacted(s: StoreV, today: int)
    ensures
        redacted_store(s).open_tasks(today) == redacted_list(s.open_tasks(today)),
{
    open_until_redacted(s.days, today);
    by_age_redacted(open_until(s.days, today));
}

/// The streak is the same.
proof fn streak_redacted(s: StoreV, day: int)
    ensures
        redacted_store(s).streak_to(day) == s.streak_to(day),
    decreases day - crate::date::MIN_DAY + 1,
{
    completed_redacted(s.days, day, day);
    if day >= crate::date::MIN_DAY && s.completed_on(day).len() > 0 {
        streak_redacted(s, day - 1);
    }
}

/// The same tasks are named as postponed.
proof fn postponed_redacted(s: AppV, list: Seq<Listed>, n: int)
    requires
        !s.reveal,
        0 <= n <= list.len(),
    ensures
        redacted_app(s).postponed(redacted_list(list), n) == s.postponed(list, n),
    decreases n,
{
    if n > 0 {
        postponed_redacted(s, list, n - 1);
        let l = list[n - 1];
        assert(redacted_app(s).postponed_text(redacted_listed(l)) == s.postponed_text(l));
    }
}

/// A day of the review is the same.
proof fn review_day_redacted(s: AppV, date: int)
    requires
        !s.reveal,
    ensures
        redacted_app(s).review_day(date) == s.review_day(date),
{
    let r = redacted_app(s);
    completed_redacted(s.store.days, date, date);
    redacted_on(s.store, date);
    let keep = |t: TaskV| !t.done;
    filter_redacted(s.store.on(date), keep);
    let done = s.store.completed_on(date);
    let open = s.review_open(date);
    assert(r.review_open(date) =~= redacted_tasks(open));
    assert(r.review_day_head(date) =~= s.review_day_head(date));
    assert(redacted_tasks(done).map_values(|t: TaskV| r.completed_line(t)) =~= done.map_values(
        |t: TaskV| s.completed_line(t),
    )) by {
        assert forall|k: int| 0 <= k < done.len() implies r.completed_line(redacted(done[k]))
            == s.completed_line(done[k]) by {
            assert(r.completed_line(redacted(done[k])) =~= s.completed_line(done[k]));
        }
    }
    assert(redacted_tasks(open).map_values(|t: TaskV| r.open_line(t)) =~= open.map_values(
        |t: TaskV| s.open_line(t),
    )) by {
        assert forall|k: int| 0 <= k < open.len() implies r.open_line(redacted(open[k]))
            == s.open_line(open[k]) by {
            assert(r.open_line(redacted(open[k])) =~= s.open_line(open[k]));
        }
    }
}

/// The days of the review are the same.
proof fn review_days_redacted(s: AppV, n: int)
    requires
        !s.reveal,
    ensures
        redacted_app(s).review_days(n) == s.review_days(n),
    decreases n,
{
    if n > 0 {
        review_days_redacted(s, n - 1);
        review_day_redacted(s, s.today - (n - 1));
    }
}

/// While hidden tasks are masked, the weekly review does not depend on their texts or notes.
pub proof fn the_review_keeps_secrets(s: AppV, average: Seq<char>)
    requires
        !s.reveal,
    ensures
        redacted_app(s).review(average) == s.review(average),
{
    let r = redacted_app(s);
    redacted_on(s.store, s.today);
    done_count_redacted(s.store.on(s.today));
    streak_redacted(s.store, s.today);
    streak_redacted(s.store, s.today - 1);
    completed_redacted(s.store.days, s.today - 6, s.today);
    open_tasks_redacted(s.store, s.today);
    let list = s.store.open_tasks(s.today);
    postponed_redacted(s, list, list.len() as int);
    assert(r.review_head(average) =~= s.review_head(average));
    assert(r.review_postponed() =~= s.review_postponed());
    review_days_redacted(s, 7);
}

// --- the search ----------------------------------------------------------------

/// The hits on a page that may be shown while hidden tasks are masked.
pub open spec fn open_hits(found: Seq<(int, int)>, store: StoreV) -> Seq<(int, int)> {
    found.filter(|h: (int, int)| !hidden_at(store, h))
}

/// The hits of one page that may be shown are the same.
proof fn page_hits_redacted(s: StoreV, p: int, query: Seq<char>, n: int)
    requires
        ordered(s.days),
        0 <= p < s.days.len(),
        0 <= n <= s.days[p].tasks.len(),
    ensures
        open_hits(page_hits(redacted_page(s.days[p]), query, n), s) == open_hits(
            page_hits(s.days[p], query, n),
            s,
        ),
    decreases n,
{
    reveal(Seq::filter);
    if n > 0 {
        page_hits_redacted(s, p, query, n - 1);
        let page = s.days[p];
        has_page_at(s.days, page.date, p);
        let t = page.tasks[n - 1];
        let r = redacted_page(page);
        assert(r.tasks[n - 1] == redacted(t));
        let hit = (page.date, n - 1);
        assert(hidden_at(s, hit) == t.hidden);
        let keep = |h: (int, int)| !hidden_at(s, h);
        assert(page_hits(page, query, n - 1).push(hit).drop_last() =~= page_hits(
            page,
            query,
            n - 1,
        ));
        assert(page_hits(r, query, n - 1).push(hit).drop_last() =~= page_hits(r, query, n - 1));
    }
}

/// The hits that may be shown are the same on the first `n` pages.
proof fn all_hits_redacted(s: StoreV, query: Seq<char>, n: int)
    requires
        ordered(s.days),
        0 <= n <= s.days.len(),
    ensures
        open_hits(all_hits(redacted_pages(s.days).take(n), query), s) == open_hits(
            all_hits(s.days.take(n), query),
            s,
        ),
    decreases n,
{
    reveal(Seq::filter);
    let pages = s.days;
    let r = redacted_pages(pages);
    if n > 0 {
        all_hits_redacted(s, query, n - 1);
        assert(pages.take(n).drop_last() =~= pages.take(n - 1));
        assert(r.take(n).drop_last() =~= r.take(n - 1));
        let page = pages[n - 1];
        let m = page.tasks.len() as int;
        page_hits_redacted(s, n - 1, query, m);
        let keep = |h: (int, int)| !hidden_at(s, h);
        Seq::filter_distributes_over_add(
            page_hits(page, query, m),
            all_hits(pages.take(n - 1), query),
            keep,
        );
        Seq::filter_distributes_over_add(
            page_hits(redacted_page(page), query, m),
            all_hits(r.take(n - 1), query),
            keep,
        );
    } else {
        assert(pages.take(0) =~= r.take(0));
    }
}

/// While hidden tasks are masked, no search finds one, and what a search finds does not depend on
/// their texts or notes: they cannot be discovered by typing guesses.
pub proof fn the_search_keeps_secrets(s: AppV)
    requires
        !s.reveal,
        ordered(s.store.days),
    ensures
        redacted_app(s).search_results() == s.search_results(),
        forall|k: int|
            0 <= k < s.search_results().len() ==> !hidden_at(
                s.store,
                #[trigger] s.search_results()[k],
            ),
{
    reveal(AppV::search_results);
    if let ModeV::Search { editor, selected } = s.mode {
        let query = lowered(trimmed(editor.text));
        let pages = s.store.days;
        let n = pages.len() as int;
        let keep = |h: (int, int)| !hidden_at(s.store, h);
        all_hits_redacted(s.store, query, n);
        assert(pages.take(n) =~= pages);
        assert(redacted_pages(pages).take(n) =~= redacted_pages(pages));
        let kept = |h: (int, int)| s.reveal || !hidden_at(s.store, h);
        let kept_redacted = |h: (int, int)|
            s.reveal || !hidden_at(redacted_app(s).store, h);
        assert(keep =~= kept);
        assert forall|h: (int, int)| hidden_at(redacted_store(s.store), h) == hidden_at(
            s.store,
            h,
        ) by {
            redacted_on(s.store, h.0);
        }
        assert(keep =~= kept_redacted);
        let found = s.store.search(editor.text).filter(kept);
        broadcast use Seq::lemma_filter_pred;

        assert forall|k: int| 0 <= k < s.search_results().len() implies !hidden_at(
            s.store,
            #[trigger] s.search_results()[k],
        ) by {
            assert(s.search_results()[k] == found[k]);
            assert(kept(found[k]));
        }
    }
}

/// The rows of hits that may be shown are the same.
proof fn hit_rows_redacted(s: AppV, found: Seq<(int, int)>, n: int)
    requires
        !s.reveal,
        0 <= n <= found.len(),
        forall|k: int| 0 <= k < found.len() ==> !hidden_at(s.store, #[trigger] found[k]),
    ensures
        redacted_app(s).hit_rows(found, n) == s.hit_rows(found, n),
    decreases n,
{
    if n > 0 {
        hit_rows_redacted(s, found, n - 1);
        let hit = found[n - 1];
        redacted_on(s.store, hit.0);
        assert(!hidden_at(s.store, found[n - 1]));
        if s.store.has(hit.0, hit.1) {
            let t = s.store.task(hit.0, hit.1);
            assert(redacted_app(s).store.task(hit.0, hit.1) == redacted(t));
            assert(redacted_app(s).hit_row(hit) =~= s.hit_row(hit));
        }
    }
}

/// While hidden tasks are masked, the rows of the search do not depend on their texts or notes.
pub proof fn search_rows_keep_secrets(s: AppV)
    requires
        !s.reveal,
        ordered(s.store.days),
    ensures
        redacted_app(s).search_shown() == s.search_shown(),
{
    the_search_keeps_secrets(s);
    let found = s.search_results();
    hit_rows_redacted(s, found, found.len() as int);
}

// --- the calendar and the list picker ------------------------------------------

/// The marks of the first days are the same.
proof fn marks_redacted(s: AppV, cursor: int, n: int)
    requires
        0 <= n <= s.marked_days(cursor).len(),
    ensures
        redacted_app(s).calendar_marks(cursor, n) == s.calendar_marks(cursor, n),
    decreases n,
{
    assert(redacted_app(s).marked_days(cursor) =~= s.marked_days(cursor));
    if n > 0 {
        marks_redacted(s, cursor, n - 1);
        let date = s.marked_days(cursor)[n - 1];
        redacted_on(s.store, date);
        done_count_redacted(s.store.on(date));
    }
}

/// The calendar does not depend on the texts or notes of hidden tasks.
pub proof fn the_calendar_keeps_secrets(s: AppV, cursor: int)
    ensures
        redacted_app(s).calendar_shown(cursor) == s.calendar_shown(cursor),
        redacted_app(s).calendar_info(cursor) == s.calendar_info(cursor),
{
    assert(redacted_app(s).marked_days(cursor) =~= s.marked_days(cursor));
    marks_redacted(s, cursor, s.marked_days(cursor).len() as int);
    redacted_on(s.store, cursor);
    done_count_redacted(s.store.on(cursor));
    assert(redacted_app(s).calendar_info(cursor) =~= s.calendar_info(cursor));
}

/// The list picker does not depend on the texts or notes of hidden tasks, in whichever list.
pub proof fn the_list_picker_keeps_secrets(s: AppV)
    ensures
        redacted_app(s).list_rows() == s.list_rows(),
        redacted_app(s).picker_rows() == s.picker_rows(),
{
    let r = redacted_app(s);
    assert forall|i: int| 0 <= i < s.cycle().len() implies r.list_rows()[i] == s.list_rows()[i] by {
        assert(r.cycle()[i].store == redacted_store(s.cycle()[i].store));
        open_tasks_redacted(s.cycle()[i].store, s.today);
    }
    assert(r.list_rows() =~= s.list_rows());
    assert forall|i: int| 0 <= i < s.list_rows().len() implies r.picker_row(
        s.list_rows()[i],
    ) == s.picker_row(s.list_rows()[i]) by {
        assert(r.picker_row(s.list_rows()[i]) =~= s.picker_row(s.list_rows()[i]));
    }
    assert(r.picker_rows() =~= s.picker_rows());
}

// --- the whole screen ----------------------------------------------------------

/// What is shown above the task list.
pub ghost enum PopupV {
    Nothing,
    Help { lines: Seq<Seq<SpanV>>, scroll: int },
    Calendar { marks: Seq<DayMarkV>, info: Seq<SpanV>, cursor: int, moving: bool },
    Search { typed: EditorV, rows: Result<Seq<Seq<SpanV>>, Seq<char>>, selected: int },
    Review { lines: Seq<Seq<SpanV>>, scroll: int },
    Lists { rows: Seq<Seq<SpanV>>, selected: int },
}

/// What is on the screen.
pub ghost struct ScreenV {
    pub header: Seq<SpanV>,
    pub list: Result<Seq<Seq<SpanV>>, Seq<char>>,
    pub selected: int,
    /// The name of the list in the side pane, and its rows.
    pub side: Option<(Seq<char>, Seq<Seq<SpanV>>)>,
    pub note: Option<Seq<char>>,
    pub prefix: Option<Seq<char>>,
    pub typed: Option<EditorV>,
    pub progress: SpanV,
    pub footer: SpanV,
    pub popup: PopupV,
}

impl AppV {
    /// What is shown above the task list; `average` writes how many completions there were per
    /// day, given how many there were in the week.
    pub open spec fn popup(self, average: spec_fn(nat) -> Seq<char>) -> PopupV {
        match self.mode {
            ModeV::Help { scroll } => PopupV::Help { lines: self.help(), scroll },
            ModeV::Calendar { cursor, moving } => PopupV::Calendar {
                marks: self.calendar_shown(cursor),
                info: self.calendar_info(cursor),
                cursor,
                moving: moving is Some,
            },
            ModeV::Search { editor, selected } => PopupV::Search {
                typed: editor,
                rows: self.search_shown(),
                selected,
            },
            ModeV::Review { scroll } => PopupV::Review {
                lines: self.review(average(self.store.done_recently(self.today))),
                scroll,
            },
            ModeV::Lists { selected } => PopupV::Lists { rows: self.picker_rows(), selected },
            _ => PopupV::Nothing,
        }
    }

    /// What is on a screen of that width.
    pub open spec fn screen(self, width: int, average: spec_fn(nat) -> Seq<char>) -> ScreenV {
        ScreenV {
            header: self.header(),
            list: self.list_shown(),
            selected: self.selected,
            side: self.side_shown(width),
            note: self.shown_note(),
            prefix: input_prefix(self.mode),
            typed: match self.mode {
                ModeV::Insert(editor) => Some(editor),
                ModeV::Command(editor) => Some(editor),
                _ => None,
            },
            progress: self.progress(),
            footer: self.footer(),
            popup: self.popup(average),
        }
    }
}

/// Lists in which hidden tasks show only whether they have a note.
pub open spec fn outlined_slots(list: Seq<SlotV>) -> Seq<SlotV> {
    list.map_values(|slot: SlotV| SlotV { store: outlined_store(slot.store), ..slot })
}

/// The state in which hidden tasks, in whichever list, show only whether they have a note, and
/// without the secrets of tasks that can be put back.
pub open spec fn outlined_app(s: AppV) -> AppV {
    AppV {
        store: outlined_store(s.store),
        others: outlined_slots(s.others),
        undo: redacted_deleted(s.undo),
        ..s
    }
}

/// Where hidden tasks show only whether they have a note, they can still be redacted.
proof fn outlined_then_redacted(s: StoreV)
    ensures
        redacted_store(outlined_store(s)) == redacted_store(s),
{
    let a = redacted_pages(outlined_store(s).days);
    let b = redacted_pages(s.days);
    assert forall|p: int| 0 <= p < b.len() implies a[p] == b[p] by {
        assert(a[p].tasks =~= b[p].tasks);
    }
    assert(a =~= b);
}

/// What differs in nothing but what hidden tasks hide is the same without it.
proof fn alike_but_for_secrets(a: AppV, b: AppV)
    requires
        outlined_app(a) == outlined_app(b),
    ensures
        redacted_app(a) == redacted_app(b),
{
    outlined_then_redacted(a.store);
    outlined_then_redacted(b.store);
    assert(outlined_app(a).others.len() == a.others.len());
    assert(outlined_app(b).others.len() == b.others.len());
    assert forall|i: int| 0 <= i < a.others.len() implies redacted_slots(a.others)[i]
        == redacted_slots(b.others)[i] by {
        outlined_then_redacted(a.others[i].store);
        outlined_then_redacted(b.others[i].store);
        assert(outlined_slots(a.others)[i] == outlined_slots(b.others)[i]);
    }
    assert(redacted_slots(a.others) =~= redacted_slots(b.others));
}

/// The list and the side pane are the same where only secrets differ.
proof fn lists_look_alike(a: AppV, b: AppV, width: int)
    requires
        !a.reveal,
        outlined_app(a) == outlined_app(b),
    ensures
        a.list_shown() == b.list_shown(),
        a.side_shown(width) == b.side_shown(width),
{
    assert(a.rows_of(outlined_store(a.store)) =~= b.rows_of(outlined_store(b.store)));
    rows_keep_secrets(a, a.store);
    rows_keep_secrets(b, b.store);
    alike_but_for_secrets(a, b);
    redacted_on(a.store, a.date);
    redacted_on(b.store, b.date);
    assert(redacted_tasks(a.tasks()).len() == redacted_tasks(b.tasks()).len());
    assert(outlined_app(a).others.len() == a.others.len());
    assert(outlined_app(b).others.len() == b.others.len());
    if a.others.len() > 0 {
        let (x, y) = (a.others[0], b.others[0]);
        assert(outlined_slots(a.others)[0] == outlined_slots(b.others)[0]);
        assert(outlined_store(x.store) == outlined_store(y.store));
        assert(x.name == y.name);
        assert(a.rows_of(outlined_store(x.store)) =~= b.rows_of(outlined_store(y.store)));
        rows_keep_secrets(a, x.store);
        rows_keep_secrets(b, y.store);
    }
}

/// What is on the screen besides the list does not depend on the texts or notes of hidden tasks.
proof fn the_rest_of_the_screen_keeps_secrets(s: AppV, average: spec_fn(nat) -> Seq<char>)
    requires
        !s.reveal,
        ordered(s.store.days),
    ensures
        redacted_app(s).header() == s.header(),
        redacted_app(s).shown_note() == s.shown_note(),
        redacted_app(s).progress() == s.progress(),
        redacted_app(s).footer() == s.footer(),
        redacted_app(s).popup(average) == s.popup(average),
{
    let r = redacted_app(s);
    surroundings_keep_secrets(s);
    match s.mode {
        ModeV::Help { scroll } => {
            assert(r.help() =~= s.help());
        },
        ModeV::Calendar { cursor, moving } => {
            the_calendar_keeps_secrets(s, cursor);
        },
        ModeV::Search { editor, selected } => {
            search_rows_keep_secrets(s);
        },
        ModeV::Review { scroll } => {
            completed_redacted(s.store.days, s.today - 6, s.today);
            the_review_keeps_secrets(s, average(s.store.done_recently(s.today)));
        },
        ModeV::Lists { selected } => {
            the_list_picker_keeps_secrets(s);
        },
        _ => {},
    }
}

/// While hidden tasks are masked, the whole screen is the same, in every mode and with every list,
/// for two states that differ in nothing but the texts of hidden tasks and what their notes say.
pub proof fn the_screen_keeps_secrets(
    a: AppV,
    b: AppV,
    width: int,
    average: spec_fn(nat) -> Seq<char>,
)
    requires
        !a.reveal,
        outlined_app(a) == outlined_app(b),
        ordered(a.store.days),
        ordered(b.store.days),
    ensures
        a.screen(width, average) == b.screen(width, average),
{
    alike_but_for_secrets(a, b);
    lists_look_alike(a, b, width);
    the_rest_of_the_screen_keeps_secrets(a, average);
    the_rest_of_the_screen_keeps_secrets(b, average);
}

// --- export and notifications --------------------------------------------------

/// Unless that is asked for, a line of Markdown does not depend on the secrets of a hidden task,
/// and neither does a notification.
pub proof fn lines_and_notifications_keep_secrets(t: TaskV, list: Seq<char>, several: bool)
    ensures
        task_text(redacted(t), false) == task_text(t, false),
        summary_text(redacted(t)) == summary_text(t),
        body_text(list, redacted(t), several) == body_text(list, t, several),
{
}

/// Named stores without their secrets.
pub open spec fn redacted_stores(lists: Seq<NamedStore>) -> Seq<NamedStore> {
    lists.map_values(|l: NamedStore| NamedStore { name: l.name, store: redacted_store(l.store) })
}

/// The lines of a day are the same.
proof fn task_lines_redacted(out: Seq<char>, tasks: Seq<TaskV>, n: int)
    requires
        0 <= n <= tasks.len(),
    ensures
        with_task_lines(out, redacted_tasks(tasks), false, n) == with_task_lines(
            out,
            tasks,
            false,
            n,
        ),
    decreases n,
{
    if n > 0 {
        task_lines_redacted(out, tasks, n - 1);
        lines_and_notifications_keep_secrets(tasks[n - 1], out, false);
    }
}

/// The sections of the days are the same.
proof fn day_sections_redacted(
    out: Seq<char>,
    s: StoreV,
    dates: Seq<int>,
    range: ExportRangeV,
    n: int,
)
    ensures
        with_day_sections(out, redacted_store(s), dates, range, false, n) == with_day_sections(
            out,
            s,
            dates,
            range,
            false,
            n,
        ),
    decreases n,
{
    if n > 0 {
        day_sections_redacted(out, s, dates, range, n - 1);
        let date = dates[n - 1];
        redacted_on(s, date);
        let before = with_day_sections(out, s, dates, range, false, n - 1);
        let headed = before + "## "@ + crate::date::long_date(date) + "\n\n"@;
        task_lines_redacted(headed, s.on(date), s.on(date).len() as int);
    }
}

/// The section of a list is the same.
proof fn list_section_redacted(
    out: Seq<char>,
    name: Seq<char>,
    s: StoreV,
    several: bool,
    range: ExportRangeV,
    today: int,
)
    ensures
        with_list_section(out, name, redacted_store(s), several, range, today, false)
            == with_list_section(out, name, s, several, range, today, false),
{
    let dates = dates_of(range, today, s.days);
    let n = dates.len() as int;
    assert(dates_of(range, today, redacted_store(s).days) =~= dates);
    let named = if several {
        out + "# "@ + name + "\n\n"@
    } else {
        out
    };
    day_sections_redacted(named, s, dates, range, n);
    assert forall|i: int| 0 <= i < n implies day_shown(
        redacted_store(s),
        #[trigger] dates[i],
        range,
    ) == day_shown(s, dates[i], range) by {
        redacted_on(s, dates[i]);
    }
    assert(any_day_shown(redacted_store(s), dates, range, n) == any_day_shown(s, dates, range, n))
        by {
        if any_day_shown(s, dates, range, n) {
            let i = choose|i: int| 0 <= i < n && day_shown(s, #[trigger] dates[i], range);
            assert(day_shown(redacted_store(s), dates[i], range));
        }
        if any_day_shown(redacted_store(s), dates, range, n) {
            let i = choose|i: int|
                0 <= i < n && day_shown(redacted_store(s), #[trigger] dates[i], range);
            assert(day_shown(s, dates[i], range));
        }
    }
}

/// The sections of the first lists are the same.
proof fn list_sections_redacted(lists: Seq<NamedStore>, range: ExportRangeV, today: int, n: int)
    requires
        0 <= n <= lists.len(),
    ensures
        list_sections(redacted_stores(lists), range, today, false, n) == list_sections(
            lists,
            range,
            today,
            false,
            n,
        ),
    decreases n,
{
    if n > 0 {
        list_sections_redacted(lists, range, today, n - 1);
        list_section_redacted(
            list_sections(lists, range, today, false, n - 1),
            lists[n - 1].name,
            lists[n - 1].store,
            lists.len() > 1,
            range,
            today,
        );
    }
}

/// Unless hidden tasks are asked for, exported Markdown does not depend on their texts or notes.
pub proof fn the_export_keeps_secrets(lists: Seq<NamedStore>, range: ExportRangeV, today: int)
    ensures
        markdown(redacted_stores(lists), range, today, false) == markdown(
            lists,
            range,
            today,
            false,
        ),
{
    list_sections_redacted(lists, range, today, lists.len() as int);
}

} // verus!
