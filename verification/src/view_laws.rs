//! What values stand for: each field for itself, and each element of a list at its own place.

use vstd::prelude::*;

use crate::app::{deleted, slots, App, ListSlot};
use crate::cli::{dues, named_stores, ExportRange, ExportRangeV};
use crate::date::Date;
use crate::editor::Editor;
use crate::keymap::{bounds, entries};
use crate::keys::{Action, KeyCode};
use crate::lists::list_rows;
use crate::model::Store;
use crate::pages::{page_views, task_views, Page};
use crate::popup::{day_marks, DayMark};
use crate::query::{hits, indices, listed, opt_task, ref_views, task_at};
use crate::style::{line_view, lines_view, Span};
use crate::task::{Task, TaskV};
use crate::text::texts;

verus! {

/// A task stands for its fields.
pub proof fn a_task_is_its_fields(t: Task)
    ensures
        t@.id == t.id,
        t@.text == t.text@,
        t@.done == t.done,
        t@.priority == t.priority,
        t@.created == t.created@,
        t@.completed is Some <==> t.completed is Some,
        t.completed is Some ==> t@.completed->Some_0 == t.completed->Some_0@,
        t@.remind is Some <==> t.remind is Some,
        t.remind is Some ==> t@.remind->Some_0 == t.remind->Some_0@,
        t@.note is Some <==> t.note is Some,
        t.note is Some ==> t@.note->Some_0 == t.note->Some_0@,
        t@.repeat == t.repeat,
        t@.hidden == t.hidden,
{
}

/// A store stands for its pages, a page for its date and its tasks, all in their order.
pub proof fn a_store_is_its_pages(s: Store, p: int, i: int)
    requires
        0 <= p < s.days@.len(),
        0 <= i < s.days@[p].tasks@.len(),
    ensures
        s@.version == s.version,
        s@.next_id == s.next_id,
        s@.days.len() == s.days@.len(),
        s@.days[p].date == s.days@[p].date@,
        s@.days[p].tasks.len() == s.days@[p].tasks@.len(),
        s@.days[p].tasks[i] == s.days@[p].tasks@[i]@,
{
}

/// Lists of tasks, references and pages stand for their elements, in their order.
pub proof fn lists_are_their_elements(
    tasks: Seq<Task>,
    pages: Seq<Page>,
    refs: Seq<&Task>,
    i: int,
)
    ensures
        task_views(tasks).len() == tasks.len(),
        0 <= i < tasks.len() ==> task_views(tasks)[i] == tasks[i]@,
        page_views(pages).len() == pages.len(),
        0 <= i < pages.len() ==> page_views(pages)[i] == pages[i]@,
        ref_views(refs).len() == refs.len(),
        0 <= i < refs.len() ==> ref_views(refs)[i] == refs[i]@,
{
}

/// Indices, search hits, open tasks and due tasks stand for what they are, in their order.
pub proof fn results_are_their_elements(
    order: Seq<usize>,
    found: Seq<(Date, usize)>,
    open: Seq<(Date, &Task)>,
    due: Seq<(String, Task)>,
    i: int,
)
    ensures
        indices(order).len() == order.len(),
        0 <= i < order.len() ==> indices(order)[i] == order[i],
        hits(found).len() == found.len(),
        0 <= i < found.len() ==> hits(found)[i].0 == found[i].0@ && hits(found)[i].1 == found[i].1,
        listed(open).len() == open.len(),
        0 <= i < open.len() ==> listed(open)[i].date == open[i].0@ && listed(open)[i].task
            == open[i].1@,
        dues(due).len() == due.len(),
        0 <= i < due.len() ==> dues(due)[i].list == due[i].0@ && dues(due)[i].task == due[i].1@,
{
}

/// What may be missing stands for what is there.
pub proof fn options_are_what_is_there(task: Option<&Task>, tasks: Seq<TaskV>, at: Option<int>)
    ensures
        opt_task(task) is Some <==> task is Some,
        task is Some ==> opt_task(task)->Some_0 == task->Some_0@,
        task_at(tasks, at) is Some <==> at is Some,
        at is Some ==> task_at(tasks, at)->Some_0 == tasks[at->Some_0],
{
}

/// The names and stores of lists, what was deleted, texts and settings stand for what they are, in
/// their order.
pub proof fn collections_are_their_elements(
    named: Seq<(String, Store)>,
    lists: Seq<ListSlot>,
    gone: Seq<(Date, usize, Task)>,
    list: Seq<String>,
    settings: Seq<(String, String)>,
    i: int,
)
    ensures
        named_stores(named).len() == named.len(),
        0 <= i < named.len() ==> named_stores(named)[i].name == named[i].0@ && named_stores(
            named,
        )[i].store == named[i].1@,
        slots(lists).len() == lists.len(),
        0 <= i < lists.len() ==> slots(lists)[i].name == lists[i].name@ && slots(lists)[i].path
            == lists[i].path && slots(lists)[i].store == lists[i].store@,
        deleted(gone).len() == gone.len(),
        0 <= i < gone.len() ==> deleted(gone)[i].date == gone[i].0@ && deleted(gone)[i].at
            == gone[i].1 && deleted(gone)[i].task == gone[i].2@,
        texts(list).len() == list.len(),
        0 <= i < list.len() ==> texts(list)[i] == list[i]@,
        entries(settings).len() == settings.len(),
        0 <= i < settings.len() ==> entries(settings)[i].0 == settings[i].0@ && entries(
            settings,
        )[i].1 == settings[i].1@,
{
}

/// Bindings, lines, marked days and rows of the list picker stand for what they are, in their order.
pub proof fn shown_things_are_their_elements(
    bindings: Seq<(Action, Vec<KeyCode>)>,
    line: Seq<Span>,
    lines: Seq<Vec<Span>>,
    marks: Seq<DayMark>,
    rows: Seq<(&str, usize, bool)>,
    i: int,
)
    ensures
        bounds(bindings).len() == bindings.len(),
        0 <= i < bindings.len() ==> bounds(bindings)[i].action == bindings[i].0 && bounds(
            bindings,
        )[i].codes == bindings[i].1@,
        line_view(line).len() == line.len(),
        0 <= i < line.len() ==> line_view(line)[i].text == line[i].text@ && line_view(line)[i].style
            == line[i].style,
        lines_view(lines).len() == lines.len(),
        0 <= i < lines.len() ==> lines_view(lines)[i] == line_view(lines[i]@),
        day_marks(marks).len() == marks.len(),
        0 <= i < marks.len() ==> day_marks(marks)[i].julian == marks[i].julian && day_marks(
            marks,
        )[i].style == marks[i].style,
        list_rows(rows).len() == rows.len(),
        0 <= i < rows.len() ==> list_rows(rows)[i].name == rows[i].0@ && list_rows(rows)[i].open
            == rows[i].1 && list_rows(rows)[i].active == rows[i].2,
{
}

/// The state of the application stands for its fields.
pub proof fn the_application_is_its_fields(a: App)
    ensures
        a@.store == a.store@,
        a@.list_name == a.list_name@,
        a@.path == a.path,
        a@.others == slots(a.others@),
        a@.date == a.date@,
        a@.today == a.today@,
        a@.now == a.now@,
        a@.selected == a.selected,
        a@.mode == a.mode@,
        a@.undo == deleted(a.undo@),
        a@.status is Some <==> a.status is Some,
        a.status is Some ==> a@.status->Some_0 == a.status->Some_0@,
        a@.quit == a.quit,
        a@.reveal == a.reveal,
        a@.sorted == a.sorted,
        a@.hide_done == a.hide_done,
        a@.split == a.split,
        a@.others_dirty == a.others_dirty,
        a@.confirm_delete == a.confirm_delete,
        a@.keys == a.keymap@,
        a@.theme == a.theme,
        a@.lists_mutable == a.lists_mutable,
        a@.pending_new_list is Some <==> a.pending_new_list is Some,
        a.pending_new_list is Some ==> a@.pending_new_list->Some_0 == a.pending_new_list->Some_0@,
{
}

/// An editor stands for its text, its cursor and what is edited, a range for the days it names.
pub proof fn editors_and_ranges_are_their_fields(e: Editor, range: ExportRange)
    ensures
        e@.text == e.buf@,
        e@.cursor == e.cursor,
        e@.target == e.target,
        range is Week <==> range@ is Week,
        range is All <==> range@ is All,
        range is Day ==> range@ == ExportRangeV::Day(range->Day_0@),
{
}

} // verus!
