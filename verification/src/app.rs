//! Application state: the lists, the day in view, the selection and what is being typed. Reading
//! it changes nothing; the caller decides when to save what the lists hold.

use std::path::PathBuf;

use vstd::prelude::*;

use crate::date::{Date, Time};
use crate::editor::{Editor, EditorV};
use crate::keymap::{first_key_text, Bound, Keymap};
use crate::keys::Action;
use crate::model::{Store, StoreV};
use crate::pages::{ordered, task_views};
use crate::query::{hits, indices};
use crate::task::{opt_text, Task, TaskV};
use crate::theme::Theme;

verus! {

/// A path in the file system: it is only carried along.
#[verifier::external_type_specification]
#[verifier::external_body]
pub struct ExPathBuf(std::path::PathBuf);

/// `PathBuf::new`: an empty path.
pub assume_specification[ std::path::PathBuf::new ]() -> (r: PathBuf);

/// How many search hits are shown.
pub const MAX_SEARCH_RESULTS: usize = 50;

// --- the state -----------------------------------------------------------------

/// What the keys are for at the moment.
#[derive(Debug)]
pub enum Mode {
    Normal,
    Insert(Editor),
    Help { scroll: u16 },
    /// Month view; `cursor` is the day under the cursor. With `moving`, Enter
    /// moves that task (index in the current day) instead of jumping.
    Calendar { cursor: Date, moving: Option<usize> },
    /// Live search across all days; `selected` indexes the result list.
    Search { editor: Editor, selected: usize },
    Review { scroll: u16 },
    /// Command line opened with `:`; `:q` quits, `:w` saves.
    Command(Editor),
    ConfirmDelete(usize),
    /// List picker; `selected` indexes the lists in cycling order, with one extra
    /// row after the last list for "+ New list".
    Lists { selected: usize },
}

/// What a mode holds.
pub ghost enum ModeV {
    Normal,
    Insert(EditorV),
    Help { scroll: int },
    Calendar { cursor: int, moving: Option<usize> },
    Search { editor: EditorV, selected: int },
    Review { scroll: int },
    Command(EditorV),
    ConfirmDelete(int),
    Lists { selected: int },
}

impl View for Mode {
    type V = ModeV;

    open spec fn view(&self) -> ModeV {
        match self {
            Mode::Normal => ModeV::Normal,
            Mode::Insert(editor) => ModeV::Insert(editor@),
            Mode::Help { scroll } => ModeV::Help { scroll: *scroll as int },
            Mode::Calendar { cursor, moving } => ModeV::Calendar {
                cursor: cursor@,
                moving: *moving,
            },
            Mode::Search { editor, selected } => ModeV::Search {
                editor: editor@,
                selected: *selected as int,
            },
            Mode::Review { scroll } => ModeV::Review { scroll: *scroll as int },
            Mode::Command(editor) => ModeV::Command(editor@),
            Mode::ConfirmDelete(idx) => ModeV::ConfirmDelete(*idx as int),
            Mode::Lists { selected } => ModeV::Lists { selected: *selected as int },
        }
    }
}

impl ModeV {
    /// The cursor of an open editor stands within its text or behind it.
    pub open spec fn wf(self) -> bool {
        match self {
            ModeV::Insert(editor) => editor.wf(),
            ModeV::Search { editor, selected } => editor.wf(),
            ModeV::Command(editor) => editor.wf(),
            _ => true,
        }
    }
}

/// One named list with its own data file.
#[derive(Debug)]
pub struct ListSlot {
    pub name: String,
    pub path: PathBuf,
    pub store: Store,
}

/// What a named list holds.
pub ghost struct SlotV {
    pub name: Seq<char>,
    pub path: PathBuf,
    pub store: StoreV,
}

impl View for ListSlot {
    type V = SlotV;

    open spec fn view(&self) -> SlotV {
        SlotV { name: self.name@, path: self.path, store: self.store@ }
    }
}

/// What named lists hold.
pub open spec fn slots(list: Seq<ListSlot>) -> Seq<SlotV> {
    list.map_values(|s: ListSlot| s@)
}

/// A deleted task, with the day and the position it stood at.
pub ghost struct DeletedV {
    pub date: int,
    pub at: int,
    pub task: TaskV,
}

/// What deleted tasks hold.
pub open spec fn deleted(list: Seq<(Date, usize, Task)>) -> Seq<DeletedV> {
    list.map_values(
        |d: (Date, usize, Task)| DeletedV { date: d.0@, at: d.1 as int, task: d.2@ },
    )
}

/// The state of the application.
#[derive(Debug)]
pub struct App {
    /// The active list's tasks.
    pub store: Store,
    pub list_name: String,
    pub path: PathBuf,
    /// Inactive lists, in the order `Tab` cycles through them.
    pub others: Vec<ListSlot>,
    /// The day currently being viewed.
    pub date: Date,
    /// The real calendar date; carry-over targets this.
    pub today: Date,
    /// Current wall-clock time, refreshed every tick; drives reminder state.
    pub now: Time,
    /// Position in the *visible* order (see `visible`).
    pub selected: usize,
    pub mode: Mode,
    /// Deleted tasks that can be put back, the last one deleted at the end.
    pub undo: Vec<(Date, usize, Task)>,
    pub status: Option<String>,
    pub quit: bool,
    /// When true, hidden tasks show their real text (session-only).
    pub reveal: bool,
    /// Show overdue/high-priority first instead of manual order.
    pub sorted: bool,
    /// Focus view: completed tasks are left out of the day view.
    pub hide_done: bool,
    /// Show the next list in a read-only pane beside the active one.
    pub split: bool,
    /// Carry-over changed an inactive list; the main loop saves them.
    pub others_dirty: bool,
    pub confirm_delete: bool,
    pub keymap: Keymap,
    pub theme: Theme,
    /// False when the environment pins a single file: the list set then
    /// comes from the environment, not the settings, so `:newlist` is refused.
    pub lists_mutable: bool,
    /// A list the user asked to create; the main loop performs the IO
    /// (settings + data file) and calls `add_list`.
    pub pending_new_list: Option<String>,
}

/// What the state holds.
pub ghost struct AppV {
    pub store: StoreV,
    pub list_name: Seq<char>,
    pub path: PathBuf,
    pub others: Seq<SlotV>,
    pub date: int,
    pub today: int,
    pub now: int,
    pub selected: int,
    pub mode: ModeV,
    pub undo: Seq<DeletedV>,
    pub status: Option<Seq<char>>,
    pub quit: bool,
    pub reveal: bool,
    pub sorted: bool,
    pub hide_done: bool,
    pub split: bool,
    pub others_dirty: bool,
    pub confirm_delete: bool,
    pub keys: Seq<Bound>,
    pub theme: Theme,
    pub lists_mutable: bool,
    pub pending_new_list: Option<Seq<char>>,
}

impl View for App {
    type V = AppV;

    open spec fn view(&self) -> AppV {
        AppV {
            store: self.store@,
            list_name: self.list_name@,
            path: self.path,
            others: slots(self.others@),
            date: self.date@,
            today: self.today@,
            now: self.now@,
            selected: self.selected as int,
            mode: self.mode@,
            undo: deleted(self.undo@),
            status: opt_text(self.status),
            quit: self.quit,
            reveal: self.reveal,
            sorted: self.sorted,
            hide_done: self.hide_done,
            split: self.split,
            others_dirty: self.others_dirty,
            confirm_delete: self.confirm_delete,
            keys: self.keymap@,
            theme: self.theme,
            lists_mutable: self.lists_mutable,
            pending_new_list: opt_text(self.pending_new_list),
        }
    }
}

// --- what is shown -------------------------------------------------------------

/// The first position from `i` on at which `x` stands, or the end.
pub open spec fn position_from(list: Seq<int>, x: int, i: int) -> int
    decreases list.len() - i,
{
    if i < list.len() && list[i] != x {
        position_from(list, x, i + 1)
    } else {
        i
    }
}

/// The indices that are shown: all of `order`, or only those of open tasks.
pub open spec fn shown_order(order: Seq<int>, tasks: Seq<TaskV>, hide_done: bool) -> Seq<int> {
    if hide_done {
        order.filter(|i: int| !tasks[i].done)
    } else {
        order
    }
}

/// The indices of one day of a store in display order.
pub open spec fn day_order(
    store: StoreV,
    date: int,
    today: int,
    now: int,
    sorted: bool,
    hide_done: bool,
) -> Seq<int> {
    let order = if sorted {
        store.sorted_indices(date, today, now)
    } else {
        Seq::new(store.on(date).len(), |i: int| i)
    };
    shown_order(order, store.on(date), hide_done)
}

/// Whether a hit is a hidden task.
pub open spec fn hidden_at(store: StoreV, hit: (int, int)) -> bool {
    store.has(hit.0, hit.1) && store.task(hit.0, hit.1).hidden
}

impl AppV {
    /// All stores have their pages in order, and an open editor has its cursor in place.
    #[verifier::opaque]
    pub open spec fn wf(self) -> bool {
        &&& ordered(self.store.days)
        &&& forall|i: int|
            0 <= i < self.others.len() ==> ordered(#[trigger] self.others[i].store.days)
        &&& self.mode.wf()
    }

    /// The tasks of the day in view.
    pub open spec fn tasks(self) -> Seq<TaskV> {
        self.store.on(self.date)
    }

    /// The indices of the day in view in display order.
    #[verifier::opaque]
    pub open spec fn visible(self) -> Seq<int> {
        day_order(self.store, self.date, self.today, self.now, self.sorted, self.hide_done)
    }

    /// The index of the selected task, if any.
    pub open spec fn selected_task(self) -> Option<int> {
        if 0 <= self.selected < self.visible().len() {
            Some(self.visible()[self.selected])
        } else {
            None
        }
    }

    /// The names of the lists in cycling order, the active one first.
    pub open spec fn list_names(self) -> Seq<Seq<char>> {
        seq![self.list_name] + self.others.map_values(|s: SlotV| s.name)
    }

    /// The state with the selection clamped to the rows that are shown.
    pub open spec fn clamp_selection(self) -> AppV {
        let rows = self.visible().len() as int;
        if self.selected < rows {
            self
        } else if rows == 0 {
            AppV { selected: 0, ..self }
        } else {
            AppV { selected: rows - 1, ..self }
        }
    }

    /// The state with the task at `idx` selected. Where it is not shown, the selection stays,
    /// clamped to the rows that are.
    pub open spec fn select_task(self, idx: int) -> AppV {
        let at = position_from(self.visible(), idx, 0);
        if at < self.visible().len() {
            AppV { selected: at, ..self }
        } else {
            self.clamp_selection()
        }
    }

    /// The state with `text` as the message to show.
    pub open spec fn say(self, text: Seq<char>) -> AppV {
        AppV { status: Some(text), ..self }
    }

    /// The first key bound to an action, for messages and hints.
    pub open spec fn first_key(self, action: Action) -> Seq<char> {
        first_key_text(self.keys, action)
    }

    /// The search hits for the query being typed; none outside search mode. While hidden tasks are
    /// masked, they are not found.
    #[verifier::opaque]
    pub open spec fn search_results(self) -> Seq<(int, int)> {
        match self.mode {
            ModeV::Search { editor, selected } => {
                let found = self.store.search(editor.text).filter(
                    |h: (int, int)| self.reveal || !hidden_at(self.store, h),
                );
                if found.len() > MAX_SEARCH_RESULTS {
                    found.take(MAX_SEARCH_RESULTS as int)
                } else {
                    found
                }
            },
            _ => Seq::empty(),
        }
    }
}

/// The first position at which `x` stands, or the end.
pub fn find_position(list: &Vec<usize>, x: usize) -> (r: usize)
    ensures
        r == position_from(indices(list@), x as int, 0),
        r <= list@.len(),
{
    let mut i: usize = 0;
    while i < list.len() && list[i] != x
        invariant
            i <= list@.len(),
            position_from(indices(list@), x as int, 0) == position_from(
                indices(list@),
                x as int,
                i as int,
            ),
        decreases list@.len() - i,
    {
        assert(indices(list@)[i as int] == list@[i as int]);
        i += 1;
    }
    assert(i < list@.len() ==> indices(list@)[i as int] == list@[i as int]);
    i
}

/// The indices of one day of a store in display order.
pub fn visible_order(
    store: &Store,
    date: Date,
    today: Date,
    now: Time,
    sorted: bool,
    hide_done: bool,
) -> (r: Vec<usize>)
    ensures
        indices(r@) == day_order(store@, date@, today@, now@, sorted, hide_done),
        forall|k: int| 0 <= k < r@.len() ==> #[trigger] r@[k] < store@.on(date@).len(),
{
    let tasks = store.tasks(date);
    let ghost on = store@.on(date@);
    let order = if sorted {
        store.sorted_indices(date, today, now)
    } else {
        let mut all: Vec<usize> = Vec::new();
        let mut i: usize = 0;
        while i < tasks.len()
            invariant
                i <= tasks@.len(),
                all@.len() == i,
                forall|k: int| 0 <= k < i ==> #[trigger] all@[k] == k,
            decreases tasks@.len() - i,
        {
            all.push(i);
            i += 1;
        }
        assert(indices(all@) =~= Seq::new(on.len(), |i: int| i));
        all
    };
    if !hide_done {
        return order;
    }
    let ghost whole = indices(order@);
    let ghost keep = |i: int| !on[i].done;
    let mut kept: Vec<usize> = Vec::new();
    let mut k: usize = 0;
    proof {
        reveal(Seq::filter);
        assert(indices(kept@) =~= whole.take(0).filter(keep));
    }
    while k < order.len()
        invariant
            k <= order@.len(),
            on == task_views(tasks@),
            on == store@.on(date@),
            whole == indices(order@),
            keep == (|i: int| !on[i].done),
            forall|j: int| 0 <= j < order@.len() ==> #[trigger] order@[j] < on.len(),
            forall|j: int| 0 <= j < kept@.len() ==> #[trigger] kept@[j] < on.len(),
            indices(kept@) == whole.take(k as int).filter(keep),
        decreases order@.len() - k,
    {
        let i = order[k];
        proof {
            reveal(Seq::filter);
            assert(whole[k as int] == i);
            assert(whole.take(k + 1).drop_last() =~= whole.take(k as int));
            assert(on[i as int] == tasks@[i as int]@);
        }
        if !tasks[i].done {
            let ghost before = kept@;
            kept.push(i);
            assert(indices(kept@) =~= indices(before).push(i as int));
        }
        k += 1;
    }
    assert(whole.take(whole.len() as int) =~= whole);
    kept
}

impl App {
    /// Number of tasks of the day in view.
    pub fn len(&self) -> (r: usize)
        ensures
            r == self@.tasks().len(),
    {
        let tasks = self.store.tasks(self.date);
        assert(task_views(tasks@).len() == tasks@.len());
        tasks.len()
    }

    /// Indices into `store.tasks(date)` in display order.
    pub fn visible(&self) -> (r: Vec<usize>)
        ensures
            indices(r@) == self@.visible(),
            forall|k: int| 0 <= k < r@.len() ==> #[trigger] r@[k] < self@.tasks().len(),
    {
        proof {
            reveal(AppV::visible);
        }
        visible_order(
            &self.store,
            self.date,
            self.today,
            self.now,
            self.sorted,
            self.hide_done,
        )
    }

    /// Number of rows on screen (`len()` minus hidden completed tasks).
    pub fn visible_len(&self) -> (r: usize)
        ensures
            r == self@.visible().len(),
    {
        let order = self.visible();
        assert(indices(order@).len() == order@.len());
        order.len()
    }

    /// The real index of the selected task, if any.
    pub fn selected_task(&self) -> (r: Option<usize>)
        ensures
            match r {
                Some(idx) => self@.selected_task() == Some(idx as int) && idx
                    < self@.tasks().len(),
                None => self@.selected_task() is None,
            },
    {
        let order = self.visible();
        assert(indices(order@).len() == order@.len());
        if self.selected < order.len() {
            assert(indices(order@)[self.selected as int] == order@[self.selected as int]);
            Some(order[self.selected])
        } else {
            None
        }
    }

    /// The task's text, masked when it is hidden and reveal mode is off.
    pub fn display_text(&self, task: &Task) -> (r: String)
        ensures
            r@ == task@.shown(self@.reveal),
    {
        task.shown_text(self.reveal)
    }

    /// First key bound to `action`, for messages and hints.
    pub fn first_key(&self, action: Action) -> (r: String)
        ensures
            r@ == self@.first_key(action),
    {
        self.keymap.first_key(action)
    }

    /// Clamps the selection to the rows that are shown.
    pub fn clamp_selection(&mut self)
        ensures
            final(self)@ == old(self)@.clamp_selection(),
            old(self)@.wf() ==> final(self)@.wf(),
    {
        proof {
            reveal(AppV::wf);
        }
        let rows = self.visible_len();
        if self.selected >= rows {
            self.selected = if rows == 0 {
                0
            } else {
                rows - 1
            };
        }
    }

    /// Keeps the task at real index `idx` selected after the order changed.
    /// A task that just left the view (completed while `hide_done` is on)
    /// leaves the cursor where it was, clamped to the rows that remain.
    pub fn select_task(&mut self, idx: usize)
        ensures
            final(self)@ == old(self)@.select_task(idx as int),
            old(self)@.wf() ==> final(self)@.wf(),
    {
        proof {
            reveal(AppV::wf);
        }
        let order = self.visible();
        assert(indices(order@).len() == order@.len());
        let at = find_position(&order, idx);
        if at < order.len() {
            self.selected = at;
        } else {
            self.clamp_selection();
        }
    }

    /// Search hits for the query being typed (empty outside search mode).
    pub fn search_results(&self) -> (r: Vec<(Date, usize)>)
        ensures
            hits(r@) == self@.search_results(),
    {
        proof {
            reveal(AppV::search_results);
        }
        let mut shown: Vec<(Date, usize)> = Vec::new();
        assert(hits(shown@) =~= Seq::<(int, int)>::empty());
        if let Mode::Search { editor, selected } = &self.mode {
            let found = self.store.search(editor.text().as_str());
            let ghost all = hits(found@);
            let ghost reveal = self.reveal;
            let ghost store = self.store@;
            // While masked, a hidden task must not be discoverable by
            // typing guesses at its text.
            let ghost keep = |h: (int, int)| reveal || !hidden_at(store, h);
            let mut i: usize = 0;
            proof {
                reveal(Seq::filter);
                assert(hits(shown@) =~= all.take(0).filter(keep));
            }
            while i < found.len()
                invariant
                    i <= found@.len(),
                    all == hits(found@),
                    reveal == self.reveal,
                    store == self.store@,
                    keep == (|h: (int, int)| reveal || !hidden_at(store, h)),
                    hits(shown@) == all.take(i as int).filter(keep),
                decreases found@.len() - i,
            {
                let (date, idx) = found[i];
                let tasks = self.store.tasks(date);
                proof {
                    reveal(Seq::filter);
                    assert(all[i as int] == (date@, idx as int));
                    assert(all.take(i + 1).drop_last() =~= all.take(i as int));
                }
                if self.reveal || !(idx < tasks.len() && tasks[idx].hidden) {
                    let ghost before = shown@;
                    shown.push((date, idx));
                    assert(hits(shown@) =~= hits(before).push((date@, idx as int)));
                }
                i += 1;
            }
            assert(all.take(all.len() as int) =~= all);
            assert(hits(shown@).len() == shown@.len());
            if shown.len() > MAX_SEARCH_RESULTS {
                let ghost before = shown@;
                shown.truncate(MAX_SEARCH_RESULTS);
                assert(hits(shown@) =~= hits(before).take(MAX_SEARCH_RESULTS as int));
            }
        }
        shown
    }
}

} // verus!
