//! Several lists side by side: starting with them, switching between them, adding one, and what a
//! new day or a tick of the clock does to them.

use std::path::PathBuf;

use vstd::prelude::*;

use crate::app::{slots, App, AppV, DeletedV, ListSlot, Mode, ModeV, SlotV};
use crate::config::{list_name_error, name_error, DEFAULT_LIST};
use crate::date::{Date, Time};
use crate::editor::{Editor, EditorV, Target};
use crate::keymap::{default_bindings, Keymap};
use crate::keys::Action;
use crate::model::Store;
use crate::pages::{carried, task_views};
use crate::storage::ENV_OVERRIDE;
use crate::task::{opt_text, TaskV};
use crate::text::{decimal, join, joined, owned, str_texts, texts, to_decimal};
use crate::theme::{default_theme, Theme};

verus! {

// --- what happens --------------------------------------------------------------

/// A list with its unfinished tasks of the past carried over.
pub open spec fn carried_slot(slot: SlotV, today: int) -> SlotV {
    SlotV { store: slot.store.carry_over(today), ..slot }
}

/// Lists with their unfinished tasks of the past carried over.
pub open spec fn carried_slots(list: Seq<SlotV>, today: int) -> Seq<SlotV> {
    list.map_values(|s: SlotV| carried_slot(s, today))
}

/// Whether any of the first `n` lists has something to carry over.
pub open spec fn any_carried(list: Seq<SlotV>, today: int, n: int) -> bool {
    exists|i: int| 0 <= i < n && carried((#[trigger] list[i]).store.days, today).len() > 0
}

/// How many tasks were carried over, in words.
pub open spec fn carried_text(before: Seq<char>, n: nat, behind: Seq<char>) -> Seq<char> {
    before + decimal(n) + behind
}

/// Whether a task's reminder lies behind `prev` and not behind `now`.
pub open spec fn rings(t: TaskV, prev: int, now: int) -> bool {
    !t.done && t.remind is Some && prev < t.remind->Some_0 && t.remind->Some_0 <= now
}

/// The texts of the tasks whose reminders ring, as they are shown.
pub open spec fn ringing(tasks: Seq<TaskV>, prev: int, now: int, reveal: bool) -> Seq<Seq<char>> {
    tasks.filter(|t: TaskV| rings(t, prev, now)).map_values(|t: TaskV| t.shown(reveal))
}

/// Whether a mode waits for an answer about a task that it knows by its index.
pub open spec fn holds_index(mode: ModeV) -> bool {
    match mode {
        ModeV::ConfirmDelete(_) => true,
        ModeV::Calendar { cursor, moving } => moving is Some,
        ModeV::Insert(editor) => editor.target is EditTask || editor.target is Reminder
            || editor.target is Note,
        _ => false,
    }
}

impl AppV {
    /// The state at the start: the first list is active, and all lists have their unfinished tasks
    /// of the past carried over.
    pub open spec fn started(lists: Seq<SlotV>, today: int) -> AppV {
        let active = lists[0];
        let n = carried(active.store.days, today).len();
        let others = lists.drop_first();
        AppV {
            store: active.store.carry_over(today),
            list_name: active.name,
            path: active.path,
            others: carried_slots(others, today),
            date: today,
            today,
            now: 0,
            selected: 0,
            mode: ModeV::Normal,
            undo: Seq::empty(),
            status: if n > 0 {
                Some(carried_text("Carried over "@, n, " unfinished task(s)"@))
            } else {
                None
            },
            quit: false,
            reveal: false,
            sorted: false,
            hide_done: false,
            split: false,
            others_dirty: any_carried(others, today, others.len() as int),
            confirm_delete: false,
            keys: default_bindings(),
            theme: default_theme(),
            lists_mutable: true,
            pending_new_list: None,
        }
    }

    /// The active list as one of the others.
    pub open spec fn active(self) -> SlotV {
        SlotV { name: self.list_name, path: self.path, store: self.store }
    }

    /// All lists in cycling order, the active one first.
    pub open spec fn cycle(self) -> Seq<SlotV> {
        seq![self.active()] + self.others
    }

    /// The state with `next` active: it has its unfinished tasks of the past carried over, and the
    /// view is back on today. Deleted tasks of the other list can no longer be put back.
    #[verifier::opaque]
    pub open spec fn activate(self, next: SlotV) -> AppV {
        let n = carried(next.store.days, self.today).len();
        AppV {
            store: next.store.carry_over(self.today),
            list_name: next.name,
            path: next.path,
            undo: Seq::empty(),
            date: self.today,
            selected: 0,
            status: Some(
                if n == 0 {
                    "List: "@ + next.name
                } else {
                    "List: "@ + next.name + " · carried over "@ + decimal(n) + " task(s)"@
                },
            ),
            ..self
        }
    }

    /// What is said where there is no other list.
    pub open spec fn only_one_list(self) -> Seq<char> {
        "Only one list — press "@ + self.first_key(Action::NewList) + " to create another"@
    }

    /// The state with the next list active and the one it replaced at the end of the cycle.
    #[verifier::opaque]
    pub open spec fn switch_list(self) -> AppV {
        if self.others.len() == 0 {
            self.say(self.only_one_list())
        } else {
            AppV {
                others: self.others.drop_first().push(self.active()),
                ..self.activate(self.others[0])
            }
        }
    }

    /// The state with the list at `pos` of the cycle active. The lists keep their cyclic order.
    #[verifier::opaque]
    pub open spec fn switch_list_to(self, pos: int) -> AppV {
        if pos <= 0 || pos > self.others.len() {
            self
        } else {
            AppV {
                others: self.others.skip(pos).push(self.active()) + self.others.take(pos - 1),
                ..self.activate(self.others[pos - 1])
            }
        }
    }

    /// The state with the prompt for a new list open, if lists can be added.
    #[verifier::opaque]
    pub open spec fn open_new_list_prompt(self) -> AppV {
        if self.lists_mutable {
            AppV { mode: ModeV::Insert(EditorV::open(""@, Target::NewList)), ..self }
        } else {
            self.say("Lists are fixed while $"@ + ENV_OVERRIDE@ + " is set"@)
        }
    }

    /// The state in which a new list is asked for, or the reason why it cannot be had is shown.
    #[verifier::opaque]
    pub open spec fn request_new_list(self, name: Seq<char>) -> AppV {
        if !self.lists_mutable {
            self.open_new_list_prompt()
        } else {
            match name_error(name, self.list_names()) {
                Some(error) => self.say(error),
                None => AppV { pending_new_list: Some(name), ..self },
            }
        }
    }

    /// The state with a list added and active.
    #[verifier::opaque]
    pub open spec fn add_list(self, slot: SlotV) -> AppV {
        let next = (AppV { others: seq![slot] + self.others, ..self }).switch_list();
        next.say(
            if slot.store.days.len() > 0 {
                "Opened existing list \""@ + next.list_name + "\""@
            } else {
                "Created list \""@ + next.list_name + "\""@
            },
        )
    }

    /// The state after the clock went on to `now`: reminders whose time was crossed are shown.
    #[verifier::opaque]
    pub open spec fn tick(self, now: int) -> AppV {
        let due = ringing(self.store.on(self.today), self.now, now, self.reveal);
        let ticked = AppV { now, ..self };
        if now <= self.now || due.len() == 0 {
            ticked
        } else {
            ticked.say("⏰ Reminder: "@ + joined(due, ", "@))
        }
    }

    /// The state without a pending action on a task that is known by its index.
    #[verifier::opaque]
    pub open spec fn cancel_pending(self) -> AppV {
        if holds_index(self.mode) {
            (AppV { mode: ModeV::Normal, ..self }).say("New day — pending action cancelled"@)
        } else {
            self
        }
    }

    /// The state on another day: unfinished tasks are carried over in all lists, and a view of
    /// today follows.
    #[verifier::opaque]
    pub open spec fn on_day(self, today: int) -> AppV {
        AppV {
            today,
            date: if self.date == self.today {
                today
            } else {
                self.date
            },
            store: self.store.carry_over(today),
            others: carried_slots(self.others, today),
            others_dirty: self.others_dirty || any_carried(
                self.others,
                today,
                self.others.len() as int,
            ),
            ..self
        }
    }

    /// The state after the date changed to `today`: a pending action on a task is cancelled,
    /// unfinished tasks are carried over in all lists, and a view of today follows.
    #[verifier::opaque]
    pub open spec fn roll_over(self, today: int) -> AppV {
        if today == self.today {
            self
        } else {
            let n = carried(self.store.days, today).len();
            let rolled = self.cancel_pending().on_day(today).clamp_selection();
            if n > 0 {
                rolled.say(carried_text("New day: carried over "@, n, " task(s)"@))
            } else {
                rolled
            }
        }
    }

    /// The list shown in the side pane: the next one of the cycle, when the split view is on.
    pub open spec fn side_list(self) -> Option<SlotV> {
        if self.split && self.others.len() > 0 {
            Some(self.others[0])
        } else {
            None
        }
    }
}

/// A row of the list picker: a list, how many open tasks it has, and whether it is active.
#[verifier::ext_equal]
pub ghost struct ListRow {
    pub name: Seq<char>,
    pub open: nat,
    pub active: bool,
}

/// What rows of the list picker hold.
pub open spec fn list_rows(rows: Seq<(&str, usize, bool)>) -> Seq<ListRow> {
    rows.map_values(
        |r: (&str, usize, bool)| ListRow { name: r.0@, open: r.1 as nat, active: r.2 },
    )
}

impl AppV {
    /// The rows of the list picker, in cycling order.
    pub open spec fn list_rows(self) -> Seq<ListRow> {
        Seq::new(
            self.cycle().len(),
            |i: int|
                ListRow {
                    name: self.cycle()[i].name,
                    open: self.cycle()[i].store.open_tasks(self.today).len(),
                    active: i == 0,
                },
        )
    }
}

// --- carrying over -------------------------------------------------------------

/// Carries over the unfinished tasks of the past in lists; tells whether there were any.
fn carry_over_slots(list: &mut Vec<ListSlot>, today: Date) -> (r: bool)
    ensures
        slots(final(list)@) == carried_slots(slots(old(list)@), today@),
        r == any_carried(slots(old(list)@), today@, old(list)@.len() as int),
        (forall|i: int| 0 <= i < old(list)@.len() ==> (#[trigger] old(list)@[i]).store.wf())
            ==> (forall|i: int|
            0 <= i < final(list)@.len() ==> (#[trigger] final(list)@[i]).store.wf()),
{
    let ghost all = slots(list@);
    let ghost good = forall|i: int| 0 <= i < list@.len() ==> (#[trigger] list@[i]).store.wf();
    let mut dirty = false;
    let mut i: usize = 0;
    while i < list.len()
        invariant
            i <= list@.len() == all.len(),
            forall|k: int| 0 <= k < i ==> (#[trigger] list@[k])@ == carried_slot(all[k], today@),
            forall|k: int| i <= k < all.len() ==> (#[trigger] list@[k])@ == all[k],
            dirty == any_carried(all, today@, i as int),
            good ==> forall|k: int| 0 <= k < list@.len() ==> (#[trigger] list@[k]).store.wf(),
        decreases list@.len() - i,
    {
        let ghost before = list@;
        assert(list@[i as int]@ == all[i as int]);
        let n = list[i].store.carry_over(today);
        proof {
            assert forall|k: int| 0 <= k < i + 1 implies (#[trigger] list@[k])@ == carried_slot(
                all[k],
                today@,
            ) by {
                if k < i {
                    assert(list@[k] == before[k]);
                }
            }
            assert forall|k: int| i + 1 <= k < all.len() implies (#[trigger] list@[k])@
                == all[k] by {
                assert(list@[k] == before[k]);
            }
            assert(any_carried(all, today@, i + 1) == (any_carried(all, today@, i as int) || n
                > 0)) by {
                if any_carried(all, today@, i + 1) && n == 0 {
                    let k = choose|k: int|
                        0 <= k < i + 1 && carried((#[trigger] all[k]).store.days, today@).len() > 0;
                    assert(0 <= k < i && carried(all[k].store.days, today@).len() > 0);
                }
                if any_carried(all, today@, i as int) {
                    let k = choose|k: int|
                        0 <= k < i && carried((#[trigger] all[k]).store.days, today@).len() > 0;
                    assert(0 <= k < i + 1 && carried(all[k].store.days, today@).len() > 0);
                }
                if n > 0 {
                    assert(carried(all[i as int].store.days, today@).len() > 0);
                }
            }
            if good {
                assert forall|k: int| 0 <= k < list@.len() implies (
                #[trigger] list@[k]).store.wf() by {
                    if k != i {
                        assert(list@[k] == before[k]);
                    } else {
                        assert(before[k].store.wf());
                    }
                }
            }
        }
        if n > 0 {
            dirty = true;
        }
        i += 1;
    }
    assert(slots(list@) =~= carried_slots(all, today@));
    dirty
}

/// How many tasks were carried over, in words.
fn carried_message(before: &str, n: usize, behind: &str) -> (r: String)
    ensures
        r@ == carried_text(before@, n as nat, behind@),
{
    let mut out = owned(before);
    out.push_str(to_decimal(n as u64).as_str());
    out.push_str(behind);
    out
}

impl App {
    /// Single unnamed list.
    pub fn new(store: Store, today: Date) -> (r: App)
        ensures
            exists|path: PathBuf|
                r@ == AppV::started(
                    seq![SlotV { name: DEFAULT_LIST@, path, store: store@ }],
                    today@,
                ),
            store.wf() ==> r@.wf(),
    {
        let path = PathBuf::new();
        let mut lists: Vec<ListSlot> = Vec::new();
        lists.push(ListSlot { name: owned(DEFAULT_LIST), path, store });
        assert(slots(lists@) =~= seq![SlotV { name: DEFAULT_LIST@, path, store: store@ }]);
        App::with_lists(lists, today)
    }

    /// The first list becomes active. `lists` must not be empty.
    pub fn with_lists(lists: Vec<ListSlot>, today: Date) -> (r: App)
        requires
            lists@.len() > 0,
        ensures
            r@ == AppV::started(slots(lists@), today@),
            (forall|i: int| 0 <= i < lists@.len() ==> (#[trigger] lists@[i]).store.wf())
                ==> r@.wf(),
    {
        proof {
            reveal(AppV::wf);
        }
        let ghost all = slots(lists@);
        let ghost given = lists@;
        let mut others = lists;
        let active = others.remove(0);
        assert(active@ == all[0]);
        assert(slots(others@) =~= all.drop_first());
        proof {
            if forall|i: int| 0 <= i < given.len() ==> (#[trigger] given[i]).store.wf() {
                assert forall|i: int| 0 <= i < others@.len() implies (
                #[trigger] others@[i]).store.wf() by {
                    assert(others@[i] == given[i + 1]);
                }
                assert(given[0].store.wf());
            }
        }
        let mut store = active.store;
        let carried = store.carry_over(today);
        let status = if carried > 0 {
            Some(carried_message("Carried over ", carried, " unfinished task(s)"))
        } else {
            None
        };
        // Inactive lists are carried over too, so the side pane and the list
        // picker's counts show the same "today" the list would on activation.
        let others_dirty = carry_over_slots(&mut others, today);
        let app = App {
            store,
            list_name: active.name,
            path: active.path,
            others,
            date: today,
            today,
            now: Time::midnight(),
            selected: 0,
            mode: Mode::Normal,
            undo: Vec::new(),
            status,
            quit: false,
            reveal: false,
            sorted: false,
            hide_done: false,
            split: false,
            others_dirty,
            confirm_delete: false,
            keymap: Keymap::default(),
            theme: Theme::default(),
            lists_mutable: true,
            pending_new_list: None,
        };
        assert(app@.undo =~= Seq::<DeletedV>::empty());
        proof {
            if forall|i: int| 0 <= i < given.len() ==> (#[trigger] given[i]).store.wf() {
                assert forall|i: int| 0 <= i < app@.others.len() implies crate::pages::ordered(
                    #[trigger] app@.others[i].store.days,
                ) by {
                    assert(app.others@[i].store.wf());
                }
            }
        }
        app
    }

    /// Every list's `(path, store)`, active first, for saving on exit.
    pub fn all_lists(&self) -> (r: Vec<(&PathBuf, &Store)>)
        ensures
            r@.len() == self@.cycle().len(),
            forall|i: int|
                #![trigger r@[i]]
                0 <= i < r@.len() ==> *r@[i].0 == self@.cycle()[i].path && r@[i].1@
                    == self@.cycle()[i].store,
    {
        let mut all: Vec<(&PathBuf, &Store)> = Vec::new();
        all.push((&self.path, &self.store));
        let mut i: usize = 0;
        while i < self.others.len()
            invariant
                i <= self.others@.len(),
                all@.len() == i + 1,
                forall|k: int|
                    #![trigger all@[k]]
                    0 <= k < i + 1 ==> *all@[k].0 == self@.cycle()[k].path && all@[k].1@
                        == self@.cycle()[k].store,
            decreases self.others@.len() - i,
        {
            assert(self@.cycle()[i + 1] == self.others@[i as int]@);
            all.push((&self.others[i].path, &self.others[i].store));
            i += 1;
        }
        all
    }

    /// List names in cycling order, active first.
    pub fn list_names(&self) -> (r: Vec<&str>)
        ensures
            str_texts(r@) == self@.list_names(),
    {
        let mut names: Vec<&str> = Vec::new();
        names.push(self.list_name.as_str());
        let mut i: usize = 0;
        while i < self.others.len()
            invariant
                i <= self.others@.len(),
                names@.len() == i + 1,
                forall|k: int|
                    #![trigger names@[k]]
                    0 <= k < i + 1 ==> names@[k]@ == self@.list_names()[k],
            decreases self.others@.len() - i,
        {
            assert(self@.list_names()[i + 1] == self.others@[i as int]@.name);
            names.push(self.others[i].name.as_str());
            i += 1;
        }
        assert(str_texts(names@) =~= self@.list_names());
        names
    }

    /// True once when carry-over changed an inactive list since the last call.
    pub fn take_others_dirty(&mut self) -> (r: bool)
        ensures
            r == old(self)@.others_dirty,
            final(self)@ == (AppV { others_dirty: false, ..old(self)@ }),
            old(self)@.wf() ==> final(self)@.wf(),
    {
        proof {
            reveal(AppV::wf);
        }
        let dirty = self.others_dirty;
        self.others_dirty = false;
        dirty
    }

    /// The list shown in the side pane: the next one in `Tab` order, when the
    /// split view is on and there is more than one list.
    pub fn side_list(&self) -> (r: Option<(&str, &Store)>)
        ensures
            match r {
                Some((name, store)) => self@.side_list() is Some && name@
                    == self@.side_list()->Some_0.name && store@ == self@.side_list()->Some_0.store,
                None => self@.side_list() is None,
            },
    {
        if self.split && self.others.len() > 0 {
            assert(self@.others[0] == self.others@[0]@);
            Some((self.others[0].name.as_str(), &self.others[0].store))
        } else {
            None
        }
    }

    /// `(name, open tasks, is active)` for every list, in `list_names()` order.
    pub fn list_rows(&self) -> (r: Vec<(&str, usize, bool)>)
        ensures
            list_rows(r@) == self@.list_rows(),
    {
        let mut rows: Vec<(&str, usize, bool)> = Vec::new();
        let open = self.store.open_tasks(self.today);
        assert(crate::query::listed(open@).len() == open@.len());
        rows.push((self.list_name.as_str(), open.len(), true));
        let mut i: usize = 0;
        while i < self.others.len()
            invariant
                i <= self.others@.len(),
                rows@.len() == i + 1,
                forall|k: int|
                    #![trigger rows@[k]]
                    0 <= k < i + 1 ==> list_rows(rows@)[k] == self@.list_rows()[k],
            decreases self.others@.len() - i,
        {
            let slot = &self.others[i];
            assert(self@.cycle()[i + 1] == slot@);
            let open = slot.store.open_tasks(self.today);
            assert(crate::query::listed(open@).len() == open@.len());
            let ghost before = rows@;
            rows.push((slot.name.as_str(), open.len(), false));
            proof {
                assert forall|k: int|
                    #![trigger rows@[k]]
                    0 <= k < i + 2 implies list_rows(rows@)[k] == self@.list_rows()[k] by {
                    if k < i + 1 {
                        assert(rows@[k] == before[k]);
                        assert(list_rows(before)[k] == self@.list_rows()[k]);
                    }
                }
            }
            i += 1;
        }
        assert forall|k: int| 0 <= k < rows@.len() implies list_rows(rows@)[k]
            == self@.list_rows()[k] by {
            assert(rows@[k] == rows@[k]);
        }
        assert(list_rows(rows@) =~= self@.list_rows());
        rows
    }

    /// The list creation requested by the last key press, if any.
    pub fn take_pending_new_list(&mut self) -> (r: Option<String>)
        ensures
            opt_text(r) == old(self)@.pending_new_list,
            final(self)@ == (AppV { pending_new_list: None, ..old(self)@ }),
            old(self)@.wf() ==> final(self)@.wf(),
    {
        proof {
            reveal(AppV::wf);
        }
        let mut taken: Option<String> = None;
        core::mem::swap(&mut taken, &mut self.pending_new_list);
        taken
    }

    /// Makes `next` the active list and returns the one it replaced. Applies
    /// carry-over to the newly active list and resets the view to today.
    fn activate(&mut self, next: ListSlot) -> (r: ListSlot)
        ensures
            final(self)@ == old(self)@.activate(next@),
            r@ == old(self)@.active(),
            next.store.wf() ==> final(self).store.wf(),
            old(self).store.wf() ==> r.store.wf(),
            final(self).others == old(self).others,
    {
        proof {
            reveal(AppV::activate);
        }
        let mut current = next;
        core::mem::swap(&mut current.name, &mut self.list_name);
        core::mem::swap(&mut current.path, &mut self.path);
        core::mem::swap(&mut current.store, &mut self.store);
        let carried = self.store.carry_over(self.today);
        self.undo = Vec::new();
        assert(self@.undo =~= Seq::<DeletedV>::empty());
        self.date = self.today;
        self.selected = 0;
        let mut text = owned("List: ");
        text.push_str(self.list_name.as_str());
        if carried > 0 {
            text.push_str(" · carried over ");
            text.push_str(to_decimal(carried as u64).as_str());
            text.push_str(" task(s)");
        }
        self.status = Some(text);
        current
    }

    /// What is said where there is no other list.
    pub fn only_one_list(&self) -> (r: String)
        ensures
            r@ == self@.only_one_list(),
    {
        let mut out = owned("Only one list — press ");
        out.push_str(self.first_key(Action::NewList).as_str());
        out.push_str(" to create another");
        out
    }

    /// Activates the next list. Returns true when there was one.
    pub fn switch_list(&mut self) -> (r: bool)
        ensures
            final(self)@ == old(self)@.switch_list(),
            r == (old(self)@.others.len() > 0),
            old(self)@.wf() ==> final(self)@.wf(),
    {
        proof {
            reveal(AppV::activate);
            reveal(AppV::wf);
            reveal(AppV::switch_list);
        }
        let ghost all = self@.others;
        if self.others.len() == 0 {
            self.status = Some(self.only_one_list());
            return false;
        }
        let ghost given = self.others@;
        let next = self.others.remove(0);
        assert(next@ == all[0]);
        assert(self@.others =~= all.drop_first());
        let current = self.activate(next);
        let ghost rest = self.others@;
        self.others.push(current);
        proof {
            assert(self@.others =~= slots(rest).push(current@));
            if old(self)@.wf() {
                assert(crate::pages::ordered(all[0].store.days));
                assert forall|i: int| 0 <= i < self@.others.len() implies crate::pages::ordered(
                    #[trigger] self@.others[i].store.days,
                ) by {
                    if i < rest.len() {
                        assert(self@.others[i] == all[i + 1]);
                    }
                }
            }
        }
        true
    }

    /// Activates the list at `pos` in `list_names()` order. The lists keep
    /// their cyclic order, so `Tab` continues from the new position.
    pub fn switch_list_to(&mut self, pos: usize) -> (r: bool)
        ensures
            final(self)@ == old(self)@.switch_list_to(pos as int),
            r == (0 < pos <= old(self)@.others.len()),
            old(self)@.wf() ==> final(self)@.wf(),
    {
        proof {
            reveal(AppV::activate);
            reveal(AppV::wf);
            reveal(AppV::switch_list_to);
        }
        let ghost all = self@.others;
        if pos == 0 || pos > self.others.len() {
            return false;
        }
        // Cycle before: active, o0 … ok … on. After choosing ok the cycle
        // reads ok, ok+1 … on, active, o0 … ok-1.
        let k: usize = pos - 1;
        let mut earlier: Vec<ListSlot> = Vec::new();
        let mut i: usize = 0;
        while i < k
            invariant
                i <= k < all.len(),
                all == old(self)@.others,
                slots(earlier@) =~= all.take(i as int),
                self@.others =~= all.skip(i as int),
                self.others@.len() == all.len() - i,
                self@ == (AppV { others: self@.others, ..old(self)@ }),
            decreases k - i,
        {
            let ghost before = self@.others;
            let ghost shorter = earlier@;
            let ghost given = self.others@;
            let slot = self.others.remove(0);
            assert(before[0] == given[0]@);
            assert(self@.others =~= before.drop_first());
            earlier.push(slot);
            assert(slots(earlier@) =~= slots(shorter).push(slot@));
            i += 1;
        }
        let ghost before = self@.others;
        let ghost given = self.others@;
        let next = self.others.remove(0);
        assert(before[0] == given[0]@);
        assert(next@ == all[k as int]);
        assert(self@.others =~= before.drop_first());
        assert(self@.others =~= all.skip(pos as int));
        let previous = self.activate(next);
        let ghost rest = self.others@;
        let ghost first = earlier@;
        self.others.push(previous);
        self.others.append(&mut earlier);
        proof {
            assert(self@.others =~= slots(rest).push(previous@) + slots(first));
            assert(self@.others =~= all.skip(pos as int).push(previous@) + all.take(pos - 1));
            if old(self)@.wf() {
                assert(crate::pages::ordered(all[k as int].store.days));
                assert forall|i: int| 0 <= i < self@.others.len() implies crate::pages::ordered(
                    #[trigger] self@.others[i].store.days,
                ) by {
                    if i < rest.len() {
                        assert(self@.others[i] == all[i + pos]);
                    } else if i > rest.len() {
                        assert(self@.others[i] == all[i - rest.len() - 1]);
                    }
                }
            }
        }
        true
    }

    /// Opens the prompt for a new list, unless the lists are fixed.
    pub fn open_new_list_prompt(&mut self)
        ensures
            final(self)@ == old(self)@.open_new_list_prompt(),
            old(self)@.wf() ==> final(self)@.wf(),
    {
        proof {
            reveal(AppV::wf);
            reveal(AppV::open_new_list_prompt);
        }
        if !self.lists_mutable {
            let mut out = owned("Lists are fixed while $");
            out.push_str(ENV_OVERRIDE);
            out.push_str(" is set");
            self.status = Some(out);
            return;
        }
        self.mode = Mode::Insert(Editor::new("", Target::NewList));
    }

    /// Validates `name` and asks the main loop to create the list.
    pub fn request_new_list(&mut self, name: &str)
        ensures
            final(self)@ == old(self)@.request_new_list(name@),
            old(self)@.wf() ==> final(self)@.wf(),
    {
        proof {
            reveal(AppV::wf);
            reveal(AppV::request_new_list);
        }
        if !self.lists_mutable {
            self.open_new_list_prompt();  // sets the explanatory status
            return;
        }
        if let Some(error) = list_name_error(name, self.list_names().as_slice()) {
            self.status = Some(error);
            return;
        }
        self.pending_new_list = Some(owned(name));
    }

    /// Adds a just-created list and switches to it. `store` holds the content
    /// of its data file (usually empty; an orphaned file is adopted as-is).
    pub fn add_list(&mut self, name: String, path: PathBuf, store: Store)
        ensures
            final(self)@ == old(self)@.add_list(SlotV { name: name@, path, store: store@ }),
            old(self)@.wf() && store.wf() ==> final(self)@.wf(),
    {
        proof {
            reveal(AppV::switch_list);
            reveal(AppV::activate);
            reveal(AppV::wf);
            reveal(AppV::add_list);
        }
        let ghost slot = SlotV { name: name@, path, store: store@ };
        let existed = store.days.len() > 0;
        let ghost before = self@.others;
        self.others.insert(0, ListSlot { name, path, store });
        proof {
            assert(self@.others =~= seq![slot] + before);
            if old(self)@.wf() && store.wf() {
                assert forall|i: int| 0 <= i < self@.others.len() implies crate::pages::ordered(
                    #[trigger] self@.others[i].store.days,
                ) by {
                    if i > 0 {
                        assert(self@.others[i] == before[i - 1]);
                    }
                }
            }
        }
        self.switch_list();
        let mut text = owned(
            if existed {
                "Opened existing list \""
            } else {
                "Created list \""
            },
        );
        text.push_str(self.list_name.as_str());
        text.push_str("\"");
        self.status = Some(text);
    }

    /// Advances the clock. Flashes a status message for any of today's
    /// reminders whose time was crossed since the previous tick.
    pub fn tick(&mut self, now: Time)
        ensures
            final(self)@ == old(self)@.tick(now@),
            old(self)@.wf() ==> final(self)@.wf(),
    {
        proof {
            reveal(AppV::wf);
            reveal(AppV::tick);
        }
        let prev = self.now;
        self.now = now;
        if !prev.before(now) {
            return;
        }
        let tasks = self.store.tasks(self.today);
        let ghost on = task_views(tasks@);
        let ghost keep = |t: TaskV| rings(t, prev@, now@);
        let ghost show = |t: TaskV| t.shown(self.reveal);
        let mut due: Vec<String> = Vec::new();
        let mut i: usize = 0;
        proof {
            reveal(Seq::filter);
            assert(texts(due@) =~= on.take(0).filter(keep).map_values(show));
        }
        while i < tasks.len()
            invariant
                i <= tasks@.len(),
                on == task_views(tasks@),
                keep == (|t: TaskV| rings(t, prev@, now@)),
                show == (|t: TaskV| t.shown(self.reveal)),
                texts(due@) == on.take(i as int).filter(keep).map_values(show),
            decreases tasks@.len() - i,
        {
            let task = &tasks[i];
            proof {
                reveal(Seq::filter);
                assert(on[i as int] == task@);
                assert(on.take(i + 1).drop_last() =~= on.take(i as int));
            }
            if !task.done {
                if let Some(remind) = task.remind {
                    if prev.before(remind) && !now.before(remind) {
                        let ghost shorter = due@;
                        due.push(task.shown_text(self.reveal));
                        proof {
                            assert(texts(due@) =~= texts(shorter).push(show(task@)));
                            assert(texts(due@) =~= on.take(i + 1).filter(keep).map_values(show));
                        }
                    }
                }
            }
            i += 1;
        }
        proof {
            assert(on.take(on.len() as int) =~= on);
            assert(texts(due@) =~= ringing(on, prev@, now@, self.reveal));
            assert(texts(due@).len() == due@.len());
        }
        if due.len() > 0 {
            let mut text = owned("⏰ Reminder: ");
            text.push_str(join(&due, ", ").as_str());
            self.status = Some(text);
        }
    }

    /// Cancels a pending action that references a task by index: it would target the
    /// wrong task once carry-over reshuffles the lists.
    fn cancel_pending(&mut self)
        ensures
            final(self)@ == old(self)@.cancel_pending(),
            old(self)@.wf() ==> final(self)@.wf(),
    {
        proof {
            reveal(AppV::wf);
            reveal(AppV::cancel_pending);
        }
        let holds = match &self.mode {
            Mode::ConfirmDelete(_) => true,
            Mode::Calendar { cursor, moving } => moving.is_some(),
            Mode::Insert(editor) => match editor.target {
                Target::EditTask(_) | Target::Reminder(_) | Target::Note(_) => true,
                _ => false,
            },
            _ => false,
        };
        if holds {
            self.mode = Mode::Normal;
            self.status = Some(owned("New day — pending action cancelled"));
        }
    }

    /// Goes on to another day; returns how many tasks were carried over in the active list.
    fn start_day(&mut self, today: Date) -> (r: usize)
        ensures
            final(self)@ == old(self)@.on_day(today@),
            r == carried(old(self)@.store.days, today@).len(),
            old(self)@.wf() ==> final(self)@.wf(),
    {
        proof {
            reveal(AppV::wf);
            reveal(AppV::on_day);
        }
        if self.date.is(self.today) {
            self.date = today;
        }
        self.today = today;
        let carried = self.store.carry_over(today);
        let ghost before = self.others@;
        let dirty = carry_over_slots(&mut self.others, today);
        if dirty {
            self.others_dirty = true;
        }
        proof {
            if old(self)@.wf() {
                assert forall|i: int| 0 <= i < before.len() implies (
                #[trigger] before[i]).store.wf() by {
                    assert(crate::pages::ordered(old(self)@.others[i].store.days));
                }
                assert forall|i: int| 0 <= i < self@.others.len() implies crate::pages::ordered(
                    #[trigger] self@.others[i].store.days,
                ) by {
                    assert(self.others@[i].store.wf());
                }
            }
        }
        carried
    }

    /// Re-runs carry-over when the calendar date changes while the app is
    /// open. Returns true when the store changed.
    pub fn check_date_rollover(&mut self, now: Date) -> (r: bool)
        ensures
            final(self)@ == old(self)@.roll_over(now@),
            r == (now@ != old(self)@.today && carried(old(self)@.store.days, now@).len() > 0),
            old(self)@.wf() ==> final(self)@.wf(),
    {
        proof {
            reveal(AppV::cancel_pending);
            reveal(AppV::on_day);
            reveal(AppV::wf);
            reveal(AppV::roll_over);
        }
        if now.is(self.today) {
            return false;
        }
        self.cancel_pending();
        let carried = self.start_day(now);
        self.clamp_selection();
        if carried > 0 {
            self.status = Some(carried_message("New day: carried over ", carried, " task(s)"));
        }
        carried > 0
    }
}

} // verus!
