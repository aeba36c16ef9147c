//! The list of tasks, grouped by day, and what can be done to it.
//! Nothing here touches the terminal or the filesystem.

use vstd::prelude::*;

use crate::date::{Date, Time};
use crate::date_laws::next_day_is_later;
use crate::pages::{
    carried, finished, has_page, kept_on, left_behind, ordered, page_views, place, place_from,
    pruned, pruned_facts, task_views, tasks_on, unfinished, with_page, with_task, with_tasks,
    with_tasks_facts, Page, PageV,
};
use crate::task::{following_repeat, opt_day, opt_text, opt_time, Priority, Repeat, Task, TaskV};
use crate::text::{same, trim, trimmed};

verus! {

/// The version of the data format.
pub const STORE_VERSION: u32 = 1;

/// All tasks of one list.
#[derive(Debug)]
pub struct Store {
    pub version: u32,
    pub next_id: u64,
    /// One page per day, in the order of the days. Days with no tasks are pruned on save.
    pub days: Vec<Page>,
}

/// What a store holds.
#[verifier::ext_equal]
pub ghost struct StoreV {
    pub version: int,
    pub next_id: int,
    pub days: Seq<PageV>,
}

impl View for Store {
    type V = StoreV;

    open spec fn view(&self) -> StoreV {
        StoreV {
            version: self.version as int,
            next_id: self.next_id as int,
            days: page_views(self.days@),
        }
    }
}

// --- what the operations do ----------------------------------------------------

/// A task as it is first written down on `date`.
pub open spec fn new_task(id: int, text: Seq<char>, date: int) -> TaskV {
    TaskV {
        id,
        text,
        done: false,
        priority: Priority::Plain,
        created: date,
        completed: None,
        remind: None,
        note: None,
        repeat: None,
        hidden: false,
    }
}

/// Whether `t` is open and has the text and the repeat setting of `template`.
pub open spec fn is_occurrence(t: TaskV, template: TaskV) -> bool {
    !t.done && t.text == template.text && t.repeat == template.repeat
}

/// The position from `i` on of the first open task like `template`, or the end.
pub open spec fn occurrence_from(tasks: Seq<TaskV>, template: TaskV, i: int) -> int
    decreases tasks.len() - i,
{
    if i < tasks.len() && !is_occurrence(tasks[i], template) {
        occurrence_from(tasks, template, i + 1)
    } else {
        i
    }
}

/// The page and the position on it, from page `p` on, of the first open task like `template` that
/// is listed on day `from` or later.
pub open spec fn occurrence_on(
    pages: Seq<PageV>,
    template: TaskV,
    from: int,
    p: int,
) -> Option<(int, int)>
    decreases pages.len() - p,
{
    if p >= pages.len() {
        None
    } else if pages[p].date >= from && occurrence_from(pages[p].tasks, template, 0)
        < pages[p].tasks.len() {
        Some((p, occurrence_from(pages[p].tasks, template, 0)))
    } else {
        occurrence_on(pages, template, from, p + 1)
    }
}

/// Whether the copy of a repeating task is as it was made.
pub open spec fn pristine(copy: TaskV, template: TaskV) -> bool {
    copy.priority == template.priority && copy.remind == template.remind && copy.note
        == template.note && copy.hidden == template.hidden
}

/// The text of a note as it is kept: trimmed, and none where nothing is left.
pub open spec fn kept_note(note: Seq<char>) -> Option<Seq<char>> {
    if trimmed(note).len() == 0 {
        None
    } else {
        Some(trimmed(note))
    }
}

/// `idx`, or the length of the list where that is less.
pub open spec fn clamped(idx: int, len: nat) -> int {
    if idx < len {
        idx
    } else {
        len as int
    }
}

/// The list with the elements at `i` and `j` swapped.
pub open spec fn swapped(tasks: Seq<TaskV>, i: int, j: int) -> Seq<TaskV> {
    tasks.update(i, tasks[j]).update(j, tasks[i])
}

impl StoreV {
    /// An empty store.
    pub open spec fn empty() -> StoreV {
        StoreV { version: STORE_VERSION as int, next_id: 1, days: Seq::empty() }
    }

    /// The tasks on `date`.
    pub open spec fn on(self, date: int) -> Seq<TaskV> {
        tasks_on(self.days, date)
    }

    /// The same store with other pages.
    pub open spec fn with_days(self, days: Seq<PageV>) -> StoreV {
        StoreV { days, ..self }
    }

    /// A new task at the end of `date`'s page.
    pub open spec fn add(self, date: int, text: Seq<char>) -> StoreV {
        StoreV {
            next_id: self.next_id + 1,
            days: with_tasks(
                self.days,
                date,
                self.on(date).push(new_task(self.next_id, text, date)),
            ),
            ..self
        }
    }

    /// The store with `task` in place of the one at `idx` on `date`'s page.
    pub open spec fn set(self, date: int, idx: int, task: TaskV) -> StoreV {
        self.with_days(with_task(self.days, date, idx, task))
    }

    /// The task at `idx` on `date`'s page.
    pub open spec fn task(self, date: int, idx: int) -> TaskV {
        self.on(date)[idx]
    }

    /// Whether there is a task at `idx` on `date`'s page.
    pub open spec fn has(self, date: int, idx: int) -> bool {
        0 <= idx < self.on(date).len()
    }

    pub open spec fn edit(self, date: int, idx: int, text: Seq<char>) -> StoreV {
        self.set(date, idx, TaskV { text, ..self.task(date, idx) })
    }

    pub open spec fn set_reminder(self, date: int, idx: int, remind: Option<int>) -> StoreV {
        self.set(date, idx, TaskV { remind, ..self.task(date, idx) })
    }

    pub open spec fn set_note(self, date: int, idx: int, note: Seq<char>) -> StoreV {
        self.set(date, idx, TaskV { note: kept_note(note), ..self.task(date, idx) })
    }

    pub open spec fn cycle_priority(self, date: int, idx: int) -> StoreV {
        let t = self.task(date, idx);
        self.set(date, idx, TaskV { priority: t.priority.following(), ..t })
    }

    pub open spec fn toggle_hidden(self, date: int, idx: int) -> StoreV {
        let t = self.task(date, idx);
        self.set(date, idx, TaskV { hidden: !t.hidden, ..t })
    }

    pub open spec fn cycle_repeat(self, date: int, idx: int) -> StoreV {
        let t = self.task(date, idx);
        self.set(date, idx, TaskV { repeat: following_repeat(t.repeat), ..t })
    }

    /// The task at `idx` on `date`'s page with its done mark flipped; `on` is recorded as the day
    /// of completion.
    pub open spec fn flipped(self, date: int, idx: int, on: int) -> TaskV {
        let t = self.task(date, idx);
        TaskV {
            done: !t.done,
            completed: if t.done {
                None
            } else {
                Some(on)
            },
            ..t
        }
    }

    /// The next occurrence of `template`, put at the end of day `next` unless an open one is
    /// already listed on that day or later.
    pub open spec fn spawn(self, template: TaskV, next: int) -> StoreV {
        if occurrence_on(self.days, template, next, 0) is Some {
            self
        } else {
            let copy = TaskV {
                id: self.next_id,
                done: false,
                completed: None,
                created: next,
                ..template
            };
            StoreV {
                next_id: self.next_id + 1,
                days: with_tasks(self.days, next, self.on(next).push(copy)),
                ..self
            }
        }
    }

    /// The store without the first open occurrence of `template` on day `next` or later, if that
    /// is as it was made; empty pages are then dropped.
    pub open spec fn unspawn(self, template: TaskV, next: int) -> StoreV {
        match occurrence_on(self.days, template, next, 0) {
            Some((p, pos)) => if pristine(self.days[p].tasks[pos], template) {
                self.with_days(
                    pruned(
                        self.days.update(
                            p,
                            PageV {
                                date: self.days[p].date,
                                tasks: self.days[p].tasks.remove(pos),
                            },
                        ),
                    ),
                )
            } else {
                self
            },
            None => self,
        }
    }

    /// The done mark of a task flipped, with what that does to its next occurrence.
    pub open spec fn toggle(self, date: int, idx: int, on: int) -> StoreV {
        let t = self.flipped(date, idx, on);
        let flipped = self.set(date, idx, t);
        if !self.has(date, idx) || t.repeat is None {
            flipped
        } else if t.done {
            flipped.spawn(t, t.repeat->Some_0.next_day(date))
        } else {
            flipped.unspawn(t, t.repeat->Some_0.next_day(date))
        }
    }

    /// The day of the next occurrence, where completing the task makes one.
    pub open spec fn toggle_next(self, date: int, idx: int, on: int) -> Option<int> {
        let t = self.flipped(date, idx, on);
        if self.has(date, idx) && t.repeat is Some && t.done {
            Some(t.repeat->Some_0.next_day(date))
        } else {
            None
        }
    }

    /// Whether the day that the task's next occurrence is looked for on can be represented.
    pub open spec fn toggle_in_range(self, date: int, idx: int) -> bool {
        self.has(date, idx) && self.task(date, idx).repeat is Some ==> self.task(
            date,
            idx,
        ).repeat->Some_0.next_in_range(date)
    }

    /// Whether completing the task at `idx` makes a copy of it: it repeats, and no open occurrence
    /// is listed on its next day or later.
    pub open spec fn toggle_spawns(self, date: int, idx: int) -> bool {
        let t = self.task(date, idx);
        self.has(date, idx) && !t.done && t.repeat is Some && occurrence_on(
            self.days,
            t,
            t.repeat->Some_0.next_day(date),
            0,
        ) is None
    }

    /// Whether a new task can be numbered where toggling makes one.
    pub open spec fn toggle_numbered(self, date: int, idx: int) -> bool {
        self.toggle_spawns(date, idx) ==> self.next_id < u64::MAX
    }

    /// The store without the task at `idx` on `date`'s page.
    pub open spec fn remove(self, date: int, idx: int) -> StoreV {
        if self.has(date, idx) {
            self.with_days(with_tasks(self.days, date, self.on(date).remove(idx)))
        } else {
            self
        }
    }

    /// The store with `task` put in at `idx` on `date`'s page, or at its end.
    pub open spec fn insert(self, date: int, idx: int, task: TaskV) -> StoreV {
        self.with_days(
            with_tasks(
                self.days,
                date,
                self.on(date).insert(clamped(idx, self.on(date).len()), task),
            ),
        )
    }

    /// The store without its empty pages.
    pub open spec fn prune(self) -> StoreV {
        self.with_days(pruned(self.days))
    }

    /// The task at `idx` on one page moved to the end of another.
    pub open spec fn move_task(self, from: int, idx: int, to: int) -> StoreV {
        if self.has(from, idx) {
            let rest = self.remove(from, idx).prune();
            rest.with_days(with_tasks(rest.days, to, rest.on(to).push(self.task(from, idx))))
        } else {
            self
        }
    }

    /// The index of a task that was moved to the end of another page.
    pub open spec fn move_task_index(self, from: int, idx: int, to: int) -> Option<int> {
        if self.has(from, idx) {
            Some(self.remove(from, idx).prune().on(to).len() as int)
        } else {
            None
        }
    }

    /// Every unfinished task from days before `today` moved to the front of `today`'s page; empty
    /// pages are then dropped.
    pub open spec fn carry_over(self, today: int) -> StoreV {
        let moved = carried(self.days, today);
        let left = self.with_days(left_behind(self.days, today));
        if moved.len() > 0 {
            left.with_days(with_tasks(left.days, today, moved + left.on(today))).prune()
        } else {
            left.prune()
        }
    }

    /// The task at `idx` swapped with the one before it.
    pub open spec fn move_up(self, date: int, idx: int) -> StoreV {
        if 0 < idx < self.on(date).len() {
            self.with_days(with_tasks(self.days, date, swapped(self.on(date), idx, idx - 1)))
        } else {
            self.with_days(with_page(self.days, date))
        }
    }

    /// The task at `idx` swapped with the one behind it.
    pub open spec fn move_down(self, date: int, idx: int) -> StoreV {
        if idx + 1 < self.on(date).len() {
            self.with_days(with_tasks(self.days, date, swapped(self.on(date), idx, idx + 1)))
        } else {
            self.with_days(with_page(self.days, date))
        }
    }
}

// --- the operations ------------------------------------------------------------

impl Default for Store {
    fn default() -> (r: Self)
        ensures
            r@ == StoreV::empty(),
            r.wf(),
    {
        let r = Store { version: STORE_VERSION, next_id: 1, days: Vec::new() };
        assert(r@.days =~= Seq::empty());
        r
    }
}

impl Clone for Store {
    fn clone(&self) -> (r: Self)
        ensures
            r@ == self@,
    {
        let mut days: Vec<Page> = Vec::new();
        let mut p: usize = 0;
        while p < self.days.len()
            invariant
                p <= self.days@.len(),
                days@.len() == p,
                forall|k: int| 0 <= k < p ==> (#[trigger] days@[k])@ == self.days@[k]@,
            decreases self.days@.len() - p,
        {
            days.push(self.days[p].clone());
            p += 1;
        }
        assert(page_views(days@) =~= page_views(self.days@));
        Store { version: self.version, next_id: self.next_id, days }
    }
}

impl Store {
    /// The pages are in the order of their dates, with at most one page to a date.
    pub open spec fn wf(&self) -> bool {
        ordered(self@.days)
    }

    /// Where the page for `date` is, or where it would have to be put.
    fn find(&self, date: Date) -> (p: usize)
        ensures
            p == place(self@.days, date@),
            p <= self.days@.len(),
    {
        let mut i: usize = 0;
        while i < self.days.len() && self.days[i].date.before(date)
            invariant
                i <= self.days@.len(),
                place_from(self@.days, date@, 0) == place_from(self@.days, date@, i as int),
            decreases self.days@.len() - i,
        {
            i += 1;
        }
        i
    }

    /// Whether there is a page for `date`.
    pub fn has_page(&self, date: Date) -> (r: bool)
        ensures
            r == has_page(self@.days, date@),
    {
        let p = self.find(date);
        p < self.days.len() && self.days[p].date.is(date)
    }

    /// The tasks on `date`, in manual order.
    pub fn tasks(&self, date: Date) -> (r: &[Task])
        ensures
            task_views(r@) == self@.on(date@),
    {
        let p = self.find(date);
        if p < self.days.len() && self.days[p].date.is(date) {
            self.days[p].tasks.as_slice()
        } else {
            let r: &[Task] = &[];
            assert(task_views(r@) =~= Seq::empty());
            r
        }
    }

    /// The position of `date`'s page, which is put in where it was missing.
    fn page_for(&mut self, date: Date) -> (p: usize)
        ensures
            final(self)@ == old(self)@.with_days(with_page(old(self)@.days, date@)),
            p == place(old(self)@.days, date@),
            p < final(self).days@.len(),
            final(self)@.days[p as int].date == date@,
            final(self)@.days[p as int].tasks == old(self)@.on(date@),
    {
        let p = self.find(date);
        if !(p < self.days.len() && self.days[p].date.is(date)) {
            self.days.insert(p, Page { date, tasks: Vec::new() });
            assert(self@.days[p as int].tasks =~= Seq::empty());
            assert(self@.days =~= with_page(old(self)@.days, date@));
        }
        p
    }

    /// Appends a task to `date`'s list and returns its index.
    pub fn add(&mut self, date: Date, text: String) -> (r: usize)
        requires
            old(self).next_id < u64::MAX,
        ensures
            final(self)@ == old(self)@.add(date@, text@),
            r == old(self)@.on(date@).len(),
            old(self).wf() ==> final(self).wf(),
    {
        let task = Task {
            id: self.next_id,
            text,
            done: false,
            priority: Priority::Plain,
            created: date,
            completed: None,
            remind: None,
            note: None,
            repeat: None,
            hidden: false,
        };
        self.next_id = self.next_id + 1;
        let p = self.page_for(date);
        let ghost tasks = self@.days[p as int].tasks;
        self.days[p].tasks.push(task);
        proof {
            assert(self@.days[p as int].tasks =~= tasks.push(task@));
            assert(self@.days =~= old(self)@.add(date@, text@).days);
            if old(self).wf() {
                with_tasks_facts(old(self)@.days, date@, tasks.push(task@));
            }
        }
        self.days[p].tasks.len() - 1
    }

    /// Replaces the text of a task.
    pub fn edit(&mut self, date: Date, idx: usize, text: String)
        ensures
            final(self)@ == old(self)@.edit(date@, idx as int, text@),
            old(self).wf() ==> final(self).wf(),
    {
        let p = self.page_for(date);
        let ghost tasks = self@.days[p as int].tasks;
        let ghost before = old(self)@.task(date@, idx as int);
        let ghost after = TaskV { text: text@, ..before };
        if idx < self.days[p].tasks.len() {
            self.days[p].tasks[idx].text = text;
            assert(self@.days[p as int].tasks =~= tasks.update(idx as int, after));
        }
        proof {
            assert(self@.days =~= with_task(old(self)@.days, date@, idx as int, after));
            old(self)@.set_keeps_order(date@, idx as int, after);
        }
    }

    /// Sets or clears the reminder of a task.
    pub fn set_reminder(&mut self, date: Date, idx: usize, remind: Option<Time>)
        ensures
            final(self)@ == old(self)@.set_reminder(date@, idx as int, opt_time(remind)),
            old(self).wf() ==> final(self).wf(),
    {
        let p = self.page_for(date);
        let ghost tasks = self@.days[p as int].tasks;
        let ghost before = old(self)@.task(date@, idx as int);
        let ghost after = TaskV { remind: opt_time(remind), ..before };
        if idx < self.days[p].tasks.len() {
            self.days[p].tasks[idx].remind = remind;
            assert(self@.days[p as int].tasks =~= tasks.update(idx as int, after));
        }
        proof {
            assert(self@.days =~= with_task(old(self)@.days, date@, idx as int, after));
            old(self)@.set_keeps_order(date@, idx as int, after);
        }
    }

    /// Sets or clears (on empty text) the note.
    pub fn set_note(&mut self, date: Date, idx: usize, note: &str)
        ensures
            final(self)@ == old(self)@.set_note(date@, idx as int, note@),
            old(self).wf() ==> final(self).wf(),
    {
        let p = self.page_for(date);
        let ghost tasks = self@.days[p as int].tasks;
        let ghost before = old(self)@.task(date@, idx as int);
        let ghost after = TaskV { note: kept_note(note@), ..before };
        if idx < self.days[p].tasks.len() {
            let kept = trim(note);
            let cleared = kept.as_str().is_empty();
            self.days[p].tasks[idx].note = if cleared {
                None
            } else {
                Some(kept)
            };
            assert(self@.days[p as int].tasks =~= tasks.update(idx as int, after));
        }
        proof {
            assert(self@.days =~= with_task(old(self)@.days, date@, idx as int, after));
            old(self)@.set_keeps_order(date@, idx as int, after);
        }
    }

    /// Cycles the priority of a task.
    pub fn cycle_priority(&mut self, date: Date, idx: usize)
        ensures
            final(self)@ == old(self)@.cycle_priority(date@, idx as int),
            old(self).wf() ==> final(self).wf(),
    {
        let p = self.page_for(date);
        let ghost tasks = self@.days[p as int].tasks;
        let ghost before = old(self)@.task(date@, idx as int);
        let ghost after = TaskV { priority: before.priority.following(), ..before };
        if idx < self.days[p].tasks.len() {
            let next = self.days[p].tasks[idx].priority.next();
            self.days[p].tasks[idx].priority = next;
            assert(self@.days[p as int].tasks =~= tasks.update(idx as int, after));
        }
        proof {
            assert(self@.days =~= with_task(old(self)@.days, date@, idx as int, after));
            old(self)@.set_keeps_order(date@, idx as int, after);
        }
    }

    /// Flips screen-privacy masking; returns the new state.
    pub fn toggle_hidden(&mut self, date: Date, idx: usize) -> (r: bool)
        ensures
            final(self)@ == old(self)@.toggle_hidden(date@, idx as int),
            r == (old(self)@.has(date@, idx as int) && !old(self)@.task(date@, idx as int).hidden),
            old(self).wf() ==> final(self).wf(),
    {
        let p = self.page_for(date);
        let ghost tasks = self@.days[p as int].tasks;
        let ghost before = old(self)@.task(date@, idx as int);
        let ghost after = TaskV { hidden: !before.hidden, ..before };
        if idx < self.days[p].tasks.len() {
            let hidden = !self.days[p].tasks[idx].hidden;
            self.days[p].tasks[idx].hidden = hidden;
            assert(self@.days[p as int].tasks =~= tasks.update(idx as int, after));
        }
        proof {
            assert(self@.days =~= with_task(old(self)@.days, date@, idx as int, after));
            old(self)@.set_keeps_order(date@, idx as int, after);
        }
        idx < self.days[p].tasks.len() && self.days[p].tasks[idx].hidden
    }

    /// Cycles the repeat setting of a task; returns the new one.
    pub fn cycle_repeat(&mut self, date: Date, idx: usize) -> (r: Option<Repeat>)
        ensures
            final(self)@ == old(self)@.cycle_repeat(date@, idx as int),
            r == (if old(self)@.has(date@, idx as int) {
                following_repeat(old(self)@.task(date@, idx as int).repeat)
            } else {
                None
            }),
            old(self).wf() ==> final(self).wf(),
    {
        let p = self.page_for(date);
        let ghost tasks = self@.days[p as int].tasks;
        let ghost before = old(self)@.task(date@, idx as int);
        let ghost after = TaskV { repeat: following_repeat(before.repeat), ..before };
        if idx < self.days[p].tasks.len() {
            let next = Repeat::cycle(self.days[p].tasks[idx].repeat);
            self.days[p].tasks[idx].repeat = next;
            assert(self@.days[p as int].tasks =~= tasks.update(idx as int, after));
        }
        proof {
            assert(self@.days =~= with_task(old(self)@.days, date@, idx as int, after));
            old(self)@.set_keeps_order(date@, idx as int, after);
        }
        if idx < self.days[p].tasks.len() {
            self.days[p].tasks[idx].repeat
        } else {
            None
        }
    }

    /// Removes a task, if there is one at `idx`.
    pub fn remove(&mut self, date: Date, idx: usize) -> (r: Option<Task>)
        ensures
            final(self)@ == old(self)@.remove(date@, idx as int),
            match r {
                Some(t) => old(self)@.has(date@, idx as int) && t@ == old(self)@.task(
                    date@,
                    idx as int,
                ),
                None => !old(self)@.has(date@, idx as int),
            },
            old(self).wf() ==> final(self).wf(),
    {
        let p = self.find(date);
        if !(p < self.days.len() && self.days[p].date.is(date)) {
            return None;
        }
        if idx >= self.days[p].tasks.len() {
            return None;
        }
        let task = self.days[p].tasks.remove(idx);
        proof {
            let tasks = old(self)@.on(date@).remove(idx as int);
            assert(self@.days[p as int].tasks =~= tasks);
            assert(self@.days =~= with_tasks(old(self)@.days, date@, tasks));
            if old(self).wf() {
                with_tasks_facts(old(self)@.days, date@, tasks);
            }
        }
        Some(task)
    }

    /// Inserts at `idx`, clamped to the end of the list (used by undo).
    pub fn insert(&mut self, date: Date, idx: usize, task: Task) -> (r: usize)
        ensures
            final(self)@ == old(self)@.insert(date@, idx as int, task@),
            r == clamped(idx as int, old(self)@.on(date@).len()),
            old(self).wf() ==> final(self).wf(),
    {
        let p = self.page_for(date);
        let len = self.days[p].tasks.len();
        let at: usize = if idx < len {
            idx
        } else {
            len
        };
        self.days[p].tasks.insert(at, task);
        proof {
            let tasks = old(self)@.on(date@).insert(at as int, task@);
            assert(self@.days[p as int].tasks =~= tasks);
            assert(self@.days =~= with_tasks(old(self)@.days, date@, tasks));
            if old(self).wf() {
                with_tasks_facts(old(self)@.days, date@, tasks);
            }
        }
        at
    }

    /// Moves a task to the end of another day's list; returns its new index.
    pub fn move_task(&mut self, from: Date, idx: usize, to: Date) -> (r: Option<usize>)
        ensures
            final(self)@ == old(self)@.move_task(from@, idx as int, to@),
            match r {
                Some(i) => old(self)@.move_task_index(from@, idx as int, to@) == Some(i as int),
                None => old(self)@.move_task_index(from@, idx as int, to@) is None,
            },
            old(self).wf() ==> final(self).wf(),
    {
        match self.remove(from, idx) {
            None => None,
            Some(task) => {
                self.prune();
                let ghost rest = self@;
                let p = self.page_for(to);
                self.days[p].tasks.push(task);
                proof {
                    let tasks = rest.on(to@).push(task@);
                    assert(self@.days[p as int].tasks =~= tasks);
                    assert(self@.days =~= with_tasks(rest.days, to@, tasks));
                    if old(self).wf() {
                        with_tasks_facts(rest.days, to@, tasks);
                    }
                }
                Some(self.days[p].tasks.len() - 1)
            },
        }
    }

    /// Swaps the tasks at `i` and `j` on page `p`.
    fn swap(&mut self, p: usize, i: usize, j: usize)
        requires
            p < old(self).days@.len(),
            i < j < old(self).days@[p as int].tasks@.len(),
        ensures
            final(self)@ == old(self)@.with_days(
                old(self)@.days.update(
                    p as int,
                    PageV {
                        date: old(self)@.days[p as int].date,
                        tasks: swapped(old(self)@.days[p as int].tasks, i as int, j as int),
                    },
                ),
            ),
    {
        let second = self.days[p].tasks.remove(j);
        let first = self.days[p].tasks.remove(i);
        self.days[p].tasks.insert(i, second);
        self.days[p].tasks.insert(j, first);
        proof {
            assert(self@.days[p as int].tasks =~= swapped(
                old(self)@.days[p as int].tasks,
                i as int,
                j as int,
            ));
            assert(self@.days =~= old(self)@.days.update(p as int, self@.days[p as int]));
        }
    }

    /// Swaps with the previous task; returns the new index.
    pub fn move_up(&mut self, date: Date, idx: usize) -> (r: usize)
        ensures
            final(self)@ == old(self)@.move_up(date@, idx as int),
            r == (if 0 < idx < old(self)@.on(date@).len() {
                idx - 1
            } else {
                idx as int
            }),
            old(self).wf() ==> final(self).wf(),
    {
        let p = self.page_for(date);
        let ghost tasks = old(self)@.on(date@);
        proof {
            if old(self).wf() {
                with_tasks_facts(old(self)@.days, date@, swapped(tasks, idx as int, idx - 1));
            }
        }
        if idx > 0 && idx < self.days[p].tasks.len() {
            self.swap(p, idx - 1, idx);
            assert(swapped(tasks, idx - 1, idx as int) =~= swapped(tasks, idx as int, idx - 1));
            idx - 1
        } else {
            idx
        }
    }

    /// Swaps with the next task; returns the new index.
    pub fn move_down(&mut self, date: Date, idx: usize) -> (r: usize)
        ensures
            final(self)@ == old(self)@.move_down(date@, idx as int),
            r == (if idx + 1 < old(self)@.on(date@).len() {
                idx + 1
            } else {
                idx as int
            }),
            old(self).wf() ==> final(self).wf(),
    {
        let p = self.page_for(date);
        proof {
            if old(self).wf() {
                with_tasks_facts(
                    old(self)@.days,
                    date@,
                    swapped(old(self)@.on(date@), idx as int, idx + 1),
                );
            }
        }
        if idx < self.days[p].tasks.len() && idx + 1 < self.days[p].tasks.len() {
            self.swap(p, idx, idx + 1);
            idx + 1
        } else {
            idx
        }
    }

    /// Drops days that no longer hold any tasks.
    pub fn prune(&mut self)
        ensures
            final(self)@ == old(self)@.prune(),
            old(self).wf() ==> final(self).wf(),
    {
        let mut i: usize = 0;
        let ghost all = self@.days;
        let ghost mut seen: int = 0;
        proof {
            assert(all.take(0) =~= Seq::empty());
            if old(self).wf() {
                pruned_facts(all);
            }
        }
        while i < self.days.len()
            invariant
                i <= self.days@.len(),
                all == old(self)@.days,
                0 <= seen <= all.len(),
                self.version == old(self).version,
                self.next_id == old(self).next_id,
                self.days@.len() - i == all.len() - seen,
                self@.days.take(i as int) == pruned(all.take(seen)),
                forall|k: int|
                    0 <= k < all.len() - seen ==> self@.days[i + k] == #[trigger] all[seen + k],
            decreases self.days@.len() - i,
        {
            let ghost before = self@.days;
            assert(before[i + 0] == all[seen + 0]);
            assert(all.take(seen + 1).drop_last() =~= all.take(seen));
            if self.days[i].tasks.len() == 0 {
                self.days.remove(i);
                proof {
                    assert(self@.days =~= before.remove(i as int));
                    assert(self@.days.take(i as int) =~= before.take(i as int));
                    seen = seen + 1;
                    assert forall|k: int| 0 <= k < all.len() - seen implies self@.days[i + k]
                        == #[trigger] all[seen + k] by {
                        assert(before[i + (k + 1)] == all[(seen - 1) + (k + 1)]);
                    }
                }
            } else {
                i += 1;
                proof {
                    assert(before.take(i as int) =~= before.take(i - 1).push(before[i - 1]));
                    seen = seen + 1;
                    assert forall|k: int| 0 <= k < all.len() - seen implies self@.days[i + k]
                        == #[trigger] all[seen + k] by {
                        assert(before[(i - 1) + (k + 1)] == all[(seen - 1) + (k + 1)]);
                    }
                }
            }
        }
        proof {
            assert(all.take(seen) =~= all);
            assert(self@.days.take(i as int) =~= self@.days);
        }
    }
}

impl StoreV {
    /// Replacing a task keeps the pages ordered.
    pub proof fn set_keeps_order(self, date: int, idx: int, task: TaskV)
        ensures
            ordered(self.days) ==> ordered(self.set(date, idx, task).days),
    {
        if ordered(self.days) {
            with_tasks_facts(self.days, date, self.on(date).update(idx, task));
        }
    }
}

// --- completing a task ---------------------------------------------------------

/// Open occurrences are found alike where the pages from `from` on are the same.
proof fn occurrences_elsewhere(
    a: Seq<PageV>,
    b: Seq<PageV>,
    t: TaskV,
    u: TaskV,
    from: int,
    p: int,
)
    requires
        a.len() == b.len(),
        t.text == u.text,
        t.repeat == u.repeat,
        forall|q: int|
            0 <= q < a.len() ==> #[trigger] a[q] == b[q] || a[q].date < from && b[q].date < from,
        0 <= p,
    ensures
        occurrence_on(a, t, from, p) == occurrence_on(b, u, from, p),
    decreases a.len() - p,
{
    if p < a.len() {
        occurrences_elsewhere(a, b, t, u, from, p + 1);
        occurrence_like(a[p].tasks, t, u, 0);
        assert(a[p] == b[p] || a[p].date < from && b[p].date < from);
    }
}

/// Tasks alike in text and repeat setting have the same occurrences.
proof fn occurrence_like(tasks: Seq<TaskV>, t: TaskV, u: TaskV, i: int)
    requires
        t.text == u.text,
        t.repeat == u.repeat,
        0 <= i,
    ensures
        occurrence_from(tasks, t, i) == occurrence_from(tasks, u, i),
    decreases tasks.len() - i,
{
    if i < tasks.len() {
        occurrence_like(tasks, t, u, i + 1);
    }
}

impl Store {
    /// The page and the position on it of the first open task on `from` or later that matches
    /// `template`'s text and repeat setting: a spawned occurrence, perhaps carried over.
    fn find_occurrence(&self, template: &Task, from: Date) -> (r: Option<(usize, usize)>)
        ensures
            match occurrence_on(self@.days, template@, from@, 0) {
                Some((p, pos)) => r == Some((p as usize, pos as usize)) && 0 <= p
                    < self.days@.len() && 0 <= pos < self.days@[p].tasks@.len() && p <= usize::MAX
                    && pos <= usize::MAX,
                None => r is None,
            },
    {
        let mut p: usize = 0;
        while p < self.days.len()
            invariant
                p <= self.days@.len(),
                occurrence_on(self@.days, template@, from@, 0) == occurrence_on(
                    self@.days,
                    template@,
                    from@,
                    p as int,
                ),
            decreases self.days@.len() - p,
        {
            let page = &self.days[p];
            assert(self@.days[p as int] == page@);
            if !page.date.before(from) {
                let mut i: usize = 0;
                while i < page.tasks.len() && !(!page.tasks[i].done && same(
                    page.tasks[i].text.as_str(),
                    template.text.as_str(),
                ) && page.tasks[i].repeat == template.repeat)
                    invariant
                        i <= page.tasks@.len(),
                        occurrence_from(page@.tasks, template@, 0) == occurrence_from(
                            page@.tasks,
                            template@,
                            i as int,
                        ),
                    decreases page.tasks@.len() - i,
                {
                    i += 1;
                }
                if i < page.tasks.len() {
                    return Some((p, i));
                }
            }
            p += 1;
        }
        None
    }

    /// Whether a task can be toggled: its next occurrence, where it has one, falls on a day that
    /// can be represented, and can be numbered.
    pub fn can_toggle(&self, date: Date, idx: usize) -> (r: bool)
        ensures
            r == (self@.toggle_in_range(date@, idx as int) && self@.toggle_numbered(
                date@,
                idx as int,
            )),
    {
        let tasks = self.tasks(date);
        assert(task_views(tasks@).len() == tasks@.len());
        if idx >= tasks.len() {
            return true;
        }
        let task = &tasks[idx];
        assert(task_views(tasks@)[idx as int] == task@);
        match task.repeat {
            Some(repeat) => repeat.has_next(date) && (task.done || self.next_id < u64::MAX
                || self.find_occurrence(task, repeat.next_date(date)).is_some()),
            None => true,
        }
    }

    /// Flips `done`; `on` is the date recorded as the completion date.
    ///
    /// Completing a recurring task creates its next occurrence and returns
    /// that date; un-completing removes the spawned copy again, but only if
    /// it is still pristine (never one the user has since customized).
    pub fn toggle(&mut self, date: Date, idx: usize, on: Date) -> (r: Option<Date>)
        requires
            old(self)@.toggle_in_range(date@, idx as int),
            old(self)@.toggle_numbered(date@, idx as int),
        ensures
            final(self)@ == old(self)@.toggle(date@, idx as int, on@),
            opt_day(r) == old(self)@.toggle_next(date@, idx as int, on@),
            old(self).wf() ==> final(self).wf(),
    {
        let ghost flipped = old(self)@.flipped(date@, idx as int, on@);
        let p = self.page_for(date);
        let ghost tasks = self@.days[p as int].tasks;
        if idx >= self.days[p].tasks.len() {
            proof {
                old(self)@.set_keeps_order(date@, idx as int, flipped);
            }
            return None;
        }
        let done = !self.days[p].tasks[idx].done;
        self.days[p].tasks[idx].done = done;
        self.days[p].tasks[idx].completed = if done {
            Some(on)
        } else {
            None
        };
        proof {
            assert(self@.days[p as int].tasks =~= tasks.update(idx as int, flipped));
            assert(self@.days =~= with_task(old(self)@.days, date@, idx as int, flipped));
            old(self)@.set_keeps_order(date@, idx as int, flipped);
        }
        let ghost after = self@;
        let repeat = match self.days[p].tasks[idx].repeat {
            Some(repeat) => repeat,
            None => {
                return None;
            },
        };
        let template = self.days[p].tasks[idx].clone();
        let next = repeat.next_date(date);
        let found = self.find_occurrence(&template, next);
        if template.done {
            if found.is_none() {
                proof {
                    next_day_is_later(repeat, date@);
                    occurrences_elsewhere(
                        old(self)@.days,
                        after.days,
                        old(self)@.task(date@, idx as int),
                        flipped,
                        next@,
                        0,
                    );
                }
                let occurrence = Task {
                    id: self.next_id,
                    text: template.text,
                    done: false,
                    priority: template.priority,
                    created: next,
                    completed: None,
                    remind: template.remind,
                    note: template.note,
                    repeat: template.repeat,
                    hidden: template.hidden,
                };
                self.next_id = self.next_id + 1;
                let q = self.page_for(next);
                let ghost listed = self@.days[q as int].tasks;
                self.days[q].tasks.push(occurrence);
                proof {
                    assert(self@.days[q as int].tasks =~= listed.push(occurrence@));
                    assert(self@.days =~= after.spawn(flipped, next@).days);
                    if old(self).wf() {
                        with_tasks_facts(after.days, next@, listed.push(occurrence@));
                    }
                }
            }
            Some(next)
        } else {
            if let Some((q, pos)) = found {
                let copy = &self.days[q].tasks[pos];
                assert(copy@ == after.days[q as int].tasks[pos as int]);
                let pristine = copy.priority == template.priority && same_time(
                    copy.remind,
                    template.remind,
                ) && same_note(&copy.note, &template.note) && copy.hidden == template.hidden;
                if pristine {
                    self.days[q].tasks.remove(pos);
                    proof {
                        let shorter = PageV {
                            date: after.days[q as int].date,
                            tasks: after.days[q as int].tasks.remove(pos as int),
                        };
                        assert(self@.days[q as int].tasks =~= shorter.tasks);
                        assert(self@.days =~= after.days.update(q as int, shorter));
                    }
                    self.prune();
                }
            }
            None
        }
    }
}

// --- carrying over -------------------------------------------------------------

/// Parts the tasks that are not done from those that are.
fn part(tasks: Vec<Task>) -> (r: (Vec<Task>, Vec<Task>))
    ensures
        task_views(r.0@) == unfinished(task_views(tasks@)),
        task_views(r.1@) == finished(task_views(tasks@)),
{
    let ghost all = task_views(tasks@);
    let mut open: Vec<Task> = Vec::new();
    let mut done: Vec<Task> = Vec::new();
    proof {
        reveal(Seq::filter);
        assert(task_views(open@) =~= unfinished(all.take(0)));
        assert(task_views(done@) =~= finished(all.take(0)));
    }
    for task in it: tasks
        invariant
            all == task_views(it.seq()),
            task_views(open@) == unfinished(all.take(it.index() as int)),
            task_views(done@) == finished(all.take(it.index() as int)),
    {
        let ghost i = it.index() as int;
        let ghost before = all.take(i);
        proof {
            reveal(Seq::filter);
            assert(all.take(i + 1) =~= before.push(task@));
            assert(before.push(task@).drop_last() =~= before);
        }
        if task.done {
            done.push(task);
            assert(task_views(done@) =~= finished(before).push(task@));
        } else {
            open.push(task);
            assert(task_views(open@) =~= unfinished(before).push(task@));
        }
    }
    assert(all.take(all.len() as int) =~= all);
    (open, done)
}

impl Store {
    /// Moves every unfinished task from days before `today` to the front of
    /// `today`'s list (oldest first, relative order kept). Future days are left
    /// alone. Returns how many tasks were moved.
    #[verifier::rlimit(40)]
    #[verifier::spinoff_prover]
    pub fn carry_over(&mut self, today: Date) -> (r: usize)
        ensures
            final(self)@ == old(self)@.carry_over(today@),
            r == carried(old(self)@.days, today@).len(),
            old(self).wf() ==> final(self).wf(),
    {
        let mut moved: Vec<Task> = Vec::new();
        let ghost all = self@.days;
        assert(task_views(moved@) =~= carried(all.take(0), today@));
        let mut i: usize = 0;
        while i < self.days.len()
            invariant
                i <= self.days@.len() == all.len(),
                self@ == old(self)@.with_days(self@.days),
                task_views(moved@) == carried(all.take(i as int), today@),
                forall|j: int| 0 <= j < i ==> self@.days[j] == kept_on(#[trigger] all[j], today@),
                forall|j: int| i <= j < all.len() ==> self@.days[j] == #[trigger] all[j],
            decreases self.days@.len() - i,
        {
            let ghost before = self@.days;
            assert(all.take(i + 1).drop_last() =~= all.take(i as int));
            if self.days[i].date.before(today) {
                let mut tasks: Vec<Task> = Vec::new();
                core::mem::swap(&mut tasks, &mut self.days[i].tasks);
                assert(before[i as int] == all[i as int]);
                let (mut open, done) = part(tasks);
                self.days[i].tasks = done;
                let ghost first = task_views(moved@);
                let ghost more = task_views(open@);
                moved.append(&mut open);
                assert(task_views(moved@) =~= first + more);
            }
            proof {
                assert forall|j: int| 0 <= j < all.len() && j != i implies self@.days[j]
                    == #[trigger] before[j] by {}
                assert(self@.days[i as int] == kept_on(all[i as int], today@));
                assert forall|j: int| 0 <= j < i + 1 implies self@.days[j] == kept_on(
                    #[trigger] all[j],
                    today@,
                ) by {
                    if j < i {
                        assert(self@.days[j] == before[j]);
                    }
                }
                assert forall|j: int| i + 1 <= j < all.len() implies self@.days[j]
                    == #[trigger] all[j] by {
                    assert(self@.days[j] == before[j]);
                }
            }
            i += 1;
        }
        let ghost left = self@;
        proof {
            assert(all.take(all.len() as int) =~= all);
            assert(left.days =~= left_behind(all, today@));
        }
        let count = moved.len();
        if count > 0 {
            let p = self.page_for(today);
            let mut own: Vec<Task> = Vec::new();
            core::mem::swap(&mut own, &mut self.days[p].tasks);
            let ghost first = task_views(moved@);
            moved.append(&mut own);
            assert(task_views(moved@) =~= first + left.on(today@));
            self.days[p].tasks = moved;
            proof {
                assert(self@.days =~= with_tasks(left.days, today@, first + left.on(today@)));
                if old(self).wf() {
                    with_tasks_facts(left.days, today@, first + left.on(today@));
                }
            }
        }
        self.prune();
        count
    }
}

/// Whether two reminders are the same.
fn same_time(a: Option<Time>, b: Option<Time>) -> (r: bool)
    ensures
        r == (opt_time(a) == opt_time(b)),
{
    match (a, b) {
        (Some(x), Some(y)) => x.is(y),
        (None, None) => true,
        _ => false,
    }
}

/// Whether two notes are the same.
fn same_note(a: &Option<String>, b: &Option<String>) -> (r: bool)
    ensures
        r == (opt_text(*a) == opt_text(*b)),
{
    match (a, b) {
        (Some(x), Some(y)) => same(x.as_str(), y.as_str()),
        (None, None) => true,
        _ => false,
    }
}

} // verus!
