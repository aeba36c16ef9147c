//! What the keys of the task list do: the actions.

use vstd::prelude::*;

use crate::app::{App, AppV, DeletedV, Mode, ModeV};
use crate::date::{clock_text, day_in_range, short_date, Date};
use crate::editor::{Editor, EditorV, Target};
use crate::keymap::owner;
use crate::keys::{Action, KeyCode, KeyEvent};
use crate::model::clamped;
use crate::pages::task_views;
use crate::task::following_repeat;
use crate::text::owned;

verus! {

// --- what keys do --------------------------------------------------------------

impl AppV {
    /// The state with another day in view.
    pub open spec fn go_to(self, date: int) -> AppV {
        AppV { date, selected: 0, ..self }
    }

    /// Whether the text of the task at `idx` is masked.
    pub open spec fn masked(self, idx: int) -> bool {
        self.tasks()[idx].hidden && !self.reveal
    }

    /// What is said where a hidden task would have to be revealed first.
    pub open spec fn reveal_hint(self, verb: Seq<char>) -> Seq<char> {
        "Hidden task — press "@ + self.first_key(Action::Reveal) + " to reveal before you "@ + verb
            + " it"@
    }

    /// The state with an editor open.
    pub open spec fn open_editor(self, text: Seq<char>, target: Target) -> AppV {
        AppV { mode: ModeV::Insert(EditorV::open(text, target)), ..self }
    }

    /// The state with the task at `idx` deleted; it can be put back.
    #[verifier::opaque]
    pub open spec fn delete(self, idx: int) -> AppV {
        if self.store.has(self.date, idx) {
            let task = self.store.task(self.date, idx);
            (AppV {
                store: self.store.remove(self.date, idx).prune(),
                undo: self.undo.push(DeletedV { date: self.date, at: idx, task }),
                status: Some(
                    "Deleted \""@ + task.shown(self.reveal) + "\" — press "@ + self.first_key(
                        Action::Undo,
                    ) + " to undo"@,
                ),
                ..self
            }).clamp_selection()
        } else {
            self
        }
    }

    /// The state with the last deleted task put back and selected.
    #[verifier::opaque]
    pub open spec fn undo(self) -> AppV {
        if self.undo.len() > 0 {
            let last = self.undo.last();
            let at = clamped(last.at, self.store.on(last.date).len());
            let back = AppV {
                store: self.store.insert(last.date, last.at, last.task),
                undo: self.undo.drop_last(),
                ..self
            };
            back.go_to(last.date).select_task(at).say("Restored"@)
        } else {
            self.say("Nothing to undo"@)
        }
    }

    /// The state with the task at `idx` moved to another day.
    #[verifier::opaque]
    pub open spec fn move_to(self, idx: int, target: int) -> AppV {
        if self.store.has(self.date, idx) {
            let task = self.store.task(self.date, idx);
            (AppV {
                store: self.store.move_task(self.date, idx, target),
                status: Some(
                    "Moved \""@ + task.shown(self.reveal) + "\" to "@ + short_date(target),
                ),
                ..self
            }).clamp_selection()
        } else {
            self
        }
    }

    /// The state with the view changed, and the task that was selected still selected.
    pub open spec fn keep_selected(self, idx: Option<int>) -> AppV {
        match idx {
            Some(idx) => self.select_task(idx),
            None => AppV { selected: 0, ..self },
        }
    }

    /// The state with the screen or prompt open that an action opens.
    #[verifier::opaque]
    pub open spec fn open_screen(self, action: Action) -> AppV {
        match action {
            Action::Quit => AppV { quit: true, ..self },
            Action::Help => AppV { mode: ModeV::Help { scroll: 0 }, ..self },
            Action::Calendar => AppV {
                mode: ModeV::Calendar { cursor: self.date, moving: None },
                ..self
            },
            Action::Review => AppV { mode: ModeV::Review { scroll: 0 }, ..self },
            Action::Search => AppV {
                mode: ModeV::Search { editor: EditorV::open(""@, Target::Search), selected: 0 },
                ..self
            },
            Action::Command => AppV {
                mode: ModeV::Command(EditorV::open(""@, Target::Command)),
                ..self
            },
            Action::Lists => AppV { mode: ModeV::Lists { selected: 0 }, ..self },
            Action::NewList => self.open_new_list_prompt(),
            Action::Add => self.open_editor(""@, Target::NewTask),
            _ => self,
        }
    }

    /// The state with another task selected or another day in view.
    #[verifier::opaque]
    pub open spec fn navigate(self, action: Action) -> AppV {
        match action {
            Action::Down => if self.selected + 1 < self.visible().len() {
                AppV { selected: self.selected + 1, ..self }
            } else {
                self
            },
            Action::Up => if self.selected > 0 {
                AppV { selected: self.selected - 1, ..self }
            } else {
                self
            },
            Action::First => AppV { selected: 0, ..self },
            Action::Last => AppV {
                selected: if self.visible().len() == 0 {
                    0
                } else {
                    self.visible().len() - 1
                },
                ..self
            },
            Action::PrevDay => self.go_to(self.date - 1),
            Action::NextDay => self.go_to(self.date + 1),
            Action::Today => self.go_to(self.today),
            _ => self,
        }
    }

    /// The state with the split view switched on or off, where there is another list to show.
    #[verifier::opaque]
    pub open spec fn toggle_split(self) -> AppV {
        if self.others.len() == 0 {
            self.say(self.only_one_list())
        } else {
            (AppV { split: !self.split, ..self }).say(
                if self.split {
                    "Split view off"@
                } else {
                    "Split view: the next list is shown read-only on the right"@
                },
            )
        }
    }

    /// The state with completed tasks left out of the view, or shown again.
    #[verifier::opaque]
    pub open spec fn toggle_focus(self) -> AppV {
        (AppV { hide_done: !self.hide_done, ..self }).keep_selected(self.selected_task()).say(
            if self.hide_done {
                "Showing completed tasks"@
            } else {
                "Focus: completed tasks hidden"@
            },
        )
    }

    /// The state with the sort switched on or off.
    #[verifier::opaque]
    pub open spec fn toggle_sort(self) -> AppV {
        (AppV { sorted: !self.sorted, ..self }).keep_selected(self.selected_task()).say(
            if self.sorted {
                "Manual order"@
            } else {
                "Sorted: overdue and high priority first"@
            },
        )
    }

    /// The state with hidden tasks revealed, or masked again.
    #[verifier::opaque]
    pub open spec fn toggle_reveal(self) -> AppV {
        (AppV { reveal: !self.reveal, ..self }).say(
            if self.reveal {
                "Hidden tasks masked"@
            } else {
                "Hidden tasks revealed — toggle again to mask"@
            },
        )
    }

    /// What an action does, and whether it changed the active list.
    #[verifier::opaque]
    pub open spec fn act(self, action: Action) -> (AppV, bool) {
        match action {
            Action::Quit
            | Action::Help
            | Action::Calendar
            | Action::Review
            | Action::Search
            | Action::Command
            | Action::Lists
            | Action::NewList
            | Action::Add => (self.open_screen(action), false),
            Action::Down
            | Action::Up
            | Action::First
            | Action::Last
            | Action::PrevDay
            | Action::NextDay
            | Action::Today => (self.navigate(action), false),
            Action::Split => (self.toggle_split(), false),
            Action::HideDone => (self.toggle_focus(), false),
            Action::Sort => (self.toggle_sort(), false),
            Action::Reveal => (self.toggle_reveal(), false),
            Action::NextList => (self.switch_list(), self.others.len() > 0),
            Action::Undo => (self.undo(), self.undo.len() > 0),
            _ => match self.selected_task() {
                Some(idx) => self.act_on(action, idx),
                None => (self, false),
            },
        }
    }

    /// The state with the text of a task being edited, unless it is masked.
    #[verifier::opaque]
    pub open spec fn edit_task(self, idx: int) -> AppV {
        if self.masked(idx) {
            self.say(self.reveal_hint("edit"@))
        } else {
            self.open_editor(self.tasks()[idx].text, Target::EditTask(idx as usize))
        }
    }

    /// The state with the reminder of a task being edited.
    #[verifier::opaque]
    pub open spec fn edit_reminder(self, idx: int) -> AppV {
        self.open_editor(
            match self.tasks()[idx].remind {
                Some(time) => clock_text(time),
                None => ""@,
            },
            Target::Reminder(idx as usize),
        )
    }

    /// The state with the note of a task being edited, unless it is masked.
    #[verifier::opaque]
    pub open spec fn edit_note(self, idx: int) -> AppV {
        if self.masked(idx) {
            self.say(self.reveal_hint("edit the note of"@))
        } else {
            self.open_editor(
                match self.tasks()[idx].note {
                    Some(note) => note,
                    None => ""@,
                },
                Target::Note(idx as usize),
            )
        }
    }

    /// The state with a task hidden, or visible again.
    #[verifier::opaque]
    pub open spec fn hide_task(self, idx: int) -> AppV {
        (AppV { store: self.store.toggle_hidden(self.date, idx), ..self }).say(
            if self.tasks()[idx].hidden {
                "Task visible again"@
            } else {
                "Task hidden — "@ + self.first_key(Action::Reveal) + " reveals hidden tasks"@
            },
        )
    }

    /// The state with a task completed, or open again.
    #[verifier::opaque]
    pub open spec fn toggle_task(self, idx: int) -> AppV {
        let done = AppV { store: self.store.toggle(self.date, idx, self.today), ..self };
        let told = match self.store.toggle_next(self.date, idx, self.today) {
            Some(next) => done.say("Next occurrence: "@ + short_date(next)),
            None => done,
        };
        told.select_task(idx)
    }

    /// The state with a task moved down by one, unless the order is not the manual one.
    #[verifier::opaque]
    pub open spec fn move_task_down(self, idx: int) -> AppV {
        if self.sorted {
            self.say(self.sorting_hint())
        } else {
            (AppV { store: self.store.move_down(self.date, idx), ..self }).select_task(
                if idx + 1 < self.tasks().len() {
                    idx + 1
                } else {
                    idx
                },
            )
        }
    }

    /// The state with a task moved up by one, unless the order is not the manual one.
    #[verifier::opaque]
    pub open spec fn move_task_up(self, idx: int) -> AppV {
        if self.sorted {
            self.say(self.sorting_hint())
        } else {
            (AppV { store: self.store.move_up(self.date, idx), ..self }).select_task(
                if idx > 0 {
                    idx - 1
                } else {
                    idx
                },
            )
        }
    }

    /// The state with the priority of a task cycled.
    #[verifier::opaque]
    pub open spec fn cycle_priority(self, idx: int) -> AppV {
        (AppV { store: self.store.cycle_priority(self.date, idx), ..self }).select_task(idx)
    }

    /// The state with the repeat setting of a task cycled.
    #[verifier::opaque]
    pub open spec fn cycle_repeat(self, idx: int) -> AppV {
        (AppV { store: self.store.cycle_repeat(self.date, idx), ..self }).say(
            match following_repeat(self.tasks()[idx].repeat) {
                Some(repeat) => "Repeats "@ + repeat.word(),
                None => "Does not repeat"@,
            },
        )
    }

    /// What an action does to the task at `idx`, and whether it changed the active list.
    #[verifier::opaque]
    pub open spec fn act_on(self, action: Action, idx: int) -> (AppV, bool) {
        match action {
            Action::Edit => (self.edit_task(idx), false),
            Action::Reminder => (self.edit_reminder(idx), false),
            Action::Note => (self.edit_note(idx), false),
            Action::Hide => (self.hide_task(idx), true),
            Action::Toggle => (self.toggle_task(idx), true),
            Action::Delete => if self.confirm_delete {
                (AppV { mode: ModeV::ConfirmDelete(idx), ..self }, false)
            } else {
                (self.delete(idx), true)
            },
            Action::MoveDown => (self.move_task_down(idx), !self.sorted),
            Action::MoveUp => (self.move_task_up(idx), !self.sorted),
            Action::Priority => (self.cycle_priority(idx), true),
            Action::Repeat => (self.cycle_repeat(idx), true),
            Action::Postpone => (self.move_to(idx, self.date + 1), true),
            Action::MoveToDate => (
                AppV {
                    mode: ModeV::Calendar { cursor: self.date, moving: Some(idx as usize) },
                    ..self
                },
                false,
            ),
            _ => (self, false),
        }
    }

    /// What is said where tasks cannot be reordered.
    pub open spec fn sorting_hint(self) -> Seq<char> {
        "Turn off sorting ("@ + self.first_key(Action::Sort) + ") to reorder"@
    }

    /// Whether the days that an action needs can be represented, and a task that it makes can be
    /// numbered.
    pub open spec fn can_act(self, action: Action) -> bool {
        match action {
            Action::PrevDay => day_in_range(self.date - 1),
            Action::NextDay => day_in_range(self.date + 1),
            Action::Toggle => self.selected_task() is Some ==> self.store.toggle_in_range(
                self.date,
                self.selected_task()->Some_0,
            ) && self.store.toggle_numbered(self.date, self.selected_task()->Some_0),
            Action::Postpone => self.selected_task() is Some ==> day_in_range(self.date + 1),
            _ => true,
        }
    }

    /// A key press on the task list.
    #[verifier::opaque]
    pub open spec fn on_normal(self, key: KeyEvent) -> (AppV, bool) {
        if key.code == KeyCode::Char('c') && key.control {
            (AppV { quit: true, ..self }, false)
        } else {
            match owner(self.keys, key.code) {
                Some(action) => self.act(action),
                None => (self, false),
            }
        }
    }
}

// --- handling them -------------------------------------------------------------

impl App {
    /// Shows a message.
    pub(crate) fn say(&mut self, text: &str)
        ensures
            final(self)@ == old(self)@.say(text@),
            old(self)@.wf() ==> final(self)@.wf(),
    {
        proof {
            reveal(AppV::wf);
        }
        self.status = Some(owned(text));
    }

    /// Goes back to the task list.
    pub(crate) fn close(&mut self)
        ensures
            final(self)@ == (AppV { mode: ModeV::Normal, ..old(self)@ }),
            old(self)@.wf() ==> final(self)@.wf(),
    {
        proof {
            reveal(AppV::wf);
        }
        self.mode = Mode::Normal;
    }

    /// Brings another screen up.
    pub(crate) fn set_mode(&mut self, mode: Mode)
        requires
            mode@.wf(),
        ensures
            final(self)@ == (AppV { mode: mode@, ..old(self)@ }),
            old(self)@.wf() ==> final(self)@.wf(),
    {
        proof {
            reveal(AppV::wf);
        }
        self.mode = mode;
    }

    /// Asks the main loop to end.
    pub(crate) fn leave(&mut self)
        ensures
            final(self)@ == (AppV { quit: true, ..old(self)@ }),
            old(self)@.wf() ==> final(self)@.wf(),
    {
        proof {
            reveal(AppV::wf);
        }
        self.quit = true;
    }

    /// Brings another day into view.
    pub(crate) fn go_to(&mut self, date: Date)
        ensures
            final(self)@ == old(self)@.go_to(date@),
            old(self)@.wf() ==> final(self)@.wf(),
    {
        proof {
            reveal(AppV::wf);
        }
        self.date = date;
        self.selected = 0;
    }

    /// Whether the text of the task at `idx` is masked.
    pub(crate) fn is_masked(&self, idx: usize) -> (r: bool)
        requires
            idx < self@.tasks().len(),
        ensures
            r == self@.masked(idx as int),
    {
        let tasks = self.store.tasks(self.date);
        assert(task_views(tasks@)[idx as int] == tasks@[idx as int]@);
        tasks[idx].hidden && !self.reveal
    }

    /// What is said where a hidden task would have to be revealed first.
    pub(crate) fn reveal_hint(&self, verb: &str) -> (r: String)
        ensures
            r@ == self@.reveal_hint(verb@),
    {
        let mut out = owned("Hidden task — press ");
        out.push_str(self.first_key(Action::Reveal).as_str());
        out.push_str(" to reveal before you ");
        out.push_str(verb);
        out.push_str(" it");
        out
    }

    /// What is said where tasks cannot be reordered.
    pub(crate) fn sorting_hint(&self) -> (r: String)
        ensures
            r@ == self@.sorting_hint(),
    {
        let mut out = owned("Turn off sorting (");
        out.push_str(self.first_key(Action::Sort).as_str());
        out.push_str(") to reorder");
        out
    }

    /// Opens an editor.
    pub(crate) fn open_editor(&mut self, text: &str, target: Target)
        ensures
            final(self)@ == old(self)@.open_editor(text@, target),
            old(self)@.wf() ==> final(self)@.wf(),
    {
        proof {
            reveal(AppV::wf);
        }
        self.mode = Mode::Insert(Editor::new(text, target));
    }

    /// Deletes a task, which can then be put back. Returns true when there was one.
    pub fn delete(&mut self, idx: usize) -> (r: bool)
        ensures
            final(self)@ == old(self)@.delete(idx as int),
            r == old(self)@.store.has(old(self)@.date, idx as int),
            old(self)@.wf() ==> final(self)@.wf(),
    {
        proof {
            reveal(AppV::wf);
            reveal(AppV::delete);
        }
        let task = match self.store.remove(self.date, idx) {
            Some(task) => task,
            None => {
                return false;
            },
        };
        let mut text = owned("Deleted \"");
        text.push_str(self.display_text(&task).as_str());
        text.push_str("\" — press ");
        text.push_str(self.first_key(Action::Undo).as_str());
        text.push_str(" to undo");
        self.status = Some(text);
        let ghost before = self@.undo;
        self.undo.push((self.date, idx, task));
        assert(self@.undo =~= before.push(
            DeletedV { date: self.date@, at: idx as int, task: task@ },
        ));
        self.store.prune();
        self.clamp_selection();
        true
    }

    /// Puts the last deleted task back. Returns true when there was one.
    pub fn restore(&mut self) -> (r: bool)
        ensures
            final(self)@ == old(self)@.undo(),
            r == (old(self)@.undo.len() > 0),
            old(self)@.wf() ==> final(self)@.wf(),
    {
        proof {
            reveal(AppV::wf);
            reveal(AppV::undo);
        }
        let ghost before = self@.undo;
        let ghost given = self.undo@;
        match self.undo.pop() {
            Some((day, at, task)) => {
                proof {
                    assert(before.last() == (DeletedV {
                        date: given.last().0@,
                        at: given.last().1 as int,
                        task: given.last().2@,
                    }));
                    assert(self@.undo =~= before.drop_last());
                }
                let at = self.store.insert(day, at, task);
                self.go_to(day);
                self.select_task(at);
                self.say("Restored");
                true
            },
            None => {
                self.say("Nothing to undo");
                false
            },
        }
    }

    /// Moves a task to another day. Returns true when there was one.
    pub fn move_to(&mut self, idx: usize, target: Date) -> (r: bool)
        ensures
            final(self)@ == old(self)@.move_to(idx as int, target@),
            r == old(self)@.store.has(old(self)@.date, idx as int),
            old(self)@.wf() ==> final(self)@.wf(),
    {
        proof {
            reveal(AppV::wf);
            reveal(AppV::move_to);
        }
        let tasks = self.store.tasks(self.date);
        assert(task_views(tasks@).len() == tasks@.len());
        if idx >= tasks.len() {
            return false;
        }
        assert(task_views(tasks@)[idx as int] == tasks@[idx as int]@);
        let text = self.display_text(&tasks[idx]);
        if self.store.move_task(self.date, idx, target).is_none() {
            return false;
        }
        let mut status = owned("Moved \"");
        status.push_str(text.as_str());
        status.push_str("\" to ");
        status.push_str(target.short_text().as_str());
        self.status = Some(status);
        self.clamp_selection();
        true
    }

    /// Keeps a task selected after the view changed.
    pub(crate) fn keep_selected(&mut self, idx: Option<usize>)
        ensures
            final(self)@ == old(self)@.keep_selected(
                match idx {
                    Some(idx) => Some(idx as int),
                    None => None,
                },
            ),
            old(self)@.wf() ==> final(self)@.wf(),
    {
        proof {
            reveal(AppV::wf);
        }
        match idx {
            Some(idx) => self.select_task(idx),
            None => {
                self.selected = 0;
            },
        }
    }

    /// Opens the text of a task for editing, unless it is masked.
    pub(crate) fn edit_task(&mut self, idx: usize)
        requires
            idx < old(self)@.tasks().len(),
        ensures
            final(self)@ == old(self)@.edit_task(idx as int),
            old(self)@.wf() ==> final(self)@.wf(),
    {
        proof {
            reveal(AppV::wf);
            reveal(AppV::edit_task);
        }
        if self.is_masked(idx) {
            self.status = Some(self.reveal_hint("edit"));
            return;
        }
        let tasks = self.store.tasks(self.date);
        assert(task_views(tasks@)[idx as int] == tasks@[idx as int]@);
        let text = owned(tasks[idx].text.as_str());
        self.open_editor(text.as_str(), Target::EditTask(idx));
    }

    /// Opens the reminder of a task for editing.
    pub(crate) fn edit_reminder(&mut self, idx: usize)
        requires
            idx < old(self)@.tasks().len(),
        ensures
            final(self)@ == old(self)@.edit_reminder(idx as int),
            old(self)@.wf() ==> final(self)@.wf(),
    {
        proof {
            reveal(AppV::wf);
            reveal(AppV::edit_reminder);
        }
        let tasks = self.store.tasks(self.date);
        assert(task_views(tasks@)[idx as int] == tasks@[idx as int]@);
        let current = match tasks[idx].remind {
            Some(time) => time.text(),
            None => owned(""),
        };
        self.open_editor(current.as_str(), Target::Reminder(idx));
    }

    /// Opens the note of a task for editing, unless it is masked.
    pub(crate) fn edit_note(&mut self, idx: usize)
        requires
            idx < old(self)@.tasks().len(),
        ensures
            final(self)@ == old(self)@.edit_note(idx as int),
            old(self)@.wf() ==> final(self)@.wf(),
    {
        proof {
            reveal(AppV::wf);
            reveal(AppV::edit_note);
        }
        if self.is_masked(idx) {
            self.status = Some(self.reveal_hint("edit the note of"));
            return;
        }
        let tasks = self.store.tasks(self.date);
        assert(task_views(tasks@)[idx as int] == tasks@[idx as int]@);
        let current = match &tasks[idx].note {
            Some(note) => owned(note.as_str()),
            None => owned(""),
        };
        self.open_editor(current.as_str(), Target::Note(idx));
    }

    /// Hides a task, or makes it visible again.
    pub(crate) fn hide_task(&mut self, idx: usize)
        requires
            idx < old(self)@.tasks().len(),
        ensures
            final(self)@ == old(self)@.hide_task(idx as int),
            old(self)@.wf() ==> final(self)@.wf(),
    {
        proof {
            reveal(AppV::wf);
            reveal(AppV::hide_task);
        }
        let mut text = owned("Task visible again");
        if self.store.toggle_hidden(self.date, idx) {
            text = owned("Task hidden — ");
            text.push_str(self.first_key(Action::Reveal).as_str());
            text.push_str(" reveals hidden tasks");
        }
        self.status = Some(text);
    }

    /// Completes a task, or opens it again.
    pub(crate) fn toggle_task(&mut self, idx: usize)
        requires
            idx < old(self)@.tasks().len(),
            old(self)@.store.toggle_in_range(old(self)@.date, idx as int),
            old(self)@.store.toggle_numbered(old(self)@.date, idx as int),
        ensures
            final(self)@ == old(self)@.toggle_task(idx as int),
            old(self)@.wf() ==> final(self)@.wf(),
    {
        proof {
            reveal(AppV::wf);
            reveal(AppV::toggle_task);
        }
        if let Some(next) = self.store.toggle(self.date, idx, self.today) {
            let mut text = owned("Next occurrence: ");
            text.push_str(next.short_text().as_str());
            self.status = Some(text);
        }
        self.select_task(idx);
    }

    /// Moves a task down by one, unless the order is not the manual one.
    pub(crate) fn move_task_down(&mut self, idx: usize)
        requires
            idx < old(self)@.tasks().len(),
        ensures
            final(self)@ == old(self)@.move_task_down(idx as int),
            old(self)@.wf() ==> final(self)@.wf(),
    {
        proof {
            reveal(AppV::wf);
            reveal(AppV::move_task_down);
        }
        if self.sorted {
            self.status = Some(self.sorting_hint());
            return;
        }
        let at = self.store.move_down(self.date, idx);
        self.select_task(at);
    }

    /// Moves a task up by one, unless the order is not the manual one.
    pub(crate) fn move_task_up(&mut self, idx: usize)
        requires
            idx < old(self)@.tasks().len(),
        ensures
            final(self)@ == old(self)@.move_task_up(idx as int),
            old(self)@.wf() ==> final(self)@.wf(),
    {
        proof {
            reveal(AppV::wf);
            reveal(AppV::move_task_up);
        }
        if self.sorted {
            self.status = Some(self.sorting_hint());
            return;
        }
        let at = self.store.move_up(self.date, idx);
        self.select_task(at);
    }

    /// Cycles the priority of a task.
    pub(crate) fn cycle_priority(&mut self, idx: usize)
        requires
            idx < old(self)@.tasks().len(),
        ensures
            final(self)@ == old(self)@.cycle_priority(idx as int),
            old(self)@.wf() ==> final(self)@.wf(),
    {
        proof {
            reveal(AppV::wf);
            reveal(AppV::cycle_priority);
        }
        self.store.cycle_priority(self.date, idx);
        self.select_task(idx);
    }

    /// Cycles the repeat setting of a task.
    pub(crate) fn cycle_repeat(&mut self, idx: usize)
        requires
            idx < old(self)@.tasks().len(),
        ensures
            final(self)@ == old(self)@.cycle_repeat(idx as int),
            old(self)@.wf() ==> final(self)@.wf(),
    {
        proof {
            reveal(AppV::wf);
            reveal(AppV::cycle_repeat);
        }
        let mut text = owned("Does not repeat");
        if let Some(repeat) = self.store.cycle_repeat(self.date, idx) {
            text = owned("Repeats ");
            text.push_str(repeat.label());
        }
        self.status = Some(text);
    }

    /// Does what an action does to the task at `idx`. Returns true when the active list was
    /// changed.
    pub(crate) fn act_on(&mut self, action: Action, idx: usize) -> (r: bool)
        requires
            idx < old(self)@.tasks().len(),
            old(self)@.selected_task() == Some(idx as int),
            old(self)@.can_act(action),
        ensures
            (final(self)@, r) == old(self)@.act_on(action, idx as int),
            old(self)@.wf() ==> final(self)@.wf(),
    {
        proof {
            reveal(AppV::act_on);
        }
        match action {
            Action::Edit => {
                self.edit_task(idx);
                false
            },
            Action::Reminder => {
                self.edit_reminder(idx);
                false
            },
            Action::Note => {
                self.edit_note(idx);
                false
            },
            Action::Hide => {
                self.hide_task(idx);
                true
            },
            Action::Toggle => {
                self.toggle_task(idx);
                true
            },
            Action::Delete => {
                if self.confirm_delete {
                    self.set_mode(Mode::ConfirmDelete(idx));
                    false
                } else {
                    self.delete(idx)
                }
            },
            Action::MoveDown => {
                let manual = !self.sorted;
                self.move_task_down(idx);
                manual
            },
            Action::MoveUp => {
                let manual = !self.sorted;
                self.move_task_up(idx);
                manual
            },
            Action::Priority => {
                self.cycle_priority(idx);
                true
            },
            Action::Repeat => {
                self.cycle_repeat(idx);
                true
            },
            Action::Postpone => {
                let n = self.date.day();
                self.move_to(idx, self.date.plus_days(1))
            },
            Action::MoveToDate => {
                self.set_mode(Mode::Calendar { cursor: self.date, moving: Some(idx) });
                false
            },
            _ => false,
        }
    }

    /// Opens the screen or prompt that an action opens.
    pub(crate) fn open_screen(&mut self, action: Action)
        ensures
            final(self)@ == old(self)@.open_screen(action),
            old(self)@.wf() ==> final(self)@.wf(),
    {
        proof {
            reveal(AppV::open_screen);
        }
        match action {
            Action::Quit => {
                self.leave();
            },
            Action::Help => {
                self.set_mode(Mode::Help { scroll: 0 });
            },
            Action::Calendar => {
                self.set_mode(Mode::Calendar { cursor: self.date, moving: None });
            },
            Action::Review => {
                self.set_mode(Mode::Review { scroll: 0 });
            },
            Action::Search => {
                let editor = Editor::new("", Target::Search);
                self.set_mode(Mode::Search { editor, selected: 0 });
            },
            Action::Command => {
                self.set_mode(Mode::Command(Editor::new("", Target::Command)));
            },
            Action::Lists => {
                self.set_mode(Mode::Lists { selected: 0 });
            },
            Action::NewList => {
                self.open_new_list_prompt();
            },
            Action::Add => {
                self.open_editor("", Target::NewTask);
            },
            _ => {},
        }
    }

    /// Selects another task or brings another day into view.
    pub(crate) fn navigate(&mut self, action: Action)
        requires
            old(self)@.can_act(action),
        ensures
            final(self)@ == old(self)@.navigate(action),
            old(self)@.wf() ==> final(self)@.wf(),
    {
        proof {
            reveal(AppV::wf);
            reveal(AppV::navigate);
        }
        let rows = self.visible_len();
        let n = self.date.day();
        match action {
            Action::Down => {
                if rows > 0 && self.selected < rows - 1 {
                    self.selected = self.selected + 1;
                }
            },
            Action::Up => {
                if self.selected > 0 {
                    self.selected = self.selected - 1;
                }
            },
            Action::First => {
                self.selected = 0;
            },
            Action::Last => {
                self.selected = if rows == 0 {
                    0
                } else {
                    rows - 1
                };
            },
            Action::PrevDay => {
                self.go_to(self.date.minus_days(1));
            },
            Action::NextDay => {
                self.go_to(self.date.plus_days(1));
            },
            Action::Today => {
                self.go_to(self.today);
            },
            _ => {},
        }
    }

    /// Switches the split view on or off, where there is another list to show.
    pub(crate) fn toggle_split(&mut self)
        ensures
            final(self)@ == old(self)@.toggle_split(),
            old(self)@.wf() ==> final(self)@.wf(),
    {
        proof {
            reveal(AppV::wf);
            reveal(AppV::toggle_split);
        }
        if self.others.len() == 0 {
            self.status = Some(self.only_one_list());
        } else {
            self.split = !self.split;
            self.say(
                if self.split {
                    "Split view: the next list is shown read-only on the right"
                } else {
                    "Split view off"
                },
            );
        }
    }

    /// Leaves completed tasks out of the view, or shows them again.
    pub(crate) fn toggle_focus(&mut self)
        ensures
            final(self)@ == old(self)@.toggle_focus(),
            old(self)@.wf() ==> final(self)@.wf(),
    {
        proof {
            reveal(AppV::wf);
            reveal(AppV::toggle_focus);
        }
        let task = self.selected_task();
        self.hide_done = !self.hide_done;
        self.keep_selected(task);
        self.say(
            if self.hide_done {
                "Focus: completed tasks hidden"
            } else {
                "Showing completed tasks"
            },
        );
    }

    /// Switches the sort on or off.
    pub(crate) fn toggle_sort(&mut self)
        ensures
            final(self)@ == old(self)@.toggle_sort(),
            old(self)@.wf() ==> final(self)@.wf(),
    {
        proof {
            reveal(AppV::wf);
            reveal(AppV::toggle_sort);
        }
        let task = self.selected_task();
        self.sorted = !self.sorted;
        self.keep_selected(task);
        self.say(
            if self.sorted {
                "Sorted: overdue and high priority first"
            } else {
                "Manual order"
            },
        );
    }

    /// Reveals hidden tasks, or masks them again.
    pub(crate) fn toggle_reveal(&mut self)
        ensures
            final(self)@ == old(self)@.toggle_reveal(),
            old(self)@.wf() ==> final(self)@.wf(),
    {
        proof {
            reveal(AppV::wf);
            reveal(AppV::toggle_reveal);
        }
        self.reveal = !self.reveal;
        self.say(
            if self.reveal {
                "Hidden tasks revealed — toggle again to mask"
            } else {
                "Hidden tasks masked"
            },
        );
    }

    /// Does what an action does. Returns true when the active list was changed.
    pub(crate) fn act(&mut self, action: Action) -> (r: bool)
        requires
            old(self)@.can_act(action),
        ensures
            (final(self)@, r) == old(self)@.act(action),
            old(self)@.wf() ==> final(self)@.wf(),
    {
        proof {
            reveal(AppV::act);
        }
        match action {
            Action::Quit
            | Action::Help
            | Action::Calendar
            | Action::Review
            | Action::Search
            | Action::Command
            | Action::Lists
            | Action::NewList
            | Action::Add => {
                self.open_screen(action);
                false
            },
            Action::Down
            | Action::Up
            | Action::First
            | Action::Last
            | Action::PrevDay
            | Action::NextDay
            | Action::Today => {
                self.navigate(action);
                false
            },
            Action::Split => {
                self.toggle_split();
                false
            },
            Action::HideDone => {
                self.toggle_focus();
                false
            },
            Action::Sort => {
                self.toggle_sort();
                false
            },
            Action::Reveal => {
                self.toggle_reveal();
                false
            },
            Action::NextList => self.switch_list(),
            Action::Undo => self.restore(),
            _ => match self.selected_task() {
                Some(idx) => self.act_on(action, idx),
                None => false,
            },
        }
    }

    /// Handles a key press on the task list.
    pub(crate) fn handle_normal(&mut self, key: KeyEvent) -> (r: bool)
        requires
            old(self)@.mode == ModeV::Normal,
            old(self)@.can_handle(key),
        ensures
            (final(self)@, r) == old(self)@.on_normal(key),
            old(self)@.wf() ==> final(self)@.wf(),
    {
        proof {
            reveal(AppV::on_normal);
        }
        if key.code == KeyCode::Char('c') && key.control {
            self.leave();
            return false;
        }
        match self.keymap.action(key.code) {
            Some(action) => self.act(action),
            None => false,
        }
    }
}

} // verus!
