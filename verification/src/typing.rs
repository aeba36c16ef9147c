//! What is typed: task texts, reminders, notes, list names, commands and search queries.

use vstd::prelude::*;

use crate::app::{App, AppV, Mode, ModeV};
use crate::config::{list_name_error, name_error};
use crate::date::{parse_time, typed_time, Date};
use crate::editor::{EditorV, Target};
use crate::keys::{KeyCode, KeyEvent};
use crate::query::hits;
use crate::task::opt_time;
use crate::text::{find_white, from_range, owned, same, to_chars, trim, trimmed, word_end};

verus! {

// --- what keys do --------------------------------------------------------------

/// The first word of a command.
pub open spec fn command_head(cmd: Seq<char>) -> Seq<char> {
    cmd.take(word_end(cmd) as int)
}

/// What stands behind the first word of a command.
pub open spec fn command_arg(cmd: Seq<char>) -> Seq<char> {
    if word_end(cmd) < cmd.len() {
        trimmed(cmd.skip(word_end(cmd) as int + 1))
    } else {
        Seq::empty()
    }
}

/// Whether a command quits.
pub open spec fn is_quit(head: Seq<char>) -> bool {
    head == "q"@ || head == "q!"@ || head == "qa"@ || head == "quit"@ || head == "wq"@ || head
        == "x"@
}

impl AppV {
    /// A key press while a text is typed.
    #[verifier::opaque]
    pub open spec fn on_insert(self, editor: EditorV, key: KeyEvent) -> (AppV, bool) {
        match key.code {
            KeyCode::Esc => (AppV { mode: ModeV::Normal, ..self }, false),
            KeyCode::Enter => self.submit(trimmed(editor.text), editor.target),
            _ => (AppV { mode: ModeV::Insert(editor.typed(key)), ..self }, false),
        }
    }

    /// The state with a typed reminder set; a time that cannot be used leaves the editor open.
    #[verifier::opaque]
    pub open spec fn submit_reminder(self, text: Seq<char>, idx: int) -> (AppV, bool) {
        if text.len() > 0 && typed_time(text) is None {
            (self.say("Invalid time — use HH:MM (empty to clear)"@), false)
        } else {
            (
                (AppV {
                    mode: ModeV::Normal,
                    store: self.store.set_reminder(self.date, idx, typed_time(text)),
                    ..self
                }).select_task(idx),
                true,
            )
        }
    }

    /// The state with a typed note set.
    #[verifier::opaque]
    pub open spec fn submit_note(self, text: Seq<char>, idx: int) -> AppV {
        AppV {
            mode: ModeV::Normal,
            store: self.store.set_note(self.date, idx, text),
            ..self
        }
    }

    /// The state with the text of a task replaced; an empty text replaces nothing.
    #[verifier::opaque]
    pub open spec fn submit_edit(self, text: Seq<char>, idx: int) -> AppV {
        let closed = AppV { mode: ModeV::Normal, ..self };
        if text.len() > 0 {
            AppV { store: self.store.edit(self.date, idx, text), ..closed }
        } else {
            closed
        }
    }

    /// The state with a typed task added and selected; an empty text adds none.
    #[verifier::opaque]
    pub open spec fn submit_task(self, text: Seq<char>) -> (AppV, bool) {
        let closed = AppV { mode: ModeV::Normal, ..self };
        if text.len() > 0 {
            (
                (AppV { store: self.store.add(self.date, text), ..closed }).select_task(
                    self.tasks().len() as int,
                ),
                true,
            )
        } else {
            (closed, false)
        }
    }

    /// The state with a list asked for; a name that cannot be used leaves the editor open.
    #[verifier::opaque]
    pub open spec fn submit_list(self, text: Seq<char>) -> AppV {
        let closed = AppV { mode: ModeV::Normal, ..self };
        if text.len() > 0 {
            match name_error(text, self.list_names()) {
                Some(error) => self.say(error),
                None => AppV { pending_new_list: Some(text), ..closed },
            }
        } else {
            closed
        }
    }

    /// What a typed text does, and whether it changed the active list.
    #[verifier::opaque]
    pub open spec fn submit(self, text: Seq<char>, target: Target) -> (AppV, bool) {
        let closed = AppV { mode: ModeV::Normal, ..self };
        match target {
            Target::Reminder(idx) => self.submit_reminder(text, idx as int),
            Target::Note(idx) => (self.submit_note(text, idx as int), true),
            Target::EditTask(idx) => (self.submit_edit(text, idx as int), text.len() > 0),
            Target::NewTask => self.submit_task(text),
            Target::NewList => (self.submit_list(text), false),
            _ => (closed, false),
        }
    }

    /// A key press on the command line.
    #[verifier::opaque]
    pub open spec fn on_command(self, editor: EditorV, key: KeyEvent) -> (AppV, bool) {
        match key.code {
            KeyCode::Esc => (AppV { mode: ModeV::Normal, ..self }, false),
            KeyCode::Enter => (AppV { mode: ModeV::Normal, ..self }).run_command(
                trimmed(editor.text),
            ),
            _ => (AppV { mode: ModeV::Command(editor.typed(key)), ..self }, false),
        }
    }

    /// What a command does, and whether the list should be saved.
    #[verifier::opaque]
    pub open spec fn run_command(self, cmd: Seq<char>) -> (AppV, bool) {
        let head = command_head(cmd);
        let arg = command_arg(cmd);
        if head.len() == 0 {
            (self, false)
        } else if is_quit(head) && arg.len() == 0 {
            (AppV { quit: true, ..self }, false)
        } else if (head == "w"@ || head == "write"@) && arg.len() == 0 {
            (self.say("Saved"@), true)
        } else if head == "newlist"@ {
            if arg.len() == 0 {
                (self.open_new_list_prompt(), false)
            } else {
                (self.request_new_list(arg), false)
            }
        } else {
            (self.say("Not a command: :"@ + cmd), false)
        }
    }

    /// The state with the chosen search hit in view and selected, if there is one.
    #[verifier::opaque]
    pub open spec fn open_hit(self, results: Seq<(int, int)>, chosen: int) -> AppV {
        let closed = AppV { mode: ModeV::Normal, ..self };
        if 0 <= chosen < results.len() {
            closed.go_to(results[chosen].0).select_task(results[chosen].1)
        } else {
            closed
        }
    }

    /// A key press while searching.
    #[verifier::opaque]
    pub open spec fn on_search(self, editor: EditorV, selected: int, key: KeyEvent) -> AppV {
        let results = self.search_results();
        match key.code {
            KeyCode::Esc => AppV { mode: ModeV::Normal, ..self },
            KeyCode::Enter => self.open_hit(results, selected),
            KeyCode::Down | KeyCode::Tab => if selected + 1 < results.len() {
                AppV { mode: ModeV::Search { editor, selected: selected + 1 }, ..self }
            } else {
                self
            },
            KeyCode::Up | KeyCode::BackTab => AppV {
                mode: ModeV::Search {
                    editor,
                    selected: if selected > 0 {
                        selected - 1
                    } else {
                        0
                    },
                },
                ..self
            },
            _ => AppV {
                mode: ModeV::Search { editor: editor.typed(key), selected: 0 },
                ..self
            },
        }
    }
}

// --- handling them -------------------------------------------------------------

impl App {
    /// Hands a key press to the open editor; a search starts again at its first hit.
    pub(crate) fn type_key(&mut self, key: KeyEvent)
        requires
            old(self)@.mode.wf(),
        ensures
            final(self)@ == (AppV {
                mode: match old(self)@.mode {
                    ModeV::Insert(editor) => ModeV::Insert(editor.typed(key)),
                    ModeV::Command(editor) => ModeV::Command(editor.typed(key)),
                    ModeV::Search { editor, selected } => ModeV::Search {
                        editor: editor.typed(key),
                        selected: 0,
                    },
                    mode => mode,
                },
                ..old(self)@
            }),
            old(self)@.wf() ==> final(self)@.wf(),
    {
        proof {
            reveal(AppV::wf);
        }
        match &mut self.mode {
            Mode::Insert(editor) => {
                editor.handle(key);
            },
            Mode::Command(editor) => {
                editor.handle(key);
            },
            Mode::Search { editor, selected } => {
                editor.handle(key);
                *selected = 0;
            },
            _ => {},
        }
    }

    /// Chooses another search hit.
    pub(crate) fn choose_hit(&mut self, chosen: usize)
        requires
            old(self)@.mode is Search,
        ensures
            final(self)@ == (AppV {
                mode: ModeV::Search {
                    editor: old(self)@.mode->Search_editor,
                    selected: chosen as int,
                },
                ..old(self)@
            }),
            old(self)@.wf() ==> final(self)@.wf(),
    {
        proof {
            reveal(AppV::wf);
        }
        if let Mode::Search { editor, selected } = &mut self.mode {
            *selected = chosen;
        }
    }

    /// Sets a typed reminder. Returns true when the active list was changed.
    pub(crate) fn submit_reminder(&mut self, text: &str, idx: usize) -> (r: bool)
        ensures
            (final(self)@, r) == old(self)@.submit_reminder(text@, idx as int),
            old(self)@.wf() ==> final(self)@.wf(),
    {
        proof {
            reveal(AppV::wf);
            reveal(AppV::submit_reminder);
        }
        let time = parse_time(text);
        if !text.is_empty() && time.is_none() {
            // Keep the editor open so the user can fix the time.
            self.say("Invalid time — use HH:MM (empty to clear)");
            return false;
        }
        self.close();
        self.store.set_reminder(self.date, idx, time);
        assert(opt_time(time) == typed_time(text@));
        self.select_task(idx);
        true
    }

    /// Sets a typed note.
    pub(crate) fn submit_note(&mut self, text: &str, idx: usize)
        ensures
            final(self)@ == old(self)@.submit_note(text@, idx as int),
            old(self)@.wf() ==> final(self)@.wf(),
    {
        proof {
            reveal(AppV::wf);
            reveal(AppV::submit_note);
        }
        self.close();
        self.store.set_note(self.date, idx, text);
    }

    /// Replaces the text of a task. Returns true when there was a text.
    pub(crate) fn submit_edit(&mut self, text: String, idx: usize) -> (r: bool)
        ensures
            final(self)@ == old(self)@.submit_edit(text@, idx as int),
            r == (text@.len() > 0),
            old(self)@.wf() ==> final(self)@.wf(),
    {
        proof {
            reveal(AppV::wf);
            reveal(AppV::submit_edit);
        }
        self.close();
        if text.as_str().is_empty() {
            return false;
        }
        self.store.edit(self.date, idx, text);
        true
    }

    /// Adds a typed task. Returns true when the active list was changed.
    pub(crate) fn submit_task(&mut self, text: String) -> (r: bool)
        requires
            text@.len() > 0 ==> old(self)@.store.next_id < u64::MAX,
        ensures
            (final(self)@, r) == old(self)@.submit_task(text@),
            old(self)@.wf() ==> final(self)@.wf(),
    {
        proof {
            reveal(AppV::wf);
            reveal(AppV::submit_task);
        }
        self.close();
        if text.as_str().is_empty() {
            return false;
        }
        let idx = self.store.add(self.date, text);
        self.select_task(idx);
        true
    }

    /// Asks the main loop to create a list.
    pub(crate) fn submit_list(&mut self, text: String)
        ensures
            final(self)@ == old(self)@.submit_list(text@),
            old(self)@.wf() ==> final(self)@.wf(),
    {
        proof {
            reveal(AppV::wf);
            reveal(AppV::submit_list);
        }
        if !text.as_str().is_empty() {
            let error = list_name_error(text.as_str(), self.list_names().as_slice());
            if let Some(error) = error {
                // Keep the editor open so the user can fix the name.
                self.status = Some(error);
                return;
            }
            self.pending_new_list = Some(text);
        }
        self.close();
    }

    /// Does what a typed text does. Returns true when the active list was changed.
    pub(crate) fn submit(&mut self, text: String, target: Target) -> (r: bool)
        requires
            target == Target::NewTask && text@.len() > 0 ==> old(self)@.store.next_id < u64::MAX,
        ensures
            (final(self)@, r) == old(self)@.submit(text@, target),
            old(self)@.wf() ==> final(self)@.wf(),
    {
        proof {
            reveal(AppV::submit);
        }
        match target {
            Target::Reminder(idx) => self.submit_reminder(text.as_str(), idx),
            Target::Note(idx) => {
                self.submit_note(text.as_str(), idx);
                true
            },
            Target::EditTask(idx) => {
                self.submit_edit(text, idx)
            },
            Target::NewTask => self.submit_task(text),
            Target::NewList => {
                self.submit_list(text);
                false  // creating a list does not touch the store
            },
            _ => {
                self.close();
                false
            },
        }
    }

    /// Handles a key press while a text is typed.
    pub(crate) fn handle_insert(&mut self, key: KeyEvent) -> (r: bool)
        requires
            old(self)@.mode is Insert,
            old(self)@.mode.wf(),
            old(self)@.can_handle(key),
        ensures
            (final(self)@, r) == old(self)@.on_insert(old(self)@.mode->Insert_0, key),
            old(self)@.wf() ==> final(self)@.wf(),
    {
        proof {
            reveal(AppV::on_insert);
        }
        match key.code {
            KeyCode::Esc => {
                self.close();
                false
            },
            KeyCode::Enter => {
                let (text, target) = match &self.mode {
                    Mode::Insert(editor) => (trim(editor.text().as_str()), editor.target),
                    _ => (String::new(), Target::Search),
                };
                self.submit(text, target)
            },
            _ => {
                self.type_key(key);
                false
            },
        }
    }

    /// Executes a `:` command. Returns true when the store should be saved.
    pub(crate) fn run_command(&mut self, cmd: &str) -> (r: bool)
        ensures
            (final(self)@, r) == old(self)@.run_command(cmd@),
            old(self)@.wf() ==> final(self)@.wf(),
    {
        proof {
            reveal(AppV::run_command);
        }
        let (head, arg) = split_command(cmd);
        let bare = arg.as_str().is_empty();
        let word = head.as_str();
        if word.is_empty() {
            false
        } else if bare && (same(word, "q") || same(word, "q!") || same(word, "qa") || same(
            word,
            "quit",
        ) || same(word, "wq") || same(word, "x")) {
            self.leave();
            false  // everything is already saved; the main loop saves again on exit
        } else if bare && (same(word, "w") || same(word, "write")) {
            self.say("Saved");
            true  // reported as dirty, so the main loop persists now
        } else if same(word, "newlist") {
            if bare {
                self.open_new_list_prompt();
            } else {
                self.request_new_list(arg.as_str());
            }
            false
        } else {
            let mut text = owned("Not a command: :");
            text.push_str(cmd);
            self.say(text.as_str());
            false
        }
    }

    /// Handles a key press on the command line.
    pub(crate) fn handle_command(&mut self, key: KeyEvent) -> (r: bool)
        requires
            old(self)@.mode is Command,
            old(self)@.mode.wf(),
        ensures
            (final(self)@, r) == old(self)@.on_command(old(self)@.mode->Command_0, key),
            old(self)@.wf() ==> final(self)@.wf(),
    {
        proof {
            reveal(AppV::on_command);
        }
        match key.code {
            KeyCode::Esc => {
                self.close();
                false
            },
            KeyCode::Enter => {
                let cmd = match &self.mode {
                    Mode::Command(editor) => trim(editor.text().as_str()),
                    _ => String::new(),
                };
                self.close();
                self.run_command(cmd.as_str())
            },
            _ => {
                self.type_key(key);
                false
            },
        }
    }

    /// Brings the chosen search hit into view, if there is one.
    pub(crate) fn open_hit(&mut self, results: &Vec<(Date, usize)>, chosen: usize)
        ensures
            final(self)@ == old(self)@.open_hit(hits(results@), chosen as int),
            old(self)@.wf() ==> final(self)@.wf(),
    {
        proof {
            reveal(AppV::wf);
            reveal(AppV::open_hit);
        }
        assert(hits(results@).len() == results@.len());
        self.close();
        if chosen < results.len() {
            let (date, idx) = results[chosen];
            assert(hits(results@)[chosen as int] == (date@, idx as int));
            self.go_to(date);
            self.select_task(idx);
        }
    }

    /// Handles a key press while searching.
    pub(crate) fn handle_search(&mut self, key: KeyEvent)
        requires
            old(self)@.mode is Search,
            old(self)@.mode.wf(),
        ensures
            final(self)@ == old(self)@.on_search(
                old(self)@.mode->Search_editor,
                old(self)@.mode->Search_selected,
                key,
            ),
            old(self)@.wf() ==> final(self)@.wf(),
    {
        proof {
            reveal(AppV::on_search);
        }
        let results = self.search_results();
        assert(hits(results@).len() == results@.len());
        let chosen: usize = match &self.mode {
            Mode::Search { editor, selected } => *selected,
            _ => 0,
        };
        match key.code {
            KeyCode::Esc => {
                self.close();
            },
            KeyCode::Enter => {
                self.open_hit(&results, chosen);
            },
            KeyCode::Down | KeyCode::Tab => {
                if results.len() > 0 && chosen < results.len() - 1 {
                    self.choose_hit(chosen + 1);
                }
            },
            KeyCode::Up | KeyCode::BackTab => {
                self.choose_hit(
                    if chosen > 0 {
                        chosen - 1
                    } else {
                        0
                    },
                );
            },
            _ => {
                self.type_key(key);
            },
        }
    }
}

/// The first word of a command, and what stands behind it.
fn split_command(cmd: &str) -> (r: (String, String))
    ensures
        r.0@ == command_head(cmd@),
        r.1@ == command_arg(cmd@),
{
    let chars = to_chars(cmd);
    let end = find_white(&chars, 0);
    assert(chars@.skip(0) =~= cmd@);
    let head = from_range(&chars, 0, end);
    assert(head@ =~= command_head(cmd@));
    let arg = if end < chars.len() {
        let rest = from_range(&chars, end + 1, chars.len());
        assert(rest@ =~= cmd@.skip(end + 1));
        trim(rest.as_str())
    } else {
        String::new()
    };
    assert(end == chars@.len() ==> arg@ =~= command_arg(cmd@));
    (head, arg)
}

} // verus!
