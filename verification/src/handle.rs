//! Key handling. Every key press is turned into a mutation on the active list; the caller decides
//! whether to persist.

use vstd::prelude::*;

use crate::app::{App, AppV, Mode, ModeV};
use crate::date::{day_in_range, Date};
use crate::editor::Target;
use crate::keymap::owner;
use crate::keys::{Action, KeyCode, KeyEvent};
use crate::popup_keys::{calendar_next, can_scroll, scroll_key};
use crate::text::{trim, trimmed};

verus! {

// --- what keys do --------------------------------------------------------------

impl AppV {
    /// The state after a key press, and whether the active list was changed.
    pub open spec fn on_key(self, key: KeyEvent) -> (AppV, bool) {
        let fresh = AppV { status: None, ..self };
        match self.mode {
            ModeV::Normal => fresh.on_normal(key),
            ModeV::Insert(editor) => fresh.on_insert(editor, key),
            ModeV::Calendar { cursor, moving } => fresh.on_calendar(cursor, moving, key),
            ModeV::Search { editor, selected } => (fresh.on_search(editor, selected, key), false),
            ModeV::Command(editor) => fresh.on_command(editor, key),
            ModeV::ConfirmDelete(idx) => fresh.on_confirm(idx, key),
            ModeV::Help { scroll } => (fresh.on_help(scroll, key), false),
            ModeV::Review { scroll } => (fresh.on_review(scroll, key), false),
            ModeV::Lists { selected } => fresh.on_lists(selected, key),
        }
    }

    /// Whether a key press can be handled: the days that it needs can be represented, a task that
    /// it makes can be numbered, and a screen is not scrolled too far.
    pub open spec fn can_handle(self, key: KeyEvent) -> bool {
        match self.mode {
            ModeV::Normal => key.code == KeyCode::Char('c') && key.control || (match owner(
                self.keys,
                key.code,
            ) {
                Some(action) => self.can_act(action),
                None => true,
            }),
            ModeV::Insert(editor) => key.code == KeyCode::Enter && editor.target
                == Target::NewTask && trimmed(editor.text).len() > 0 ==> self.store.next_id
                < u64::MAX,
            ModeV::Calendar { cursor, moving } => key.code != KeyCode::Enter
                && !AppV::closes_calendar(key.code) ==> day_in_range(
                calendar_next(self.today, key.code, cursor),
            ),
            ModeV::Help { scroll } => AppV::scrolled(scroll, key.code) is Some ==> AppV::scrolled(
                scroll,
                key.code,
            )->Some_0 <= u16::MAX,
            ModeV::Review { scroll } => AppV::scrolled(scroll, key.code) is Some
                ==> AppV::scrolled(scroll, key.code)->Some_0 <= u16::MAX,
            ModeV::Lists { selected } => self.others.len() < usize::MAX,
            _ => true,
        }
    }
}

// --- handling them -------------------------------------------------------------

impl App {
    /// Whether an action can be done on the task list.
    fn can_act(&self, action: Action) -> (r: bool)
        ensures
            r == self@.can_act(action),
    {
        let day = self.date.day();
        match action {
            Action::PrevDay => Date::from_day(day - 1).is_some(),
            Action::NextDay => Date::from_day(day + 1).is_some(),
            Action::Toggle => match self.selected_task() {
                Some(idx) => self.store.can_toggle(self.date, idx),
                None => true,
            },
            Action::Postpone => self.selected_task().is_none() || Date::from_day(
                day + 1,
            ).is_some(),
            _ => true,
        }
    }

    /// Whether a key press can be handled in the current state.
    pub fn accepts(&self, key: KeyEvent) -> (r: bool)
        ensures
            r == (self@.mode.wf() && self@.can_handle(key)),
    {
        match &self.mode {
            Mode::Normal => if key.code == KeyCode::Char('c') && key.control {
                true
            } else {
                match self.keymap.action(key.code) {
                    Some(action) => self.can_act(action),
                    None => true,
                }
            },
            Mode::Insert(editor) => editor.cursor <= editor.buf.len() && (key.code
                != KeyCode::Enter || editor.target != Target::NewTask || self.store.next_id
                < u64::MAX || trim(editor.text().as_str()).as_str().is_empty()),
            Mode::Calendar { cursor, moving } => {
                let n = cursor.day();
                match key.code {
                    KeyCode::Char('h') | KeyCode::Left => Date::from_day(n - 1).is_some(),
                    KeyCode::Char('l') | KeyCode::Right => Date::from_day(n + 1).is_some(),
                    KeyCode::Char('k') | KeyCode::Up => Date::from_day(n - 7).is_some(),
                    KeyCode::Char('j') | KeyCode::Down => Date::from_day(n + 7).is_some(),
                    KeyCode::Char('t') => Date::from_day(self.today.day()).is_some(),
                    _ => true,
                }
            },
            Mode::Search { editor, selected } => editor.cursor <= editor.buf.len(),
            Mode::Command(editor) => editor.cursor <= editor.buf.len(),
            Mode::ConfirmDelete(_) => true,
            Mode::Help { scroll } => can_scroll(*scroll, key.code),
            Mode::Review { scroll } => can_scroll(*scroll, key.code),
            Mode::Lists { selected } => self.others.len() < usize::MAX,
        }
    }

    /// Takes the message back.
    fn clear_status(&mut self)
        ensures
            final(self)@ == (AppV { status: None, ..old(self)@ }),
            old(self)@.wf() ==> final(self)@.wf(),
    {
        proof {
            reveal(AppV::wf);
        }
        self.status = None;
    }

    /// Handles one key press. Returns true when the active store was mutated.
    pub fn handle_key(&mut self, key: KeyEvent) -> (r: bool)
        requires
            old(self)@.mode.wf(),
            old(self)@.can_handle(key),
        ensures
            (final(self)@, r) == old(self)@.on_key(key),
            old(self)@.wf() ==> final(self)@.wf(),
    {
        proof {
            reveal(AppV::visible);
            reveal(AppV::on_help);
            reveal(AppV::on_review);
        }
        self.clear_status();
        match &self.mode {
            Mode::Normal => self.handle_normal(key),
            Mode::Insert(_) => self.handle_insert(key),
            Mode::Calendar { cursor, moving } => {
                let (cursor, moving) = (*cursor, *moving);
                self.handle_calendar(key, cursor, moving)
            },
            Mode::Search { editor, selected } => {
                self.handle_search(key);
                false
            },
            Mode::Command(_) => self.handle_command(key),
            Mode::ConfirmDelete(idx) => {
                let idx: usize = *idx;
                self.handle_confirm(key, idx)
            },
            Mode::Help { scroll } => {
                let next = scroll_key(*scroll, key.code);
                self.set_mode(
                    match next {
                        Some(scroll) => Mode::Help { scroll },
                        None => Mode::Normal,
                    },
                );
                false
            },
            Mode::Review { scroll } => {
                let next = scroll_key(*scroll, key.code);
                self.set_mode(
                    match next {
                        Some(scroll) => Mode::Review { scroll },
                        None => Mode::Normal,
                    },
                );
                false
            },
            Mode::Lists { selected } => {
                let selected: usize = *selected;
                self.handle_lists(key, selected)
            },
        }
    }
}

} // verus!
