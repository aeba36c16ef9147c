//! The keys of the calendar, the delete prompt, the list picker and the screens that scroll.

use vstd::prelude::*;

use crate::app::{App, AppV, Mode, ModeV};
use crate::date::{day_in_range, months_later, Date};
use crate::keymap::owner;
use crate::keys::{Action, KeyCode, KeyEvent};

verus! {

// --- what keys do --------------------------------------------------------------

/// Whether a key is the one of a character, or a named key.
pub open spec fn is_key(code: KeyCode, c: char, named: KeyCode) -> bool {
    code == KeyCode::Char(c) || code == named
}

/// The day that a key moves the calendar's cursor to.
pub open spec fn calendar_next(today: int, code: KeyCode, cursor: int) -> int {
    if is_key(code, 'h', KeyCode::Left) {
        cursor - 1
    } else if is_key(code, 'l', KeyCode::Right) {
        cursor + 1
    } else if is_key(code, 'k', KeyCode::Up) {
        cursor - 7
    } else if is_key(code, 'j', KeyCode::Down) {
        cursor + 7
    } else if is_key(code, '[', KeyCode::PageUp) {
        if day_in_range(months_later(cursor, -1)) {
            months_later(cursor, -1)
        } else {
            cursor
        }
    } else if is_key(code, ']', KeyCode::PageDown) {
        if day_in_range(months_later(cursor, 1)) {
            months_later(cursor, 1)
        } else {
            cursor
        }
    } else if code == KeyCode::Char('t') {
        today
    } else {
        cursor
    }
}

/// The row that a key moves the list picker's selection to, where it moves it; `last` is the last
/// row.
pub open spec fn picked_row(selected: int, last: int, code: KeyCode) -> Option<int> {
    if is_key(code, 'j', KeyCode::Down) || code == KeyCode::Tab {
        Some(
            if selected < last {
                selected + 1
            } else {
                last
            },
        )
    } else if is_key(code, 'k', KeyCode::Up) || code == KeyCode::BackTab {
        Some(
            if selected > 0 {
                selected - 1
            } else {
                0
            },
        )
    } else if is_key(code, 'g', KeyCode::Home) {
        Some(0)
    } else if is_key(code, 'G', KeyCode::End) {
        Some(last)
    } else {
        None
    }
}

impl AppV {
    /// Whether a key closes the calendar without doing anything.
    pub open spec fn closes_calendar(code: KeyCode) -> bool {
        code == KeyCode::Esc || code == KeyCode::Char('c') || code == KeyCode::Char('q') || code
            == KeyCode::Char('m')
    }

    /// The state after a day was chosen in the calendar, and whether a task was moved to it.
    #[verifier::opaque]
    pub open spec fn on_day_chosen(self, cursor: int, moving: Option<usize>) -> (AppV, bool) {
        let closed = AppV { mode: ModeV::Normal, ..self };
        match moving {
            Some(idx) => if cursor != self.date {
                (closed.move_to(idx as int, cursor), self.store.has(self.date, idx as int))
            } else {
                (closed, false)
            },
            None => (closed.go_to(cursor), false),
        }
    }

    /// A key press in the calendar.
    #[verifier::opaque]
    pub open spec fn on_calendar(
        self,
        cursor: int,
        moving: Option<usize>,
        key: KeyEvent,
    ) -> (AppV, bool) {
        if key.code == KeyCode::Enter {
            self.on_day_chosen(cursor, moving)
        } else if AppV::closes_calendar(key.code) {
            (AppV { mode: ModeV::Normal, ..self }, false)
        } else {
            (
                AppV {
                    mode: ModeV::Calendar {
                        cursor: calendar_next(self.today, key.code, cursor),
                        moving,
                    },
                    ..self
                },
                false,
            )
        }
    }

    /// A key press before a task is deleted.
    #[verifier::opaque]
    pub open spec fn on_confirm(self, idx: int, key: KeyEvent) -> (AppV, bool) {
        let closed = AppV { mode: ModeV::Normal, ..self };
        if key.code == KeyCode::Char('y') || key.code == KeyCode::Char('Y') || key.code
            == KeyCode::Enter {
            (closed.delete(idx), self.store.has(self.date, idx))
        } else {
            (closed.say("Cancelled"@), false)
        }
    }

    /// A key press in the list picker.
    #[verifier::opaque]
    pub open spec fn on_lists(self, selected: int, key: KeyEvent) -> (AppV, bool) {
        let last = self.others.len() as int + 1;
        let closed = AppV { mode: ModeV::Normal, ..self };
        match picked_row(selected, last, key.code) {
            Some(row) => (AppV { mode: ModeV::Lists { selected: row }, ..self }, false),
            None => if key.code == KeyCode::Enter {
                if selected == last {
                    (closed.open_new_list_prompt(), false)
                } else {
                    (closed.switch_list_to(selected), 0 < selected <= self.others.len())
                }
            } else if key.code == KeyCode::Esc || key.code == KeyCode::Char('q') {
                (closed, false)
            } else {
                match owner(self.keys, key.code) {
                    Some(Action::Lists) => (closed, false),
                    Some(Action::NewList) => (closed.open_new_list_prompt(), false),
                    _ => (self, false),
                }
            },
        }
    }

    /// A key press on a screen that scrolls: where it is scrolled to, or nothing where it is
    /// closed.
    pub open spec fn scrolled(scroll: int, code: KeyCode) -> Option<int> {
        if is_key(code, 'j', KeyCode::Down) {
            Some(scroll + 1)
        } else if is_key(code, 'k', KeyCode::Up) {
            Some(
                if scroll > 1 {
                    scroll - 1
                } else {
                    0
                },
            )
        } else if code == KeyCode::PageDown {
            Some(scroll + 10)
        } else if code == KeyCode::PageUp {
            Some(
                if scroll > 10 {
                    scroll - 10
                } else {
                    0
                },
            )
        } else if is_key(code, 'g', KeyCode::Home) {
            Some(0)
        } else if code == KeyCode::Esc || code == KeyCode::Enter || code == KeyCode::Char('q')
            || code == KeyCode::Char('?') || code == KeyCode::Char('w') {
            None
        } else {
            Some(scroll)
        }
    }

    /// A key press in the key reference.
    #[verifier::opaque]
    pub open spec fn on_help(self, scroll: int, key: KeyEvent) -> AppV {
        match AppV::scrolled(scroll, key.code) {
            Some(scroll) => AppV { mode: ModeV::Help { scroll }, ..self },
            None => AppV { mode: ModeV::Normal, ..self },
        }
    }

    /// A key press in the review.
    #[verifier::opaque]
    pub open spec fn on_review(self, scroll: int, key: KeyEvent) -> AppV {
        match AppV::scrolled(scroll, key.code) {
            Some(scroll) => AppV { mode: ModeV::Review { scroll }, ..self },
            None => AppV { mode: ModeV::Normal, ..self },
        }
    }
}

// --- handling them -------------------------------------------------------------

impl App {
    /// Moves the task or goes to the day that was chosen in the calendar. Returns true when a task
    /// was moved.
    fn choose_day(&mut self, cursor: Date, moving: Option<usize>) -> (r: bool)
        ensures
            (final(self)@, r) == old(self)@.on_day_chosen(cursor@, moving),
            old(self)@.wf() ==> final(self)@.wf(),
    {
        proof {
            reveal(AppV::on_day_chosen);
        }
        self.close();
        match moving {
            Some(idx) => {
                if cursor.is(self.date) {
                    return false;
                }
                self.move_to(idx, cursor)
            },
            None => {
                self.go_to(cursor);
                false
            },
        }
    }

    /// Handles a key press in the calendar. Mutates the store only when moving a task.
    pub(crate) fn handle_calendar(
        &mut self,
        key: KeyEvent,
        cursor: Date,
        moving: Option<usize>,
    ) -> (r: bool)
        requires
            old(self)@.mode == (ModeV::Calendar { cursor: cursor@, moving }),
            old(self)@.can_handle(key),
        ensures
            (final(self)@, r) == old(self)@.on_calendar(cursor@, moving, key),
            old(self)@.wf() ==> final(self)@.wf(),
    {
        proof {
            reveal(AppV::on_calendar);
        }
        let code = key.code;
        if code == KeyCode::Enter {
            self.choose_day(cursor, moving)
        } else if code == KeyCode::Esc || code == KeyCode::Char('c') || code == KeyCode::Char('q')
            || code == KeyCode::Char('m') {
            self.close();
            false
        } else {
            let next = calendar_step(self.today, code, cursor);
            self.set_mode(Mode::Calendar { cursor: next, moving });
            false
        }
    }

    /// Handles a key press before a task is deleted.
    pub(crate) fn handle_confirm(&mut self, key: KeyEvent, idx: usize) -> (r: bool)
        ensures
            (final(self)@, r) == old(self)@.on_confirm(idx as int, key),
            old(self)@.wf() ==> final(self)@.wf(),
    {
        proof {
            reveal(AppV::on_confirm);
        }
        self.close();
        match key.code {
            KeyCode::Char('y') | KeyCode::Char('Y') | KeyCode::Enter => self.delete(idx),
            _ => {
                self.say("Cancelled");
                false
            },
        }
    }

    /// Handles a key press in the list picker. Mutates the store only when a switch carries tasks.
    pub(crate) fn handle_lists(&mut self, key: KeyEvent, selected: usize) -> (r: bool)
        requires
            old(self)@.mode == (ModeV::Lists { selected: selected as int }),
            old(self)@.can_handle(key),
        ensures
            (final(self)@, r) == old(self)@.on_lists(selected as int, key),
            old(self)@.wf() ==> final(self)@.wf(),
    {
        proof {
            reveal(AppV::on_lists);
        }
        let code = key.code;
        assert(self@.others.len() == self.others@.len());
        let last: usize = self.others.len() + 1;  // the "+ New list" row
        if let Some(row) = pick_row(selected, last, code) {
            self.set_mode(Mode::Lists { selected: row });
            false
        } else if code == KeyCode::Enter {
            self.close();
            if selected == last {
                self.open_new_list_prompt();
                false
            } else {
                self.switch_list_to(selected)
            }
        } else if code == KeyCode::Esc || code == KeyCode::Char('q') {
            self.close();
            false
        } else {
            match self.keymap.action(code) {
                Some(Action::Lists) => {
                    self.close();
                },
                Some(Action::NewList) => {
                    self.close();
                    self.open_new_list_prompt();
                },
                _ => {},
            }
            false
        }
    }
}

/// The day that a key moves the calendar's cursor to.
fn calendar_step(today: Date, code: KeyCode, cursor: Date) -> (r: Date)
    requires
        day_in_range(calendar_next(today@, code, cursor@)),
    ensures
        r@ == calendar_next(today@, code, cursor@),
{
    if code == KeyCode::Char('h') || code == KeyCode::Left {
        cursor.minus_days(1)
    } else if code == KeyCode::Char('l') || code == KeyCode::Right {
        cursor.plus_days(1)
    } else if code == KeyCode::Char('k') || code == KeyCode::Up {
        cursor.minus_days(7)
    } else if code == KeyCode::Char('j') || code == KeyCode::Down {
        cursor.plus_days(7)
    } else if code == KeyCode::Char('[') || code == KeyCode::PageUp {
        match cursor.minus_months(1) {
            Some(date) => date,
            None => cursor,
        }
    } else if code == KeyCode::Char(']') || code == KeyCode::PageDown {
        match cursor.plus_months(1) {
            Some(date) => date,
            None => cursor,
        }
    } else if code == KeyCode::Char('t') {
        today
    } else {
        cursor
    }
}

/// The row that a key moves the list picker's selection to, where it moves it.
fn pick_row(selected: usize, last: usize, code: KeyCode) -> (r: Option<usize>)
    ensures
        match r {
            Some(row) => picked_row(selected as int, last as int, code) == Some(row as int),
            None => picked_row(selected as int, last as int, code) is None,
        },
{
    if code == KeyCode::Char('j') || code == KeyCode::Down || code == KeyCode::Tab {
        Some(
            if selected < last {
                selected + 1
            } else {
                last
            },
        )
    } else if code == KeyCode::Char('k') || code == KeyCode::Up || code == KeyCode::BackTab {
        Some(
            if selected > 0 {
                selected - 1
            } else {
                0
            },
        )
    } else if code == KeyCode::Char('g') || code == KeyCode::Home {
        Some(0)
    } else if code == KeyCode::Char('G') || code == KeyCode::End {
        Some(last)
    } else {
        None
    }
}

/// Whether a screen is not scrolled too far by a key.
pub(crate) fn can_scroll(scroll: u16, code: KeyCode) -> (r: bool)
    ensures
        r == (AppV::scrolled(scroll as int, code) is Some ==> AppV::scrolled(
            scroll as int,
            code,
        )->Some_0 <= u16::MAX),
{
    match code {
        KeyCode::Char('j') | KeyCode::Down => scroll < u16::MAX,
        KeyCode::PageDown => scroll <= u16::MAX - 10,
        _ => true,
    }
}

/// A key press on a screen that scrolls: where it is scrolled to, or nothing where it is closed.
pub(crate) fn scroll_key(scroll: u16, code: KeyCode) -> (r: Option<u16>)
    requires
        AppV::scrolled(scroll as int, code) is Some ==> AppV::scrolled(
            scroll as int,
            code,
        )->Some_0 <= u16::MAX,
    ensures
        match r {
            Some(next) => AppV::scrolled(scroll as int, code) == Some(next as int),
            None => AppV::scrolled(scroll as int, code) is None,
        },
{
    match code {
        KeyCode::Char('j') | KeyCode::Down => Some(scroll + 1),
        KeyCode::Char('k') | KeyCode::Up => Some(
            if scroll > 1 {
                scroll - 1
            } else {
                0
            },
        ),
        KeyCode::PageDown => Some(scroll + 10),
        KeyCode::PageUp => Some(
            if scroll > 10 {
                scroll - 10
            } else {
                0
            },
        ),
        KeyCode::Char('g') | KeyCode::Home => Some(0),
        KeyCode::Esc
        | KeyCode::Enter
        | KeyCode::Char('q')
        | KeyCode::Char('?')
        | KeyCode::Char('w') => None,
        _ => Some(scroll),
    }
}

} // verus!
