//! A minimal single-line editor with a character cursor.

use vstd::prelude::*;

use crate::keys::{KeyCode, KeyEvent};
use crate::text::{from_chars, to_chars};

verus! {

/// What the text being typed is for.
#[derive(Debug, Clone, Copy, PartialEq, Eq, Structural)]
pub enum Target {
    NewTask,
    EditTask(usize),
    Reminder(usize),
    Note(usize),
    Search,
    Command,
    NewList,
}

/// A minimal single-line editor with a character cursor.
#[derive(Debug)]
pub struct Editor {
    pub buf: Vec<char>,
    pub cursor: usize,
    pub target: Target,
}

/// What an editor holds.
#[verifier::ext_equal]
pub ghost struct EditorV {
    pub text: Seq<char>,
    pub cursor: int,
    pub target: Target,
}

impl View for Editor {
    type V = EditorV;

    open spec fn view(&self) -> EditorV {
        EditorV { text: self.buf@, cursor: self.cursor as int, target: self.target }
    }
}

impl EditorV {
    /// An editor that holds `text`, with the cursor behind it.
    pub open spec fn open(text: Seq<char>, target: Target) -> EditorV {
        EditorV { text, cursor: text.len() as int, target }
    }

    /// The cursor stands within the text or behind it.
    pub open spec fn wf(self) -> bool {
        0 <= self.cursor <= self.text.len()
    }

    /// The editor after a key press: a character is put in at the cursor, the character before or
    /// behind the cursor is erased, or the cursor is moved. Other keys do nothing.
    pub open spec fn typed(self, key: KeyEvent) -> EditorV {
        match key.code {
            KeyCode::Char(c) => if key.control {
                self
            } else {
                EditorV {
                    text: self.text.insert(self.cursor, c),
                    cursor: self.cursor + 1,
                    ..self
                }
            },
            KeyCode::Backspace => if self.cursor > 0 {
                EditorV {
                    text: self.text.remove(self.cursor - 1),
                    cursor: self.cursor - 1,
                    ..self
                }
            } else {
                self
            },
            KeyCode::Delete => if self.cursor < self.text.len() {
                EditorV { text: self.text.remove(self.cursor), ..self }
            } else {
                self
            },
            KeyCode::Left => if self.cursor > 0 {
                EditorV { cursor: self.cursor - 1, ..self }
            } else {
                self
            },
            KeyCode::Right => if self.cursor < self.text.len() {
                EditorV { cursor: self.cursor + 1, ..self }
            } else {
                self
            },
            KeyCode::Home => EditorV { cursor: 0, ..self },
            KeyCode::End => EditorV { cursor: self.text.len() as int, ..self },
            _ => self,
        }
    }
}

impl Editor {
    /// An editor that holds `text`, with the cursor behind it.
    pub fn new(text: &str, target: Target) -> (r: Editor)
        ensures
            r@ == EditorV::open(text@, target),
    {
        let buf = to_chars(text);
        let cursor = buf.len();
        Editor { buf, cursor, target }
    }

    /// The text as it stands.
    pub fn text(&self) -> (r: String)
        ensures
            r@ == self@.text,
    {
        from_chars(&self.buf)
    }

    /// Handles a key press.
    pub fn handle(&mut self, key: KeyEvent)
        requires
            old(self)@.wf(),
        ensures
            final(self)@ == old(self)@.typed(key),
    {
        match key.code {
            KeyCode::Char(c) => {
                if !key.control {
                    self.buf.insert(self.cursor, c);
                    let len = self.buf.len();
                    self.cursor = self.cursor + 1;
                }
            },
            KeyCode::Backspace => {
                if self.cursor > 0 {
                    self.cursor = self.cursor - 1;
                    self.buf.remove(self.cursor);
                }
            },
            KeyCode::Delete => {
                if self.cursor < self.buf.len() {
                    self.buf.remove(self.cursor);
                }
            },
            KeyCode::Left => {
                if self.cursor > 0 {
                    self.cursor = self.cursor - 1;
                }
            },
            KeyCode::Right => {
                if self.cursor < self.buf.len() {
                    self.cursor = self.cursor + 1;
                }
            },
            KeyCode::Home => {
                self.cursor = 0;
            },
            KeyCode::End => {
                self.cursor = self.buf.len();
            },
            _ => {},
        }
    }
}

/// Typing keeps the cursor within the text or behind it.
pub proof fn the_cursor_stays_in_the_text(e: EditorV, key: KeyEvent)
    requires
        e.wf(),
    ensures
        e.typed(key).wf(),
        e.typed(key).target == e.target,
{
}

/// Erasing a character right after typing it leaves the editor as it was.
pub proof fn backspace_undoes_typing(e: EditorV, c: char)
    requires
        e.wf(),
    ensures
        e.typed(KeyEvent { code: KeyCode::Char(c), control: false }).typed(
            KeyEvent { code: KeyCode::Backspace, control: false },
        ) == e,
{
    assert(e.text.insert(e.cursor, c).remove(e.cursor) =~= e.text);
}

} // verus!
