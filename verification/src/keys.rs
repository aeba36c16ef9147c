//! Keys, what they can do on the task list, and which key does what.

use vstd::prelude::*;

use crate::text::{
    all_digits, ascii_lowered, decimal, digit_char, digits_value, from_range, owned, parse_unsigned,
    quote, quoted, same, to_ascii_lowercase, to_chars, to_decimal, unsigned,
};

verus! {

// --- keys ----------------------------------------------------------------------

/// A media key.
#[derive(Debug, Clone, Copy, PartialEq, Eq, Hash, Structural)]
pub enum MediaKey {
    Play,
    Pause,
    PlayPause,
    Reverse,
    Stop,
    FastForward,
    Rewind,
    TrackNext,
    TrackPrevious,
    Record,
    LowerVolume,
    RaiseVolume,
    MuteVolume,
}

/// A modifier key pressed by itself.
#[derive(Debug, Clone, Copy, PartialEq, Eq, Hash, Structural)]
pub enum ModifierKey {
    LeftShift,
    LeftControl,
    LeftAlt,
    LeftSuper,
    LeftHyper,
    LeftMeta,
    RightShift,
    RightControl,
    RightAlt,
    RightSuper,
    RightHyper,
    RightMeta,
    IsoLevel3Shift,
    IsoLevel5Shift,
}

/// A key on the keyboard.
#[derive(Debug, Clone, Copy, PartialEq, Eq, Hash, Structural)]
pub enum KeyCode {
    Backspace,
    Enter,
    Left,
    Right,
    Up,
    Down,
    Home,
    End,
    PageUp,
    PageDown,
    Tab,
    BackTab,
    Delete,
    Insert,
    F(u8),
    Char(char),
    Null,
    Esc,
    CapsLock,
    ScrollLock,
    NumLock,
    PrintScreen,
    Pause,
    Menu,
    KeypadBegin,
    Media(MediaKey),
    Modifier(ModifierKey),
}

/// A key press.
#[derive(Debug, Clone, Copy, PartialEq, Eq, Structural)]
pub struct KeyEvent {
    pub code: KeyCode,
    /// Whether the control key was held.
    pub control: bool,
}

/// The name of a media key.
pub open spec fn media_text(key: MediaKey) -> Seq<char> {
    match key {
        MediaKey::Play => "media(play)"@,
        MediaKey::Pause => "media(pause)"@,
        MediaKey::PlayPause => "media(playpause)"@,
        MediaKey::Reverse => "media(reverse)"@,
        MediaKey::Stop => "media(stop)"@,
        MediaKey::FastForward => "media(fastforward)"@,
        MediaKey::Rewind => "media(rewind)"@,
        MediaKey::TrackNext => "media(tracknext)"@,
        MediaKey::TrackPrevious => "media(trackprevious)"@,
        MediaKey::Record => "media(record)"@,
        MediaKey::LowerVolume => "media(lowervolume)"@,
        MediaKey::RaiseVolume => "media(raisevolume)"@,
        MediaKey::MuteVolume => "media(mutevolume)"@,
    }
}

/// The name of a modifier key.
pub open spec fn modifier_text(key: ModifierKey) -> Seq<char> {
    match key {
        ModifierKey::LeftShift => "modifier(leftshift)"@,
        ModifierKey::LeftControl => "modifier(leftcontrol)"@,
        ModifierKey::LeftAlt => "modifier(leftalt)"@,
        ModifierKey::LeftSuper => "modifier(leftsuper)"@,
        ModifierKey::LeftHyper => "modifier(lefthyper)"@,
        ModifierKey::LeftMeta => "modifier(leftmeta)"@,
        ModifierKey::RightShift => "modifier(rightshift)"@,
        ModifierKey::RightControl => "modifier(rightcontrol)"@,
        ModifierKey::RightAlt => "modifier(rightalt)"@,
        ModifierKey::RightSuper => "modifier(rightsuper)"@,
        ModifierKey::RightHyper => "modifier(righthyper)"@,
        ModifierKey::RightMeta => "modifier(rightmeta)"@,
        ModifierKey::IsoLevel3Shift => "modifier(isolevel3shift)"@,
        ModifierKey::IsoLevel5Shift => "modifier(isolevel5shift)"@,
    }
}

/// The name of a key, as it is shown.
pub open spec fn key_text(code: KeyCode) -> Seq<char> {
    match code {
        KeyCode::Char(c) => if c == ' ' {
            "space"@
        } else {
            seq![c]
        },
        KeyCode::Enter => "enter"@,
        KeyCode::Tab => "tab"@,
        KeyCode::BackTab => "backtab"@,
        KeyCode::Esc => "esc"@,
        KeyCode::Backspace => "backspace"@,
        KeyCode::Delete => "del"@,
        KeyCode::Insert => "ins"@,
        KeyCode::Up => "↑"@,
        KeyCode::Down => "↓"@,
        KeyCode::Left => "←"@,
        KeyCode::Right => "→"@,
        KeyCode::Home => "home"@,
        KeyCode::End => "end"@,
        KeyCode::PageUp => "pgup"@,
        KeyCode::PageDown => "pgdn"@,
        KeyCode::F(n) => "f"@ + decimal(n as nat),
        KeyCode::Null => "null"@,
        KeyCode::CapsLock => "capslock"@,
        KeyCode::ScrollLock => "scrolllock"@,
        KeyCode::NumLock => "numlock"@,
        KeyCode::PrintScreen => "printscreen"@,
        KeyCode::Pause => "pause"@,
        KeyCode::Menu => "menu"@,
        KeyCode::KeypadBegin => "keypadbegin"@,
        KeyCode::Media(key) => media_text(key),
        KeyCode::Modifier(key) => modifier_text(key),
    }
}

/// The name of a media key.
fn media_name(key: MediaKey) -> (r: &'static str)
    ensures
        r@ == media_text(key),
{
    match key {
        MediaKey::Play => "media(play)",
        MediaKey::Pause => "media(pause)",
        MediaKey::PlayPause => "media(playpause)",
        MediaKey::Reverse => "media(reverse)",
        MediaKey::Stop => "media(stop)",
        MediaKey::FastForward => "media(fastforward)",
        MediaKey::Rewind => "media(rewind)",
        MediaKey::TrackNext => "media(tracknext)",
        MediaKey::TrackPrevious => "media(trackprevious)",
        MediaKey::Record => "media(record)",
        MediaKey::LowerVolume => "media(lowervolume)",
        MediaKey::RaiseVolume => "media(raisevolume)",
        MediaKey::MuteVolume => "media(mutevolume)",
    }
}

/// The name of a modifier key.
fn modifier_name(key: ModifierKey) -> (r: &'static str)
    ensures
        r@ == modifier_text(key),
{
    match key {
        ModifierKey::LeftShift => "modifier(leftshift)",
        ModifierKey::LeftControl => "modifier(leftcontrol)",
        ModifierKey::LeftAlt => "modifier(leftalt)",
        ModifierKey::LeftSuper => "modifier(leftsuper)",
        ModifierKey::LeftHyper => "modifier(lefthyper)",
        ModifierKey::LeftMeta => "modifier(leftmeta)",
        ModifierKey::RightShift => "modifier(rightshift)",
        ModifierKey::RightControl => "modifier(rightcontrol)",
        ModifierKey::RightAlt => "modifier(rightalt)",
        ModifierKey::RightSuper => "modifier(rightsuper)",
        ModifierKey::RightHyper => "modifier(righthyper)",
        ModifierKey::RightMeta => "modifier(rightmeta)",
        ModifierKey::IsoLevel3Shift => "modifier(isolevel3shift)",
        ModifierKey::IsoLevel5Shift => "modifier(isolevel5shift)",
    }
}

/// The name of a key, as it is shown.
pub fn key_name(code: KeyCode) -> (r: String)
    ensures
        r@ == key_text(code),
{
    let name: &'static str = match code {
        KeyCode::Char(c) => {
            if c == ' ' {
                return owned("space");
            }
            let mut out = String::new();
            out.push(c);
            assert(out@ =~= seq![c]);
            return out;
        },
        KeyCode::F(n) => {
            let mut out = owned("f");
            out.push_str(to_decimal(n as u64).as_str());
            return out;
        },
        KeyCode::Enter => "enter",
        KeyCode::Tab => "tab",
        KeyCode::BackTab => "backtab",
        KeyCode::Esc => "esc",
        KeyCode::Backspace => "backspace",
        KeyCode::Delete => "del",
        KeyCode::Insert => "ins",
        KeyCode::Up => "↑",
        KeyCode::Down => "↓",
        KeyCode::Left => "←",
        KeyCode::Right => "→",
        KeyCode::Home => "home",
        KeyCode::End => "end",
        KeyCode::PageUp => "pgup",
        KeyCode::PageDown => "pgdn",
        KeyCode::Null => "null",
        KeyCode::CapsLock => "capslock",
        KeyCode::ScrollLock => "scrolllock",
        KeyCode::NumLock => "numlock",
        KeyCode::PrintScreen => "printscreen",
        KeyCode::Pause => "pause",
        KeyCode::Menu => "menu",
        KeyCode::KeypadBegin => "keypadbegin",
        KeyCode::Media(key) => media_name(key),
        KeyCode::Modifier(key) => modifier_name(key),
    };
    owned(name)
}

/// The key that a name in lower case stands for, where the name has more than one character.
pub open spec fn named_key(name: Seq<char>) -> Option<KeyCode> {
    if name == "space"@ {
        Some(KeyCode::Char(' '))
    } else if name == "enter"@ || name == "return"@ {
        Some(KeyCode::Enter)
    } else if name == "tab"@ {
        Some(KeyCode::Tab)
    } else if name == "backtab"@ {
        Some(KeyCode::BackTab)
    } else if name == "esc"@ || name == "escape"@ {
        Some(KeyCode::Esc)
    } else if name == "backspace"@ {
        Some(KeyCode::Backspace)
    } else if name == "del"@ || name == "delete"@ {
        Some(KeyCode::Delete)
    } else if name == "ins"@ || name == "insert"@ {
        Some(KeyCode::Insert)
    } else if name == "up"@ {
        Some(KeyCode::Up)
    } else if name == "down"@ {
        Some(KeyCode::Down)
    } else if name == "left"@ {
        Some(KeyCode::Left)
    } else if name == "right"@ {
        Some(KeyCode::Right)
    } else if name == "home"@ {
        Some(KeyCode::Home)
    } else if name == "end"@ {
        Some(KeyCode::End)
    } else if name == "pgup"@ || name == "pageup"@ {
        Some(KeyCode::PageUp)
    } else if name == "pgdn"@ || name == "pagedown"@ {
        Some(KeyCode::PageDown)
    } else if name.len() > 0 && name[0] == 'f' {
        match unsigned(name.drop_first(), 255) {
            Some(n) => if 1 <= n <= 12 {
                Some(KeyCode::F(n as u8))
            } else {
                None
            },
            None => None,
        }
    } else {
        None
    }
}

/// The key that `spec` stands for: a single character, or a name such as `space` or `f5` in any
/// case.
pub open spec fn key_of(spec: Seq<char>) -> Option<KeyCode> {
    if spec.len() == 1 {
        Some(KeyCode::Char(spec[0]))
    } else {
        named_key(ascii_lowered(spec))
    }
}

/// A name that stands for no key.
#[derive(Debug)]
pub struct KeyError {
    pub spec: String,
}

impl KeyError {
    /// What is wrong, in words.
    pub fn message(&self) -> (r: String)
        ensures
            r@ == "unknown key "@ + quoted(self.spec@),
    {
        let mut out = owned("unknown key ");
        out.push_str(quote(self.spec.as_str()).as_str());
        out
    }
}

/// Parses `a`, `A`, `space`, `enter`, `tab`, `esc`, `up`, `pgup`, `f5`, …
pub fn parse_key(spec: &str) -> (r: Result<KeyCode, KeyError>)
    ensures
        match r {
            Ok(code) => key_of(spec@) == Some(code),
            Err(e) => key_of(spec@) is None && e.spec@ == spec@,
        },
{
    let chars = to_chars(spec);
    if chars.len() == 1 {
        return Ok(KeyCode::Char(chars[0]));
    }
    let lower = to_ascii_lowercase(spec);
    let name = lower.as_str();
    if same(name, "space") {
        return Ok(KeyCode::Char(' '));
    } else if same(name, "enter") || same(name, "return") {
        return Ok(KeyCode::Enter);
    } else if same(name, "tab") {
        return Ok(KeyCode::Tab);
    } else if same(name, "backtab") {
        return Ok(KeyCode::BackTab);
    } else if same(name, "esc") || same(name, "escape") {
        return Ok(KeyCode::Esc);
    } else if same(name, "backspace") {
        return Ok(KeyCode::Backspace);
    } else if same(name, "del") || same(name, "delete") {
        return Ok(KeyCode::Delete);
    } else if same(name, "ins") || same(name, "insert") {
        return Ok(KeyCode::Insert);
    } else if same(name, "up") {
        return Ok(KeyCode::Up);
    } else if same(name, "down") {
        return Ok(KeyCode::Down);
    } else if same(name, "left") {
        return Ok(KeyCode::Left);
    } else if same(name, "right") {
        return Ok(KeyCode::Right);
    } else if same(name, "home") {
        return Ok(KeyCode::Home);
    } else if same(name, "end") {
        return Ok(KeyCode::End);
    } else if same(name, "pgup") || same(name, "pageup") {
        return Ok(KeyCode::PageUp);
    } else if same(name, "pgdn") || same(name, "pagedown") {
        return Ok(KeyCode::PageDown);
    }
    let letters = to_chars(name);
    if letters.len() > 0 && letters[0] == 'f' {
        let number = from_range(&letters, 1, letters.len());
        assert(number@ =~= name@.drop_first());
        if let Some(n) = parse_unsigned(number.as_str(), 255) {
            if 1 <= n && n <= 12 {
                return Ok(KeyCode::F(n as u8));
            }
        }
    }
    Err(KeyError { spec: owned(spec) })
}

// --- actions -------------------------------------------------------------------

/// Everything a key can do on the task list.
#[derive(Debug, Clone, Copy, PartialEq, Eq, Hash, Structural)]
pub enum Action {
    Quit,
    Help,
    Calendar,
    Down,
    Up,
    First,
    Last,
    PrevDay,
    NextDay,
    Today,
    Add,
    Edit,
    Toggle,
    Delete,
    Undo,
    MoveDown,
    MoveUp,
    Priority,
    Reminder,
    Repeat,
    Note,
    Hide,
    Reveal,
    Command,
    Search,
    Review,
    Sort,
    HideDone,
    Postpone,
    MoveToDate,
    NextList,
    Lists,
    Split,
    NewList,
}

/// The number of actions.
pub const ACTIONS: usize = 34;

impl Action {
    /// The action at position `i` of the key reference.
    pub open spec fn at(i: int) -> Action {
        if i == 0 {
            Action::Down
        } else if i == 1 {
            Action::Up
        } else if i == 2 {
            Action::First
        } else if i == 3 {
            Action::Last
        } else if i == 4 {
            Action::Add
        } else if i == 5 {
            Action::Edit
        } else if i == 6 {
            Action::Toggle
        } else if i == 7 {
            Action::Delete
        } else if i == 8 {
            Action::Undo
        } else if i == 9 {
            Action::MoveDown
        } else if i == 10 {
            Action::MoveUp
        } else if i == 11 {
            Action::Priority
        } else if i == 12 {
            Action::Reminder
        } else if i == 13 {
            Action::Repeat
        } else if i == 14 {
            Action::Note
        } else if i == 15 {
            Action::Hide
        } else if i == 16 {
            Action::Reveal
        } else if i == 17 {
            Action::Postpone
        } else if i == 18 {
            Action::MoveToDate
        } else if i == 19 {
            Action::Sort
        } else if i == 20 {
            Action::HideDone
        } else if i == 21 {
            Action::Search
        } else if i == 22 {
            Action::Review
        } else if i == 23 {
            Action::PrevDay
        } else if i == 24 {
            Action::NextDay
        } else if i == 25 {
            Action::Today
        } else if i == 26 {
            Action::Calendar
        } else if i == 27 {
            Action::NextList
        } else if i == 28 {
            Action::Lists
        } else if i == 29 {
            Action::Split
        } else if i == 30 {
            Action::NewList
        } else if i == 31 {
            Action::Help
        } else if i == 32 {
            Action::Command
        } else {
            Action::Quit
        }
    }

    /// Where the action stands in the key reference.
    pub open spec fn position(self) -> int {
        match self {
            Action::Down => 0,
            Action::Up => 1,
            Action::First => 2,
            Action::Last => 3,
            Action::Add => 4,
            Action::Edit => 5,
            Action::Toggle => 6,
            Action::Delete => 7,
            Action::Undo => 8,
            Action::MoveDown => 9,
            Action::MoveUp => 10,
            Action::Priority => 11,
            Action::Reminder => 12,
            Action::Repeat => 13,
            Action::Note => 14,
            Action::Hide => 15,
            Action::Reveal => 16,
            Action::Postpone => 17,
            Action::MoveToDate => 18,
            Action::Sort => 19,
            Action::HideDone => 20,
            Action::Search => 21,
            Action::Review => 22,
            Action::PrevDay => 23,
            Action::NextDay => 24,
            Action::Today => 25,
            Action::Calendar => 26,
            Action::NextList => 27,
            Action::Lists => 28,
            Action::Split => 29,
            Action::NewList => 30,
            Action::Help => 31,
            Action::Command => 32,
            Action::Quit => 33,
        }
    }

    /// The name of the action in the configuration.
    pub open spec fn name_text(self) -> Seq<char> {
        match self {
            Action::Down => "down"@,
            Action::Up => "up"@,
            Action::First => "first"@,
            Action::Last => "last"@,
            Action::Add => "add"@,
            Action::Edit => "edit"@,
            Action::Toggle => "toggle"@,
            Action::Delete => "delete"@,
            Action::Undo => "undo"@,
            Action::MoveDown => "move_down"@,
            Action::MoveUp => "move_up"@,
            Action::Priority => "priority"@,
            Action::Reminder => "reminder"@,
            Action::Repeat => "repeat"@,
            Action::Note => "note"@,
            Action::Hide => "hide"@,
            Action::Reveal => "reveal"@,
            Action::Postpone => "postpone"@,
            Action::MoveToDate => "move_to_date"@,
            Action::Sort => "sort"@,
            Action::HideDone => "hide_done"@,
            Action::Search => "search"@,
            Action::Review => "review"@,
            Action::PrevDay => "prev_day"@,
            Action::NextDay => "next_day"@,
            Action::Today => "today"@,
            Action::Calendar => "calendar"@,
            Action::NextList => "next_list"@,
            Action::Lists => "lists"@,
            Action::Split => "split"@,
            Action::NewList => "new_list"@,
            Action::Help => "help"@,
            Action::Command => "command"@,
            Action::Quit => "quit"@,
        }
    }

    /// What the action does, in words.
    pub open spec fn description_text(self) -> Seq<char> {
        match self {
            Action::Down => "move selection down"@,
            Action::Up => "move selection up"@,
            Action::First => "first task"@,
            Action::Last => "last task"@,
            Action::Add => "add a task"@,
            Action::Edit => "edit selected task"@,
            Action::Toggle => "toggle done"@,
            Action::Delete => "delete task"@,
            Action::Undo => "undo last delete"@,
            Action::MoveDown => "move task down"@,
            Action::MoveUp => "move task up"@,
            Action::Priority => "cycle priority: none → low → high"@,
            Action::Reminder => "set a reminder time (empty clears it)"@,
            Action::Repeat => "cycle repeat: daily → weekdays → weekly → monthly"@,
            Action::Note => "edit the task's note"@,
            Action::Hide => "hide/unhide the task (mask its text)"@,
            Action::Reveal => "reveal hidden tasks for this session"@,
            Action::Postpone => "postpone to the next day"@,
            Action::MoveToDate => "move to a date (pick in calendar)"@,
            Action::Sort => "toggle priority sort"@,
            Action::HideDone => "focus: hide / show completed tasks"@,
            Action::Search => "search all days"@,
            Action::Review => "weekly review & stats"@,
            Action::PrevDay => "previous day"@,
            Action::NextDay => "next day"@,
            Action::Today => "jump to today"@,
            Action::Calendar => "open the calendar"@,
            Action::NextList => "switch to the next list"@,
            Action::Lists => "list picker: switch to any list, or create one"@,
            Action::Split => "split view: the next list read-only on the right"@,
            Action::NewList => "create a new list (also :newlist NAME)"@,
            Action::Help => "toggle this help"@,
            Action::Command => "command line — :q quit, :w save"@,
            Action::Quit => "quit directly (unbound by default — use :q, or Ctrl-C)"@,
        }
    }

    /// The keys that the action has unless the configuration gives it others.
    pub open spec fn default_codes(self) -> Seq<KeyCode> {
        match self {
            Action::Down => seq![KeyCode::Char('j'), KeyCode::Down],
            Action::Up => seq![KeyCode::Char('k'), KeyCode::Up],
            Action::First => seq![KeyCode::Char('g')],
            Action::Last => seq![KeyCode::Char('G')],
            Action::Add => seq![KeyCode::Char('a')],
            Action::Edit => seq![KeyCode::Char('e')],
            Action::Toggle => seq![KeyCode::Char(' '), KeyCode::Char('x'), KeyCode::Enter],
            Action::Delete => seq![KeyCode::Char('d')],
            Action::Undo => seq![KeyCode::Char('u')],
            Action::MoveDown => seq![KeyCode::Char('J')],
            Action::MoveUp => seq![KeyCode::Char('K')],
            Action::Priority => seq![KeyCode::Char('p')],
            Action::Reminder => seq![KeyCode::Char('r')],
            Action::Repeat => seq![KeyCode::Char('R')],
            Action::Note => seq![KeyCode::Char('n')],
            Action::Hide => seq![KeyCode::Char('H')],
            Action::Reveal => seq![KeyCode::Char('v')],
            Action::Postpone => seq![KeyCode::Char('>')],
            Action::MoveToDate => seq![KeyCode::Char('m')],
            Action::Sort => seq![KeyCode::Char('s')],
            Action::HideDone => seq![KeyCode::Char('f')],
            Action::Search => seq![KeyCode::Char('/')],
            Action::Review => seq![KeyCode::Char('w')],
            Action::PrevDay => seq![KeyCode::Char('h'), KeyCode::Left],
            Action::NextDay => seq![KeyCode::Char('l'), KeyCode::Right],
            Action::Today => seq![KeyCode::Char('t')],
            Action::Calendar => seq![KeyCode::Char('c')],
            Action::NextList => seq![KeyCode::Tab],
            Action::Lists => seq![KeyCode::Char('L')],
            Action::Split => seq![KeyCode::Char('|')],
            Action::NewList => seq![KeyCode::Char('N')],
            Action::Help => seq![KeyCode::Char('?')],
            Action::Command => seq![KeyCode::Char(':')],
            Action::Quit => seq![],
        }
    }

    /// The action at position `i` of the key reference.
    pub fn nth(i: usize) -> (r: Action)
        requires
            i < ACTIONS,
        ensures
            r == Action::at(i as int),
    {
        match i {
            0 => Action::Down,
            1 => Action::Up,
            2 => Action::First,
            3 => Action::Last,
            4 => Action::Add,
            5 => Action::Edit,
            6 => Action::Toggle,
            7 => Action::Delete,
            8 => Action::Undo,
            9 => Action::MoveDown,
            10 => Action::MoveUp,
            11 => Action::Priority,
            12 => Action::Reminder,
            13 => Action::Repeat,
            14 => Action::Note,
            15 => Action::Hide,
            16 => Action::Reveal,
            17 => Action::Postpone,
            18 => Action::MoveToDate,
            19 => Action::Sort,
            20 => Action::HideDone,
            21 => Action::Search,
            22 => Action::Review,
            23 => Action::PrevDay,
            24 => Action::NextDay,
            25 => Action::Today,
            26 => Action::Calendar,
            27 => Action::NextList,
            28 => Action::Lists,
            29 => Action::Split,
            30 => Action::NewList,
            31 => Action::Help,
            32 => Action::Command,
            _ => Action::Quit,
        }
    }

    /// The name of the action in the configuration.
    pub fn name(self) -> (r: &'static str)
        ensures
            r@ == self.name_text(),
    {
        match self {
            Action::Down => "down",
            Action::Up => "up",
            Action::First => "first",
            Action::Last => "last",
            Action::Add => "add",
            Action::Edit => "edit",
            Action::Toggle => "toggle",
            Action::Delete => "delete",
            Action::Undo => "undo",
            Action::MoveDown => "move_down",
            Action::MoveUp => "move_up",
            Action::Priority => "priority",
            Action::Reminder => "reminder",
            Action::Repeat => "repeat",
            Action::Note => "note",
            Action::Hide => "hide",
            Action::Reveal => "reveal",
            Action::Postpone => "postpone",
            Action::MoveToDate => "move_to_date",
            Action::Sort => "sort",
            Action::HideDone => "hide_done",
            Action::Search => "search",
            Action::Review => "review",
            Action::PrevDay => "prev_day",
            Action::NextDay => "next_day",
            Action::Today => "today",
            Action::Calendar => "calendar",
            Action::NextList => "next_list",
            Action::Lists => "lists",
            Action::Split => "split",
            Action::NewList => "new_list",
            Action::Help => "help",
            Action::Command => "command",
            Action::Quit => "quit",
        }
    }

    /// What the action does, in words.
    pub fn description(self) -> (r: &'static str)
        ensures
            r@ == self.description_text(),
    {
        match self {
            Action::Down => "move selection down",
            Action::Up => "move selection up",
            Action::First => "first task",
            Action::Last => "last task",
            Action::Add => "add a task",
            Action::Edit => "edit selected task",
            Action::Toggle => "toggle done",
            Action::Delete => "delete task",
            Action::Undo => "undo last delete",
            Action::MoveDown => "move task down",
            Action::MoveUp => "move task up",
            Action::Priority => "cycle priority: none → low → high",
            Action::Reminder => "set a reminder time (empty clears it)",
            Action::Repeat => "cycle repeat: daily → weekdays → weekly → monthly",
            Action::Note => "edit the task's note",
            Action::Hide => "hide/unhide the task (mask its text)",
            Action::Reveal => "reveal hidden tasks for this session",
            Action::Postpone => "postpone to the next day",
            Action::MoveToDate => "move to a date (pick in calendar)",
            Action::Sort => "toggle priority sort",
            Action::HideDone => "focus: hide / show completed tasks",
            Action::Search => "search all days",
            Action::Review => "weekly review & stats",
            Action::PrevDay => "previous day",
            Action::NextDay => "next day",
            Action::Today => "jump to today",
            Action::Calendar => "open the calendar",
            Action::NextList => "switch to the next list",
            Action::Lists => "list picker: switch to any list, or create one",
            Action::Split => "split view: the next list read-only on the right",
            Action::NewList => "create a new list (also :newlist NAME)",
            Action::Help => "toggle this help",
            Action::Command => "command line — :q quit, :w save",
            Action::Quit => "quit directly (unbound by default — use :q, or Ctrl-C)",
        }
    }

    /// The keys that the action has unless the configuration gives it others.
    pub fn default_keys(self) -> (r: Vec<KeyCode>)
        ensures
            r@ == self.default_codes(),
    {
        let mut keys: Vec<KeyCode> = Vec::new();
        match self {
            Action::Down => {
                keys.push(KeyCode::Char('j'));
                keys.push(KeyCode::Down);
            },
            Action::Up => {
                keys.push(KeyCode::Char('k'));
                keys.push(KeyCode::Up);
            },
            Action::First => {
                keys.push(KeyCode::Char('g'));
            },
            Action::Last => {
                keys.push(KeyCode::Char('G'));
            },
            Action::Add => {
                keys.push(KeyCode::Char('a'));
            },
            Action::Edit => {
                keys.push(KeyCode::Char('e'));
            },
            Action::Toggle => {
                keys.push(KeyCode::Char(' '));
                keys.push(KeyCode::Char('x'));
                keys.push(KeyCode::Enter);
            },
            Action::Delete => {
                keys.push(KeyCode::Char('d'));
            },
            Action::Undo => {
                keys.push(KeyCode::Char('u'));
            },
            Action::MoveDown => {
                keys.push(KeyCode::Char('J'));
            },
            Action::MoveUp => {
                keys.push(KeyCode::Char('K'));
            },
            Action::Priority => {
                keys.push(KeyCode::Char('p'));
            },
            Action::Reminder => {
                keys.push(KeyCode::Char('r'));
            },
            Action::Repeat => {
                keys.push(KeyCode::Char('R'));
            },
            Action::Note => {
                keys.push(KeyCode::Char('n'));
            },
            Action::Hide => {
                keys.push(KeyCode::Char('H'));
            },
            Action::Reveal => {
                keys.push(KeyCode::Char('v'));
            },
            Action::Postpone => {
                keys.push(KeyCode::Char('>'));
            },
            Action::MoveToDate => {
                keys.push(KeyCode::Char('m'));
            },
            Action::Sort => {
                keys.push(KeyCode::Char('s'));
            },
            Action::HideDone => {
                keys.push(KeyCode::Char('f'));
            },
            Action::Search => {
                keys.push(KeyCode::Char('/'));
            },
            Action::Review => {
                keys.push(KeyCode::Char('w'));
            },
            Action::PrevDay => {
                keys.push(KeyCode::Char('h'));
                keys.push(KeyCode::Left);
            },
            Action::NextDay => {
                keys.push(KeyCode::Char('l'));
                keys.push(KeyCode::Right);
            },
            Action::Today => {
                keys.push(KeyCode::Char('t'));
            },
            Action::Calendar => {
                keys.push(KeyCode::Char('c'));
            },
            Action::NextList => {
                keys.push(KeyCode::Tab);
            },
            Action::Lists => {
                keys.push(KeyCode::Char('L'));
            },
            Action::Split => {
                keys.push(KeyCode::Char('|'));
            },
            Action::NewList => {
                keys.push(KeyCode::Char('N'));
            },
            Action::Help => {
                keys.push(KeyCode::Char('?'));
            },
            Action::Command => {
                keys.push(KeyCode::Char(':'));
            },
            Action::Quit => {
            },
        }
        assert(keys@ =~= self.default_codes());
        keys
    }
}

// --- what holds of names -------------------------------------------------------

/// Whether the name of a key stands for that key: so it is for characters, for the keys that have
/// a name of letters, and for the first twelve function keys.
pub open spec fn has_own_name(code: KeyCode) -> bool {
    match code {
        KeyCode::Char(_) => true,
        KeyCode::F(n) => 1 <= n <= 12,
        KeyCode::Enter | KeyCode::Tab | KeyCode::BackTab | KeyCode::Esc | KeyCode::Backspace
        | KeyCode::Delete | KeyCode::Insert | KeyCode::Home | KeyCode::End | KeyCode::PageUp
        | KeyCode::PageDown => true,
        _ => false,
    }
}

/// A key that has a name of its own is the key that its name stands for.
pub proof fn key_names_round_trip(code: KeyCode)
    requires
        has_own_name(code),
    ensures
        key_of(key_text(code)) == Some(code),
{
    reveal_strlit("space");
    reveal_strlit("enter");
    reveal_strlit("return");
    reveal_strlit("tab");
    reveal_strlit("backtab");
    reveal_strlit("esc");
    reveal_strlit("escape");
    reveal_strlit("backspace");
    reveal_strlit("del");
    reveal_strlit("delete");
    reveal_strlit("ins");
    reveal_strlit("insert");
    reveal_strlit("up");
    reveal_strlit("down");
    reveal_strlit("left");
    reveal_strlit("right");
    reveal_strlit("home");
    reveal_strlit("end");
    reveal_strlit("pgup");
    reveal_strlit("pageup");
    reveal_strlit("pgdn");
    reveal_strlit("pagedown");
    reveal_strlit("f");
    let name = key_text(code);
    match code {
        KeyCode::Char(c) => {
            if c == ' ' {
                assert(ascii_lowered(name) =~= name);
            }
        },
        KeyCode::F(n) => {
            reveal_with_fuel(decimal, 3);
            reveal_with_fuel(digits_value, 3);
            let digits = decimal(n as nat);
            if n < 10 {
                assert(digits =~= seq![digit_char(n as int)]);
            } else {
                assert(digits =~= seq![digit_char(1), digit_char(n - 10)]);
                assert(digits.drop_last() =~= seq![digit_char(1)]);
            }
            assert(ascii_lowered(name) =~= name);
            assert(name.drop_first() =~= digits);
            assert(all_digits(digits));
            assert(digits_value(digits) == n);
            assert(name[0] == 'f');
        },
        _ => {
            assert(ascii_lowered(name) =~= name);
        },
    }
}

} // verus!
