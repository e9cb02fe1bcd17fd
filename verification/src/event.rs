//! Keyboard and mouse events as the library sees them.

use vstd::prelude::*;

verus! {

/// The modifier keys held during an event.
#[derive(Copy, Clone, Debug, PartialEq, Eq, Hash, Structural)]
pub struct KeyModifiers {
    pub shift: bool,
    pub control: bool,
    pub alt: bool,
    pub super_key: bool,
    pub hyper: bool,
    pub meta: bool,
}

/// No modifier held.
pub open spec fn no_mods() -> KeyModifiers {
    KeyModifiers {
        shift: false,
        control: false,
        alt: false,
        super_key: false,
        hyper: false,
        meta: false,
    }
}

impl KeyModifiers {
    /// No modifier.
    pub fn none() -> (r: KeyModifiers)
        ensures
            r == no_mods(),
    {
        KeyModifiers {
            shift: false,
            control: false,
            alt: false,
            super_key: false,
            hyper: false,
            meta: false,
        }
    }

    /// Shift alone.
    pub fn shift() -> (r: KeyModifiers)
        ensures
            r == (KeyModifiers { shift: true, ..no_mods() }),
    {
        KeyModifiers { shift: true, ..KeyModifiers::none() }
    }

    /// Control alone.
    pub fn control() -> (r: KeyModifiers)
        ensures
            r == (KeyModifiers { control: true, ..no_mods() }),
    {
        KeyModifiers { control: true, ..KeyModifiers::none() }
    }

    /// Alt alone.
    pub fn alt() -> (r: KeyModifiers)
        ensures
            r == (KeyModifiers { alt: true, ..no_mods() }),
    {
        KeyModifiers { alt: true, ..KeyModifiers::none() }
    }

    /// The modifiers held in either of the two.
    pub fn union(self, other: KeyModifiers) -> (r: KeyModifiers)
        ensures
            r == (KeyModifiers {
                shift: self.shift || other.shift,
                control: self.control || other.control,
                alt: self.alt || other.alt,
                super_key: self.super_key || other.super_key,
                hyper: self.hyper || other.hyper,
                meta: self.meta || other.meta,
            }),
    {
        KeyModifiers {
            shift: self.shift || other.shift,
            control: self.control || other.control,
            alt: self.alt || other.alt,
            super_key: self.super_key || other.super_key,
            hyper: self.hyper || other.hyper,
            meta: self.meta || other.meta,
        }
    }

    /// Nothing but perhaps Shift: a key that types its own character.
    pub open spec fn types_text(self) -> bool {
        self == (KeyModifiers { shift: self.shift, ..no_mods() })
    }

    /// Whether nothing but perhaps Shift is held.
    pub fn is_plain_or_shift(self) -> (r: bool)
        ensures
            r == self.types_text(),
    {
        !self.control && !self.alt && !self.super_key && !self.hyper && !self.meta
    }
}

/// A key. The media and modifier keys, which nothing here acts on, are told
/// apart by a number.
#[derive(Copy, Clone, Debug, PartialEq, Eq, Hash, Structural)]
pub enum KeyCode {
    Backspace,
    Enter,
    Left,
    Right,
    Up,
    Down,
    Home,
    End,
    PageUp,
    PageDown,
    Tab,
    BackTab,
    Delete,
    Insert,
    F(u8),
    Char(char),
    Null,
    Esc,
    CapsLock,
    ScrollLock,
    NumLock,
    PrintScreen,
    Pause,
    Menu,
    KeypadBegin,
    Media(u8),
    Modifier(u8),
}

/// Whether a key went down, repeats, or came up.
#[derive(Copy, Clone, Debug, PartialEq, Eq, Hash, Structural)]
pub enum KeyEventKind {
    Press,
    Repeat,
    Release,
}

#[derive(Copy, Clone, Debug, PartialEq, Eq, Hash, Structural)]
pub struct KeyEvent {
    pub code: KeyCode,
    pub modifiers: KeyModifiers,
    pub kind: KeyEventKind,
}

impl KeyEvent {
    /// A press of `code` with `modifiers` held.
    pub fn new(code: KeyCode, modifiers: KeyModifiers) -> (r: KeyEvent)
        ensures
            r == (KeyEvent { code, modifiers, kind: KeyEventKind::Press }),
    {
        KeyEvent { code, modifiers, kind: KeyEventKind::Press }
    }
}

#[derive(Copy, Clone, Debug, PartialEq, Eq, Hash, Structural)]
pub enum MouseButton {
    Left,
    Right,
    Middle,
}

#[derive(Copy, Clone, Debug, PartialEq, Eq, Hash, Structural)]
pub enum MouseEventKind {
    Down(MouseButton),
    Up(MouseButton),
    Drag(MouseButton),
    Moved,
    ScrollDown,
    ScrollUp,
    ScrollLeft,
    ScrollRight,
}

#[derive(Copy, Clone, Debug, PartialEq, Eq, Hash, Structural)]
pub struct MouseEvent {
    pub kind: MouseEventKind,
    pub column: u16,
    pub row: u16,
    pub modifiers: KeyModifiers,
}

/// What the terminal reports.
#[derive(Clone, Debug)]
pub enum Event {
    FocusGained,
    FocusLost,
    Key(KeyEvent),
    Mouse(MouseEvent),
    Paste(String),
    /// Columns, then rows.
    Resize(u16, u16),
}

} // verus!
