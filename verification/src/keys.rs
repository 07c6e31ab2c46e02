//! Keys as the terminal reports them.

use vstd::prelude::*;

verus! {

/// A key, without its modifiers.
#[derive(Debug, Clone, Copy, PartialEq, Eq, Structural)]
pub enum KeyCode {
    Backspace,
    Enter,
    Left,
    Right,
    Up,
    Down,
    Home,
    End,
    PageUp,
    PageDown,
    Tab,
    BackTab,
    Delete,
    Insert,
    Esc,
    Char(char),
    Function(u8),
    Unknown,
}

/// The modifier keys held while a key was used.
#[derive(Debug, Clone, Copy, PartialEq, Eq, Structural)]
pub struct KeyModifiers {
    pub control: bool,
    pub shift: bool,
    pub alt: bool,
}

impl KeyModifiers {
    pub fn none() -> (r: KeyModifiers)
        ensures
            r == (KeyModifiers { control: false, shift: false, alt: false }),
    {
        KeyModifiers { control: false, shift: false, alt: false }
    }

    pub fn control() -> (r: KeyModifiers)
        ensures
            r == (KeyModifiers { control: true, shift: false, alt: false }),
    {
        KeyModifiers { control: true, shift: false, alt: false }
    }

    pub fn shift() -> (r: KeyModifiers)
        ensures
            r == (KeyModifiers { control: false, shift: true, alt: false }),
    {
        KeyModifiers { control: false, shift: true, alt: false }
    }

    pub fn alt() -> (r: KeyModifiers)
        ensures
            r == (KeyModifiers { control: false, shift: false, alt: true }),
    {
        KeyModifiers { control: false, shift: false, alt: true }
    }

    /// The modifiers of both.
    pub fn with(self, other: KeyModifiers) -> (r: KeyModifiers)
        ensures
            r == (KeyModifiers {
                control: self.control || other.control,
                shift: self.shift || other.shift,
                alt: self.alt || other.alt,
            }),
    {
        KeyModifiers {
            control: self.control || other.control,
            shift: self.shift || other.shift,
            alt: self.alt || other.alt,
        }
    }

    pub open spec fn is_empty_spec(self) -> bool {
        !self.control && !self.shift && !self.alt
    }

    pub fn is_empty(self) -> (r: bool)
        ensures
            r == self.is_empty_spec(),
    {
        !self.control && !self.shift && !self.alt
    }
}

/// What happened to the key.
#[derive(Debug, Clone, Copy, PartialEq, Eq, Structural)]
pub enum KeyEventKind {
    Press,
    Repeat,
    Release,
}

#[derive(Debug, Clone, Copy, PartialEq, Eq, Structural)]
pub struct KeyEvent {
    pub code: KeyCode,
    pub modifiers: KeyModifiers,
    pub kind: KeyEventKind,
}

impl KeyEvent {
    /// A key press.
    pub fn new(code: KeyCode, modifiers: KeyModifiers) -> (r: KeyEvent)
        ensures
            r == (KeyEvent { code, modifiers, kind: KeyEventKind::Press }),
    {
        KeyEvent { code, modifiers, kind: KeyEventKind::Press }
    }

    pub fn with_kind(code: KeyCode, modifiers: KeyModifiers, kind: KeyEventKind) -> (r: KeyEvent)
        ensures
            r == (KeyEvent { code, modifiers, kind }),
    {
        KeyEvent { code, modifiers, kind }
    }
}

/// The mouse wheel, as far as editors and viewers use it.
#[derive(Debug, Clone, Copy, PartialEq, Eq, Structural)]
pub enum MouseEventKind {
    ScrollUp,
    ScrollDown,
    Other,
}

} // verus!
