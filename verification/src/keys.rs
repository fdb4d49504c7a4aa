//! What the terminal reports: keys and changes of size.

use vstd::prelude::*;

verus! {

/// Which key was used.
#[derive(Debug, Clone, Copy, PartialEq, Eq, Structural)]
pub enum KeyCode {
    Char(char),
    Enter,
    Esc,
    Backspace,
    Tab,
    Left,
    Right,
    Up,
    Down,
    /// A key that the client has no use for.
    Other,
}

/// The modifier keys held down with a key.
#[derive(Debug, Clone, Copy, PartialEq, Eq, Structural)]
pub struct KeyModifiers {
    pub shift: bool,
    pub control: bool,
    pub alt: bool,
    /// Any modifier other than the three above.
    pub other: bool,
}

impl KeyModifiers {
    /// No modifier at all.
    pub fn none() -> (res: Self)
        ensures
            res == (KeyModifiers { shift: false, control: false, alt: false, other: false }),
    {
        KeyModifiers { shift: false, control: false, alt: false, other: false }
    }

    /// The control key and nothing else.
    pub fn control() -> (res: Self)
        ensures
            res == (KeyModifiers { shift: false, control: true, alt: false, other: false }),
    {
        KeyModifiers { shift: false, control: true, alt: false, other: false }
    }

    /// Whether the control key is held down and no other modifier.
    pub open spec fn only_control(self) -> bool {
        self.control && !self.shift && !self.alt && !self.other
    }

    /// Whether the control key is held down and no other modifier.
    pub fn is_only_control(&self) -> (res: bool)
        ensures
            res == self.only_control(),
    {
        self.control && !self.shift && !self.alt && !self.other
    }
}

/// Whether a key went down, is held, or went up.
#[derive(Debug, Clone, Copy, PartialEq, Eq, Structural)]
pub enum KeyEventKind {
    Press,
    Repeat,
    Release,
}

/// One report about a key.
#[derive(Debug, Clone, Copy, PartialEq, Eq, Structural)]
pub struct KeyEvent {
    pub code: KeyCode,
    pub modifiers: KeyModifiers,
    pub kind: KeyEventKind,
}

impl KeyEvent {
    /// The press of a key without modifiers.
    pub fn press(code: KeyCode) -> (res: Self)
        ensures
            res == (KeyEvent {
                code,
                modifiers: KeyModifiers { shift: false, control: false, alt: false, other: false },
                kind: KeyEventKind::Press,
            }),
    {
        KeyEvent { code, modifiers: KeyModifiers::none(), kind: KeyEventKind::Press }
    }

    /// The press of a letter with the control key held down.
    pub fn ctrl(letter: char) -> (res: Self)
        ensures
            res == (KeyEvent {
                code: KeyCode::Char(letter),
                modifiers: KeyModifiers { shift: false, control: true, alt: false, other: false },
                kind: KeyEventKind::Press,
            }),
    {
        KeyEvent {
            code: KeyCode::Char(letter),
            modifiers: KeyModifiers::control(),
            kind: KeyEventKind::Press,
        }
    }

    /// Whether this is the letter `letter`, whatever else is held down.
    pub open spec fn is_char(self, letter: char) -> bool {
        self.code == KeyCode::Char(letter)
    }

    /// Whether this is the letter `letter` with the control key and no other
    /// modifier.
    pub open spec fn is_ctrl(self, letter: char) -> bool {
        self.code == KeyCode::Char(letter) && self.modifiers.only_control()
    }

    /// Whether this is the letter `letter`, whatever else is held down.
    pub fn has_char(&self, letter: char) -> (res: bool)
        ensures
            res == self.is_char(letter),
    {
        match self.code {
            KeyCode::Char(c) => c == letter,
            _ => false,
        }
    }

    /// Whether this is the letter `letter` with the control key and no other
    /// modifier.
    pub fn has_ctrl(&self, letter: char) -> (res: bool)
        ensures
            res == self.is_ctrl(letter),
    {
        self.has_char(letter) && self.modifiers.is_only_control()
    }

    /// Whether the key went down.
    pub fn is_press(&self) -> (res: bool)
        ensures
            res == (self.kind == KeyEventKind::Press),
    {
        match self.kind {
            KeyEventKind::Press => true,
            _ => false,
        }
    }
}

/// One report from the terminal.
#[derive(Debug, Clone, Copy, PartialEq, Eq, Structural)]
pub enum TerminalEvent {
    Key(KeyEvent),
    /// The terminal now has this many columns and rows.
    Resize(u16, u16),
    /// A report that the client has no use for.
    Other,
}

} // verus!
