//! The events that drive the browser, as plain values.
//!
//! The terminal is read elsewhere; what it reports is handed to the
//! browser in these types.

use vstd::prelude::*;

verus! {

/// The key that was pressed.
#[derive(Debug, Clone, Copy, PartialEq, Eq, Structural)]
pub enum KeyCode {
    Backspace,
    Enter,
    Left,
    Right,
    Up,
    Down,
    PageUp,
    PageDown,
    Delete,
    Esc,
    Char(char),
    /// Any key that the browser has no use for.
    Other,
}

/// The modifier keys held down with a key: a set of bits, named here.
pub struct KeyModifiers;

impl KeyModifiers {
    pub const NONE: u8 = 0;

    pub const SHIFT: u8 = 1;

    pub const CONTROL: u8 = 2;

    pub const ALT: u8 = 4;
}

/// A key press.
#[derive(Debug, Clone, Copy, PartialEq, Eq, Structural)]
pub struct KeyEvent {
    pub code: KeyCode,
    /// The modifiers held down, as the bits that [`KeyModifiers`] names.
    pub modifiers: u8,
}

impl KeyEvent {
    pub fn new(code: KeyCode, modifiers: u8) -> (r: KeyEvent)
        ensures
            r == (KeyEvent { code, modifiers }),
    {
        KeyEvent { code, modifiers }
    }

    /// No modifier is held down.
    pub open spec fn plain(self) -> bool {
        self.modifiers == KeyModifiers::NONE
    }

    /// Control is held down, and nothing else.
    pub open spec fn with_control(self) -> bool {
        self.modifiers == KeyModifiers::CONTROL
    }

    /// Shift is held down, and nothing else.
    pub open spec fn with_shift(self) -> bool {
        self.modifiers == KeyModifiers::SHIFT
    }

    /// Control and Alt are both held down.
    pub open spec fn has_control_and_alt(self) -> bool {
        self.modifiers & 6 == 6
    }

    pub fn control_and_alt(&self) -> (r: bool)
        ensures
            r == self.has_control_and_alt(),
    {
        self.modifiers & 6 == 6
    }

    /// The key is the given character.
    pub open spec fn is_char(self, c: char) -> bool {
        self.code == KeyCode::Char(c)
    }

    /// The key says yes: `y` or `Y`.
    pub open spec fn affirms(self) -> bool {
        self.is_char('y') || self.is_char('Y')
    }

    /// The key says no: `n`, `N` or Escape.
    pub open spec fn declines(self) -> bool {
        self.is_char('n') || self.is_char('N') || self.code == KeyCode::Esc
    }
}

/// What the terminal reports.
#[derive(Debug, Clone, Copy, PartialEq, Eq, Structural)]
pub enum Event {
    /// The heartbeat: no input arrived for a while.
    Tick,
    Key(KeyEvent),
    Mouse,
    /// The terminal has a new width and height.
    Resize(u16, u16),
}

} // verus!
