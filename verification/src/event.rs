//! Raw input and timing signals, as delivered by the terminal backend.
//!
//! The backend's own key types are converted at the boundary into the plain
//! types here, which hold exactly what the key-mapping logic reads: a key
//! code and the modifier set.

use vstd::prelude::*;

verus! {

/// The key that was pressed. Keys the application does not bind are
/// collapsed into `Other`.
#[derive(Clone, Copy, Debug, PartialEq, Eq, Structural)]
pub enum KeyCode {
    Char(char),
    Left,
    Right,
    Up,
    Down,
    Esc,
    Other,
}

/// The modifier keys held during a key press.
#[derive(Clone, Copy, Debug, PartialEq, Eq, Structural)]
pub struct KeyModifiers {
    pub control: bool,
    pub shift: bool,
    pub alt: bool,
}

impl KeyModifiers {
    /// No modifier held.
    pub open spec fn is_empty_spec(&self) -> bool {
        !self.control && !self.shift && !self.alt
    }

    pub fn is_empty(&self) -> (r: bool)
        ensures
            r == self.is_empty_spec(),
    {
        !self.control && !self.shift && !self.alt
    }

    pub fn none() -> (r: Self)
        ensures
            r.is_empty_spec(),
    {
        KeyModifiers { control: false, shift: false, alt: false }
    }

    pub fn control_only() -> (r: Self)
        ensures
            r == (KeyModifiers { control: true, shift: false, alt: false }),
    {
        KeyModifiers { control: true, shift: false, alt: false }
    }
}

/// A key press: code plus modifier set.
#[derive(Clone, Copy, Debug, PartialEq, Eq, Structural)]
pub struct KeyEvent {
    pub code: KeyCode,
    pub modifiers: KeyModifiers,
}

impl KeyEvent {
    pub fn new(code: KeyCode, modifiers: KeyModifiers) -> (r: Self)
        ensures
            r == (KeyEvent { code, modifiers }),
    {
        KeyEvent { code, modifiers }
    }
}

/// A raw input or timing signal.
#[derive(Clone, Debug)]
pub enum Event {
    Key(KeyEvent),
    Mouse,
    Resize(u16, u16),
    Tick,
    Render,
    Suspend,
    Resume,
    Quit,
    FocusGained,
    FocusLost,
    Paste(String),
}

} // verus!
