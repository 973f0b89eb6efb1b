//! Key presses, as far as the page component tells them apart.

use vstd::prelude::*;

verus! {

/// The key that was pressed.
#[derive(Clone, Copy, Debug, PartialEq, Eq, Structural)]
pub enum KeyCode {
    Char(char),
    Enter,
    Left,
    Right,
    Up,
    Down,
    /// Any other key.
    Other,
}

/// A key press with the modifier keys held.
#[derive(Clone, Copy, Debug, PartialEq, Eq, Structural)]
pub struct KeyEvent {
    pub code: KeyCode,
    pub shift: bool,
    pub control: bool,
}

impl KeyEvent {
    /// The key alone.
    pub fn plain(code: KeyCode) -> (r: KeyEvent)
        ensures
            r == (KeyEvent { code, shift: false, control: false }),
    {
        KeyEvent { code, shift: false, control: false }
    }

    /// The key with shift held.
    pub fn with_shift(code: KeyCode) -> (r: KeyEvent)
        ensures
            r == (KeyEvent { code, shift: true, control: false }),
    {
        KeyEvent { code, shift: true, control: false }
    }

    /// The key with control held.
    pub fn with_control(code: KeyCode) -> (r: KeyEvent)
        ensures
            r == (KeyEvent { code, shift: false, control: true }),
    {
        KeyEvent { code, shift: false, control: true }
    }
}

} // verus!
