//! Key presses as the interactive views see them.
use vstd::prelude::*;

verus! {

/// Which key was pressed.
#[derive(PartialEq, Eq, Structural, Clone, Copy, Debug)]
pub enum KeyCode {
    Char(char),
    Up,
    Down,
    Enter,
    Esc,
    Backspace,
    Delete,
    /// Any key the views do not react to.
    Other,
}

/// A key press with the modifiers the views look at.
#[derive(PartialEq, Eq, Structural, Clone, Copy, Debug)]
pub struct Key {
    pub code: KeyCode,
    pub ctrl: bool,
    pub shift: bool,
}

impl Key {
    /// Whether this is Ctrl together with character `c`.
    pub open spec fn is_ctrl_char(self, c: char) -> bool {
        self.code == KeyCode::Char(c) && self.ctrl
    }

    pub fn ctrl_char(&self, c: char) -> (r: bool)
        ensures
            r == self.is_ctrl_char(c),
    {
        self.ctrl && match self.code {
            KeyCode::Char(d) => d == c,
            _ => false,
        }
    }
}

} // verus!
