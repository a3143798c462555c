//! Key presses as the editors and dialogs read them.

use vstd::prelude::*;

verus! {

/// Which key was pressed.
#[derive(Debug, Clone, Copy, PartialEq, Eq, Structural)]
pub enum KeyCode {
    Backspace,
    Enter,
    Left,
    Right,
    Up,
    Down,
    Home,
    End,
    PageUp,
    PageDown,
    Tab,
    BackTab,
    Delete,
    Esc,
    Char(char),
    /// Any key no editor or dialog reacts to.
    Other,
}

/// A key press with the modifiers held.
#[derive(Debug, Clone, Copy, PartialEq, Eq, Structural)]
pub struct Key {
    pub code: KeyCode,
    pub control: bool,
    /// The macOS Command (Super) key.
    pub command: bool,
    pub shift: bool,
    pub alt: bool,
}

impl Key {
    /// `code` with no modifier held.
    pub fn plain(code: KeyCode) -> (k: Key)
        ensures
            k == (Key { code, control: false, command: false, shift: false, alt: false }),
    {
        Key { code, control: false, command: false, shift: false, alt: false }
    }
}

/// Whether Ctrl or macOS Cmd (Super) is held.
pub fn has_ctrl_or_cmd(key: &Key) -> (b: bool)
    ensures
        b == (key.control || key.command),
{
    key.control || key.command
}

} // verus!
