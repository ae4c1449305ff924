//! Key strokes as the widgets see them.
use vstd::prelude::*;

verus! {

/// The key that was struck.
#[derive(Clone, Copy, Debug, PartialEq, Eq, Structural)]
pub enum KeyCode {
    Char(char),
    Up,
    Down,
    Left,
    Right,
    Enter,
    Esc,
    Backspace,
    PageUp,
    PageDown,
    Other,
}

/// A key event: the key, the Control and Alt modifiers, and whether it is a press
/// (as opposed to a release or a repeat).
#[derive(Clone, Copy, Debug, PartialEq, Eq, Structural)]
pub struct KeyInput {
    pub code: KeyCode,
    pub ctrl: bool,
    pub alt: bool,
    pub press: bool,
}

impl KeyInput {
    /// A press of `code` with no modifier.
    pub fn plain(code: KeyCode) -> (r: KeyInput)
        ensures
            r == (KeyInput { code, ctrl: false, alt: false, press: true }),
    {
        KeyInput { code, ctrl: false, alt: false, press: true }
    }

    /// A press of `code` with Control held.
    pub fn with_ctrl(code: KeyCode) -> (r: KeyInput)
        ensures
            r == (KeyInput { code, ctrl: true, alt: false, press: true }),
    {
        KeyInput { code, ctrl: true, alt: false, press: true }
    }

    /// A press of `code` with Alt held.
    pub fn with_alt(code: KeyCode) -> (r: KeyInput)
        ensures
            r == (KeyInput { code, ctrl: false, alt: true, press: true }),
    {
        KeyInput { code, ctrl: false, alt: true, press: true }
    }
}

} // verus!
