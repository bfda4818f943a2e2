use vstd::prelude::*;

verus! {

/// Which key an event is about.
#[derive(Clone, Copy, Debug, PartialEq, Eq, Structural)]
pub enum KeyCode {
    Char(char),
    Backspace,
    Enter,
    Esc,
    Tab,
    Up,
    Down,
    Left,
    Right,
    /// Any other key.
    Other,
}

/// What happened to the key.
#[derive(Clone, Copy, Debug, PartialEq, Eq, Structural)]
pub enum KeyEventKind {
    Press,
    Repeat,
    Release,
}

/// One event of the keyboard. Only presses cause anything.
#[derive(Clone, Copy, Debug, PartialEq, Eq, Structural)]
pub struct KeyEvent {
    pub code: KeyCode,
    pub kind: KeyEventKind,
}

impl KeyEvent {
    /// The press of a key.
    pub fn press(code: KeyCode) -> (key: KeyEvent)
        ensures
            key == (KeyEvent { code, kind: KeyEventKind::Press }),
    {
        KeyEvent { code, kind: KeyEventKind::Press }
    }
}

/// A character that can stand in an item's text: any but the control
/// characters, which are those below the space, the delete character, and
/// the 32 that follow it.
pub open spec fn printable(c: char) -> bool {
    let code = c as u32;
    !(code < 0x20 || (0x7f <= code && code <= 0x9f))
}

/// Whether `c` can stand in an item's text.
#[verifier::when_used_as_spec(printable)]
pub fn is_printable(c: char) -> (yes: bool)
    ensures
        yes == printable(c),
{
    let code = c as u32;
    !(code < 0x20 || (0x7f <= code && code <= 0x9f))
}

} // verus!
