//! Input events, reduced to what widgets tell apart.

use vstd::prelude::*;

verus! {

/// The key of a key event.
#[derive(Clone, Copy, Debug, PartialEq, Eq, Structural)]
pub enum KeyCode {
    Up,
    Down,
    Enter,
    Esc,
    /// Any other key.
    Other,
}

/// Whether a key went down, is held, or came up.
#[derive(Clone, Copy, Debug, PartialEq, Eq, Structural)]
pub enum KeyEventKind {
    Press,
    Repeat,
    Release,
}

/// A key event.
#[derive(Clone, Copy, Debug, PartialEq, Eq, Structural)]
pub struct KeyEvent {
    pub code: KeyCode,
    pub kind: KeyEventKind,
}

/// One input event of the terminal.
#[derive(Clone, Copy, Debug, PartialEq, Eq, Structural)]
pub enum Event {
    Key(KeyEvent),
    /// Focus changes, mouse input, pasted text, a new terminal size.
    Other,
}

impl Event {
    /// The key that was pressed, where the event is a key press.
    pub open spec fn spec_pressed(self) -> Option<KeyCode> {
        match self {
            Event::Key(key) => match key.kind {
                KeyEventKind::Press => Some(key.code),
                _ => None,
            },
            Event::Other => None,
        }
    }

    /// The press of `code`.
    pub open spec fn press_of(code: KeyCode) -> Event {
        Event::Key(KeyEvent { code, kind: KeyEventKind::Press })
    }

    /// The press of `code`.
    pub fn press(code: KeyCode) -> (e: Event)
        ensures
            e == Event::press_of(code),
            e.spec_pressed() == Some(code),
    {
        Event::Key(KeyEvent { code, kind: KeyEventKind::Press })
    }

    /// The key that was pressed, where the event is a key press.
    #[verifier::when_used_as_spec(spec_pressed)]
    pub fn pressed(self) -> (k: Option<KeyCode>)
        ensures
            k == self.spec_pressed(),
    {
        match self {
            Event::Key(key) => match key.kind {
                KeyEventKind::Press => Some(key.code),
                _ => None,
            },
            Event::Other => None,
        }
    }
}

} // verus!
