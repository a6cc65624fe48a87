//! Key events as the state machine reads them.

use vstd::prelude::*;

verus! {

/// The moment of a key stroke that an event reports.
#[derive(Clone, Copy, Debug, PartialEq, Eq, Structural)]
pub enum Phase {
    /// The key went down.
    Press,
    /// The key is held down and repeats.
    Repeat,
    /// The key came up.
    Release,
}

/// The key that an event is about.
#[derive(Clone, Copy, Debug, PartialEq, Eq, Structural)]
pub enum KeyCode {
    /// A key that stands for a character.
    Char(char),
    /// The key that deletes to the left.
    Backspace,
    /// The key that submits the line.
    Enter,
    /// Any other key.
    Other,
}

/// One event of the keyboard.
#[derive(Clone, Copy, Debug, PartialEq, Eq, Structural)]
pub struct KeyEvent {
    /// The key.
    pub code: KeyCode,
    /// Whether the control key was held.
    pub ctrl: bool,
    /// Whether the key went down, repeats or came up.
    pub phase: Phase,
}

impl KeyEvent {
    /// The event is control together with the character `c`: the request
    /// to leave. The phase plays no part.
    pub open spec fn is_interrupt(self) -> bool {
        self.ctrl && self.code == KeyCode::Char('c')
    }

    /// The event is the release of a character key without control, and
    /// the character is printable: it types `c`.
    pub open spec fn types(self, c: char) -> bool {
        self.code == KeyCode::Char(c) && !self.ctrl && self.phase == Phase::Release
            && crate::text::printable(c)
    }

    /// The event is the release of the backspace key.
    pub open spec fn is_delete(self) -> bool {
        self.code == KeyCode::Backspace && self.phase == Phase::Release
    }

    /// The event is the enter key, in any phase.
    pub open spec fn is_submit(self) -> bool {
        self.code == KeyCode::Enter
    }
}

} // verus!
