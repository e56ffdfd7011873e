//! What the terminal reports to the viewer, as far as the viewer reads it.

use vstd::prelude::*;

verus! {

/// The key of a key event. The viewer tells four keys apart; every other key
/// is `Other`.
#[derive(Clone, Copy, Debug, PartialEq, Eq)]
pub enum KeyCode {
    Up,
    Down,
    Enter,
    Char(char),
    Other,
}

/// Whether a key went down, is held, or came up.
#[derive(Clone, Copy, Debug, PartialEq, Eq)]
pub enum KeyEventKind {
    Press,
    Repeat,
    Release,
}

/// A key event: which key, and what happened to it.
#[derive(Clone, Copy, Debug, PartialEq, Eq)]
pub struct KeyEvent {
    pub code: KeyCode,
    pub kind: KeyEventKind,
}

/// An event of the terminal: a key event, or anything else (a resize, a
/// change of focus, the mouse, pasted text).
#[derive(Clone, Copy, Debug, PartialEq, Eq)]
pub enum Event {
    Key(KeyEvent),
    Other,
}

/// Whether the key is one of the four that end the viewer: up, down, enter
/// and the letter q.
pub open spec fn is_exit_key(code: KeyCode) -> bool {
    code == KeyCode::Up || code == KeyCode::Down || code == KeyCode::Enter || code
        == KeyCode::Char('q')
}

/// Whether the event ends the viewer: the press of a key that does.
pub open spec fn is_exit_event(event: Event) -> bool {
    match event {
        Event::Key(key_event) => key_event.kind == KeyEventKind::Press && is_exit_key(
            key_event.code,
        ),
        Event::Other => false,
    }
}

} // verus!
