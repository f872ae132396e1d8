//! Shared event-handling types: the key presses the widgets react to,
//! the consumed / not-consumed answer they give back, and the command
//! registration hook for a help overlay.

use vstd::prelude::*;

verus! {

/// A key press as the shell reports it to a widget.
#[derive(Clone, Copy, PartialEq, Eq, Structural, Debug)]
pub enum Key {
    Char(char),
    Ctrl(char),
    Up,
    Down,
    Left,
    Right,
    Enter,
    Esc,
}

/// Whether a widget consumed a key press; the shell keeps routing a
/// key until some widget consumes it.
#[derive(Clone, Copy, PartialEq, Eq, Structural, Debug)]
pub enum EventState {
    Consumed,
    NotConsumed,
}

impl EventState {
    pub fn is_consumed(&self) -> (b: bool)
        ensures
            b == (*self == EventState::Consumed),
    {
        matches!(self, EventState::Consumed)
    }
}

/// The key bindings a widget needs; injected so that alternate
/// bindings can be tested.
#[derive(Clone, Copy, PartialEq, Eq, Structural, Debug)]
pub struct KeyConfig {
    pub move_up: Key,
    pub move_down: Key,
}

impl Default for KeyConfig {
    fn default() -> (c: Self)
        ensures
            c == (KeyConfig { move_up: Key::Up, move_down: Key::Down }),
    {
        KeyConfig { move_up: Key::Up, move_down: Key::Down }
    }
}

/// An entry of the help overlay. Widgets register the commands they
/// answer to through `commands`; all widgets here register none.
pub struct CommandInfo {
    pub name: String,
}

} // verus!
