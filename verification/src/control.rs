//! Control events and the keys that give them.

use vstd::prelude::*;

verus! {

/// What a player can ask for.
#[derive(Debug, Clone, Copy, PartialEq, Eq, Structural)]
pub enum ControlEvent {
    RotateRight,
    RotateLeft,
    MoveRight,
    MoveLeft,
    MoveUp,
    MoveDown,
    DropBlock,
    SpeedChange(u8),
    ExitGame,
}

/// The keys that the game knows, and `Other` for the rest of the keyboard.
#[derive(Debug, Clone, Copy, PartialEq, Eq, Structural)]
pub enum Key {
    A,
    D,
    Left,
    Right,
    Up,
    Down,
    Space,
    Backspace,
    Other,
}

/// Whether a key went down or came up.
#[derive(Debug, Clone, Copy, PartialEq, Eq, Structural)]
pub enum KeyState {
    Pressed,
    Released,
}

/// What an input device reports: a key of a keyboard, or something that the
/// game has no use for.
#[derive(Debug, Clone, Copy, PartialEq, Eq, Structural)]
pub enum RawInput {
    Keyboard(Key, KeyState),
    Other,
}

/// The control event that a key gives when it is pressed, if any.
pub open spec fn key_event(key: Key) -> Option<ControlEvent> {
    match key {
        Key::A => Some(ControlEvent::RotateLeft),
        Key::D => Some(ControlEvent::RotateRight),
        Key::Left => Some(ControlEvent::MoveLeft),
        Key::Right => Some(ControlEvent::MoveRight),
        Key::Up => Some(ControlEvent::MoveUp),
        Key::Down => Some(ControlEvent::MoveDown),
        Key::Space => Some(ControlEvent::DropBlock),
        Key::Backspace => Some(ControlEvent::ExitGame),
        Key::Other => None,
    }
}

/// The control event that a report of an input device gives, if any: that
/// of the key, when a key of a keyboard was pressed.
pub open spec fn mapped(event: RawInput) -> Option<ControlEvent> {
    match event {
        RawInput::Keyboard(key, KeyState::Pressed) => key_event(key),
        _ => None,
    }
}

/// Given a report of an input device, returns a control event. This is the
/// function to change in order to change or add input mappings.
pub fn input_map(event: RawInput) -> (control: Option<ControlEvent>)
    ensures
        control == mapped(event),
{
    match event {
        RawInput::Keyboard(Key::A, KeyState::Pressed) => Some(ControlEvent::RotateLeft),
        RawInput::Keyboard(Key::D, KeyState::Pressed) => Some(ControlEvent::RotateRight),
        RawInput::Keyboard(Key::Left, KeyState::Pressed) => Some(ControlEvent::MoveLeft),
        RawInput::Keyboard(Key::Right, KeyState::Pressed) => Some(ControlEvent::MoveRight),
        RawInput::Keyboard(Key::Up, KeyState::Pressed) => Some(ControlEvent::MoveUp),
        RawInput::Keyboard(Key::Down, KeyState::Pressed) => Some(ControlEvent::MoveDown),
        RawInput::Keyboard(Key::Space, KeyState::Pressed) => Some(ControlEvent::DropBlock),
        RawInput::Keyboard(Key::Backspace, KeyState::Pressed) => Some(ControlEvent::ExitGame),
        _ => None,
    }
}

} // verus!
