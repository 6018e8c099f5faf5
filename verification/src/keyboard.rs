//! The keyboard: what a key puts on the screen.
//!
//! The bytes that the keyboard sends are decoded by the caller, who keeps
//! track of prefixes and of the modifier keys. What is done with a decoded key
//! is decided here.

use vstd::prelude::*;

verus! {

/// The keys that are told apart.
#[derive(Debug, Clone, Copy, PartialEq, Eq, Structural)]
pub enum Key {
    Enter,
    Backspace,
    Tab,
    Other,
}

/// A key that went down or up.
#[derive(Debug, Clone, Copy, PartialEq, Eq, Structural)]
pub struct KeyPress {
    pub key: Key,
    pub down: bool,
}

/// What a key stands for with the modifier keys as they are.
#[derive(Debug, Clone, Copy, PartialEq, Eq, Structural)]
pub enum DecodedKey {
    /// A key without a character of its own.
    RawKey,
    /// A character.
    Unicode(char),
}

/// What a key does to the screen.
#[derive(Debug, Clone, Copy, PartialEq, Eq, Structural)]
pub enum KeyAction {
    /// Nothing is written.
    Nothing,
    /// A new line is started.
    NewLine,
    /// A character is written.
    Print(char),
}

/// What a key does to the screen. Only a key that goes down and stands for
/// something does anything: Enter starts a new line, Backspace and Tab do
/// nothing, and any other key writes its character if it has one.
pub open spec fn action_for(press: KeyPress, decoded: Option<DecodedKey>) -> KeyAction {
    if decoded is None || !press.down {
        KeyAction::Nothing
    } else {
        match press.key {
            Key::Enter => KeyAction::NewLine,
            Key::Backspace => KeyAction::Nothing,
            Key::Tab => KeyAction::Nothing,
            Key::Other => match decoded {
                Some(DecodedKey::Unicode(character)) => KeyAction::Print(character),
                _ => KeyAction::Nothing,
            },
        }
    }
}

/// What a key does to the screen.
pub fn key_action(press: KeyPress, decoded: Option<DecodedKey>) -> (action: KeyAction)
    ensures
        action == action_for(press, decoded),
{
    if let Some(decoded_key) = decoded {
        if press.down {
            match press.key {
                Key::Enter => KeyAction::NewLine,
                Key::Backspace => KeyAction::Nothing,
                Key::Tab => KeyAction::Nothing,
                Key::Other => {
                    if let DecodedKey::Unicode(character) = decoded_key {
                        KeyAction::Print(character)
                    } else {
                        KeyAction::Nothing
                    }
                },
            }
        } else {
            KeyAction::Nothing
        }
    } else {
        KeyAction::Nothing
    }
}

} // verus!
