//! Keyboard input as the game engine receives it: the physical key, the
//! logical key, whether it went down or up, and the window it belongs to.
use vstd::prelude::*;
use bevy::ecs::entity::Entity;

verus! {

/// The engine's entity handle; the library only carries it through to the
/// events it builds.
#[verifier::external_type_specification]
#[verifier::external_body]
pub struct ExEntity(Entity);

/// A physical key of the engine's keyboard model.
#[derive(Debug, Clone, Copy, PartialEq, Eq, Structural)]
pub enum KeyCode {
    Backspace,
    Enter,
    ArrowLeft,
    ArrowRight,
    ArrowUp,
    ArrowDown,
    Home,
    End,
    PageUp,
    PageDown,
    Tab,
    Delete,
    Insert,
    F1,
    F2,
    F3,
    F4,
    F5,
    F6,
    F7,
    F8,
    F9,
    F10,
    F11,
    F12,
    F13,
    F14,
    F15,
    F16,
    F17,
    F18,
    F19,
    F20,
    F31,
    F32,
    F33,
    F34,
    F35,
    Digit0,
    Digit1,
    Digit2,
    Digit3,
    Digit4,
    Digit5,
    Digit6,
    Digit7,
    Digit8,
    Digit9,
    Minus,
    BracketLeft,
    BracketRight,
    Comma,
    Equal,
    Period,
    Quote,
    Semicolon,
    Slash,
    Space,
    KeyA,
    KeyB,
    KeyC,
    KeyD,
    KeyE,
    KeyF,
    KeyG,
    KeyH,
    KeyI,
    KeyJ,
    KeyK,
    KeyL,
    KeyM,
    KeyN,
    KeyO,
    KeyP,
    KeyQ,
    KeyR,
    KeyS,
    KeyT,
    KeyU,
    KeyV,
    KeyW,
    KeyX,
    KeyY,
    KeyZ,
    Escape,
    CapsLock,
    ScrollLock,
    NumLock,
    PrintScreen,
    Pause,
    ContextMenu,
    MediaPlayPause,
    MediaStop,
    MediaTrackNext,
    MediaTrackPrevious,
    AudioVolumeDown,
    AudioVolumeUp,
    AudioVolumeMute,
    ShiftLeft,
    ControlLeft,
    AltLeft,
    SuperLeft,
    ShiftRight,
    ControlRight,
    AltRight,
    SuperRight,
    Hyper,
    Meta,
}

/// A logical key of the engine's keyboard model.
#[derive(Debug, Clone, Copy, PartialEq, Eq, Structural)]
pub enum Key {
    /// A key that produces text: the one character it produces.
    Character(char),
    Backspace,
    Enter,
    ArrowLeft,
    ArrowRight,
    ArrowUp,
    ArrowDown,
    Home,
    End,
    PageUp,
    PageDown,
    Tab,
    Delete,
    Insert,
    F1,
    F2,
    F3,
    F4,
    F5,
    F6,
    F7,
    F8,
    F9,
    F10,
    F11,
    F12,
    F13,
    F14,
    F15,
    F16,
    F17,
    F18,
    F19,
    F20,
    F31,
    F32,
    F33,
    F34,
    F35,
    Escape,
    CapsLock,
    ScrollLock,
    NumLock,
    PrintScreen,
    Pause,
    ContextMenu,
    MediaPlay,
    MediaPlayPause,
    MediaStop,
    MediaFastForward,
    MediaRewind,
    MediaTrackNext,
    MediaTrackPrevious,
    MediaRecord,
    AudioVolumeDown,
    AudioVolumeUp,
    AudioVolumeMute,
    Shift,
    Control,
    Alt,
    AltGraph,
    Super,
    Hyper,
    Meta,
}

/// Whether a key went down or up.
#[derive(Debug, Clone, Copy, PartialEq, Eq, Structural)]
pub enum ButtonState {
    Pressed,
    Released,
}

/// One keyboard input event for the engine.
#[derive(Debug, Clone, Copy, PartialEq, Eq)]
pub struct KeyboardInput {
    /// The physical key.
    pub key_code: KeyCode,
    /// The logical key.
    pub logical_key: Key,
    /// Down or up.
    pub state: ButtonState,
    /// The window that received the input.
    pub window: Entity,
}

} // verus!
