//! Which engine key a terminal key stands for: its physical key code (with
//! the shift flag where a US layout needs shift to type the character, and
//! also for `-`, which is sent as shift plus the minus key) and its logical
//! key.
use vstd::prelude::*;
use crate::input::Key;
use crate::input::KeyCode as PhysicalKey;
use crate::terminal::{KeyCode, KeyModifiers, MediaKeyCode, ModifierKeyCode, SHIFT};

verus! {

/// The physical key of function key `F(n)`: F1 to F20 and F31 to F35.
pub open spec fn function_key_code_of(n: u8) -> Option<PhysicalKey> {
    if n == 1 {
        Some(PhysicalKey::F1)
    } else if n == 2 {
        Some(PhysicalKey::F2)
    } else if n == 3 {
        Some(PhysicalKey::F3)
    } else if n == 4 {
        Some(PhysicalKey::F4)
    } else if n == 5 {
        Some(PhysicalKey::F5)
    } else if n == 6 {
        Some(PhysicalKey::F6)
    } else if n == 7 {
        Some(PhysicalKey::F7)
    } else if n == 8 {
        Some(PhysicalKey::F8)
    } else if n == 9 {
        Some(PhysicalKey::F9)
    } else if n == 10 {
        Some(PhysicalKey::F10)
    } else if n == 11 {
        Some(PhysicalKey::F11)
    } else if n == 12 {
        Some(PhysicalKey::F12)
    } else if n == 13 {
        Some(PhysicalKey::F13)
    } else if n == 14 {
        Some(PhysicalKey::F14)
    } else if n == 15 {
        Some(PhysicalKey::F15)
    } else if n == 16 {
        Some(PhysicalKey::F16)
    } else if n == 17 {
        Some(PhysicalKey::F17)
    } else if n == 18 {
        Some(PhysicalKey::F18)
    } else if n == 19 {
        Some(PhysicalKey::F19)
    } else if n == 20 {
        Some(PhysicalKey::F20)
    } else if n == 31 {
        Some(PhysicalKey::F31)
    } else if n == 32 {
        Some(PhysicalKey::F32)
    } else if n == 33 {
        Some(PhysicalKey::F33)
    } else if n == 34 {
        Some(PhysicalKey::F34)
    } else if n == 35 {
        Some(PhysicalKey::F35)
    } else {
        None
    }
}

/// The logical key of function key `F(n)`: F1 to F20 and F31 to F35.
pub open spec fn function_key_of(n: u8) -> Option<Key> {
    if n == 1 {
        Some(Key::F1)
    } else if n == 2 {
        Some(Key::F2)
    } else if n == 3 {
        Some(Key::F3)
    } else if n == 4 {
        Some(Key::F4)
    } else if n == 5 {
        Some(Key::F5)
    } else if n == 6 {
        Some(Key::F6)
    } else if n == 7 {
        Some(Key::F7)
    } else if n == 8 {
        Some(Key::F8)
    } else if n == 9 {
        Some(Key::F9)
    } else if n == 10 {
        Some(Key::F10)
    } else if n == 11 {
        Some(Key::F11)
    } else if n == 12 {
        Some(Key::F12)
    } else if n == 13 {
        Some(Key::F13)
    } else if n == 14 {
        Some(Key::F14)
    } else if n == 15 {
        Some(Key::F15)
    } else if n == 16 {
        Some(Key::F16)
    } else if n == 17 {
        Some(Key::F17)
    } else if n == 18 {
        Some(Key::F18)
    } else if n == 19 {
        Some(Key::F19)
    } else if n == 20 {
        Some(Key::F20)
    } else if n == 31 {
        Some(Key::F31)
    } else if n == 32 {
        Some(Key::F32)
    } else if n == 33 {
        Some(Key::F33)
    } else if n == 34 {
        Some(Key::F34)
    } else if n == 35 {
        Some(Key::F35)
    } else {
        None
    }
}

/// The letter key at position `i` of the alphabet, `KeyA` at 0.
pub open spec fn letter_key_code(i: int) -> PhysicalKey
    recommends
        0 <= i < 26,
{
    if i == 0 {
        PhysicalKey::KeyA
    } else if i == 1 {
        PhysicalKey::KeyB
    } else if i == 2 {
        PhysicalKey::KeyC
    } else if i == 3 {
        PhysicalKey::KeyD
    } else if i == 4 {
        PhysicalKey::KeyE
    } else if i == 5 {
        PhysicalKey::KeyF
    } else if i == 6 {
        PhysicalKey::KeyG
    } else if i == 7 {
        PhysicalKey::KeyH
    } else if i == 8 {
        PhysicalKey::KeyI
    } else if i == 9 {
        PhysicalKey::KeyJ
    } else if i == 10 {
        PhysicalKey::KeyK
    } else if i == 11 {
        PhysicalKey::KeyL
    } else if i == 12 {
        PhysicalKey::KeyM
    } else if i == 13 {
        PhysicalKey::KeyN
    } else if i == 14 {
        PhysicalKey::KeyO
    } else if i == 15 {
        PhysicalKey::KeyP
    } else if i == 16 {
        PhysicalKey::KeyQ
    } else if i == 17 {
        PhysicalKey::KeyR
    } else if i == 18 {
        PhysicalKey::KeyS
    } else if i == 19 {
        PhysicalKey::KeyT
    } else if i == 20 {
        PhysicalKey::KeyU
    } else if i == 21 {
        PhysicalKey::KeyV
    } else if i == 22 {
        PhysicalKey::KeyW
    } else if i == 23 {
        PhysicalKey::KeyX
    } else if i == 24 {
        PhysicalKey::KeyY
    } else {
        PhysicalKey::KeyZ
    }
}

/// The digit key for digit `i`.
pub open spec fn digit_key_code(i: int) -> PhysicalKey
    recommends
        0 <= i < 10,
{
    if i == 0 {
        PhysicalKey::Digit0
    } else if i == 1 {
        PhysicalKey::Digit1
    } else if i == 2 {
        PhysicalKey::Digit2
    } else if i == 3 {
        PhysicalKey::Digit3
    } else if i == 4 {
        PhysicalKey::Digit4
    } else if i == 5 {
        PhysicalKey::Digit5
    } else if i == 6 {
        PhysicalKey::Digit6
    } else if i == 7 {
        PhysicalKey::Digit7
    } else if i == 8 {
        PhysicalKey::Digit8
    } else {
        PhysicalKey::Digit9
    }
}

/// The key of a punctuation character or the space bar on a US layout, and
/// whether shift is sent with it: where the layout needs shift to type the
/// character, and for `-` as well, although a US layout types `-` unshifted
/// (so `-` and `_` would share shift plus the minus key; `_` has no entry).
pub open spec fn symbol_key_code(c: char) -> Option<(PhysicalKey, bool)> {
    match c {
        '!' => Some((PhysicalKey::Digit1, true)),
        '@' => Some((PhysicalKey::Digit2, true)),
        '#' => Some((PhysicalKey::Digit3, true)),
        '$' => Some((PhysicalKey::Digit4, true)),
        '%' => Some((PhysicalKey::Digit5, true)),
        '^' => Some((PhysicalKey::Digit6, true)),
        '&' => Some((PhysicalKey::Digit7, true)),
        '*' => Some((PhysicalKey::Digit8, true)),
        '(' => Some((PhysicalKey::Digit9, true)),
        ')' => Some((PhysicalKey::Digit0, true)),
        '-' => Some((PhysicalKey::Minus, true)),
        '[' => Some((PhysicalKey::BracketLeft, false)),
        ']' => Some((PhysicalKey::BracketRight, false)),
        '{' => Some((PhysicalKey::BracketLeft, true)),
        '}' => Some((PhysicalKey::BracketRight, true)),
        ',' => Some((PhysicalKey::Comma, false)),
        '=' => Some((PhysicalKey::Equal, false)),
        '<' => Some((PhysicalKey::Comma, true)),
        '+' => Some((PhysicalKey::Equal, true)),
        '.' => Some((PhysicalKey::Period, false)),
        '>' => Some((PhysicalKey::Period, true)),
        '\'' => Some((PhysicalKey::Quote, false)),
        '"' => Some((PhysicalKey::Quote, true)),
        ';' => Some((PhysicalKey::Semicolon, false)),
        ':' => Some((PhysicalKey::Semicolon, true)),
        '/' => Some((PhysicalKey::Slash, false)),
        '?' => Some((PhysicalKey::Slash, true)),
        ' ' => Some((PhysicalKey::Space, false)),
        _ => None,
    }
}

/// The key that types `c` on a US layout, and whether shift is sent with it:
/// lower-case letters and digits unshifted, upper-case letters shifted on
/// their letter key, punctuation as `symbol_key_code` lists it (shifted where
/// the layout needs shift, and `-` shifted too).
pub open spec fn char_key_code_of(c: char) -> Option<(PhysicalKey, bool)> {
    if 'a' as int <= c as int <= 'z' as int {
        Some((letter_key_code(c as int - 'a' as int), false))
    } else if 'A' as int <= c as int <= 'Z' as int {
        Some((letter_key_code(c as int - 'A' as int), true))
    } else if '0' as int <= c as int <= '9' as int {
        Some((digit_key_code(c as int - '0' as int), false))
    } else {
        symbol_key_code(c)
    }
}

/// The physical key of a media key.
pub open spec fn media_key_code_of(m: MediaKeyCode) -> Option<PhysicalKey> {
    match m {
        MediaKeyCode::Play => Some(PhysicalKey::MediaPlayPause),
        MediaKeyCode::Pause => Some(PhysicalKey::Pause),
        MediaKeyCode::PlayPause => Some(PhysicalKey::MediaPlayPause),
        MediaKeyCode::Reverse => None,
        MediaKeyCode::Stop => Some(PhysicalKey::MediaStop),
        MediaKeyCode::FastForward => Some(PhysicalKey::MediaTrackNext),
        MediaKeyCode::Rewind => Some(PhysicalKey::MediaTrackPrevious),
        MediaKeyCode::TrackNext => Some(PhysicalKey::MediaTrackNext),
        MediaKeyCode::TrackPrevious => Some(PhysicalKey::MediaTrackPrevious),
        MediaKeyCode::Record => None,
        MediaKeyCode::LowerVolume => Some(PhysicalKey::AudioVolumeDown),
        MediaKeyCode::RaiseVolume => Some(PhysicalKey::AudioVolumeUp),
        MediaKeyCode::MuteVolume => Some(PhysicalKey::AudioVolumeMute),
    }
}

/// The logical key of a media key.
pub open spec fn media_key_of(m: MediaKeyCode) -> Option<Key> {
    match m {
        MediaKeyCode::Play => Some(Key::MediaPlay),
        MediaKeyCode::Pause => Some(Key::Pause),
        MediaKeyCode::PlayPause => Some(Key::MediaPlayPause),
        MediaKeyCode::Reverse => None,
        MediaKeyCode::Stop => Some(Key::MediaStop),
        MediaKeyCode::FastForward => Some(Key::MediaFastForward),
        MediaKeyCode::Rewind => Some(Key::MediaRewind),
        MediaKeyCode::TrackNext => Some(Key::MediaTrackNext),
        MediaKeyCode::TrackPrevious => Some(Key::MediaTrackPrevious),
        MediaKeyCode::Record => Some(Key::MediaRecord),
        MediaKeyCode::LowerVolume => Some(Key::AudioVolumeDown),
        MediaKeyCode::RaiseVolume => Some(Key::AudioVolumeUp),
        MediaKeyCode::MuteVolume => Some(Key::AudioVolumeMute),
    }
}

/// The physical key of a modifier key; hyper and meta have no left or right
/// variant in the engine.
pub open spec fn modifier_key_code_of(m: ModifierKeyCode) -> Option<PhysicalKey> {
    match m {
        ModifierKeyCode::LeftShift => Some(PhysicalKey::ShiftLeft),
        ModifierKeyCode::LeftControl => Some(PhysicalKey::ControlLeft),
        ModifierKeyCode::LeftAlt => Some(PhysicalKey::AltLeft),
        ModifierKeyCode::LeftSuper => Some(PhysicalKey::SuperLeft),
        ModifierKeyCode::LeftHyper => Some(PhysicalKey::Hyper),
        ModifierKeyCode::LeftMeta => Some(PhysicalKey::Meta),
        ModifierKeyCode::RightShift => Some(PhysicalKey::ShiftRight),
        ModifierKeyCode::RightControl => Some(PhysicalKey::ControlRight),
        ModifierKeyCode::RightAlt => Some(PhysicalKey::AltRight),
        ModifierKeyCode::RightSuper => Some(PhysicalKey::SuperRight),
        ModifierKeyCode::RightHyper => Some(PhysicalKey::Hyper),
        ModifierKeyCode::RightMeta => Some(PhysicalKey::Meta),
        ModifierKeyCode::IsoLevel3Shift => None,
        ModifierKeyCode::IsoLevel5Shift => None,
    }
}

/// The logical key of a modifier key; both sides give the same key.
pub open spec fn modifier_key_of(m: ModifierKeyCode) -> Option<Key> {
    match m {
        ModifierKeyCode::LeftShift => Some(Key::Shift),
        ModifierKeyCode::LeftControl => Some(Key::Control),
        ModifierKeyCode::LeftAlt => Some(Key::Alt),
        ModifierKeyCode::LeftSuper => Some(Key::Super),
        ModifierKeyCode::LeftHyper => Some(Key::Hyper),
        ModifierKeyCode::LeftMeta => Some(Key::Meta),
        ModifierKeyCode::RightShift => Some(Key::Shift),
        ModifierKeyCode::RightControl => Some(Key::Control),
        ModifierKeyCode::RightAlt => Some(Key::Alt),
        ModifierKeyCode::RightSuper => Some(Key::Super),
        ModifierKeyCode::RightHyper => Some(Key::Hyper),
        ModifierKeyCode::RightMeta => Some(Key::Meta),
        ModifierKeyCode::IsoLevel3Shift => Some(Key::AltGraph),
        ModifierKeyCode::IsoLevel5Shift => None,
    }
}

/// The physical key and the extra modifier flags that a terminal key maps to,
/// or `None` where the engine has no such key.
pub open spec fn keycode_of(code: KeyCode) -> Option<(PhysicalKey, KeyModifiers)> {
    match code {
        KeyCode::Char(c) => match char_key_code_of(c) {
            Some((k, shifted)) => Some((k, KeyModifiers { bits: if shifted { SHIFT } else { 0 } })),
            None => None,
        },
        _ => match unshifted_key_code_of(code) {
            Some(k) => Some((k, KeyModifiers { bits: 0 })),
            None => None,
        },
    }
}

/// The physical key of a terminal key that is not a character key.
pub open spec fn unshifted_key_code_of(code: KeyCode) -> Option<PhysicalKey> {
    match code {
        KeyCode::Backspace => Some(PhysicalKey::Backspace),
        KeyCode::Enter => Some(PhysicalKey::Enter),
        KeyCode::Left => Some(PhysicalKey::ArrowLeft),
        KeyCode::Right => Some(PhysicalKey::ArrowRight),
        KeyCode::Up => Some(PhysicalKey::ArrowUp),
        KeyCode::Down => Some(PhysicalKey::ArrowDown),
        KeyCode::Home => Some(PhysicalKey::Home),
        KeyCode::End => Some(PhysicalKey::End),
        KeyCode::PageUp => Some(PhysicalKey::PageUp),
        KeyCode::PageDown => Some(PhysicalKey::PageDown),
        KeyCode::Tab => Some(PhysicalKey::Tab),
        KeyCode::BackTab => None,
        KeyCode::Delete => Some(PhysicalKey::Delete),
        KeyCode::Insert => Some(PhysicalKey::Insert),
        KeyCode::Null => None,
        KeyCode::Esc => Some(PhysicalKey::Escape),
        KeyCode::CapsLock => Some(PhysicalKey::CapsLock),
        KeyCode::ScrollLock => Some(PhysicalKey::ScrollLock),
        KeyCode::NumLock => Some(PhysicalKey::NumLock),
        KeyCode::PrintScreen => Some(PhysicalKey::PrintScreen),
        KeyCode::Pause => Some(PhysicalKey::Pause),
        KeyCode::Menu => Some(PhysicalKey::ContextMenu),
        KeyCode::KeypadBegin => None,
        KeyCode::F(n) => function_key_code_of(n),
        KeyCode::Char(_) => None,
        KeyCode::Media(m) => media_key_code_of(m),
        KeyCode::Modifier(m) => modifier_key_code_of(m),
    }
}

/// The logical key that a terminal key maps to, or `None` where the engine
/// has no such key; a character key gives that character.
pub open spec fn key_of(code: KeyCode) -> Option<Key> {
    match code {
        KeyCode::Backspace => Some(Key::Backspace),
        KeyCode::Enter => Some(Key::Enter),
        KeyCode::Left => Some(Key::ArrowLeft),
        KeyCode::Right => Some(Key::ArrowRight),
        KeyCode::Up => Some(Key::ArrowUp),
        KeyCode::Down => Some(Key::ArrowDown),
        KeyCode::Home => Some(Key::Home),
        KeyCode::End => Some(Key::End),
        KeyCode::PageUp => Some(Key::PageUp),
        KeyCode::PageDown => Some(Key::PageDown),
        KeyCode::Tab => Some(Key::Tab),
        KeyCode::BackTab => None,
        KeyCode::Delete => Some(Key::Delete),
        KeyCode::Insert => Some(Key::Insert),
        KeyCode::Null => None,
        KeyCode::Esc => Some(Key::Escape),
        KeyCode::CapsLock => Some(Key::CapsLock),
        KeyCode::ScrollLock => Some(Key::ScrollLock),
        KeyCode::NumLock => Some(Key::NumLock),
        KeyCode::PrintScreen => Some(Key::PrintScreen),
        KeyCode::Pause => Some(Key::Pause),
        KeyCode::Menu => Some(Key::ContextMenu),
        KeyCode::KeypadBegin => None,
        KeyCode::F(n) => function_key_of(n),
        KeyCode::Char(c) => Some(Key::Character(c)),
        KeyCode::Media(m) => media_key_of(m),
        KeyCode::Modifier(m) => modifier_key_of(m),
    }
}

fn function_key_code(n: u8) -> (r: Option<PhysicalKey>)
    ensures
        r == function_key_code_of(n),
{
    match n {
        1 => Some(PhysicalKey::F1),
        2 => Some(PhysicalKey::F2),
        3 => Some(PhysicalKey::F3),
        4 => Some(PhysicalKey::F4),
        5 => Some(PhysicalKey::F5),
        6 => Some(PhysicalKey::F6),
        7 => Some(PhysicalKey::F7),
        8 => Some(PhysicalKey::F8),
        9 => Some(PhysicalKey::F9),
        10 => Some(PhysicalKey::F10),
        11 => Some(PhysicalKey::F11),
        12 => Some(PhysicalKey::F12),
        13 => Some(PhysicalKey::F13),
        14 => Some(PhysicalKey::F14),
        15 => Some(PhysicalKey::F15),
        16 => Some(PhysicalKey::F16),
        17 => Some(PhysicalKey::F17),
        18 => Some(PhysicalKey::F18),
        19 => Some(PhysicalKey::F19),
        20 => Some(PhysicalKey::F20),
        31 => Some(PhysicalKey::F31),
        32 => Some(PhysicalKey::F32),
        33 => Some(PhysicalKey::F33),
        34 => Some(PhysicalKey::F34),
        35 => Some(PhysicalKey::F35),
        _ => None,
    }
}

fn function_key(n: u8) -> (r: Option<Key>)
    ensures
        r == function_key_of(n),
{
    match n {
        1 => Some(Key::F1),
        2 => Some(Key::F2),
        3 => Some(Key::F3),
        4 => Some(Key::F4),
        5 => Some(Key::F5),
        6 => Some(Key::F6),
        7 => Some(Key::F7),
        8 => Some(Key::F8),
        9 => Some(Key::F9),
        10 => Some(Key::F10),
        11 => Some(Key::F11),
        12 => Some(Key::F12),
        13 => Some(Key::F13),
        14 => Some(Key::F14),
        15 => Some(Key::F15),
        16 => Some(Key::F16),
        17 => Some(Key::F17),
        18 => Some(Key::F18),
        19 => Some(Key::F19),
        20 => Some(Key::F20),
        31 => Some(Key::F31),
        32 => Some(Key::F32),
        33 => Some(Key::F33),
        34 => Some(Key::F34),
        35 => Some(Key::F35),
        _ => None,
    }
}

fn char_key_code(c: char) -> (r: Option<(PhysicalKey, bool)>)
    ensures
        r == char_key_code_of(c),
{
    match c {
        '!' => Some((PhysicalKey::Digit1, true)),
        '@' => Some((PhysicalKey::Digit2, true)),
        '#' => Some((PhysicalKey::Digit3, true)),
        '$' => Some((PhysicalKey::Digit4, true)),
        '%' => Some((PhysicalKey::Digit5, true)),
        '^' => Some((PhysicalKey::Digit6, true)),
        '&' => Some((PhysicalKey::Digit7, true)),
        '*' => Some((PhysicalKey::Digit8, true)),
        '(' => Some((PhysicalKey::Digit9, true)),
        ')' => Some((PhysicalKey::Digit0, true)),
        '-' => Some((PhysicalKey::Minus, true)),
        '[' => Some((PhysicalKey::BracketLeft, false)),
        ']' => Some((PhysicalKey::BracketRight, false)),
        '{' => Some((PhysicalKey::BracketLeft, true)),
        '}' => Some((PhysicalKey::BracketRight, true)),
        ',' => Some((PhysicalKey::Comma, false)),
        '=' => Some((PhysicalKey::Equal, false)),
        '<' => Some((PhysicalKey::Comma, true)),
        '+' => Some((PhysicalKey::Equal, true)),
        '.' => Some((PhysicalKey::Period, false)),
        '>' => Some((PhysicalKey::Period, true)),
        '\'' => Some((PhysicalKey::Quote, false)),
        '"' => Some((PhysicalKey::Quote, true)),
        ';' => Some((PhysicalKey::Semicolon, false)),
        ':' => Some((PhysicalKey::Semicolon, true)),
        '/' => Some((PhysicalKey::Slash, false)),
        '?' => Some((PhysicalKey::Slash, true)),
        ' ' => Some((PhysicalKey::Space, false)),
        '0' => Some((PhysicalKey::Digit0, false)),
        '1' => Some((PhysicalKey::Digit1, false)),
        '2' => Some((PhysicalKey::Digit2, false)),
        '3' => Some((PhysicalKey::Digit3, false)),
        '4' => Some((PhysicalKey::Digit4, false)),
        '5' => Some((PhysicalKey::Digit5, false)),
        '6' => Some((PhysicalKey::Digit6, false)),
        '7' => Some((PhysicalKey::Digit7, false)),
        '8' => Some((PhysicalKey::Digit8, false)),
        '9' => Some((PhysicalKey::Digit9, false)),
        'a' => Some((PhysicalKey::KeyA, false)),
        'b' => Some((PhysicalKey::KeyB, false)),
        'c' => Some((PhysicalKey::KeyC, false)),
        'd' => Some((PhysicalKey::KeyD, false)),
        'e' => Some((PhysicalKey::KeyE, false)),
        'f' => Some((PhysicalKey::KeyF, false)),
        'g' => Some((PhysicalKey::KeyG, false)),
        'h' => Some((PhysicalKey::KeyH, false)),
        'i' => Some((PhysicalKey::KeyI, false)),
        'j' => Some((PhysicalKey::KeyJ, false)),
        'k' => Some((PhysicalKey::KeyK, false)),
        'l' => Some((PhysicalKey::KeyL, false)),
        'm' => Some((PhysicalKey::KeyM, false)),
        'n' => Some((PhysicalKey::KeyN, false)),
        'o' => Some((PhysicalKey::KeyO, false)),
        'p' => Some((PhysicalKey::KeyP, false)),
        'q' => Some((PhysicalKey::KeyQ, false)),
        'r' => Some((PhysicalKey::KeyR, false)),
        's' => Some((PhysicalKey::KeyS, false)),
        't' => Some((PhysicalKey::KeyT, false)),
        'u' => Some((PhysicalKey::KeyU, false)),
        'v' => Some((PhysicalKey::KeyV, false)),
        'w' => Some((PhysicalKey::KeyW, false)),
        'x' => Some((PhysicalKey::KeyX, false)),
        'y' => Some((PhysicalKey::KeyY, false)),
        'z' => Some((PhysicalKey::KeyZ, false)),
        'A' => Some((PhysicalKey::KeyA, true)),
        'B' => Some((PhysicalKey::KeyB, true)),
        'C' => Some((PhysicalKey::KeyC, true)),
        'D' => Some((PhysicalKey::KeyD, true)),
        'E' => Some((PhysicalKey::KeyE, true)),
        'F' => Some((PhysicalKey::KeyF, true)),
        'G' => Some((PhysicalKey::KeyG, true)),
        'H' => Some((PhysicalKey::KeyH, true)),
        'I' => Some((PhysicalKey::KeyI, true)),
        'J' => Some((PhysicalKey::KeyJ, true)),
        'K' => Some((PhysicalKey::KeyK, true)),
        'L' => Some((PhysicalKey::KeyL, true)),
        'M' => Some((PhysicalKey::KeyM, true)),
        'N' => Some((PhysicalKey::KeyN, true)),
        'O' => Some((PhysicalKey::KeyO, true)),
        'P' => Some((PhysicalKey::KeyP, true)),
        'Q' => Some((PhysicalKey::KeyQ, true)),
        'R' => Some((PhysicalKey::KeyR, true)),
        'S' => Some((PhysicalKey::KeyS, true)),
        'T' => Some((PhysicalKey::KeyT, true)),
        'U' => Some((PhysicalKey::KeyU, true)),
        'V' => Some((PhysicalKey::KeyV, true)),
        'W' => Some((PhysicalKey::KeyW, true)),
        'X' => Some((PhysicalKey::KeyX, true)),
        'Y' => Some((PhysicalKey::KeyY, true)),
        'Z' => Some((PhysicalKey::KeyZ, true)),
        _ => None,
    }
}

fn media_key_code(m: MediaKeyCode) -> (r: Option<PhysicalKey>)
    ensures
        r == media_key_code_of(m),
{
    match m {
        MediaKeyCode::Play => Some(PhysicalKey::MediaPlayPause),
        MediaKeyCode::Pause => Some(PhysicalKey::Pause),
        MediaKeyCode::PlayPause => Some(PhysicalKey::MediaPlayPause),
        MediaKeyCode::Reverse => None,
        MediaKeyCode::Stop => Some(PhysicalKey::MediaStop),
        MediaKeyCode::FastForward => Some(PhysicalKey::MediaTrackNext),
        MediaKeyCode::Rewind => Some(PhysicalKey::MediaTrackPrevious),
        MediaKeyCode::TrackNext => Some(PhysicalKey::MediaTrackNext),
        MediaKeyCode::TrackPrevious => Some(PhysicalKey::MediaTrackPrevious),
        MediaKeyCode::Record => None,
        MediaKeyCode::LowerVolume => Some(PhysicalKey::AudioVolumeDown),
        MediaKeyCode::RaiseVolume => Some(PhysicalKey::AudioVolumeUp),
        MediaKeyCode::MuteVolume => Some(PhysicalKey::AudioVolumeMute),
    }
}

fn media_key(m: MediaKeyCode) -> (r: Option<Key>)
    ensures
        r == media_key_of(m),
{
    match m {
        MediaKeyCode::Play => Some(Key::MediaPlay),
        MediaKeyCode::Pause => Some(Key::Pause),
        MediaKeyCode::PlayPause => Some(Key::MediaPlayPause),
        MediaKeyCode::Reverse => None,
        MediaKeyCode::Stop => Some(Key::MediaStop),
        MediaKeyCode::FastForward => Some(Key::MediaFastForward),
        MediaKeyCode::Rewind => Some(Key::MediaRewind),
        MediaKeyCode::TrackNext => Some(Key::MediaTrackNext),
        MediaKeyCode::TrackPrevious => Some(Key::MediaTrackPrevious),
        MediaKeyCode::Record => Some(Key::MediaRecord),
        MediaKeyCode::LowerVolume => Some(Key::AudioVolumeDown),
        MediaKeyCode::RaiseVolume => Some(Key::AudioVolumeUp),
        MediaKeyCode::MuteVolume => Some(Key::AudioVolumeMute),
    }
}

fn modifier_key_code(m: ModifierKeyCode) -> (r: Option<PhysicalKey>)
    ensures
        r == modifier_key_code_of(m),
{
    match m {
        ModifierKeyCode::LeftShift => Some(PhysicalKey::ShiftLeft),
        ModifierKeyCode::LeftControl => Some(PhysicalKey::ControlLeft),
        ModifierKeyCode::LeftAlt => Some(PhysicalKey::AltLeft),
        ModifierKeyCode::LeftSuper => Some(PhysicalKey::SuperLeft),
        ModifierKeyCode::LeftHyper => Some(PhysicalKey::Hyper),
        ModifierKeyCode::LeftMeta => Some(PhysicalKey::Meta),
        ModifierKeyCode::RightShift => Some(PhysicalKey::ShiftRight),
        ModifierKeyCode::RightControl => Some(PhysicalKey::ControlRight),
        ModifierKeyCode::RightAlt => Some(PhysicalKey::AltRight),
        ModifierKeyCode::RightSuper => Some(PhysicalKey::SuperRight),
        ModifierKeyCode::RightHyper => Some(PhysicalKey::Hyper),
        ModifierKeyCode::RightMeta => Some(PhysicalKey::Meta),
        ModifierKeyCode::IsoLevel3Shift => None,
        ModifierKeyCode::IsoLevel5Shift => None,
    }
}

fn modifier_key(m: ModifierKeyCode) -> (r: Option<Key>)
    ensures
        r == modifier_key_of(m),
{
    match m {
        ModifierKeyCode::LeftShift => Some(Key::Shift),
        ModifierKeyCode::LeftControl => Some(Key::Control),
        ModifierKeyCode::LeftAlt => Some(Key::Alt),
        ModifierKeyCode::LeftSuper => Some(Key::Super),
        ModifierKeyCode::LeftHyper => Some(Key::Hyper),
        ModifierKeyCode::LeftMeta => Some(Key::Meta),
        ModifierKeyCode::RightShift => Some(Key::Shift),
        ModifierKeyCode::RightControl => Some(Key::Control),
        ModifierKeyCode::RightAlt => Some(Key::Alt),
        ModifierKeyCode::RightSuper => Some(Key::Super),
        ModifierKeyCode::RightHyper => Some(Key::Hyper),
        ModifierKeyCode::RightMeta => Some(Key::Meta),
        ModifierKeyCode::IsoLevel3Shift => Some(Key::AltGraph),
        ModifierKeyCode::IsoLevel5Shift => None,
    }
}

/// The physical key that a terminal key maps to, with the shift flag where a
/// US layout needs shift to type the key's character and also for `-`;
/// `None` where the engine has no such key.
pub fn to_bevy_keycode(key_code: &KeyCode) -> (r: Option<(PhysicalKey, KeyModifiers)>)
    ensures
        r == keycode_of(*key_code),
{
    let mut mods = KeyModifiers::empty();
    let code = match *key_code {
        KeyCode::Backspace => Some(PhysicalKey::Backspace),
        KeyCode::Enter => Some(PhysicalKey::Enter),
        KeyCode::Left => Some(PhysicalKey::ArrowLeft),
        KeyCode::Right => Some(PhysicalKey::ArrowRight),
        KeyCode::Up => Some(PhysicalKey::ArrowUp),
        KeyCode::Down => Some(PhysicalKey::ArrowDown),
        KeyCode::Home => Some(PhysicalKey::Home),
        KeyCode::End => Some(PhysicalKey::End),
        KeyCode::PageUp => Some(PhysicalKey::PageUp),
        KeyCode::PageDown => Some(PhysicalKey::PageDown),
        KeyCode::Tab => Some(PhysicalKey::Tab),
        KeyCode::BackTab => None,
        KeyCode::Delete => Some(PhysicalKey::Delete),
        KeyCode::Insert => Some(PhysicalKey::Insert),
        KeyCode::F(n) => function_key_code(n),
        KeyCode::Char(c) => match char_key_code(c) {
            Some((k, shifted)) => {
                if shifted {
                    mods = mods.union(KeyModifiers::from_bits_retain(SHIFT));
                }
                Some(k)
            },
            None => None,
        },
        KeyCode::Null => None,
        KeyCode::Esc => Some(PhysicalKey::Escape),
        KeyCode::CapsLock => Some(PhysicalKey::CapsLock),
        KeyCode::ScrollLock => Some(PhysicalKey::ScrollLock),
        KeyCode::NumLock => Some(PhysicalKey::NumLock),
        KeyCode::PrintScreen => Some(PhysicalKey::PrintScreen),
        KeyCode::Pause => Some(PhysicalKey::Pause),
        KeyCode::Menu => Some(PhysicalKey::ContextMenu),
        KeyCode::KeypadBegin => None,
        KeyCode::Media(m) => media_key_code(m),
        KeyCode::Modifier(m) => modifier_key_code(m),
    };
    proof {
        assert(0u8 | 1u8 == 1u8) by (bit_vector);
    }
    match code {
        Some(k) => Some((k, mods)),
        None => None,
    }
}

/// The logical key that a terminal key maps to: the character itself for a
/// character key; `None` where the engine has no such key.
pub fn to_bevy_key(key_code: &KeyCode) -> (r: Option<Key>)
    ensures
        r == key_of(*key_code),
{
    match *key_code {
        KeyCode::Backspace => Some(Key::Backspace),
        KeyCode::Enter => Some(Key::Enter),
        KeyCode::Left => Some(Key::ArrowLeft),
        KeyCode::Right => Some(Key::ArrowRight),
        KeyCode::Up => Some(Key::ArrowUp),
        KeyCode::Down => Some(Key::ArrowDown),
        KeyCode::Home => Some(Key::Home),
        KeyCode::End => Some(Key::End),
        KeyCode::PageUp => Some(Key::PageUp),
        KeyCode::PageDown => Some(Key::PageDown),
        KeyCode::Tab => Some(Key::Tab),
        KeyCode::BackTab => None,
        KeyCode::Delete => Some(Key::Delete),
        KeyCode::Insert => Some(Key::Insert),
        KeyCode::F(n) => function_key(n),
        KeyCode::Char(c) => Some(Key::Character(c)),
        KeyCode::Null => None,
        KeyCode::Esc => Some(Key::Escape),
        KeyCode::CapsLock => Some(Key::CapsLock),
        KeyCode::ScrollLock => Some(Key::ScrollLock),
        KeyCode::NumLock => Some(Key::NumLock),
        KeyCode::PrintScreen => Some(Key::PrintScreen),
        KeyCode::Pause => Some(Key::Pause),
        KeyCode::Menu => Some(Key::ContextMenu),
        KeyCode::KeypadBegin => None,
        KeyCode::Media(m) => media_key(m),
        KeyCode::Modifier(m) => modifier_key(m),
    }
}

} // verus!
