use bevy_term_keys::input::{Key, KeyCode as PhysicalKey};
use bevy_term_keys::keycode::{to_bevy_key, to_bevy_keycode};
use bevy_term_keys::terminal::{KeyCode, KeyModifiers, MediaKeyCode, ModifierKeyCode, SHIFT};

fn plain(k: PhysicalKey) -> Option<(PhysicalKey, KeyModifiers)> {
    Some((k, KeyModifiers::empty()))
}

fn shifted(k: PhysicalKey) -> Option<(PhysicalKey, KeyModifiers)> {
    Some((k, KeyModifiers::from_bits_retain(SHIFT)))
}

#[test]
fn named_keys_map_to_their_engine_keys() {
    assert_eq!(to_bevy_keycode(&KeyCode::Backspace), plain(PhysicalKey::Backspace));
    assert_eq!(to_bevy_keycode(&KeyCode::Left), plain(PhysicalKey::ArrowLeft));
    assert_eq!(to_bevy_keycode(&KeyCode::Esc), plain(PhysicalKey::Escape));
    assert_eq!(to_bevy_keycode(&KeyCode::Menu), plain(PhysicalKey::ContextMenu));
    assert_eq!(to_bevy_key(&KeyCode::Left), Some(Key::ArrowLeft));
    assert_eq!(to_bevy_key(&KeyCode::Esc), Some(Key::Escape));
    assert_eq!(to_bevy_key(&KeyCode::Menu), Some(Key::ContextMenu));
}

#[test]
fn keys_without_engine_key_map_to_none() {
    for code in [KeyCode::BackTab, KeyCode::Null, KeyCode::KeypadBegin] {
        assert_eq!(to_bevy_keycode(&code), None);
        assert_eq!(to_bevy_key(&code), None);
    }
}

#[test]
fn function_keys_skip_twenty_one_to_thirty() {
    assert_eq!(to_bevy_keycode(&KeyCode::F(1)), plain(PhysicalKey::F1));
    assert_eq!(to_bevy_keycode(&KeyCode::F(20)), plain(PhysicalKey::F20));
    assert_eq!(to_bevy_keycode(&KeyCode::F(31)), plain(PhysicalKey::F31));
    assert_eq!(to_bevy_keycode(&KeyCode::F(35)), plain(PhysicalKey::F35));
    assert_eq!(to_bevy_key(&KeyCode::F(12)), Some(Key::F12));
    for n in [0u8, 21, 25, 30, 36, 255] {
        assert_eq!(to_bevy_keycode(&KeyCode::F(n)), None);
        assert_eq!(to_bevy_key(&KeyCode::F(n)), None);
    }
}

#[test]
fn letters_and_digits() {
    assert_eq!(to_bevy_keycode(&KeyCode::Char('a')), plain(PhysicalKey::KeyA));
    assert_eq!(to_bevy_keycode(&KeyCode::Char('q')), plain(PhysicalKey::KeyQ));
    assert_eq!(to_bevy_keycode(&KeyCode::Char('Q')), shifted(PhysicalKey::KeyQ));
    assert_eq!(to_bevy_keycode(&KeyCode::Char('Z')), shifted(PhysicalKey::KeyZ));
    assert_eq!(to_bevy_keycode(&KeyCode::Char('0')), plain(PhysicalKey::Digit0));
    assert_eq!(to_bevy_keycode(&KeyCode::Char('7')), plain(PhysicalKey::Digit7));
    assert_eq!(to_bevy_key(&KeyCode::Char('Q')), Some(Key::Character('Q')));
}

#[test]
fn upper_case_letters_are_shifted_lower_case_keys() {
    for lower in 'a'..='z' {
        let upper = lower.to_ascii_uppercase();
        let (lk, lm) = to_bevy_keycode(&KeyCode::Char(lower)).unwrap();
        let (uk, um) = to_bevy_keycode(&KeyCode::Char(upper)).unwrap();
        assert_eq!(lk, uk);
        assert_eq!(lm.bits(), 0);
        assert_eq!(um.bits(), SHIFT);
        assert_eq!(to_bevy_key(&KeyCode::Char(lower)), Some(Key::Character(lower)));
        assert_eq!(to_bevy_key(&KeyCode::Char(upper)), Some(Key::Character(upper)));
    }
}

#[test]
fn punctuation_on_a_us_layout() {
    assert_eq!(to_bevy_keycode(&KeyCode::Char('!')), shifted(PhysicalKey::Digit1));
    assert_eq!(to_bevy_keycode(&KeyCode::Char(')')), shifted(PhysicalKey::Digit0));
    assert_eq!(to_bevy_keycode(&KeyCode::Char('-')), shifted(PhysicalKey::Minus));
    assert_eq!(to_bevy_keycode(&KeyCode::Char('[')), plain(PhysicalKey::BracketLeft));
    assert_eq!(to_bevy_keycode(&KeyCode::Char('}')), shifted(PhysicalKey::BracketRight));
    assert_eq!(to_bevy_keycode(&KeyCode::Char('<')), shifted(PhysicalKey::Comma));
    assert_eq!(to_bevy_keycode(&KeyCode::Char('\'')), plain(PhysicalKey::Quote));
    assert_eq!(to_bevy_keycode(&KeyCode::Char('"')), shifted(PhysicalKey::Quote));
    assert_eq!(to_bevy_keycode(&KeyCode::Char('?')), shifted(PhysicalKey::Slash));
    assert_eq!(to_bevy_keycode(&KeyCode::Char(' ')), plain(PhysicalKey::Space));
}

#[test]
fn characters_without_a_key_still_have_a_logical_key() {
    for c in ['_', '~', '`', '\\', '|', 'é', '€'] {
        assert_eq!(to_bevy_keycode(&KeyCode::Char(c)), None);
        assert_eq!(to_bevy_key(&KeyCode::Char(c)), Some(Key::Character(c)));
    }
}

#[test]
fn media_keys() {
    assert_eq!(to_bevy_keycode(&KeyCode::Media(MediaKeyCode::Play)), plain(PhysicalKey::MediaPlayPause));
    assert_eq!(to_bevy_key(&KeyCode::Media(MediaKeyCode::Play)), Some(Key::MediaPlay));
    assert_eq!(to_bevy_keycode(&KeyCode::Media(MediaKeyCode::FastForward)), plain(PhysicalKey::MediaTrackNext));
    assert_eq!(to_bevy_key(&KeyCode::Media(MediaKeyCode::FastForward)), Some(Key::MediaFastForward));
    assert_eq!(to_bevy_keycode(&KeyCode::Media(MediaKeyCode::Record)), None);
    assert_eq!(to_bevy_key(&KeyCode::Media(MediaKeyCode::Record)), Some(Key::MediaRecord));
    assert_eq!(to_bevy_keycode(&KeyCode::Media(MediaKeyCode::Reverse)), None);
    assert_eq!(to_bevy_key(&KeyCode::Media(MediaKeyCode::Reverse)), None);
}

#[test]
fn modifier_keys() {
    assert_eq!(to_bevy_keycode(&KeyCode::Modifier(ModifierKeyCode::RightControl)), plain(PhysicalKey::ControlRight));
    assert_eq!(to_bevy_key(&KeyCode::Modifier(ModifierKeyCode::RightControl)), Some(Key::Control));
    assert_eq!(to_bevy_keycode(&KeyCode::Modifier(ModifierKeyCode::RightHyper)), plain(PhysicalKey::Hyper));
    assert_eq!(to_bevy_keycode(&KeyCode::Modifier(ModifierKeyCode::IsoLevel3Shift)), None);
    assert_eq!(to_bevy_key(&KeyCode::Modifier(ModifierKeyCode::IsoLevel3Shift)), Some(Key::AltGraph));
    assert_eq!(to_bevy_keycode(&KeyCode::Modifier(ModifierKeyCode::IsoLevel5Shift)), None);
    assert_eq!(to_bevy_key(&KeyCode::Modifier(ModifierKeyCode::IsoLevel5Shift)), None);
}

#[test]
fn physical_key_implies_logical_key() {
    let mut codes = vec![
        KeyCode::Backspace, KeyCode::Enter, KeyCode::Left, KeyCode::Right, KeyCode::Up,
        KeyCode::Down, KeyCode::Home, KeyCode::End, KeyCode::PageUp, KeyCode::PageDown,
        KeyCode::Tab, KeyCode::BackTab, KeyCode::Delete, KeyCode::Insert, KeyCode::Null,
        KeyCode::Esc, KeyCode::CapsLock, KeyCode::ScrollLock, KeyCode::NumLock,
        KeyCode::PrintScreen, KeyCode::Pause, KeyCode::Menu, KeyCode::KeypadBegin,
    ];
    for n in 0..=255u8 {
        codes.push(KeyCode::F(n));
    }
    for c in (0u32..0x250).filter_map(char::from_u32) {
        codes.push(KeyCode::Char(c));
    }
    for code in codes {
        if let Some((_, extra)) = to_bevy_keycode(&code) {
            assert!(to_bevy_key(&code).is_some());
            assert!(extra.bits() == 0 || (extra.bits() == SHIFT && matches!(code, KeyCode::Char(_))));
        }
    }
}
