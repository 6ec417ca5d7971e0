use bevy::ecs::entity::Entity;
use bevy_term_keys::bevy_event::{
    can_send_key_event, crossterm_modifier_to_bevy_key, key_event_to_bevy, modifier_to_bevy,
    send_key_event, send_key_events, Modifiers,
};
use bevy_term_keys::input::{ButtonState, Key, KeyCode as PhysicalKey, KeyboardInput};
use bevy_term_keys::terminal::{
    KeyCode, KeyEvent, KeyEventKind, KeyModifiers, ModifierKeyCode, ALT, CONTROL, HYPER, META,
    SHIFT, SUPER,
};

fn window() -> Entity {
    Entity::from_raw(3)
}

fn event(code: KeyCode, bits: u8, kind: KeyEventKind) -> KeyEvent {
    KeyEvent { code, modifiers: KeyModifiers::from_bits_retain(bits), kind }
}

fn input(key_code: PhysicalKey, logical_key: Key, state: ButtonState) -> KeyboardInput {
    KeyboardInput { key_code, logical_key, state, window: window() }
}

/// The flags an engine holds after following the modifier key events in `inputs`.
fn follow(mut bits: u8, inputs: &[KeyboardInput]) -> u8 {
    for i in inputs {
        let flag = match i.logical_key {
            Key::Shift => SHIFT,
            Key::Control => CONTROL,
            Key::Alt => ALT,
            Key::Super => SUPER,
            Key::Hyper => HYPER,
            Key::Meta => META,
            _ => continue,
        };
        match i.state {
            ButtonState::Pressed => bits |= flag,
            ButtonState::Released => bits &= !flag,
        }
    }
    bits
}

#[test]
fn key_event_conversion_and_state() {
    let press = event(KeyCode::Char('x'), CONTROL, KeyEventKind::Press);
    assert_eq!(
        key_event_to_bevy(&press, window()),
        Some((
            input(PhysicalKey::KeyX, Key::Character('x'), ButtonState::Pressed),
            KeyModifiers::from_bits_retain(CONTROL)
        ))
    );
    let release = event(KeyCode::Enter, 0, KeyEventKind::Release);
    assert_eq!(
        key_event_to_bevy(&release, window()),
        Some((input(PhysicalKey::Enter, Key::Enter, ButtonState::Released), KeyModifiers::empty()))
    );
    let upper = event(KeyCode::Char('X'), ALT, KeyEventKind::Press);
    assert_eq!(
        key_event_to_bevy(&upper, window()).unwrap().1,
        KeyModifiers::from_bits_retain(ALT | SHIFT)
    );
    assert_eq!(key_event_to_bevy(&event(KeyCode::BackTab, SHIFT, KeyEventKind::Press), window()), None);
}

#[test]
fn repeat_is_converted_like_press() {
    for code in [KeyCode::Char('k'), KeyCode::Tab, KeyCode::F(5), KeyCode::Char('~')] {
        assert_eq!(
            key_event_to_bevy(&event(code, SHIFT, KeyEventKind::Repeat), window()),
            key_event_to_bevy(&event(code, SHIFT, KeyEventKind::Press), window())
        );
    }
}

#[test]
fn each_flag_has_its_modifier_key() {
    let expected = [
        (SHIFT, Key::Shift, PhysicalKey::ShiftLeft),
        (CONTROL, Key::Control, PhysicalKey::ControlLeft),
        (ALT, Key::Alt, PhysicalKey::AltLeft),
        (SUPER, Key::Super, PhysicalKey::SuperLeft),
        (HYPER, Key::Hyper, PhysicalKey::Hyper),
        (META, Key::Meta, PhysicalKey::Meta),
    ];
    for (bits, key, code) in expected {
        let k = crossterm_modifier_to_bevy_key(KeyModifiers::from_bits_retain(bits));
        assert_eq!(k, key);
        assert_eq!(modifier_to_bevy(k, ButtonState::Released, window()), input(code, key, ButtonState::Released));
    }
}

#[test]
fn left_modifier_keys_look_like_synthesized_ones() {
    for (m, flag) in [
        (ModifierKeyCode::LeftShift, SHIFT),
        (ModifierKeyCode::LeftControl, CONTROL),
        (ModifierKeyCode::LeftAlt, ALT),
        (ModifierKeyCode::LeftSuper, SUPER),
        (ModifierKeyCode::LeftHyper, HYPER),
        (ModifierKeyCode::LeftMeta, META),
    ] {
        let (real, _) = key_event_to_bevy(&event(KeyCode::Modifier(m), 0, KeyEventKind::Press), window()).unwrap();
        let made = modifier_to_bevy(crossterm_modifier_to_bevy_key(KeyModifiers::from_bits_retain(flag)), ButtonState::Pressed, window());
        assert_eq!(real, made);
    }
}

#[test]
fn default_modifiers_are_empty() {
    let m = Modifiers::default();
    assert!(m.0.is_empty());
}

#[test]
fn shifted_character_presses_shift_first() {
    let mut mods = Modifiers::default();
    let mut out = Vec::new();
    send_key_event(&mut mods, &event(KeyCode::Char('A'), 0, KeyEventKind::Press), window(), &mut out);
    assert_eq!(
        out,
        vec![
            input(PhysicalKey::ShiftLeft, Key::Shift, ButtonState::Pressed),
            input(PhysicalKey::KeyA, Key::Character('A'), ButtonState::Pressed),
        ]
    );
    assert_eq!(mods.0.bits(), SHIFT);
    out.clear();
    send_key_event(&mut mods, &event(KeyCode::Char('a'), 0, KeyEventKind::Press), window(), &mut out);
    assert_eq!(
        out,
        vec![
            input(PhysicalKey::ShiftLeft, Key::Shift, ButtonState::Released),
            input(PhysicalKey::KeyA, Key::Character('a'), ButtonState::Pressed),
        ]
    );
    assert_eq!(mods.0.bits(), 0);
}

#[test]
fn changed_flags_are_reported_in_flag_order() {
    let mut mods = Modifiers(KeyModifiers::from_bits_retain(SHIFT | META));
    let mut out = Vec::new();
    send_key_event(&mut mods, &event(KeyCode::Up, CONTROL | META | HYPER, KeyEventKind::Press), window(), &mut out);
    assert_eq!(
        out,
        vec![
            input(PhysicalKey::ShiftLeft, Key::Shift, ButtonState::Released),
            input(PhysicalKey::ControlLeft, Key::Control, ButtonState::Pressed),
            input(PhysicalKey::Hyper, Key::Hyper, ButtonState::Pressed),
            input(PhysicalKey::ArrowUp, Key::ArrowUp, ButtonState::Pressed),
        ]
    );
    assert_eq!(mods.0.bits(), CONTROL | META | HYPER);
}

#[test]
fn unconverted_events_change_nothing() {
    let mut mods = Modifiers(KeyModifiers::from_bits_retain(ALT));
    let mut out = Vec::new();
    send_key_event(&mut mods, &event(KeyCode::Null, CONTROL, KeyEventKind::Press), window(), &mut out);
    send_key_event(&mut mods, &event(KeyCode::Char('é'), CONTROL, KeyEventKind::Press), window(), &mut out);
    assert!(out.is_empty());
    assert_eq!(mods.0.bits(), ALT);
}

#[test]
fn repeated_event_sends_only_itself() {
    let mut mods = Modifiers::default();
    let ev = event(KeyCode::Char('?'), CONTROL, KeyEventKind::Press);
    let first = send_key_events(&mut mods, &[ev], window());
    assert_eq!(first.len(), 3);
    let second = send_key_events(&mut mods, &[ev], window());
    assert_eq!(second, vec![input(PhysicalKey::Slash, Key::Character('?'), ButtonState::Pressed)]);
}

#[test]
fn engine_following_modifier_events_stays_in_step() {
    let codes = [KeyCode::Char('A'), KeyCode::Char('b'), KeyCode::Left, KeyCode::Null, KeyCode::Char('%'), KeyCode::F(3)];
    let mut mods = Modifiers::default();
    let mut engine = 0u8;
    for (i, code) in codes.iter().enumerate() {
        for bits in [0u8, SHIFT, CONTROL | ALT, SUPER | HYPER | META, 0x3f] {
            let ev = event(*code, bits, if i % 2 == 0 { KeyEventKind::Press } else { KeyEventKind::Release });
            let mut out = Vec::new();
            send_key_event(&mut mods, &ev, window(), &mut out);
            if let Some((last, rest)) = out.split_last() {
                assert_eq!(*last, key_event_to_bevy(&ev, window()).unwrap().0);
                engine = follow(engine, rest);
            }
            assert_eq!(engine, mods.0.bits());
        }
    }
}

#[test]
fn batch_equals_one_by_one() {
    let evs = [
        event(KeyCode::Char('H'), 0, KeyEventKind::Press),
        event(KeyCode::Char('i'), 0, KeyEventKind::Press),
        event(KeyCode::Char('!'), ALT, KeyEventKind::Press),
        event(KeyCode::Esc, 0, KeyEventKind::Release),
    ];
    let mut a = Modifiers::default();
    let batch = send_key_events(&mut a, &evs, window());
    let mut b = Modifiers::default();
    let mut single = Vec::new();
    for ev in &evs {
        send_key_event(&mut b, ev, window(), &mut single);
    }
    assert_eq!(batch, single);
    assert_eq!(a.0, b.0);
    assert_eq!(batch.len(), 2 + 2 + 3 + 3);
}

#[test]
fn unnamed_bits_are_refused_only_when_they_change() {
    let mods = Modifiers::default();
    assert!(!can_send_key_event(&mods, &event(KeyCode::Char('a'), 0x40, KeyEventKind::Press)));
    assert!(can_send_key_event(&mods, &event(KeyCode::Null, 0x40, KeyEventKind::Press)));
    let held = Modifiers(KeyModifiers::from_bits_retain(0x41));
    assert!(can_send_key_event(&held, &event(KeyCode::Char('b'), 0x40, KeyEventKind::Press)));
    assert!(can_send_key_event(&mods, &event(KeyCode::Char('b'), 0x3f, KeyEventKind::Press)));
}

#[test]
fn batch_records_last_converted_flags() {
    let evs = [
        event(KeyCode::Char('x'), CONTROL, KeyEventKind::Press),
        event(KeyCode::Char('Y'), ALT, KeyEventKind::Press),
        event(KeyCode::Null, META, KeyEventKind::Press),
        event(KeyCode::BackTab, SUPER, KeyEventKind::Press),
    ];
    let mut mods = Modifiers::default();
    send_key_events(&mut mods, &evs, window());
    assert_eq!(mods.0.bits(), ALT | SHIFT);
    let mut untouched = Modifiers(KeyModifiers::from_bits_retain(HYPER));
    let sent = send_key_events(&mut untouched, &evs[2..], window());
    assert!(sent.is_empty());
    assert_eq!(untouched.0.bits(), HYPER);
}

#[test]
fn modifier_events_alternate_across_calls() {
    let batches: Vec<Vec<KeyEvent>> = vec![
        vec![
            event(KeyCode::Char('A'), CONTROL, KeyEventKind::Press),
            event(KeyCode::Char('a'), 0, KeyEventKind::Release),
        ],
        vec![event(KeyCode::Null, META, KeyEventKind::Press)],
        vec![
            event(KeyCode::Modifier(ModifierKeyCode::LeftShift), SHIFT, KeyEventKind::Press),
            event(KeyCode::Char('}'), ALT | HYPER, KeyEventKind::Repeat),
            event(KeyCode::F(2), ALT | SUPER | META, KeyEventKind::Press),
        ],
        vec![event(KeyCode::BackTab, CONTROL, KeyEventKind::Press)],
    ];
    let mut mods = Modifiers::default();
    let mut held = [false; 6];
    let flags = [SHIFT, CONTROL, ALT, SUPER, HYPER, META];
    let keys = [Key::Shift, Key::Control, Key::Alt, Key::Super, Key::Hyper, Key::Meta];
    let mut last_converted = 0u8;
    for batch in &batches {
        for ev in batch {
            let mut out = Vec::new();
            send_key_event(&mut mods, ev, window(), &mut out);
            if let Some((_, m)) = key_event_to_bevy(ev, window()) {
                last_converted = m.bits();
            }
            if let Some((_, synthesized)) = out.split_last() {
                for e in synthesized {
                    let i = keys.iter().position(|k| *k == e.logical_key).unwrap();
                    let expected = if held[i] { ButtonState::Released } else { ButtonState::Pressed };
                    assert_eq!(e.state, expected);
                    held[i] = !held[i];
                }
            }
        }
        assert_eq!(mods.0.bits(), last_converted);
        for i in 0..6 {
            assert_eq!(held[i], mods.0.bits() & flags[i] != 0);
        }
    }
    assert_eq!(mods.0.bits(), ALT | SUPER | META);
}
