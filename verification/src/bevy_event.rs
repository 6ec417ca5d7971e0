//! Terminal key events turned into engine keyboard input. The engine learns
//! which modifiers are held only from key events of its own, so whenever the
//! modifier flags of a terminal event differ from the last ones passed on,
//! one press or release of the matching modifier key is sent per changed
//! flag before the event itself.
use vstd::prelude::*;
use bevy::ecs::entity::Entity;
use crate::input::{ButtonState, Key, KeyCode as PhysicalKey, KeyboardInput};
use crate::keycode::{key_of, keycode_of, to_bevy_key, to_bevy_keycode};
use crate::terminal::{
    is_flag, named_flags, KeyEvent, KeyEventKind, KeyModifiers, ALT, CONTROL, HYPER,
    META, SHIFT, SUPER, UNNAMED_BITS,
};

verus! {

/// The button state that a terminal event kind stands for: a repeat is
/// passed on as another press.
pub open spec fn button_state_of(kind: KeyEventKind) -> ButtonState {
    match kind {
        KeyEventKind::Press => ButtonState::Pressed,
        KeyEventKind::Repeat => ButtonState::Pressed,
        KeyEventKind::Release => ButtonState::Released,
    }
}

/// The engine event for a terminal event, with the modifier flags that it
/// carries (the event's own flags and shift where the character needs it);
/// `None` where the engine has no key for it.
pub open spec fn key_event_of(event: KeyEvent, window: Entity) -> Option<
    (KeyboardInput, KeyModifiers),
> {
    match (keycode_of(event.code), key_of(event.code)) {
        (Some((key_code, extra)), Some(logical_key)) => Some(
            (
                KeyboardInput {
                    key_code,
                    logical_key,
                    state: button_state_of(event.kind),
                    window,
                },
                KeyModifiers { bits: event.modifiers.bits | extra.bits },
            ),
        ),
        _ => None,
    }
}

/// Converts a terminal key event into an engine event and the modifier
/// flags held with it.
pub fn key_event_to_bevy(key_event: &KeyEvent, window: Entity) -> (r: Option<
    (KeyboardInput, KeyModifiers),
>)
    ensures
        r == key_event_of(*key_event, window),
{
    let state = match key_event.kind {
        KeyEventKind::Press => ButtonState::Pressed,
        KeyEventKind::Repeat => ButtonState::Pressed,
        KeyEventKind::Release => ButtonState::Released,
    };
    let key_code = to_bevy_keycode(&key_event.code);
    let logical_key = to_bevy_key(&key_event.code);
    match (key_code, logical_key) {
        (Some((key_code, mods)), Some(logical_key)) => Some(
            (
                KeyboardInput { key_code, state, window, logical_key },
                key_event.modifiers.union(mods),
            ),
        ),
        _ => None,
    }
}

/// The physical key that a modifier's logical key is sent with: the
/// left-hand key where there are two; `None` for keys that are no modifier.
pub open spec fn modifier_key_code_for(modifier: Key) -> Option<PhysicalKey> {
    match modifier {
        Key::Control => Some(PhysicalKey::ControlLeft),
        Key::Shift => Some(PhysicalKey::ShiftLeft),
        Key::Alt => Some(PhysicalKey::AltLeft),
        Key::Hyper => Some(PhysicalKey::Hyper),
        Key::Meta => Some(PhysicalKey::Meta),
        Key::Super => Some(PhysicalKey::SuperLeft),
        _ => None,
    }
}

/// The engine event for a modifier key going down or up.
pub open spec fn modifier_input_of(modifier: Key, state: ButtonState, window: Entity) -> KeyboardInput {
    KeyboardInput {
        key_code: modifier_key_code_for(modifier).unwrap(),
        state,
        window,
        logical_key: modifier,
    }
}

/// Builds the engine event for a modifier key going down or up.
pub fn modifier_to_bevy(modifier: Key, state: ButtonState, window: Entity) -> (r: KeyboardInput)
    requires
        modifier_key_code_for(modifier) is Some,
    ensures
        r == modifier_input_of(modifier, state, window),
{
    let key_code = match modifier {
        Key::Control => PhysicalKey::ControlLeft,
        Key::Shift => PhysicalKey::ShiftLeft,
        Key::Alt => PhysicalKey::AltLeft,
        Key::Hyper => PhysicalKey::Hyper,
        Key::Meta => PhysicalKey::Meta,
        _ => PhysicalKey::SuperLeft,
    };
    let logical_key = modifier;
    KeyboardInput { key_code, state, window, logical_key }
}

/// The logical modifier key of a single modifier flag.
pub open spec fn flag_key(bits: u8) -> Key {
    if bits == SHIFT {
        Key::Shift
    } else if bits == CONTROL {
        Key::Control
    } else if bits == ALT {
        Key::Alt
    } else if bits == SUPER {
        Key::Super
    } else if bits == HYPER {
        Key::Hyper
    } else {
        Key::Meta
    }
}

/// The logical modifier key of a set that holds exactly one named flag.
pub fn crossterm_modifier_to_bevy_key(modifier: KeyModifiers) -> (r: Key)
    requires
        is_flag(modifier.bits),
    ensures
        r == flag_key(modifier.bits),
{
    let bits: u8 = modifier.bits();
    if bits == SHIFT {
        Key::Shift
    } else if bits == CONTROL {
        Key::Control
    } else if bits == ALT {
        Key::Alt
    } else if bits == SUPER {
        Key::Super
    } else if bits == HYPER {
        Key::Hyper
    } else {
        Key::Meta
    }
}

/// The modifier flags that the engine was last told about.
pub struct Modifiers(pub KeyModifiers);

impl Default for Modifiers {
    /// No modifier held.
    fn default() -> (r: Self)
        ensures
            r.0.bits == 0,
    {
        Modifiers(KeyModifiers::empty())
    }
}

/// Pressed when `flag` is among the flags `held`, else released.
pub open spec fn pressed_if_held(held: KeyModifiers, flag: KeyModifiers) -> ButtonState {
    if held.bits & flag.bits == flag.bits {
        ButtonState::Pressed
    } else {
        ButtonState::Released
    }
}

/// The engine event that reports one modifier flag going to its state in
/// `held`.
pub open spec fn flag_input_of(flag: KeyModifiers, held: KeyModifiers, window: Entity) -> KeyboardInput {
    modifier_input_of(flag_key(flag.bits), pressed_if_held(held, flag), window)
}

/// The modifier events that take the engine from the flags `old` to the flags
/// `new`: one per named flag that differs, in flag order, a press where `new`
/// holds the flag and a release where it does not.
pub open spec fn modifier_events(old: KeyModifiers, new: KeyModifiers, window: Entity) -> Seq<
    KeyboardInput,
> {
    flag_inputs(named_flags(new.bits ^ old.bits), new, window)
}

/// The engine events reporting each of `flags`, in order, going to its state
/// in `held`.
pub open spec fn flag_inputs(flags: Seq<KeyModifiers>, held: KeyModifiers, window: Entity) -> Seq<
    KeyboardInput,
> {
    flags.map_values(|f: KeyModifiers| flag_input_of(f, held, window))
}

/// What one terminal event does, from the flags last passed on: the flags
/// passed on afterwards, and the engine events sent, in order. An event the
/// engine has no key for changes nothing and sends nothing; any other sends
/// the modifier events for the changed flags, then the event itself.
pub open spec fn step(state: KeyModifiers, event: KeyEvent, window: Entity) -> (
    KeyModifiers,
    Seq<KeyboardInput>,
) {
    match key_event_of(event, window) {
        Some((input, mods)) => (mods, modifier_events(state, mods, window).push(input)),
        None => (state, seq![]),
    }
}

/// The flags of a converted event differ from `state` in named flags only:
/// a change in bits that no flag names has no modifier key to report it.
pub open spec fn step_ok(state: KeyModifiers, event: KeyEvent) -> bool {
    match keycode_of(event.code) {
        Some((_, extra)) => ((event.modifiers.bits | extra.bits) ^ state.bits) & UNNAMED_BITS == 0,
        None => true,
    }
}

/// Whether `send_key_event` can pass `key_event` on from `modifiers`: false
/// exactly when the event is converted and its flags differ from the ones
/// last passed on in a bit that no flag names.
pub fn can_send_key_event(modifiers: &Modifiers, key_event: &KeyEvent) -> (r: bool)
    ensures
        r == step_ok(modifiers.0, *key_event),
{
    match to_bevy_keycode(&key_event.code) {
        Some((_, extra)) => {
            let mods = key_event.modifiers.union(extra);
            mods.symmetric_difference(modifiers.0).bits() & UNNAMED_BITS == 0
        },
        None => true,
    }
}

/// Every set listed by `named_flags` holds exactly one named flag.
pub(crate) proof fn lemma_named_flags_are_flags(bits: u8)
    ensures
        forall|i: int|
            0 <= i < named_flags(bits).len() ==> is_flag(#[trigger] named_flags(bits)[i].bits),
{
    let a = crate::terminal::flag_if_set(bits, SHIFT);
    let b = crate::terminal::flag_if_set(bits, CONTROL);
    let c = crate::terminal::flag_if_set(bits, ALT);
    let d = crate::terminal::flag_if_set(bits, SUPER);
    let e = crate::terminal::flag_if_set(bits, HYPER);
    let f = crate::terminal::flag_if_set(bits, META);
    lemma_concat_flags(a, b);
    lemma_concat_flags(a + b, c);
    lemma_concat_flags(a + b + c, d);
    lemma_concat_flags(a + b + c + d, e);
    lemma_concat_flags(a + b + c + d + e, f);
}

/// Two lists of single flags concatenate to a list of single flags.
proof fn lemma_concat_flags(a: Seq<KeyModifiers>, b: Seq<KeyModifiers>)
    requires
        forall|i: int| 0 <= i < a.len() ==> is_flag(#[trigger] a[i].bits),
        forall|i: int| 0 <= i < b.len() ==> is_flag(#[trigger] b[i].bits),
    ensures
        forall|i: int| 0 <= i < (a + b).len() ==> is_flag(#[trigger] (a + b)[i].bits),
{
    assert forall|i: int| 0 <= i < (a + b).len() implies is_flag(#[trigger] (a + b)[i].bits) by {
        if i < a.len() {
            assert((a + b)[i] == a[i]);
        } else {
            assert((a + b)[i] == b[i - a.len()]);
        }
    }
}

/// A set that differs from another in no bit lists no flag.
proof fn lemma_no_change_no_flags(bits: u8)
    ensures
        named_flags(bits ^ bits) =~= Seq::<KeyModifiers>::empty(),
{
    assert(bits ^ bits == 0) by (bit_vector);
    assert(0u8 & 0x01u8 == 0 && 0u8 & 0x02u8 == 0 && 0u8 & 0x04u8 == 0 && 0u8 & 0x08u8 == 0
        && 0u8 & 0x10u8 == 0 && 0u8 & 0x20u8 == 0) by (bit_vector);
}

/// Every modifier flag has a modifier key that the engine can be sent.
pub proof fn law_flag_keys_are_modifier_keys(bits: u8)
    requires
        is_flag(bits),
    ensures
        modifier_key_code_for(flag_key(bits)) is Some,
{
}

/// Passes one terminal event on to the engine: appends to `out` the
/// modifier events for the flags that changed since the last event, then the
/// event itself, and records its flags as the ones last passed on. An event
/// the engine has no key for is dropped.
pub fn send_key_event(
    modifiers: &mut Modifiers,
    key_event: &KeyEvent,
    window: Entity,
    out: &mut Vec<KeyboardInput>,
)
    requires
        step_ok(old(modifiers).0, *key_event),
    ensures
        final(modifiers).0 == step(old(modifiers).0, *key_event, window).0,
        final(out)@ == old(out)@ + step(old(modifiers).0, *key_event, window).1,
{
    let ghost out0 = out@;
    let ghost state0 = modifiers.0;
    match key_event_to_bevy(key_event, window) {
        Some((bevy_event, mods)) => {
            if mods != modifiers.0 {
                let delta = mods.symmetric_difference(modifiers.0);
                let flags = delta.iter();
                proof {
                    let d: u8 = delta.bits;
                    assert(d & UNNAMED_BITS == 0);
                    assert(flags@ =~= named_flags(d));
                    lemma_named_flags_are_flags(d);
                }
                let ghost g = |f: KeyModifiers| flag_input_of(f, mods, window);
                let mut i: usize = 0;
                while i < flags.len()
                    invariant
                        0 <= i <= flags.len(),
                        flags@ == named_flags(delta.bits),
                        forall|j: int| 0 <= j < flags@.len() ==> is_flag(#[trigger] flags@[j].bits),
                        out@ == out0 + flags@.take(i as int).map_values(g),
                        g == (|f: KeyModifiers| flag_input_of(f, mods, window)),
                    decreases flags.len() - i,
                {
                    let flag = flags[i];
                    let state = if mods.contains(flag) {
                        ButtonState::Pressed
                    } else {
                        ButtonState::Released
                    };
                    proof {
                        law_flag_keys_are_modifier_keys(flag.bits);
                    }
                    out.push(
                        modifier_to_bevy(crossterm_modifier_to_bevy_key(flag), state, window),
                    );
                    assert(flags@.take(i + 1).map_values(g) =~= flags@.take(i as int).map_values(
                        g,
                    ).push(g(flag)));
                    i = i + 1;
                }
                assert(flags@.take(i as int) =~= flags@);
                modifiers.0 = mods;
            } else {
                proof {
                    lemma_no_change_no_flags(mods.bits);
                }
                assert(modifier_events(state0, mods, window) =~= Seq::<KeyboardInput>::empty());
            }
            out.push(bevy_event);
            assert(out@ =~= out0 + step(state0, *key_event, window).1);
        },
        None => {
            assert(out@ =~= out0 + step(state0, *key_event, window).1);
        },
    }
}

/// What a sequence of terminal events does, taken in order from the flags
/// `state`: the flags passed on at the end, and all engine events sent.
pub open spec fn run(state: KeyModifiers, events: Seq<KeyEvent>, window: Entity) -> (
    KeyModifiers,
    Seq<KeyboardInput>,
)
    decreases events.len(),
{
    if events.len() == 0 {
        (state, seq![])
    } else {
        let (mid, sent) = run(state, events.drop_last(), window);
        let (last, more) = step(mid, events.last(), window);
        (last, sent + more)
    }
}

/// Every event of the sequence satisfies `step_ok` from the flags passed on
/// before it.
pub open spec fn run_ok(state: KeyModifiers, events: Seq<KeyEvent>, window: Entity) -> bool
    decreases events.len(),
{
    events.len() == 0 || (run_ok(state, events.drop_last(), window) && step_ok(
        run(state, events.drop_last(), window).0,
        events.last(),
    ))
}

/// `run_ok` of a sequence holds of each of its prefixes.
proof fn lemma_run_ok_prefix(state: KeyModifiers, events: Seq<KeyEvent>, window: Entity, k: int)
    requires
        run_ok(state, events, window),
        0 <= k <= events.len(),
    ensures
        run_ok(state, events.take(k), window),
    decreases events.len(),
{
    if k < events.len() {
        lemma_run_ok_prefix(state, events.drop_last(), window, k);
        assert(events.drop_last().take(k) =~= events.take(k));
    } else {
        assert(events.take(k) =~= events);
    }
}

/// Passes a batch of terminal events on to the engine, in order, and returns
/// the engine events sent.
pub fn send_key_events(modifiers: &mut Modifiers, keys: &[KeyEvent], window: Entity) -> (r: Vec<
    KeyboardInput,
>)
    requires
        run_ok(old(modifiers).0, keys@, window),
    ensures
        final(modifiers).0 == run(old(modifiers).0, keys@, window).0,
        r@ == run(old(modifiers).0, keys@, window).1,
{
    let ghost state0 = modifiers.0;
    let mut out: Vec<KeyboardInput> = Vec::new();
    let mut i: usize = 0;
    assert(keys@.take(0) =~= Seq::<KeyEvent>::empty());
    while i < keys.len()
        invariant
            0 <= i <= keys.len(),
            run_ok(state0, keys@, window),
            modifiers.0 == run(state0, keys@.take(i as int), window).0,
            out@ == run(state0, keys@.take(i as int), window).1,
        decreases keys.len() - i,
    {
        proof {
            lemma_run_ok_prefix(state0, keys@, window, i + 1);
            assert(keys@.take(i + 1).drop_last() =~= keys@.take(i as int));
            assert(keys@.take(i + 1).last() == keys@[i as int]);
        }
        send_key_event(modifiers, &keys[i], window, &mut out);
        i = i + 1;
    }
    assert(keys@.take(i as int) =~= keys@);
    out
}

} // verus!
