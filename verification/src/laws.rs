//! What holds of the conversion as a whole: which keys are converted, what
//! modifier flags the key mapping adds, and that the modifier events sent
//! keep an engine that follows them in step with the terminal's flags.
use vstd::prelude::*;
use bevy::ecs::entity::Entity;
use crate::bevy_event::{
    flag_input_of, flag_inputs, flag_key, key_event_of, modifier_events, modifier_key_code_for,
    run, step, step_ok,
};
use crate::input::{ButtonState, Key, KeyCode as PhysicalKey, KeyboardInput};
use crate::keycode::{key_of, keycode_of};
use crate::terminal::{
    flag_if_set, is_flag, named_flags, KeyCode, KeyEvent, KeyEventKind, KeyModifiers,
    MediaKeyCode, ModifierKeyCode, ALT, CONTROL, HYPER, META, SHIFT, SUPER, UNNAMED_BITS,
};

verus! {

/// The modifier flag that a logical modifier key stands for.
pub open spec fn key_flag(key: Key) -> Option<u8> {
    match key {
        Key::Shift => Some(SHIFT),
        Key::Control => Some(CONTROL),
        Key::Alt => Some(ALT),
        Key::Super => Some(SUPER),
        Key::Hyper => Some(HYPER),
        Key::Meta => Some(META),
        _ => None,
    }
}

/// The flags an engine holds after one input event, following modifier
/// keys: a press of a modifier key adds its flag, a release removes it, any
/// other key leaves the flags as they are.
pub open spec fn apply_input(bits: u8, input: KeyboardInput) -> u8 {
    match key_flag(input.logical_key) {
        Some(f) => match input.state {
            ButtonState::Pressed => bits | f,
            ButtonState::Released => bits & !f,
        },
        None => bits,
    }
}

/// The flags an engine holds after following `inputs` in order from `bits`.
pub open spec fn replay(bits: u8, inputs: Seq<KeyboardInput>) -> u8
    decreases inputs.len(),
{
    if inputs.len() == 0 {
        bits
    } else {
        replay(apply_input(bits, inputs[0]), inputs.drop_first())
    }
}

/// Following two lists of events is following the first, then the second.
proof fn lemma_replay_concat(bits: u8, a: Seq<KeyboardInput>, b: Seq<KeyboardInput>)
    ensures
        replay(bits, a + b) == replay(replay(bits, a), b),
    decreases a.len(),
{
    if a.len() == 0 {
        assert(a + b =~= b);
    } else {
        assert((a + b)[0] == a[0]);
        assert((a + b).drop_first() =~= a.drop_first() + b);
        lemma_replay_concat(apply_input(bits, a[0]), a.drop_first(), b);
    }
}

/// Reporting two lists of flags is reporting the first, then the second.
proof fn lemma_flag_inputs_concat(
    a: Seq<KeyModifiers>,
    b: Seq<KeyModifiers>,
    held: KeyModifiers,
    window: Entity,
)
    ensures
        flag_inputs(a + b, held, window) =~= flag_inputs(a, held, window) + flag_inputs(
            b,
            held,
            window,
        ),
{
}

/// The flags after following the report of flag `f`, when `d` marks the flags
/// that changed and `n` holds the new ones.
pub open spec fn apply_flag(x: u8, d: u8, n: u8, f: u8) -> u8 {
    if d & f != 0 {
        if n & f == f {
            x | f
        } else {
            x & !f
        }
    } else {
        x
    }
}

/// Following the report of one flag sets that flag to its new state.
proof fn lemma_replay_one_flag(x: u8, d: u8, new: KeyModifiers, f: u8, window: Entity)
    requires
        is_flag(f),
    ensures
        replay(x, flag_inputs(flag_if_set(d, f), new, window)) == apply_flag(x, d, new.bits, f),
{
    let s = flag_inputs(flag_if_set(d, f), new, window);
    if d & f != 0 {
        assert(s.len() == 1);
        assert(s[0] == flag_input_of(KeyModifiers { bits: f }, new, window));
        assert(key_flag(flag_key(f)) == Some(f));
        let y: u8 = apply_input(x, s[0]);
        assert(replay(y, s.drop_first()) == y);
        assert(y == apply_flag(x, d, new.bits, f));
    } else {
        assert(s.len() == 0);
    }
}

/// Setting each changed flag to its new state, flag by flag, gives the new
/// flags when no unnamed bit changed.
proof fn lemma_flag_chain(o: u8, n: u8)
    by (bit_vector)
    requires
        (n ^ o) & 0xc0u8 == 0,
    ensures
        apply_flag(
            apply_flag(
                apply_flag(
                    apply_flag(
                        apply_flag(apply_flag(o, n ^ o, n, 0x01u8), n ^ o, n, 0x02u8),
                        n ^ o,
                        n,
                        0x04u8,
                    ),
                    n ^ o,
                    n,
                    0x08u8,
                ),
                n ^ o,
                n,
                0x10u8,
            ),
            n ^ o,
            n,
            0x20u8,
        ) == n,
{
}

/// An engine that follows the modifier events sent for a change of flags from
/// `old` to `new`, and held `old` before, holds `new` after, provided no
/// unnamed bit changed.
pub proof fn law_modifier_events_restore_flags(old: KeyModifiers, new: KeyModifiers, window: Entity)
    requires
        (new.bits ^ old.bits) & UNNAMED_BITS == 0,
    ensures
        replay(old.bits, modifier_events(old, new, window)) == new.bits,
{
    let d: u8 = new.bits ^ old.bits;
    let o: u8 = old.bits;
    let n: u8 = new.bits;
    let a = flag_if_set(d, SHIFT);
    let b = flag_if_set(d, CONTROL);
    let c = flag_if_set(d, ALT);
    let e = flag_if_set(d, SUPER);
    let h = flag_if_set(d, HYPER);
    let m = flag_if_set(d, META);
    assert(named_flags(d) == a + b + c + e + h + m);
    lemma_flag_inputs_concat(a + b + c + e + h, m, new, window);
    lemma_flag_inputs_concat(a + b + c + e, h, new, window);
    lemma_flag_inputs_concat(a + b + c, e, new, window);
    lemma_flag_inputs_concat(a + b, c, new, window);
    lemma_flag_inputs_concat(a, b, new, window);
    let fa = flag_inputs(a, new, window);
    let fb = flag_inputs(b, new, window);
    let fc = flag_inputs(c, new, window);
    let fe = flag_inputs(e, new, window);
    let fh = flag_inputs(h, new, window);
    let fm = flag_inputs(m, new, window);
    assert(modifier_events(old, new, window) =~= fa + fb + fc + fe + fh + fm);
    lemma_replay_concat(o, fa + fb + fc + fe + fh, fm);
    lemma_replay_concat(o, fa + fb + fc + fe, fh);
    lemma_replay_concat(o, fa + fb + fc, fe);
    lemma_replay_concat(o, fa + fb, fc);
    lemma_replay_concat(o, fa, fb);
    let x1: u8 = replay(o, fa);
    lemma_replay_one_flag(o, d, new, SHIFT, window);
    let x2: u8 = replay(x1, fb);
    lemma_replay_one_flag(x1, d, new, CONTROL, window);
    let x3: u8 = replay(x2, fc);
    lemma_replay_one_flag(x2, d, new, ALT, window);
    let x4: u8 = replay(x3, fe);
    lemma_replay_one_flag(x3, d, new, SUPER, window);
    let x5: u8 = replay(x4, fh);
    lemma_replay_one_flag(x4, d, new, HYPER, window);
    lemma_replay_one_flag(x5, d, new, META, window);
    lemma_flag_chain(o, n);
}

/// The central promise of the conversion: after any terminal event, an
/// engine that follows the modifier events sent holds exactly the flags that
/// are now recorded as passed on. An event the engine has no key for sends
/// nothing and changes nothing; any other is sent last, after its modifier
/// events.
pub proof fn law_step_keeps_engine_in_step(state: KeyModifiers, event: KeyEvent, window: Entity)
    requires
        step_ok(state, event),
    ensures
        key_event_of(event, window) is None ==> step(state, event, window).0 == state && step(
            state,
            event,
            window,
        ).1.len() == 0,
        key_event_of(event, window) matches Some((input, mods)) ==> {
            &&& step(state, event, window).0 == mods
            &&& step(state, event, window).1.len() >= 1
            &&& step(state, event, window).1.last() == input
            &&& replay(state.bits, step(state, event, window).1.drop_last()) == mods.bits
        },
{
    if let Some((input, mods)) = key_event_of(event, window) {
        law_modifier_events_restore_flags(state, mods, window);
        let sent = step(state, event, window).1;
        assert(sent.drop_last() =~= modifier_events(state, mods, window));
    }
}

/// Sending the same terminal event twice in a row sends no modifier event the
/// second time: only the event itself, and the flags stay as they are.
pub proof fn law_repeated_event_sends_no_modifier_events(
    state: KeyModifiers,
    event: KeyEvent,
    window: Entity,
)
    ensures
        key_event_of(event, window) matches Some((input, mods)) ==> {
            let after = step(state, event, window).0;
            &&& step_ok(after, event)
            &&& step(after, event, window).0 == after
            &&& step(after, event, window).1 == seq![input]
        },
{
    if let Some((input, mods)) = key_event_of(event, window) {
        let after = step(state, event, window).0;
        assert(after == mods);
        let b: u8 = mods.bits;
        assert(b ^ b == 0 && (b ^ b) & 0xc0u8 == 0) by (bit_vector);
        assert(0u8 & 0x01u8 == 0 && 0u8 & 0x02u8 == 0 && 0u8 & 0x04u8 == 0 && 0u8 & 0x08u8 == 0
            && 0u8 & 0x10u8 == 0 && 0u8 & 0x20u8 == 0) by (bit_vector);
        assert(modifier_events(after, mods, window) =~= Seq::<KeyboardInput>::empty());
        assert(step(after, event, window).1 =~= seq![input]);
    }
}

/// Every terminal key that has a physical key in the engine also has a
/// logical key, so a terminal event is converted exactly when its key has a
/// physical key.
pub proof fn law_converted_iff_physical_key(event: KeyEvent, window: Entity)
    ensures
        keycode_of(event.code) is Some ==> key_of(event.code) is Some,
        key_event_of(event, window) is Some <==> keycode_of(event.code) is Some,
{
}

/// The key mapping adds no modifier flag but shift, and shift only for
/// characters.
pub proof fn law_key_mapping_adds_only_shift(code: KeyCode)
    ensures
        keycode_of(code) matches Some((_, extra)) ==> {
            &&& extra.bits == 0 || extra.bits == SHIFT
            &&& extra.bits == SHIFT ==> code is Char
        },
{
}

/// An upper-case letter is sent as its lower-case letter's key with shift;
/// the lower-case letter needs no modifier, and each gives its own character
/// as logical key.
pub proof fn law_upper_case_is_shifted_letter(lower: char, upper: char)
    requires
        'a' as int <= lower as int <= 'z' as int,
        upper as int == lower as int - 32,
    ensures
        keycode_of(KeyCode::Char(lower)) is Some,
        keycode_of(KeyCode::Char(lower)).unwrap().1.bits == 0,
        keycode_of(KeyCode::Char(upper)) is Some,
        keycode_of(KeyCode::Char(upper)).unwrap().1.bits == SHIFT,
        keycode_of(KeyCode::Char(upper)).unwrap().0 == keycode_of(KeyCode::Char(lower)).unwrap().0,
        key_of(KeyCode::Char(lower)) == Some(Key::Character(lower)),
        key_of(KeyCode::Char(upper)) == Some(Key::Character(upper)),
{
}

/// A repeat is converted exactly like a press.
pub proof fn law_repeat_is_press(event: KeyEvent, window: Entity)
    ensures
        key_event_of(KeyEvent { kind: KeyEventKind::Repeat, ..event }, window) == key_event_of(
            KeyEvent { kind: KeyEventKind::Press, ..event },
            window,
        ),
{
}

/// Both sides of a modifier give the same logical key, and a modifier event
/// made for that key uses the physical key of the left-hand side.
pub proof fn law_modifier_events_look_like_left_keys(left: ModifierKeyCode, right: ModifierKeyCode)
    requires
        (left == ModifierKeyCode::LeftShift && right == ModifierKeyCode::RightShift) || (left
            == ModifierKeyCode::LeftControl && right == ModifierKeyCode::RightControl) || (left
            == ModifierKeyCode::LeftAlt && right == ModifierKeyCode::RightAlt) || (left
            == ModifierKeyCode::LeftSuper && right == ModifierKeyCode::RightSuper) || (left
            == ModifierKeyCode::LeftHyper && right == ModifierKeyCode::RightHyper) || (left
            == ModifierKeyCode::LeftMeta && right == ModifierKeyCode::RightMeta),
    ensures
        key_of(KeyCode::Modifier(left)) is Some,
        key_of(KeyCode::Modifier(right)) == key_of(KeyCode::Modifier(left)),
        keycode_of(KeyCode::Modifier(left)) is Some,
        modifier_key_code_for(key_of(KeyCode::Modifier(left)).unwrap()) == Some(
            keycode_of(KeyCode::Modifier(left)).unwrap().0,
        ),
{
}

/// Each modifier flag has its own logical key, and that key stands for the
/// flag again.
pub proof fn law_flag_keys_round_trip(a: u8, b: u8)
    requires
        is_flag(a),
        is_flag(b),
    ensures
        key_flag(flag_key(a)) == Some(a),
        flag_key(a) == flag_key(b) ==> a == b,
{
}

/// The flags of the last event in `events` that the engine has a key for, or
/// `state` when there is none.
pub open spec fn last_converted_flags(state: KeyModifiers, events: Seq<KeyEvent>, window: Entity) -> KeyModifiers
    decreases events.len(),
{
    if events.len() == 0 {
        state
    } else {
        match key_event_of(events.last(), window) {
            Some((_, mods)) => mods,
            None => last_converted_flags(state, events.drop_last(), window),
        }
    }
}

/// After a sequence of terminal events, the flags recorded as passed on are
/// those of the last event that was converted, or the starting ones when
/// none was.
pub proof fn law_run_records_last_converted_flags(
    state: KeyModifiers,
    events: Seq<KeyEvent>,
    window: Entity,
)
    ensures
        run(state, events, window).0 == last_converted_flags(state, events, window),
    decreases events.len(),
{
    if events.len() > 0 {
        law_run_records_last_converted_flags(state, events.drop_last(), window);
    }
}

/// What a series of calls does, each passing one batch of terminal events on
/// from the flags the previous call left: the flags recorded at the end, and
/// all engine events sent, call after call.
pub open spec fn run_calls(state: KeyModifiers, calls: Seq<Seq<KeyEvent>>, window: Entity) -> (
    KeyModifiers,
    Seq<KeyboardInput>,
)
    decreases calls.len(),
{
    if calls.len() == 0 {
        (state, seq![])
    } else {
        let (mid, sent) = run_calls(state, calls.drop_last(), window);
        let (last, more) = run(mid, calls.last(), window);
        (last, sent + more)
    }
}

/// The modifier events among the engine events sent for `events`: what each
/// event sends, less the converted event itself that ends it.
pub open spec fn synthesized(state: KeyModifiers, events: Seq<KeyEvent>, window: Entity) -> Seq<
    KeyboardInput,
>
    decreases events.len(),
{
    if events.len() == 0 {
        seq![]
    } else {
        let mid = run(state, events.drop_last(), window).0;
        let sent = step(mid, events.last(), window).1;
        synthesized(state, events.drop_last(), window) + if sent.len() == 0 {
            seq![]
        } else {
            sent.drop_last()
        }
    }
}

/// `bits` holds the flag `f`.
pub open spec fn holds(bits: u8, f: u8) -> bool {
    bits & f == f
}

/// Along `inputs`, the events for flag `f`'s key alternate, starting from
/// `held`: a press while the flag is not held, a release while it is, each
/// flipping it.
pub open spec fn alternates(f: u8, held: bool, inputs: Seq<KeyboardInput>) -> bool
    decreases inputs.len(),
{
    if inputs.len() == 0 {
        true
    } else if inputs[0].logical_key == flag_key(f) {
        inputs[0].state == (if held {
            ButtonState::Released
        } else {
            ButtonState::Pressed
        }) && alternates(f, !held, inputs.drop_first())
    } else {
        alternates(f, held, inputs.drop_first())
    }
}

/// Whether flag `f` is held after the events for its key in `inputs`, each
/// flipping it, starting from `held`.
pub open spec fn held_after(f: u8, held: bool, inputs: Seq<KeyboardInput>) -> bool
    decreases inputs.len(),
{
    if inputs.len() == 0 {
        held
    } else if inputs[0].logical_key == flag_key(f) {
        held_after(f, !held, inputs.drop_first())
    } else {
        held_after(f, held, inputs.drop_first())
    }
}

/// Alternation along two lists is alternation along the first, then along
/// the second from where the first left the flag.
proof fn lemma_alternates_concat(f: u8, held: bool, a: Seq<KeyboardInput>, b: Seq<KeyboardInput>)
    ensures
        alternates(f, held, a + b) == (alternates(f, held, a) && alternates(
            f,
            held_after(f, held, a),
            b,
        )),
        held_after(f, held, a + b) == held_after(f, held_after(f, held, a), b),
    decreases a.len(),
{
    if a.len() == 0 {
        assert(a + b =~= b);
    } else {
        assert((a + b)[0] == a[0]);
        assert((a + b).drop_first() =~= a.drop_first() + b);
        lemma_alternates_concat(f, !held, a.drop_first(), b);
        lemma_alternates_concat(f, held, a.drop_first(), b);
    }
}

/// The report of flag `g`, when `d` marks the changed flags, as it bears on
/// flag `f`: only `f`'s own report, when `f` changed, flips `f`, and it is in
/// order exactly when its state is the opposite of `held`.
proof fn lemma_alternates_one_flag(f: u8, g: u8, d: u8, new: KeyModifiers, held: bool, window: Entity)
    requires
        is_flag(f),
        is_flag(g),
    ensures
        ({
            let s = flag_inputs(flag_if_set(d, g), new, window);
            if d & g != 0 && g == f {
                &&& alternates(f, held, s) == (holds(new.bits, f) == !held)
                &&& held_after(f, held, s) == !held
            } else {
                &&& alternates(f, held, s)
                &&& held_after(f, held, s) == held
            }
        }),
{
    let s = flag_inputs(flag_if_set(d, g), new, window);
    if d & g != 0 {
        assert(s.len() == 1);
        assert(s[0] == flag_input_of(KeyModifiers { bits: g }, new, window));
        assert(s[0].logical_key == flag_key(g));
        law_flag_keys_round_trip(f, g);
        law_flag_keys_round_trip(g, f);
        assert(s.drop_first().len() == 0);
        assert(alternates(f, !held, s.drop_first()));
        assert(alternates(f, held, s.drop_first()));
        assert(held_after(f, !held, s.drop_first()) == !held);
        assert(held_after(f, held, s.drop_first()) == held);
    } else {
        assert(s.len() == 0);
    }
}

/// A flag differs between two sets exactly when their difference holds it.
proof fn lemma_changed_flags(o: u8, n: u8)
    by (bit_vector)
    ensures
        ((n ^ o) & 0x01u8 != 0) == ((n & 0x01u8 == 0x01u8) != (o & 0x01u8 == 0x01u8)),
        ((n ^ o) & 0x02u8 != 0) == ((n & 0x02u8 == 0x02u8) != (o & 0x02u8 == 0x02u8)),
        ((n ^ o) & 0x04u8 != 0) == ((n & 0x04u8 == 0x04u8) != (o & 0x04u8 == 0x04u8)),
        ((n ^ o) & 0x08u8 != 0) == ((n & 0x08u8 == 0x08u8) != (o & 0x08u8 == 0x08u8)),
        ((n ^ o) & 0x10u8 != 0) == ((n & 0x10u8 == 0x10u8) != (o & 0x10u8 == 0x10u8)),
        ((n ^ o) & 0x20u8 != 0) == ((n & 0x20u8 == 0x20u8) != (o & 0x20u8 == 0x20u8)),
{
}

/// The modifier events for a change from `old` to `new` report each flag in
/// order: a flag's events alternate from its state in `old`, and leave it as
/// `new` has it.
pub proof fn law_modifier_events_alternate(f: u8, old: KeyModifiers, new: KeyModifiers, window: Entity)
    requires
        is_flag(f),
    ensures
        alternates(f, holds(old.bits, f), modifier_events(old, new, window)),
        held_after(f, holds(old.bits, f), modifier_events(old, new, window)) == holds(new.bits, f),
{
    let d: u8 = new.bits ^ old.bits;
    let h0 = holds(old.bits, f);
    let a = flag_if_set(d, SHIFT);
    let b = flag_if_set(d, CONTROL);
    let c = flag_if_set(d, ALT);
    let e = flag_if_set(d, SUPER);
    let h = flag_if_set(d, HYPER);
    let m = flag_if_set(d, META);
    lemma_flag_inputs_concat(a + b + c + e + h, m, new, window);
    lemma_flag_inputs_concat(a + b + c + e, h, new, window);
    lemma_flag_inputs_concat(a + b + c, e, new, window);
    lemma_flag_inputs_concat(a + b, c, new, window);
    lemma_flag_inputs_concat(a, b, new, window);
    let fa = flag_inputs(a, new, window);
    let fb = flag_inputs(b, new, window);
    let fc = flag_inputs(c, new, window);
    let fe = flag_inputs(e, new, window);
    let fh = flag_inputs(h, new, window);
    let fm = flag_inputs(m, new, window);
    assert(modifier_events(old, new, window) =~= fa + fb + fc + fe + fh + fm);
    lemma_alternates_concat(f, h0, fa + fb + fc + fe + fh, fm);
    lemma_alternates_concat(f, h0, fa + fb + fc + fe, fh);
    lemma_alternates_concat(f, h0, fa + fb + fc, fe);
    lemma_alternates_concat(f, h0, fa + fb, fc);
    lemma_alternates_concat(f, h0, fa, fb);
    let h1 = held_after(f, h0, fa);
    let h2 = held_after(f, h1, fb);
    let h3 = held_after(f, h2, fc);
    let h4 = held_after(f, h3, fe);
    let h5 = held_after(f, h4, fh);
    lemma_alternates_one_flag(f, SHIFT, d, new, h0, window);
    lemma_alternates_one_flag(f, CONTROL, d, new, h1, window);
    lemma_alternates_one_flag(f, ALT, d, new, h2, window);
    lemma_alternates_one_flag(f, SUPER, d, new, h3, window);
    lemma_alternates_one_flag(f, HYPER, d, new, h4, window);
    lemma_alternates_one_flag(f, META, d, new, h5, window);
    lemma_changed_flags(old.bits, new.bits);
}

/// Over any sequence of terminal events, the modifier events sent for each
/// flag alternate, starting from the flag's state in `state`, and leave the
/// flag as the recorded flags hold it at the end.
pub proof fn law_synthesized_events_alternate(
    f: u8,
    state: KeyModifiers,
    events: Seq<KeyEvent>,
    window: Entity,
)
    requires
        is_flag(f),
    ensures
        alternates(f, holds(state.bits, f), synthesized(state, events, window)),
        held_after(f, holds(state.bits, f), synthesized(state, events, window)) == holds(
            run(state, events, window).0.bits,
            f,
        ),
    decreases events.len(),
{
    if events.len() > 0 {
        law_synthesized_events_alternate(f, state, events.drop_last(), window);
        let before = synthesized(state, events.drop_last(), window);
        let mid = run(state, events.drop_last(), window).0;
        let sent = step(mid, events.last(), window).1;
        let piece = if sent.len() == 0 {
            seq![]
        } else {
            sent.drop_last()
        };
        lemma_alternates_concat(f, holds(state.bits, f), before, piece);
        match key_event_of(events.last(), window) {
            Some((input, mods)) => {
                assert(piece =~= modifier_events(mid, mods, window));
                law_modifier_events_alternate(f, mid, mods, window);
            },
            None => {
                assert(piece.len() == 0);
            },
        }
    }
}

/// Passing `a` on and then `b` from the flags `a` left is passing `a + b`
/// on: the same final flags, and the events of `a` followed by those of `b`.
pub proof fn law_run_concat(state: KeyModifiers, a: Seq<KeyEvent>, b: Seq<KeyEvent>, window: Entity)
    ensures
        run(state, a + b, window) == (
            run(run(state, a, window).0, b, window).0,
            run(state, a, window).1 + run(run(state, a, window).0, b, window).1,
        ),
    decreases b.len(),
{
    if b.len() == 0 {
        assert(a + b =~= a);
        assert(run(state, a, window).1 + seq![] =~= run(state, a, window).1);
    } else {
        law_run_concat(state, a, b.drop_last(), window);
        assert((a + b).drop_last() =~= a + b.drop_last());
        assert((a + b).last() == b.last());
        let mid = run(state, a, window).0;
        assert(run(state, a, window).1 + run(mid, b.drop_last(), window).1 + step(
            run(mid, b.drop_last(), window).0,
            b.last(),
            window,
        ).1 =~= run(state, a, window).1 + (run(mid, b.drop_last(), window).1 + step(
            run(mid, b.drop_last(), window).0,
            b.last(),
            window,
        ).1));
    }
}

/// A series of calls does what one call on all their events does.
proof fn lemma_run_calls_flatten(state: KeyModifiers, calls: Seq<Seq<KeyEvent>>, window: Entity)
    ensures
        run_calls(state, calls, window) == run(state, calls.flatten_alt(), window),
    decreases calls.len(),
{
    if calls.len() > 0 {
        lemma_run_calls_flatten(state, calls.drop_last(), window);
        law_run_concat(state, calls.drop_last().flatten_alt(), calls.last(), window);
    }
}

/// Across any series of calls starting from no modifier held: the whole
/// series does what one call on all its events does; after it, the recorded
/// flags are those of the last converted event of any call, or none when
/// none was converted; and for each flag the modifier events sent alternate
/// press, release, press, ... starting with a press, and leave the flag as
/// the recorded flags hold it.
pub proof fn law_calls_from_no_modifiers(calls: Seq<Seq<KeyEvent>>, window: Entity)
    ensures
        run_calls(KeyModifiers { bits: 0 }, calls, window) == run(
            KeyModifiers { bits: 0 },
            calls.flatten(),
            window,
        ),
        run_calls(KeyModifiers { bits: 0 }, calls, window).0 == last_converted_flags(
            KeyModifiers { bits: 0 },
            calls.flatten(),
            window,
        ),
        forall|f: u8|
            is_flag(f) ==> {
                &&& alternates(f, false, synthesized(KeyModifiers { bits: 0 }, calls.flatten(), window))
                &&& held_after(f, false, synthesized(KeyModifiers { bits: 0 }, calls.flatten(), window))
                    == holds(run_calls(KeyModifiers { bits: 0 }, calls, window).0.bits, f)
            },
{
    let empty = KeyModifiers { bits: 0 };
    calls.lemma_flatten_and_flatten_alt_are_equivalent();
    lemma_run_calls_flatten(empty, calls, window);
    law_run_records_last_converted_flags(empty, calls.flatten(), window);
    assert(0u8 & 0x01u8 == 0 && 0u8 & 0x02u8 == 0 && 0u8 & 0x04u8 == 0 && 0u8 & 0x08u8 == 0
        && 0u8 & 0x10u8 == 0 && 0u8 & 0x20u8 == 0) by (bit_vector);
    assert forall|f: u8| is_flag(f) implies {
        &&& alternates(f, false, synthesized(empty, calls.flatten(), window))
        &&& held_after(f, false, synthesized(empty, calls.flatten(), window)) == holds(
            run_calls(empty, calls, window).0.bits,
            f,
        )
    } by {
        assert(holds(0, f) == false);
        law_synthesized_events_alternate(f, empty, calls.flatten(), window);
    }
}

/// A batch of no event sends nothing and leaves the flags as they are; a
/// batch extended by one event sends what the batch sends, followed by
/// exactly what that event sends on its own from the flags the batch left,
/// whatever its kind.
pub proof fn law_run_extends(state: KeyModifiers, events: Seq<KeyEvent>, event: KeyEvent, window: Entity)
    ensures
        run(state, Seq::<KeyEvent>::empty(), window) == (state, Seq::<KeyboardInput>::empty()),
        run(state, events.push(event), window) == (
            step(run(state, events, window).0, event, window).0,
            run(state, events, window).1 + step(run(state, events, window).0, event, window).1,
        ),
{
    assert(events.push(event).drop_last() =~= events);
}

/// Every converted event is sent, as the last of what it sends, whatever its
/// kind: in a batch, each converted event appears in the output right after
/// the modifier events it needs.
pub proof fn law_converted_event_is_sent(state: KeyModifiers, events: Seq<KeyEvent>, event: KeyEvent, window: Entity)
    ensures
        key_event_of(event, window) matches Some((input, _)) ==> {
            let sent = run(state, events.push(event), window).1;
            &&& sent.len() >= 1
            &&& sent.last() == input
            &&& sent.len() > run(state, events, window).1.len()
        },
{
    law_run_extends(state, events, event, window);
}

/// The flags sent with a converted event are the union of the flags the
/// terminal reported and the extra flags of its key: every reported flag is
/// kept, the key's extra flags are added, and no other bit is set.
pub proof fn law_converted_flags_are_union(event: KeyEvent, window: Entity)
    ensures
        key_event_of(event, window) matches Some((_, mods)) ==> {
            &&& keycode_of(event.code) is Some
            &&& event.modifiers.bits & mods.bits == event.modifiers.bits
            &&& keycode_of(event.code).unwrap().1.bits & mods.bits == keycode_of(
                event.code,
            ).unwrap().1.bits
            &&& mods.bits & !event.modifiers.bits & !keycode_of(event.code).unwrap().1.bits == 0
        },
{
    if let Some((_, mods)) = key_event_of(event, window) {
        let a = event.modifiers.bits;
        let b = keycode_of(event.code).unwrap().1.bits;
        assert(a & (a | b) == a && b & (a | b) == b && (a | b) & !a & !b == 0) by (bit_vector);
    }
}

/// An event is refused only for a change in bits that no flag names: when
/// the event is converted, it can be passed on exactly when its flags differ
/// from the recorded ones in named flags only; an event that is not
/// converted can always be passed on.
pub proof fn law_refused_only_for_unnamed_changes(state: KeyModifiers, event: KeyEvent, window: Entity)
    ensures
        key_event_of(event, window) matches Some((_, mods)) ==> (step_ok(state, event) == ((
        mods.bits ^ state.bits) & UNNAMED_BITS == 0)),
        key_event_of(event, window) is None ==> step_ok(state, event),
{
}

/// The physical key of the same name as a logical key, where the engine has
/// one.
pub open spec fn physical_key_named(key: Key) -> Option<PhysicalKey> {
    match key {
        Key::Backspace => Some(PhysicalKey::Backspace),
        Key::Enter => Some(PhysicalKey::Enter),
        Key::ArrowLeft => Some(PhysicalKey::ArrowLeft),
        Key::ArrowRight => Some(PhysicalKey::ArrowRight),
        Key::ArrowUp => Some(PhysicalKey::ArrowUp),
        Key::ArrowDown => Some(PhysicalKey::ArrowDown),
        Key::Home => Some(PhysicalKey::Home),
        Key::End => Some(PhysicalKey::End),
        Key::PageUp => Some(PhysicalKey::PageUp),
        Key::PageDown => Some(PhysicalKey::PageDown),
        Key::Tab => Some(PhysicalKey::Tab),
        Key::Delete => Some(PhysicalKey::Delete),
        Key::Insert => Some(PhysicalKey::Insert),
        Key::F1 => Some(PhysicalKey::F1),
        Key::F2 => Some(PhysicalKey::F2),
        Key::F3 => Some(PhysicalKey::F3),
        Key::F4 => Some(PhysicalKey::F4),
        Key::F5 => Some(PhysicalKey::F5),
        Key::F6 => Some(PhysicalKey::F6),
        Key::F7 => Some(PhysicalKey::F7),
        Key::F8 => Some(PhysicalKey::F8),
        Key::F9 => Some(PhysicalKey::F9),
        Key::F10 => Some(PhysicalKey::F10),
        Key::F11 => Some(PhysicalKey::F11),
        Key::F12 => Some(PhysicalKey::F12),
        Key::F13 => Some(PhysicalKey::F13),
        Key::F14 => Some(PhysicalKey::F14),
        Key::F15 => Some(PhysicalKey::F15),
        Key::F16 => Some(PhysicalKey::F16),
        Key::F17 => Some(PhysicalKey::F17),
        Key::F18 => Some(PhysicalKey::F18),
        Key::F19 => Some(PhysicalKey::F19),
        Key::F20 => Some(PhysicalKey::F20),
        Key::F31 => Some(PhysicalKey::F31),
        Key::F32 => Some(PhysicalKey::F32),
        Key::F33 => Some(PhysicalKey::F33),
        Key::F34 => Some(PhysicalKey::F34),
        Key::F35 => Some(PhysicalKey::F35),
        Key::Escape => Some(PhysicalKey::Escape),
        Key::CapsLock => Some(PhysicalKey::CapsLock),
        Key::ScrollLock => Some(PhysicalKey::ScrollLock),
        Key::NumLock => Some(PhysicalKey::NumLock),
        Key::PrintScreen => Some(PhysicalKey::PrintScreen),
        Key::Pause => Some(PhysicalKey::Pause),
        Key::ContextMenu => Some(PhysicalKey::ContextMenu),
        Key::MediaPlayPause => Some(PhysicalKey::MediaPlayPause),
        Key::MediaStop => Some(PhysicalKey::MediaStop),
        Key::MediaTrackNext => Some(PhysicalKey::MediaTrackNext),
        Key::MediaTrackPrevious => Some(PhysicalKey::MediaTrackPrevious),
        Key::AudioVolumeDown => Some(PhysicalKey::AudioVolumeDown),
        Key::AudioVolumeUp => Some(PhysicalKey::AudioVolumeUp),
        Key::AudioVolumeMute => Some(PhysicalKey::AudioVolumeMute),
        Key::Hyper => Some(PhysicalKey::Hyper),
        Key::Meta => Some(PhysicalKey::Meta),
        _ => None,
    }
}

/// A terminal key that is neither a character, a media key nor a modifier
/// key: a named key or a function key.
pub open spec fn is_named_key(code: KeyCode) -> bool {
    !(code is Char) && !(code is Media) && !(code is Modifier)
}

/// For a named or function key, the physical and the logical key agree: the
/// key has a physical key exactly when it has a logical key, and the physical
/// key is the one of the same name as the logical key.
pub proof fn law_named_keys_agree(code: KeyCode)
    requires
        is_named_key(code),
    ensures
        keycode_of(code) is Some <==> key_of(code) is Some,
        keycode_of(code) is Some ==> {
            &&& keycode_of(code).unwrap().1.bits == 0
            &&& physical_key_named(key_of(code).unwrap()) == Some(keycode_of(code).unwrap().0)
        },
{
}

/// Distinct named or function keys never share a physical key, nor a logical
/// key.
pub proof fn law_named_keys_distinct(a: KeyCode, b: KeyCode)
    requires
        is_named_key(a),
        is_named_key(b),
        a != b,
    ensures
        keycode_of(a) is Some ==> keycode_of(a) != keycode_of(b),
        key_of(a) is Some ==> key_of(a) != key_of(b),
{
}

/// A converted event is sent with the physical and logical key of its
/// terminal key, pressed for a press or a repeat and released for a release,
/// in the given window.
pub proof fn law_converted_event_parts(event: KeyEvent, window: Entity)
    ensures
        key_event_of(event, window) matches Some((input, _)) ==> {
            &&& keycode_of(event.code) matches Some((k, _)) && input.key_code == k
            &&& key_of(event.code) == Some(input.logical_key)
            &&& (input.state == ButtonState::Released) == (event.kind == KeyEventKind::Release)
            &&& input.window == window
        },
{
}

/// The events sent before a converted event are modifier-key events only,
/// each sent with its left-hand physical key in the given window, one for
/// each named flag in which the new flags differ from the recorded ones.
pub proof fn law_step_sends_one_modifier_event_per_changed_flag(
    state: KeyModifiers,
    event: KeyEvent,
    window: Entity,
)
    ensures
        key_event_of(event, window) matches Some((_, mods)) ==> {
            let before = step(state, event, window).1.drop_last();
            &&& before.len() == named_flags(mods.bits ^ state.bits).len()
            &&& forall|i: int|
                0 <= i < before.len() ==> {
                    &&& key_flag(#[trigger] before[i].logical_key) is Some
                    &&& (before[i].logical_key == flag_key(named_flags(mods.bits ^ state.bits)[i].bits))
                    &&& modifier_key_code_for(before[i].logical_key) == Some(before[i].key_code)
                    &&& before[i].window == window
                }
        },
{
    if let Some((_, mods)) = key_event_of(event, window) {
        let before = step(state, event, window).1.drop_last();
        let flags = named_flags(mods.bits ^ state.bits);
        assert(before =~= modifier_events(state, mods, window));
        crate::bevy_event::lemma_named_flags_are_flags(mods.bits ^ state.bits);
        assert forall|i: int| 0 <= i < before.len() implies {
            &&& key_flag(#[trigger] before[i].logical_key) is Some
            &&& (before[i].logical_key == flag_key(flags[i].bits))
            &&& modifier_key_code_for(before[i].logical_key) == Some(before[i].key_code)
            &&& before[i].window == window
        } by {
            assert(is_flag(flags[i].bits));
            law_flag_keys_round_trip(flags[i].bits, flags[i].bits);
        }
    }
}

/// The letter keys in alphabetical order.
pub open spec fn letter_keys() -> Seq<PhysicalKey> {
    seq![
        PhysicalKey::KeyA, PhysicalKey::KeyB, PhysicalKey::KeyC, PhysicalKey::KeyD,
        PhysicalKey::KeyE, PhysicalKey::KeyF, PhysicalKey::KeyG, PhysicalKey::KeyH,
        PhysicalKey::KeyI, PhysicalKey::KeyJ, PhysicalKey::KeyK, PhysicalKey::KeyL,
        PhysicalKey::KeyM, PhysicalKey::KeyN, PhysicalKey::KeyO, PhysicalKey::KeyP,
        PhysicalKey::KeyQ, PhysicalKey::KeyR, PhysicalKey::KeyS, PhysicalKey::KeyT,
        PhysicalKey::KeyU, PhysicalKey::KeyV, PhysicalKey::KeyW, PhysicalKey::KeyX,
        PhysicalKey::KeyY, PhysicalKey::KeyZ,
    ]
}

/// The digit keys, `Digit0` first.
pub open spec fn digit_keys() -> Seq<PhysicalKey> {
    seq![
        PhysicalKey::Digit0, PhysicalKey::Digit1, PhysicalKey::Digit2, PhysicalKey::Digit3,
        PhysicalKey::Digit4, PhysicalKey::Digit5, PhysicalKey::Digit6, PhysicalKey::Digit7,
        PhysicalKey::Digit8, PhysicalKey::Digit9,
    ]
}

/// The characters typed with shift on the digit keys 1, 2, ..., 9, 0 of a US
/// layout.
pub open spec fn shifted_digit_row() -> Seq<char> {
    seq!['!', '@', '#', '$', '%', '^', '&', '*', '(', ')']
}

/// Every character is sent with itself as logical key.
pub proof fn law_characters_are_their_own_logical_key(c: char)
    ensures
        key_of(KeyCode::Char(c)) == Some(Key::Character(c)),
{
}

/// The n-th letter of the alphabet, in either case, is sent on the n-th letter
/// key: with no extra flag in lower case, with shift in upper case.
pub proof fn law_letters_use_their_letter_key(c: char)
    requires
        'a' as int <= c as int <= 'z' as int || 'A' as int <= c as int <= 'Z' as int,
    ensures
        keycode_of(KeyCode::Char(c)) is Some,
        'a' as int <= c as int <= 'z' as int ==> keycode_of(KeyCode::Char(c)) == Some(
            (letter_keys()[c as int - 'a' as int], KeyModifiers { bits: 0 }),
        ),
        'A' as int <= c as int <= 'Z' as int ==> keycode_of(KeyCode::Char(c)) == Some(
            (letter_keys()[c as int - 'A' as int], KeyModifiers { bits: SHIFT }),
        ),
{
    let i = if 'a' as int <= c as int <= 'z' as int {
        c as int - 'a' as int
    } else {
        c as int - 'A' as int
    };
    assert(letter_keys()[i] == crate::keycode::letter_key_code(i));
}

/// A digit is sent unshifted on its digit key; the character shift gives on a
/// digit key of a US layout is sent with shift on that key.
pub proof fn law_digit_row(i: int)
    requires
        0 <= i < 10,
    ensures
        keycode_of(KeyCode::Char(('0' as int + i) as char)) == Some(
            (digit_keys()[i], KeyModifiers { bits: 0 }),
        ),
        keycode_of(KeyCode::Char(shifted_digit_row()[i])) == Some(
            (digit_keys()[(i + 1) % 10], KeyModifiers { bits: SHIFT }),
        ),
{
    assert(digit_keys()[i] == crate::keycode::digit_key_code(i));
}

/// For a media key, the physical and logical key agree wherever the logical
/// key has a physical key of the same name, and a media key with a physical
/// key also has a logical key.
pub proof fn law_media_keys_agree(m: MediaKeyCode)
    ensures
        keycode_of(KeyCode::Media(m)) is Some ==> key_of(KeyCode::Media(m)) is Some,
        keycode_of(KeyCode::Media(m)) is Some ==> keycode_of(KeyCode::Media(m)).unwrap().1.bits == 0,
        (keycode_of(KeyCode::Media(m)) is Some && physical_key_named(
            key_of(KeyCode::Media(m)).unwrap(),
        ) is Some) ==> physical_key_named(key_of(KeyCode::Media(m)).unwrap()) == Some(
            keycode_of(KeyCode::Media(m)).unwrap().0,
        ),
{
}

/// The left and right shift, control, alt and super keys are different
/// physical keys.
pub proof fn law_sides_are_distinct_physical_keys(left: ModifierKeyCode, right: ModifierKeyCode)
    requires
        (left == ModifierKeyCode::LeftShift && right == ModifierKeyCode::RightShift) || (left
            == ModifierKeyCode::LeftControl && right == ModifierKeyCode::RightControl) || (left
            == ModifierKeyCode::LeftAlt && right == ModifierKeyCode::RightAlt) || (left
            == ModifierKeyCode::LeftSuper && right == ModifierKeyCode::RightSuper),
    ensures
        keycode_of(KeyCode::Modifier(right)) is Some,
        keycode_of(KeyCode::Modifier(left)) != keycode_of(KeyCode::Modifier(right)),
{
}

/// Every set in `s` is one named flag that `bits` holds, the flags rising
/// strictly along `s`, all of them at most `top`.
pub open spec fn held_flags_in_order(s: Seq<KeyModifiers>, bits: u8, top: u8) -> bool {
    &&& forall|i: int|
        0 <= i < s.len() ==> is_flag(#[trigger] s[i].bits) && bits & s[i].bits != 0 && s[i].bits
            <= top
    &&& forall|i: int, j: int| 0 <= i < j < s.len() ==> #[trigger] s[i].bits < #[trigger] s[j].bits
}

/// Appending the flag `f`, when `bits` holds it, to a rising list of held
/// flags below `f` keeps it rising, now up to `f`.
proof fn lemma_held_flags_extend(s: Seq<KeyModifiers>, bits: u8, below: u8, f: u8)
    requires
        held_flags_in_order(s, bits, below),
        below < f,
        is_flag(f),
    ensures
        held_flags_in_order(s + flag_if_set(bits, f), bits, f),
{
    let t = s + flag_if_set(bits, f);
    assert forall|i: int| 0 <= i < t.len() implies is_flag(#[trigger] t[i].bits) && bits
        & t[i].bits != 0 && t[i].bits <= f by {
        if i < s.len() {
            assert(t[i] == s[i]);
        }
    }
    assert forall|i: int, j: int| 0 <= i < j < t.len() implies #[trigger] t[i].bits
        < #[trigger] t[j].bits by {
        assert(t[i] == s[i]);
        if j < s.len() {
            assert(t[j] == s[j]);
        }
    }
}

/// The named flags of a set are listed once each, in rising order: every
/// listed set is one named flag that the set holds, and every named flag it
/// holds is listed.
pub proof fn law_named_flags_listed_in_order(bits: u8)
    ensures
        held_flags_in_order(named_flags(bits), bits, META),
        forall|f: u8|
            is_flag(f) && bits & f != 0 ==> exists|i: int|
                0 <= i < named_flags(bits).len() && #[trigger] named_flags(bits)[i].bits == f,
{
    let a = flag_if_set(bits, SHIFT);
    let b = flag_if_set(bits, CONTROL);
    let c = flag_if_set(bits, ALT);
    let d = flag_if_set(bits, SUPER);
    let e = flag_if_set(bits, HYPER);
    let g = flag_if_set(bits, META);
    let empty = Seq::<KeyModifiers>::empty();
    assert(empty + a =~= a);
    lemma_held_flags_extend(empty, bits, 0, SHIFT);
    lemma_held_flags_extend(a, bits, SHIFT, CONTROL);
    lemma_held_flags_extend(a + b, bits, CONTROL, ALT);
    lemma_held_flags_extend(a + b + c, bits, ALT, SUPER);
    lemma_held_flags_extend(a + b + c + d, bits, SUPER, HYPER);
    lemma_held_flags_extend(a + b + c + d + e, bits, HYPER, META);
    let all = named_flags(bits);
    assert(all == a + b + c + d + e + g);
    assert forall|f: u8| is_flag(f) && bits & f != 0 implies exists|i: int|
        0 <= i < all.len() && #[trigger] all[i].bits == f by {
        let p = if f == SHIFT {
            0
        } else if f == CONTROL {
            a.len() as int
        } else if f == ALT {
            (a + b).len() as int
        } else if f == SUPER {
            (a + b + c).len() as int
        } else if f == HYPER {
            (a + b + c + d).len() as int
        } else {
            (a + b + c + d + e).len() as int
        };
        assert(all[p].bits == f);
    }
}

} // verus!
