# bevy_term_keys

Turns key events read from a terminal into keyboard input for the Bevy
engine, as a verified library.

- `src/terminal.rs` — terminal key events: key codes, modifier flag sets
  (with union, symmetric difference, containment and flag iteration).
- `src/input.rs` — the engine's keyboard input: physical keys, logical keys,
  button states, input events (carrying the engine's window entity).
- `src/keycode.rs` — which physical and logical key each terminal key maps
  to, with shift added for characters that need it on a US layout (and for
  `-`, which is sent shifted).
- `src/bevy_event.rs` — conversion of one event, the synthetic modifier-key
  events, and the per-event and per-batch passing on of events.
- `src/laws.rs` — properties of the conversion as a whole, proved.
- `app/` — the Bevy plugin and system around the library, and the
  conversions between crossterm's and Bevy's types and the library's.
