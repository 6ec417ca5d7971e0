//! Conversion of terminal key events into engine keyboard input, with the
//! synthetic modifier-key events that keep the engine's view of held
//! modifiers in step with the terminal's.
use vstd::prelude::*;

pub mod bevy_event;
pub mod input;
pub mod keycode;
pub mod laws;
pub mod terminal;

verus! {

} // verus!
