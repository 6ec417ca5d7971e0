//! Key events as a terminal backend reports them: the key that was hit, the
//! modifier flags held with it, and whether it was pressed, repeated or
//! released.
use vstd::prelude::*;

verus! {

/// A media key reported by the terminal.
#[derive(Debug, Clone, Copy, PartialEq, Eq, Structural)]
pub enum MediaKeyCode {
    Play,
    Pause,
    PlayPause,
    Reverse,
    Stop,
    FastForward,
    Rewind,
    TrackNext,
    TrackPrevious,
    Record,
    LowerVolume,
    RaiseVolume,
    MuteVolume,
}

/// A modifier key reported on its own by the terminal.
#[derive(Debug, Clone, Copy, PartialEq, Eq, Structural)]
pub enum ModifierKeyCode {
    LeftShift,
    LeftControl,
    LeftAlt,
    LeftSuper,
    LeftHyper,
    LeftMeta,
    RightShift,
    RightControl,
    RightAlt,
    RightSuper,
    RightHyper,
    RightMeta,
    IsoLevel3Shift,
    IsoLevel5Shift,
}

/// A key reported by the terminal.
#[derive(Debug, Clone, Copy, PartialEq, Eq, Structural)]
pub enum KeyCode {
    Backspace,
    Enter,
    Left,
    Right,
    Up,
    Down,
    Home,
    End,
    PageUp,
    PageDown,
    Tab,
    BackTab,
    Delete,
    Insert,
    /// A function key; `F(1)` is F1.
    F(u8),
    /// A key that produces a character.
    Char(char),
    Null,
    Esc,
    CapsLock,
    ScrollLock,
    NumLock,
    PrintScreen,
    Pause,
    Menu,
    KeypadBegin,
    Media(MediaKeyCode),
    Modifier(ModifierKeyCode),
}

/// Whether the terminal reports a press, an auto-repeat or a release.
#[derive(Debug, Clone, Copy, PartialEq, Eq, Structural)]
pub enum KeyEventKind {
    Press,
    Repeat,
    Release,
}

/// The shift flag.
pub const SHIFT: u8 = 0x01;
/// The control flag.
pub const CONTROL: u8 = 0x02;
/// The alt flag.
pub const ALT: u8 = 0x04;
/// The super flag.
pub const SUPER: u8 = 0x08;
/// The hyper flag.
pub const HYPER: u8 = 0x10;
/// The meta flag.
pub const META: u8 = 0x20;
/// The bits that no named flag covers.
pub const UNNAMED_BITS: u8 = 0xc0;

/// `bits` is exactly one named modifier flag.
pub open spec fn is_flag(bits: u8) -> bool {
    bits == SHIFT || bits == CONTROL || bits == ALT || bits == SUPER || bits == HYPER || bits
        == META
}

/// The one-flag set `f`, listed when `bits` holds it.
pub open spec fn flag_if_set(bits: u8, f: u8) -> Seq<KeyModifiers> {
    if bits & f != 0 {
        seq![KeyModifiers { bits: f }]
    } else {
        seq![]
    }
}

/// The named flags that `bits` holds, one set per flag, in the order
/// shift, control, alt, super, hyper, meta.
pub open spec fn named_flags(bits: u8) -> Seq<KeyModifiers> {
    flag_if_set(bits, SHIFT) + flag_if_set(bits, CONTROL) + flag_if_set(bits, ALT)
        + flag_if_set(bits, SUPER) + flag_if_set(bits, HYPER) + flag_if_set(bits, META)
}

/// What iterating over a set of flags yields: its named flags one by one,
/// then, if any unnamed bits are set, one last set holding all of them.
pub open spec fn flags_of(bits: u8) -> Seq<KeyModifiers> {
    named_flags(bits) + if bits & UNNAMED_BITS != 0 {
        seq![KeyModifiers { bits: bits & UNNAMED_BITS }]
    } else {
        seq![]
    }
}

/// A set of modifier flags held during a key event, one bit per flag.
#[derive(Debug, Clone, Copy, PartialEq, Eq, Structural)]
pub struct KeyModifiers {
    pub bits: u8,
}

impl KeyModifiers {
    /// The set with no flag.
    pub fn empty() -> (r: KeyModifiers)
        ensures
            r.bits == 0,
    {
        KeyModifiers { bits: 0 }
    }

    /// The set whose bits are `bits`, unnamed bits included.
    pub fn from_bits_retain(bits: u8) -> (r: KeyModifiers)
        ensures
            r.bits == bits,
    {
        KeyModifiers { bits }
    }

    /// The bits of the set.
    pub fn bits(&self) -> (r: u8)
        ensures
            r == self.bits,
    {
        self.bits
    }

    /// Whether the set holds no bit.
    pub fn is_empty(&self) -> (r: bool)
        ensures
            r == (self.bits == 0),
    {
        self.bits == 0
    }

    /// The flags held by either set.
    pub fn union(self, other: KeyModifiers) -> (r: KeyModifiers)
        ensures
            r.bits == self.bits | other.bits,
    {
        KeyModifiers { bits: self.bits | other.bits }
    }

    /// The flags held by exactly one of the two sets.
    pub fn symmetric_difference(self, other: KeyModifiers) -> (r: KeyModifiers)
        ensures
            r.bits == self.bits ^ other.bits,
    {
        KeyModifiers { bits: self.bits ^ other.bits }
    }

    /// Whether every bit of `other` is in the set.
    pub fn contains(&self, other: KeyModifiers) -> (r: bool)
        ensures
            r == (self.bits & other.bits == other.bits),
    {
        self.bits & other.bits == other.bits
    }

    /// The flags of the set one by one, as `flags_of` lists them.
    pub fn iter(&self) -> (r: Vec<KeyModifiers>)
        ensures
            r@ == flags_of(self.bits),
    {
        let bits: u8 = self.bits;
        let mut r: Vec<KeyModifiers> = Vec::new();
        push_if_set(&mut r, bits, SHIFT);
        push_if_set(&mut r, bits, CONTROL);
        push_if_set(&mut r, bits, ALT);
        push_if_set(&mut r, bits, SUPER);
        push_if_set(&mut r, bits, HYPER);
        push_if_set(&mut r, bits, META);
        assert(r@ =~= named_flags(bits));
        let rest: u8 = bits & UNNAMED_BITS;
        if rest != 0 {
            r.push(KeyModifiers { bits: rest });
        }
        r
    }
}

/// Appends the one-flag set `f` to `r` when `bits` holds it.
fn push_if_set(r: &mut Vec<KeyModifiers>, bits: u8, f: u8)
    ensures
        final(r)@ == old(r)@ + flag_if_set(bits, f),
{
    if bits & f != 0 {
        r.push(KeyModifiers { bits: f });
    }
    assert(r@ =~= old(r)@ + flag_if_set(bits, f));
}

/// A key event reported by the terminal.
#[derive(Debug, Clone, Copy, PartialEq, Eq, Structural)]
pub struct KeyEvent {
    /// The key.
    pub code: KeyCode,
    /// The modifier flags held with it.
    pub modifiers: KeyModifiers,
    /// Press, repeat or release.
    pub kind: KeyEventKind,
}

} // verus!
