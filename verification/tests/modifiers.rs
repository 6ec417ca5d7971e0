use bevy_term_keys::terminal::{KeyModifiers, ALT, CONTROL, HYPER, META, SHIFT, SUPER};

fn set(bits: u8) -> KeyModifiers {
    KeyModifiers::from_bits_retain(bits)
}

#[test]
fn set_operations() {
    assert_eq!(set(SHIFT).union(set(ALT)).bits(), SHIFT | ALT);
    assert_eq!(set(SHIFT | ALT).symmetric_difference(set(ALT | META)).bits(), SHIFT | META);
    assert!(set(SHIFT | ALT).contains(set(ALT)));
    assert!(!set(SHIFT).contains(set(SHIFT | ALT)));
    assert!(set(0).contains(set(0)));
    assert!(KeyModifiers::empty().is_empty());
    assert!(!set(0x80).is_empty());
}

#[test]
fn iteration_lists_flags_in_order_then_unnamed_bits() {
    assert_eq!(set(0).iter(), Vec::<KeyModifiers>::new());
    assert_eq!(set(META | SHIFT).iter(), vec![set(SHIFT), set(META)]);
    assert_eq!(
        set(0x3f).iter(),
        vec![set(SHIFT), set(CONTROL), set(ALT), set(SUPER), set(HYPER), set(META)]
    );
    assert_eq!(set(0xc4).iter(), vec![set(ALT), set(0xc0)]);
    assert_eq!(set(0x80).iter(), vec![set(0x80)]);
}
