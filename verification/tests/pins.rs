use mcp23017::pin::{Bank, Compare, Feature, Mode, Pin, State, INTPOL};

fn pin(i: u8) -> Pin {
    Pin::new(i).unwrap()
}

#[test]
fn pin_new_covers_all_sixteen_indices() {
    for i in 0u8..16 {
        let p = Pin::new(i).unwrap();
        assert_eq!(p.orig, i);
        if i < 8 {
            assert!(matches!(p.bank, Bank::A));
        } else {
            assert!(matches!(p.bank, Bank::B));
        }
        assert_eq!(p.pin, i % 8);
        assert_eq!(p.shift, if i < 8 { 0 } else { 8 });
    }
}

#[test]
fn pin_new_rejects_sixteen_and_above() {
    assert!(Pin::new(16).is_none());
    assert!(Pin::new(17).is_none());
    assert!(Pin::new(255).is_none());
}

#[test]
fn pin_mode_reads_the_direction_bit() {
    // Bit 3 set: input.  Bit 3 clear: output.
    assert!(matches!(pin(3).mode(0x0008), Mode::Input));
    assert!(matches!(pin(3).mode(0xFFF7), Mode::Output));
    // Bank B pins read bits 8-15.
    assert!(matches!(pin(10).mode(0x0400), Mode::Input));
    assert!(matches!(pin(10).mode(0xFBFF), Mode::Output));
}

#[test]
fn apply_u16_replaces_low_byte_for_bank_a() {
    let p = pin(3);
    let merged = p.apply_u16(0xABCD, 0x12);
    assert_eq!(merged, 0xAB12);
    assert_eq!(merged & 0x00FF, 0x12);
    assert_eq!(merged & 0xFF00, 0xAB00);
}

#[test]
fn apply_u16_replaces_high_byte_for_bank_b() {
    let p = pin(12);
    let merged = p.apply_u16(0xABCD, 0x12);
    assert_eq!(merged, 0x12CD);
    assert_eq!(merged >> 8, 0x12);
    assert_eq!(merged & 0x00FF, 0x00CD);
}

#[test]
fn apply_u16_round_trips_any_byte() {
    for b in [0x00u8, 0x01, 0x7F, 0x80, 0xFF] {
        let low = pin(0).apply_u16(0x55AA, b);
        assert_eq!(low & 0x00FF, b as u16);
        assert_eq!(low & 0xFF00, 0x5500);
        let high = pin(8).apply_u16(0x55AA, b);
        assert_eq!(high >> 8, b as u16);
        assert_eq!(high & 0x00FF, 0x00AA);
    }
}

#[test]
fn enum_bool_codes_match_the_hardware_convention() {
    assert!(Mode::Input.as_bool());
    assert!(!Mode::Output.as_bool());
    assert!(State::High.as_bool());
    assert!(!State::Low.as_bool());
    assert!(Feature::On.as_bool());
    assert!(!Feature::Off.as_bool());
    assert!(INTPOL::ActiveHigh.as_bool());
    assert!(!INTPOL::ActiveLow.as_bool());
    assert!(Compare::Default.as_bool());
    assert!(!Compare::Previous.as_bool());
}

#[test]
fn enum_bool_codes_round_trip() {
    assert!(matches!(Mode::from_bool(true), Mode::Input));
    assert!(matches!(Mode::from_bool(false), Mode::Output));
    assert!(matches!(State::from_bool(true), State::High));
    assert!(matches!(State::from_bool(false), State::Low));
    assert!(matches!(Feature::from_bool(true), Feature::On));
    assert!(matches!(Feature::from_bool(false), Feature::Off));
    assert!(matches!(INTPOL::from_bool(true), INTPOL::ActiveHigh));
    assert!(matches!(INTPOL::from_bool(false), INTPOL::ActiveLow));
    assert!(matches!(Compare::from_bool(true), Compare::Default));
    assert!(matches!(Compare::from_bool(false), Compare::Previous));
}
