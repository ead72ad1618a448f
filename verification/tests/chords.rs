use kbdlayout::modifiers::KeyModifiers;

#[test]
fn packed_byte_round_trips_for_all_256_values() {
    for b in 0..=255u8 {
        let m = KeyModifiers::from_bits(b);
        assert_eq!(m.to_bits(), b);
        assert_eq!(KeyModifiers::from_bits(m.to_bits()), m);
    }
}

#[test]
fn from_bits_decodes_each_bit() {
    let m = KeyModifiers::from_bits(0x01);
    assert!(m.shift && !m.control && !m.alt && !m.kana);
    assert!(!m.roya && !m.loya && !m.unknown0x40 && !m.grpseltap);
    let m = KeyModifiers::from_bits(0x02);
    assert!(!m.shift && m.control);
    let m = KeyModifiers::from_bits(0x04);
    assert!(m.alt);
    let m = KeyModifiers::from_bits(0x08);
    assert!(m.kana);
    let m = KeyModifiers::from_bits(0x10);
    assert!(m.roya);
    let m = KeyModifiers::from_bits(0x20);
    assert!(m.loya);
    let m = KeyModifiers::from_bits(0x40);
    assert!(m.unknown0x40);
    let m = KeyModifiers::from_bits(0x80);
    assert!(m.grpseltap);
}

#[test]
fn to_bits_packs_combinations() {
    let m = KeyModifiers {
        shift: true,
        control: true,
        alt: false,
        kana: false,
        roya: false,
        loya: false,
        unknown0x40: false,
        grpseltap: false,
    };
    assert_eq!(m.to_bits(), 0x03);
}

#[test]
fn mask_string_concatenates_active_bits_in_order() {
    assert_eq!(KeyModifiers::from_bits(0x00).to_mask_string(), "");
    assert_eq!(KeyModifiers::from_bits(0x01).to_mask_string(), "s");
    assert_eq!(KeyModifiers::from_bits(0x03).to_mask_string(), "sc");
    assert_eq!(KeyModifiers::from_bits(0x07).to_mask_string(), "sca");
    assert_eq!(KeyModifiers::from_bits(0xFF).to_mask_string(), "scakrlug");
    assert_eq!(KeyModifiers::from_bits(0x88).to_mask_string(), "kg");
}

#[test]
fn modifier_token_names_single_named_bits() {
    assert_eq!(KeyModifiers::from_bits(0x01).modifier_token(), Some("shift".to_string()));
    assert_eq!(KeyModifiers::from_bits(0x02).modifier_token(), Some("control".to_string()));
    assert_eq!(KeyModifiers::from_bits(0x04).modifier_token(), Some("alt".to_string()));
    assert_eq!(KeyModifiers::from_bits(0x08).modifier_token(), Some("kana".to_string()));
    assert_eq!(KeyModifiers::from_bits(0x10).modifier_token(), Some("roya".to_string()));
    assert_eq!(KeyModifiers::from_bits(0x20).modifier_token(), Some("loya".to_string()));
}

#[test]
fn modifier_token_rejects_multi_bit_and_unnamed_chords() {
    assert_eq!(KeyModifiers::from_bits(0x00).modifier_token(), None);
    assert_eq!(KeyModifiers::from_bits(0x03).modifier_token(), None);
    assert_eq!(KeyModifiers::from_bits(0x40).modifier_token(), None);
    assert_eq!(KeyModifiers::from_bits(0x80).modifier_token(), None);
}
