use kbdlayout::model::{
    BaseCharMap,
    ChordMap,
    DeadKeyCombo,
    DeadKeyMap,
    KeyboardDesc,
    PhysicalKeyDesc,
    ScanCodeMap,
    TypingEffect,
};
use kbdlayout::modifiers::KeyModifiers;
use kbdlayout::scan_codes::ScanCode;
use kbdlayout::virtual_keys::{VirtualKey, VirtualKeyFlags};

#[test]
fn a_new_layout_is_empty() {
    let desc = KeyboardDesc::new();
    assert_eq!(desc.physical_keys.len(), 0);
    assert_eq!(desc.virtual_keys.len(), 0);
    assert_eq!(desc.dead_keys.len(), 0);
    assert_eq!(desc.version, 0);
    assert!(!desc.supports_altgr && !desc.supports_shift_lock && !desc.supports_directionality);
    assert_eq!(desc.type_value, 0);
    assert_eq!(desc.subtype_value, 0);
}

#[test]
fn chord_maps_replace_entries_with_equal_packed_bytes() {
    let mut m = ChordMap::new();
    m.insert(KeyModifiers::from_bits(1), TypingEffect::Char(0x61));
    m.insert(KeyModifiers::from_bits(2), TypingEffect::Char(0x62));
    m.insert(KeyModifiers::from_bits(1), TypingEffect::Char(0x63));
    assert_eq!(m.len(), 2);
    assert_eq!(m.get(&KeyModifiers::from_bits(1)), Some(&TypingEffect::Char(0x63)));
    assert_eq!(m.get(&KeyModifiers::from_bits(2)), Some(&TypingEffect::Char(0x62)));
    assert_eq!(m.get(&KeyModifiers::from_bits(4)), None);
}

#[test]
fn scan_code_maps_distinguish_escape_variants() {
    let flags = VirtualKeyFlags::from_bits(0);
    let mut m = ScanCodeMap::new();
    m.insert(
        ScanCode::Unescaped(0x1D),
        PhysicalKeyDesc { virtual_key: VirtualKey { code: 1 }, virtual_key_flags: flags, name: None },
    );
    m.insert(
        ScanCode::Extended0(0x1D),
        PhysicalKeyDesc { virtual_key: VirtualKey { code: 2 }, virtual_key_flags: flags, name: None },
    );
    m.insert(
        ScanCode::Extended1(0x1D),
        PhysicalKeyDesc { virtual_key: VirtualKey { code: 3 }, virtual_key_flags: flags, name: None },
    );
    assert_eq!(m.len(), 3);
    assert_eq!(m.get(&ScanCode::Unescaped(0x1D)).unwrap().virtual_key.code, 1);
    assert_eq!(m.get(&ScanCode::Extended0(0x1D)).unwrap().virtual_key.code, 2);
    assert_eq!(m.get(&ScanCode::Extended1(0x1D)).unwrap().virtual_key.code, 3);
}

#[test]
fn setting_a_name_for_an_absent_scan_code_inserts_nothing() {
    let mut m = ScanCodeMap::new();
    m.set_name(ScanCode::Unescaped(0x10), "Ghost".to_string());
    assert_eq!(m.len(), 0);
    let flags = VirtualKeyFlags::from_bits(0);
    m.insert(
        ScanCode::Unescaped(0x10),
        PhysicalKeyDesc { virtual_key: VirtualKey { code: 9 }, virtual_key_flags: flags, name: None },
    );
    m.set_name(ScanCode::Unescaped(0x10), "Q".to_string());
    assert_eq!(m.len(), 1);
    let entry = m.get(&ScanCode::Unescaped(0x10)).unwrap();
    assert_eq!(entry.name, Some("Q".to_string()));
    assert_eq!(entry.virtual_key.code, 9);
}

#[test]
fn dead_key_maps_create_descriptions_on_first_use() {
    let mut m = DeadKeyMap::new();
    m.insert_combo(0x5E, 0x61, DeadKeyCombo { composed_char: 0xE2, flags: 0 });
    m.set_name(0x5E, "CIRCUMFLEX".to_string());
    m.set_name(0x7E, "TILDE".to_string());
    m.insert_combo(0x7E, 0x6E, DeadKeyCombo { composed_char: 0xF1, flags: 0 });
    assert_eq!(m.len(), 2);
    let c = m.get(0x5E).unwrap();
    assert_eq!(c.name, Some("CIRCUMFLEX".to_string()));
    assert_eq!(c.combos.get(0x61).unwrap().composed_char, 0xE2);
    let t = m.get(0x7E).unwrap();
    assert_eq!(t.name, Some("TILDE".to_string()));
    assert_eq!(t.combos.get(0x6E).unwrap().composed_char, 0xF1);
}

#[test]
fn base_char_maps_key_by_base_character() {
    let mut m = BaseCharMap::new();
    m.insert(0x61, DeadKeyCombo { composed_char: 0xE2, flags: 0 });
    m.insert(0x65, DeadKeyCombo { composed_char: 0xEA, flags: 1 });
    m.insert(0x61, DeadKeyCombo { composed_char: 0xC2, flags: 0 });
    assert_eq!(m.len(), 2);
    assert_eq!(m.get(0x61).unwrap().composed_char, 0xC2);
    assert_eq!(m.get(0x65).unwrap().flags, 1);
    assert!(m.get(0x75).is_none());
}
