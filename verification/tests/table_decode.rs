use kbdlayout::decode::{decode_tables, WCH_DEAD, WCH_LGTR, WCH_NONE};
use kbdlayout::errors::DecodeError;
use kbdlayout::model::{KeyEffect, TypingEffect};
use kbdlayout::modifiers::KeyModifiers;
use kbdlayout::scan_codes::ScanCode;
use kbdlayout::tables::{
    DeadKeyNameRow,
    DeadKeyRow,
    KbdTables,
    KeyNameRow,
    VkToBitRow,
    VscVkRow,
    WcharGroup,
    WcharRow,
};
use kbdlayout::virtual_keys::VirtualKey;

fn empty_tables() -> KbdTables {
    KbdTables {
        vsc_to_vk: vec![],
        vsc_to_vk_e0: vec![],
        vsc_to_vk_e1: vec![],
        key_names: vec![],
        key_names_ext: vec![],
        vk_to_bit: vec![],
        mod_numbers: vec![],
        wchar_groups: vec![],
        dead_key_rows: vec![],
        dead_key_names: vec![],
        locale_flags: 0,
        lg_max: 0,
        type_value: 0,
        subtype_value: 0,
    }
}

#[test]
fn one_unescaped_entry_decodes_to_one_physical_key() {
    let mut t = empty_tables();
    t.vsc_to_vk = vec![0x001E];
    let desc = decode_tables(&t).unwrap();
    assert_eq!(desc.physical_keys.len(), 1);
    let key = desc.physical_keys.get(&ScanCode::Unescaped(0)).unwrap();
    assert_eq!(key.virtual_key, VirtualKey { code: 0x1E });
    let f = key.virtual_key_flags;
    assert!(!f.extended && !f.multi_vk && !f.special && !f.numpad);
    assert!(!f.unicode && !f.injected_vk && !f.mapped_vk && !f.is_break);
    assert_eq!(key.name, None);
}

#[test]
fn unescaped_entries_with_the_none_sentinel_are_skipped() {
    let mut t = empty_tables();
    t.vsc_to_vk = vec![0x00FF, 0x0110, 0xFFFF];
    let desc = decode_tables(&t).unwrap();
    assert_eq!(desc.physical_keys.len(), 1);
    assert!(desc.physical_keys.get(&ScanCode::Unescaped(0)).is_none());
    assert!(desc.physical_keys.get(&ScanCode::Unescaped(2)).is_none());
    let key = desc.physical_keys.get(&ScanCode::Unescaped(1)).unwrap();
    assert_eq!(key.virtual_key, VirtualKey { code: 0x10 });
    assert!(key.virtual_key_flags.extended);
}

#[test]
fn extended_tables_decode_under_their_escape_variants() {
    let mut t = empty_tables();
    t.vsc_to_vk_e0 = vec![VscVkRow { vsc: 0x37, vk: 0x012C }];
    t.vsc_to_vk_e1 = vec![VscVkRow { vsc: 0x1D, vk: 0x0013 }];
    let desc = decode_tables(&t).unwrap();
    assert_eq!(desc.physical_keys.len(), 2);
    let e0 = desc.physical_keys.get(&ScanCode::Extended0(0x37)).unwrap();
    assert_eq!(e0.virtual_key, VirtualKey { code: 0x2C });
    assert!(e0.virtual_key_flags.extended);
    let e1 = desc.physical_keys.get(&ScanCode::Extended1(0x1D)).unwrap();
    assert_eq!(e1.virtual_key, VirtualKey { code: 0x13 });
}

#[test]
fn names_overlay_only_existing_scan_codes() {
    let mut t = empty_tables();
    t.vsc_to_vk = vec![0x0001];
    t.vsc_to_vk_e0 = vec![VscVkRow { vsc: 0x37, vk: 0x002C }];
    t.key_names = vec![
        KeyNameRow { vsc: 0x00, name: "Esc".to_string() },
        KeyNameRow { vsc: 0x05, name: "Ghost".to_string() },
    ];
    t.key_names_ext = vec![KeyNameRow { vsc: 0x37, name: "Print".to_string() }];
    let desc = decode_tables(&t).unwrap();
    assert_eq!(desc.physical_keys.len(), 2);
    let unescaped = desc.physical_keys.get(&ScanCode::Unescaped(0)).unwrap();
    assert_eq!(unescaped.name, Some("Esc".to_string()));
    let e0 = desc.physical_keys.get(&ScanCode::Extended0(0x37)).unwrap();
    assert_eq!(e0.name, Some("Print".to_string()));
    assert!(desc.physical_keys.get(&ScanCode::Unescaped(0x05)).is_none());
}

#[test]
fn scan_codes_are_unique_in_the_decoded_map() {
    let mut t = empty_tables();
    t.vsc_to_vk = vec![0x001E, 0x0010];
    t.vsc_to_vk_e0 = vec![
        VscVkRow { vsc: 0x01, vk: 0x0020 },
        VscVkRow { vsc: 0x01, vk: 0x0021 },
    ];
    let desc = decode_tables(&t).unwrap();
    for i in 0..desc.physical_keys.len() {
        for j in 0..desc.physical_keys.len() {
            if i != j {
                assert_ne!(desc.physical_keys.entry(i).0, desc.physical_keys.entry(j).0);
            }
        }
    }
    // Of the two rows naming one scan code, the later one wins.
    let e0 = desc.physical_keys.get(&ScanCode::Extended0(0x01)).unwrap();
    assert_eq!(e0.virtual_key, VirtualKey { code: 0x21 });
}

#[test]
fn modifier_row_and_empty_typing_row_decode() {
    let mut t = empty_tables();
    t.vk_to_bit = vec![VkToBitRow { vk: 0x10, mod_bits: 0x01 }];
    t.mod_numbers = vec![0];
    t.wchar_groups = vec![
        WcharGroup {
            n_modifications: 1,
            rows: vec![WcharRow { virtual_key: 0x41, attributes: 0, chars: vec![WCH_NONE] }],
        },
    ];
    let desc = decode_tables(&t).unwrap();
    assert_eq!(desc.virtual_keys.len(), 2);
    match desc.virtual_keys.get(&VirtualKey { code: 0x10 }).unwrap() {
        KeyEffect::Modifier(m) => {
            assert!(m.shift);
            assert_eq!(m.to_bits(), 0x01);
        },
        KeyEffect::Typing(_) => panic!("expected a modifier"),
    }
    match desc.virtual_keys.get(&VirtualKey { code: 0x41 }).unwrap() {
        KeyEffect::Typing(typing) => {
            assert_eq!(typing.by_modifiers.len(), 0);
            assert!(!typing.caps_lock_as_shift);
        },
        KeyEffect::Modifier(_) => panic!("expected a typing key"),
    }
}

#[test]
fn typing_rows_record_characters_under_their_chords() {
    let mut t = empty_tables();
    t.vk_to_bit = vec![VkToBitRow { vk: 0x10, mod_bits: 0x01 }];
    // Chord bits 0 get column 0, chord bits 1 (shift) get column 1.
    t.mod_numbers = vec![0, 1];
    t.wchar_groups = vec![
        WcharGroup {
            n_modifications: 2,
            rows: vec![
                WcharRow { virtual_key: 0x41, attributes: 0x01, chars: vec![0x61, 0x41] },
            ],
        },
    ];
    let desc = decode_tables(&t).unwrap();
    match desc.virtual_keys.get(&VirtualKey { code: 0x41 }).unwrap() {
        KeyEffect::Typing(typing) => {
            assert!(typing.caps_lock_as_shift);
            let plain = typing.by_modifiers.get(&KeyModifiers::from_bits(0)).unwrap();
            assert_eq!(*plain, TypingEffect::Char(0x61));
            let shifted = typing.by_modifiers.get(&KeyModifiers::from_bits(1)).unwrap();
            assert_eq!(*shifted, TypingEffect::Char(0x41));
        },
        KeyEffect::Modifier(_) => panic!("expected a typing key"),
    }
}

#[test]
fn dead_key_sentinel_reads_accent_from_partner_row() {
    let mut t = empty_tables();
    t.mod_numbers = vec![0];
    t.wchar_groups = vec![
        WcharGroup {
            n_modifications: 1,
            rows: vec![
                WcharRow { virtual_key: 0x36, attributes: 0, chars: vec![WCH_DEAD] },
                WcharRow { virtual_key: 0xFF, attributes: 0, chars: vec![0x5E] },
                WcharRow { virtual_key: 0x41, attributes: 0, chars: vec![0x61] },
            ],
        },
    ];
    let desc = decode_tables(&t).unwrap();
    // The partner row is consumed: it yields no typing entry of its own.
    assert_eq!(desc.virtual_keys.len(), 2);
    assert!(desc.virtual_keys.get(&VirtualKey { code: 0xFF }).is_none());
    match desc.virtual_keys.get(&VirtualKey { code: 0x36 }).unwrap() {
        KeyEffect::Typing(typing) => {
            let effect = typing.by_modifiers.get(&KeyModifiers::from_bits(0)).unwrap();
            assert_eq!(*effect, TypingEffect::DeadKey(0x5E));
        },
        KeyEffect::Modifier(_) => panic!("expected a typing key"),
    }
    // The row after the consumed partner is still processed.
    assert!(desc.virtual_keys.get(&VirtualKey { code: 0x41 }).is_some());
}

#[test]
fn dead_key_sentinel_without_partner_row_fails() {
    let mut t = empty_tables();
    t.mod_numbers = vec![0];
    t.wchar_groups = vec![
        WcharGroup {
            n_modifications: 1,
            rows: vec![WcharRow { virtual_key: 0x36, attributes: 0, chars: vec![WCH_DEAD] }],
        },
    ];
    assert_eq!(decode_tables(&t), Err(DecodeError::MissingDeadKeyRow));
}

#[test]
fn dead_key_sentinel_with_wrong_partner_marker_fails() {
    let mut t = empty_tables();
    t.mod_numbers = vec![0];
    t.wchar_groups = vec![
        WcharGroup {
            n_modifications: 1,
            rows: vec![
                WcharRow { virtual_key: 0x36, attributes: 0, chars: vec![WCH_DEAD] },
                WcharRow { virtual_key: 0x41, attributes: 0, chars: vec![0x61] },
            ],
        },
    ];
    assert_eq!(decode_tables(&t), Err(DecodeError::MissingDeadKeyRow));
}

#[test]
fn ligature_sentinel_fails() {
    let mut t = empty_tables();
    t.mod_numbers = vec![0];
    t.wchar_groups = vec![
        WcharGroup {
            n_modifications: 1,
            rows: vec![WcharRow { virtual_key: 0x41, attributes: 0, chars: vec![WCH_LGTR] }],
        },
    ];
    assert_eq!(decode_tables(&t), Err(DecodeError::UnsupportedLigature));
}

#[test]
fn nonzero_ligature_count_fails() {
    let mut t = empty_tables();
    t.lg_max = 1;
    assert_eq!(decode_tables(&t), Err(DecodeError::UnsupportedLigature));
}

#[test]
fn unknown_modification_number_fails() {
    let mut t = empty_tables();
    // Only number 0 is assigned; column 1 references number 1.
    t.mod_numbers = vec![0];
    t.wchar_groups = vec![
        WcharGroup {
            n_modifications: 2,
            rows: vec![WcharRow { virtual_key: 0x41, attributes: 0, chars: vec![0x61, 0x62] }],
        },
    ];
    assert_eq!(decode_tables(&t), Err(DecodeError::UnknownModificationNumber));
}

#[test]
fn invalid_modification_numbers_are_skipped() {
    let mut t = empty_tables();
    // Bit pattern 0 is marked invalid; bit pattern 1 is assigned number 0.
    t.mod_numbers = vec![0x0F, 0];
    t.wchar_groups = vec![
        WcharGroup {
            n_modifications: 1,
            rows: vec![WcharRow { virtual_key: 0x41, attributes: 0, chars: vec![0x61] }],
        },
    ];
    let desc = decode_tables(&t).unwrap();
    match desc.virtual_keys.get(&VirtualKey { code: 0x41 }).unwrap() {
        KeyEffect::Typing(typing) => {
            // Column 0 resolves through bit pattern 1: the shift chord.
            let effect = typing.by_modifiers.get(&KeyModifiers::from_bits(1)).unwrap();
            assert_eq!(*effect, TypingEffect::Char(0x61));
            assert!(typing.by_modifiers.get(&KeyModifiers::from_bits(0)).is_none());
        },
        KeyEffect::Modifier(_) => panic!("expected a typing key"),
    }
}

#[test]
fn dead_key_combo_rows_group_by_accent() {
    let mut t = empty_tables();
    t.dead_key_rows = vec![
        DeadKeyRow { base_char: 0x61, accent_char: 0x5E, composed_char: 0xE2, flags: 0 },
        DeadKeyRow { base_char: 0x65, accent_char: 0x5E, composed_char: 0xEA, flags: 0 },
        DeadKeyRow { base_char: 0x61, accent_char: 0x60, composed_char: 0xE0, flags: 1 },
    ];
    let desc = decode_tables(&t).unwrap();
    assert_eq!(desc.dead_keys.len(), 2);
    let circumflex = desc.dead_keys.get(0x5E).unwrap();
    assert_eq!(circumflex.name, None);
    assert_eq!(circumflex.combos.len(), 2);
    let combo = circumflex.combos.get(0x61).unwrap();
    assert_eq!(combo.composed_char, 0xE2);
    assert_eq!(combo.flags, 0);
    let grave = desc.dead_keys.get(0x60).unwrap();
    assert_eq!(grave.combos.get(0x61).unwrap().composed_char, 0xE0);
    assert_eq!(grave.combos.get(0x61).unwrap().flags, 1);
}

#[test]
fn dead_key_names_attach_to_their_accents() {
    let mut t = empty_tables();
    t.dead_key_rows = vec![
        DeadKeyRow { base_char: 0x61, accent_char: 0x5E, composed_char: 0xE2, flags: 0 },
    ];
    t.dead_key_names = vec![
        DeadKeyNameRow { accent_char: 0x5E, name: "CIRCUMFLEX".to_string() },
        DeadKeyNameRow { accent_char: 0x7E, name: "TILDE".to_string() },
    ];
    let desc = decode_tables(&t).unwrap();
    assert_eq!(desc.dead_keys.len(), 2);
    let circumflex = desc.dead_keys.get(0x5E).unwrap();
    assert_eq!(circumflex.name, Some("CIRCUMFLEX".to_string()));
    assert_eq!(circumflex.combos.len(), 1);
    let tilde = desc.dead_keys.get(0x7E).unwrap();
    assert_eq!(tilde.name, Some("TILDE".to_string()));
    assert_eq!(tilde.combos.len(), 0);
}

#[test]
fn locale_flags_split_into_version_and_capabilities() {
    let mut t = empty_tables();
    t.locale_flags = (3 << 16) | 0x5;
    t.type_value = 4;
    t.subtype_value = 7;
    let desc = decode_tables(&t).unwrap();
    assert_eq!(desc.version, 3);
    assert!(desc.supports_altgr);
    assert!(!desc.supports_shift_lock);
    assert!(desc.supports_directionality);
    assert_eq!(desc.type_value, 4);
    assert_eq!(desc.subtype_value, 7);
}

#[test]
fn the_none_virtual_key_never_keys_the_decoded_maps() {
    let mut t = empty_tables();
    t.vsc_to_vk = vec![0x00FF, 0x001E];
    t.vk_to_bit = vec![VkToBitRow { vk: 0x10, mod_bits: 0x01 }];
    t.mod_numbers = vec![0];
    t.wchar_groups = vec![
        WcharGroup {
            n_modifications: 1,
            rows: vec![
                WcharRow { virtual_key: 0x36, attributes: 0, chars: vec![WCH_DEAD] },
                WcharRow { virtual_key: 0xFF, attributes: 0, chars: vec![0x5E] },
            ],
        },
    ];
    let desc = decode_tables(&t).unwrap();
    assert!(desc.virtual_keys.get(&VirtualKey { code: 0xFF }).is_none());
    for i in 0..desc.physical_keys.len() {
        assert_ne!(desc.physical_keys.entry(i).1.virtual_key.code, 0xFF);
    }
    for i in 0..desc.virtual_keys.len() {
        assert_ne!(desc.virtual_keys.entry(i).0.code, 0xFF);
    }
}

#[test]
fn recorded_chords_come_from_assigned_modification_numbers() {
    let mut t = empty_tables();
    t.mod_numbers = vec![0, 1, 0x0F, 2];
    t.wchar_groups = vec![
        WcharGroup {
            n_modifications: 3,
            rows: vec![
                WcharRow { virtual_key: 0x41, attributes: 0, chars: vec![0x61, 0x41, 0x01] },
            ],
        },
    ];
    let desc = decode_tables(&t).unwrap();
    let assigned: Vec<u8> = vec![
        KeyModifiers::from_bits(0).to_bits(),
        KeyModifiers::from_bits(1).to_bits(),
        KeyModifiers::from_bits(3).to_bits(),
    ];
    match desc.virtual_keys.get(&VirtualKey { code: 0x41 }).unwrap() {
        KeyEffect::Typing(typing) => {
            assert_eq!(typing.by_modifiers.len(), 3);
            for i in 0..typing.by_modifiers.len() {
                let chord = typing.by_modifiers.entry(i).0;
                assert!(assigned.contains(&chord.to_bits()));
            }
        },
        KeyEffect::Modifier(_) => panic!("expected a typing key"),
    }
}
