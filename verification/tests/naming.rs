use kbdlayout::virtual_keys::VirtualKey;

#[test]
fn fast_path_codes_round_trip() {
    for code in (0x30..=0x39u8).chain(0x41..=0x5Au8) {
        let name = VirtualKey { code }.to_vk_enum(true).unwrap();
        let back = VirtualKey::from_vk_enum(&name, true).unwrap();
        assert_eq!(back.code, code);
    }
}

#[test]
fn every_named_code_round_trips() {
    for code in 0..=255u16 {
        let key = VirtualKey { code: code as u8 };
        if let Some(name) = key.to_vk_enum(true) {
            let back = VirtualKey::from_vk_enum(&name, true);
            assert_eq!(back, Some(key));
        }
    }
}

#[test]
fn fast_path_builds_prefixed_names() {
    assert_eq!(VirtualKey { code: 0x41 }.to_vk_enum(true), Some("VK_A".to_string()));
    assert_eq!(VirtualKey { code: 0x30 }.to_vk_enum(true), Some("VK_0".to_string()));
    assert_eq!(VirtualKey { code: 0x5A }.to_vk_enum(true), Some("VK_Z".to_string()));
}

#[test]
fn fast_path_is_skipped_when_disabled() {
    assert_eq!(VirtualKey { code: 0x41 }.to_vk_enum(false), None);
    assert_eq!(VirtualKey::from_vk_enum("VK_A", false), None);
}

#[test]
fn table_codes_resolve_without_the_fast_path() {
    assert_eq!(VirtualKey { code: 0x10 }.to_vk_enum(false), Some("VK_SHIFT".to_string()));
    assert_eq!(VirtualKey { code: 0x01 }.to_vk_enum(true), Some("VK_LBUTTON".to_string()));
    assert_eq!(VirtualKey { code: 0xFE }.to_vk_enum(true), Some("VK_OEM_CLEAR".to_string()));
    assert_eq!(VirtualKey { code: 0xFF }.to_vk_enum(true), Some("VK__none_".to_string()));
}

#[test]
fn table_names_resolve_back_to_codes() {
    assert_eq!(VirtualKey::from_vk_enum("VK_SHIFT", true), Some(VirtualKey { code: 0x10 }));
    assert_eq!(VirtualKey::from_vk_enum("VK_BROWSER_BACK", true), Some(VirtualKey { code: 0xA6 }));
    assert_eq!(VirtualKey::from_vk_enum("VK__none_", true), Some(VirtualKey { code: 0xFF }));
}

#[test]
fn unknown_codes_and_names_have_no_entry() {
    assert_eq!(VirtualKey { code: 0x07 }.to_vk_enum(true), None);
    assert_eq!(VirtualKey { code: 0x92 }.to_vk_enum(true), None);
    assert_eq!(VirtualKey::from_vk_enum("VK_NO_SUCH_KEY", true), None);
    assert_eq!(VirtualKey::from_vk_enum("", true), None);
}

#[test]
fn duplicate_historical_names_both_resolve_and_the_later_wins_forward() {
    // Forward lookup picks one deterministic canonical name per code.
    assert_eq!(VirtualKey { code: 0x15 }.to_vk_enum(true), Some("VK_HANGUL".to_string()));
    assert_eq!(VirtualKey { code: 0x19 }.to_vk_enum(true), Some("VK_KANJI".to_string()));
    // Reverse lookup is many-to-one: both names of such a code resolve.
    assert_eq!(VirtualKey::from_vk_enum("VK_HANGUL", true), Some(VirtualKey { code: 0x15 }));
    assert_eq!(VirtualKey::from_vk_enum("VK_KANA", true), Some(VirtualKey { code: 0x15 }));
    assert_eq!(VirtualKey::from_vk_enum("VK_KANJI", true), Some(VirtualKey { code: 0x19 }));
    assert_eq!(VirtualKey::from_vk_enum("VK_HANJA", true), Some(VirtualKey { code: 0x19 }));
}

#[test]
fn is_code_ascii_covers_exactly_digits_and_upper_letters() {
    for code in 0..=255u16 {
        let expected = (0x30..=0x39).contains(&code) || (0x41..=0x5A).contains(&code);
        assert_eq!(VirtualKey::is_code_ascii(code as u8), expected);
    }
}
