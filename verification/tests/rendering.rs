use kbdlayout::scan_codes::ScanCode;
use kbdlayout::virtual_keys::VirtualKey;

#[test]
fn scan_codes_render_as_two_hex_digits_with_escape_prefixes() {
    assert_eq!(ScanCode::Unescaped(0x1E).render(), "1E");
    assert_eq!(ScanCode::Unescaped(0x00).render(), "00");
    assert_eq!(ScanCode::Unescaped(0xAB).render(), "AB");
    assert_eq!(ScanCode::Extended0(0x37).render(), "E037");
    assert_eq!(ScanCode::Extended1(0x1D).render(), "E11D");
    assert_eq!(ScanCode::Extended0(0xFF).render(), "E0FF");
}

#[test]
fn virtual_keys_render_names_then_hex_and_none_as_absence() {
    assert_eq!(VirtualKey { code: 0xFF }.render(), None);
    assert_eq!(VirtualKey { code: 0x41 }.render(), Some("VK_A".to_string()));
    assert_eq!(VirtualKey { code: 0x10 }.render(), Some("VK_SHIFT".to_string()));
    assert_eq!(VirtualKey { code: 0x07 }.render(), Some("07".to_string()));
    assert_eq!(VirtualKey { code: 0xE0 }.render(), Some("E0".to_string()));
}
