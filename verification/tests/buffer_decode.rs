use kbdlayout::decode::decode_keyboard;
use kbdlayout::errors::DecodeError;
use kbdlayout::model::{KeyEffect, TypingEffect};
use kbdlayout::modifiers::KeyModifiers;
use kbdlayout::scan_codes::ScanCode;
use kbdlayout::virtual_keys::VirtualKey;

const BASE: u64 = 0x1000;

fn put_u16(buf: &mut Vec<u8>, off: usize, v: u16) {
    buf[off..off + 2].copy_from_slice(&v.to_le_bytes());
}

fn put_u32(buf: &mut Vec<u8>, off: usize, v: u32) {
    buf[off..off + 4].copy_from_slice(&v.to_le_bytes());
}

fn put_u64(buf: &mut Vec<u8>, off: usize, v: u64) {
    buf[off..off + 8].copy_from_slice(&v.to_le_bytes());
}

fn put_wide(buf: &mut Vec<u8>, off: usize, s: &str) {
    let mut p = off;
    for unit in s.encode_utf16() {
        put_u16(buf, p, unit);
        p += 2;
    }
    put_u16(buf, p, 0);
}

/// Lays out a small but complete layout module image: a root table, a
/// modifier structure, one typing group, one dead key with a name, one
/// key name, and both unescaped and E0-escaped scan codes.
fn sample_image() -> Vec<u8> {
    let mut buf = vec![0u8; 0x200];

    // Root table at offset 0.
    put_u64(&mut buf, 0x00, BASE + 0x68); // modifier structure
    put_u64(&mut buf, 0x08, BASE + 0x90); // typing group table
    put_u64(&mut buf, 0x10, BASE + 0xC0); // dead-key table
    put_u64(&mut buf, 0x18, BASE + 0xD8); // key names
    put_u64(&mut buf, 0x20, 0); // key names (extended): none
    put_u64(&mut buf, 0x28, BASE + 0x110); // dead-key names
    put_u64(&mut buf, 0x30, BASE + 0x140); // unescaped array
    buf[0x38] = 2; // unescaped array length
    put_u64(&mut buf, 0x40, BASE + 0x80); // E0 table
    put_u64(&mut buf, 0x48, 0); // E1 table: none
    put_u32(&mut buf, 0x50, (1 << 16) | 1); // version 1, altgr
    buf[0x54] = 0; // ligature count
    put_u64(&mut buf, 0x58, 0); // ligature table
    put_u32(&mut buf, 0x60, 4); // type
    put_u32(&mut buf, 0x64, 0); // subtype

    // Modifier structure: one modifier row, bit patterns 0 and 1 assigned
    // modification numbers 0 and 1.
    put_u64(&mut buf, 0x68, BASE + 0x78);
    put_u16(&mut buf, 0x70, 1); // highest bit pattern
    buf[0x72] = 0;
    buf[0x73] = 1;

    // Modifier rows: shift (0x10) contributes bit 0x01; terminator.
    buf[0x78] = 0x10;
    buf[0x79] = 0x01;
    buf[0x7A] = 0;

    // E0 rows: PrintScreen-like row, then the terminator.
    buf[0x80] = 0x37;
    put_u16(&mut buf, 0x82, 0x012C);
    buf[0x84] = 0;

    // One typing group: two columns, six bytes per row.
    put_u64(&mut buf, 0x90, BASE + 0xB0);
    buf[0x98] = 2;
    buf[0x99] = 6;
    // Terminator group at 0xA0 is already zero.

    // Typing rows: 'a' plain, 'A' shifted on virtual key 0x41; terminator.
    buf[0xB0] = 0x41;
    buf[0xB1] = 0x01; // caps lock acts as shift
    put_u16(&mut buf, 0xB2, 0x61);
    put_u16(&mut buf, 0xB4, 0x41);
    buf[0xB6] = 0;

    // Dead keys: circumflex + 'a' composes to 'a-circumflex'; terminator.
    put_u32(&mut buf, 0xC0, 0x005E_0061);
    put_u16(&mut buf, 0xC4, 0xE2);
    put_u16(&mut buf, 0xC6, 0);

    // Key names: scan code 1 is named through a wide-string pointer.
    buf[0xD8] = 0x01;
    put_u64(&mut buf, 0xE0, BASE + 0x100);
    // Terminator row at 0xE8 is already zero.

    // The wide string "Esc".
    put_wide(&mut buf, 0x100, "Esc");

    // Dead-key names: one record, then the null terminator.
    put_u64(&mut buf, 0x110, BASE + 0x120);
    put_u16(&mut buf, 0x120, 0x5E);
    put_wide(&mut buf, 0x122, "CIRCUMFLEX");

    // Unescaped scan codes: entry 0 carries no mapping, entry 1 is 0x1E.
    put_u16(&mut buf, 0x140, 0x00FF);
    put_u16(&mut buf, 0x142, 0x001E);

    buf
}

#[test]
fn a_complete_image_decodes_end_to_end() {
    let buf = sample_image();
    let desc = decode_keyboard(&buf, BASE, BASE).unwrap();

    // Physical keys: the no-mapping entry is skipped, the named unescaped
    // entry and the escaped entry are present.
    assert_eq!(desc.physical_keys.len(), 2);
    assert!(desc.physical_keys.get(&ScanCode::Unescaped(0)).is_none());
    let unescaped = desc.physical_keys.get(&ScanCode::Unescaped(1)).unwrap();
    assert_eq!(unescaped.virtual_key, VirtualKey { code: 0x1E });
    assert_eq!(unescaped.name, Some("Esc".to_string()));
    let e0 = desc.physical_keys.get(&ScanCode::Extended0(0x37)).unwrap();
    assert_eq!(e0.virtual_key, VirtualKey { code: 0x2C });
    assert!(e0.virtual_key_flags.extended);

    // Virtual keys: the shift modifier and the typing key.
    assert_eq!(desc.virtual_keys.len(), 2);
    match desc.virtual_keys.get(&VirtualKey { code: 0x10 }).unwrap() {
        KeyEffect::Modifier(m) => assert_eq!(m.to_bits(), 0x01),
        KeyEffect::Typing(_) => panic!("expected a modifier"),
    }
    match desc.virtual_keys.get(&VirtualKey { code: 0x41 }).unwrap() {
        KeyEffect::Typing(typing) => {
            assert!(typing.caps_lock_as_shift);
            assert_eq!(
                *typing.by_modifiers.get(&KeyModifiers::from_bits(0)).unwrap(),
                TypingEffect::Char(0x61)
            );
            assert_eq!(
                *typing.by_modifiers.get(&KeyModifiers::from_bits(1)).unwrap(),
                TypingEffect::Char(0x41)
            );
        },
        KeyEffect::Modifier(_) => panic!("expected a typing key"),
    }

    // Dead keys: one accent with one combo and its display name.
    assert_eq!(desc.dead_keys.len(), 1);
    let circumflex = desc.dead_keys.get(0x5E).unwrap();
    assert_eq!(circumflex.name, Some("CIRCUMFLEX".to_string()));
    assert_eq!(circumflex.combos.get(0x61).unwrap().composed_char, 0xE2);

    // Top-level flags.
    assert_eq!(desc.version, 1);
    assert!(desc.supports_altgr);
    assert!(!desc.supports_shift_lock);
    assert!(!desc.supports_directionality);
    assert_eq!(desc.type_value, 4);
    assert_eq!(desc.subtype_value, 0);
}

#[test]
fn a_name_with_characters_outside_ascii_survives_conversion() {
    let mut buf = sample_image();
    put_wide(&mut buf, 0x100, "Échap");
    let desc = decode_keyboard(&buf, BASE, BASE).unwrap();
    let unescaped = desc.physical_keys.get(&ScanCode::Unescaped(1)).unwrap();
    assert_eq!(unescaped.name, Some("Échap".to_string()));
}

#[test]
fn an_empty_buffer_fails_out_of_bounds() {
    assert_eq!(decode_keyboard(&[], BASE, BASE), Err(DecodeError::OutOfBounds));
}

#[test]
fn a_root_outside_the_buffer_fails_out_of_bounds() {
    let buf = sample_image();
    assert_eq!(decode_keyboard(&buf, BASE, BASE + 0x1F0), Err(DecodeError::OutOfBounds));
    assert_eq!(decode_keyboard(&buf, BASE, 0x10), Err(DecodeError::OutOfBounds));
}

#[test]
fn a_truncated_table_fails_out_of_bounds() {
    let mut buf = sample_image();
    // Point the typing group's rows outside the image.
    put_u64(&mut buf, 0x90, BASE + 0x200);
    assert_eq!(decode_keyboard(&buf, BASE, BASE), Err(DecodeError::OutOfBounds));
}

#[test]
fn a_zero_row_stride_fails() {
    let mut buf = sample_image();
    buf[0x99] = 0;
    assert_eq!(decode_keyboard(&buf, BASE, BASE), Err(DecodeError::ZeroRowStride));
}

#[test]
fn a_nonzero_ligature_count_in_the_image_fails() {
    let mut buf = sample_image();
    buf[0x54] = 3;
    assert_eq!(decode_keyboard(&buf, BASE, BASE), Err(DecodeError::UnsupportedLigature));
}
