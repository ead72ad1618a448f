//! Symbolic key naming: bidirectional lookup between a virtual-key code and
//! its canonical symbolic name. Codes in the numeric and upper-alphabetic
//! ASCII ranges take a fast path - the name is the fixed "VK_" prefix
//! followed by the ASCII character itself - and the other named codes are
//! covered by a fixed table.
//!
//! Two codes historically carry two names each (0x15 and 0x19). The table
//! is many-to-one: reverse lookup recognizes both names of such a code,
//! while forward lookup deterministically picks the later-registered name
//! as the canonical one.

use vstd::prelude::*;
use vstd::string::StrSliceExecFns;
use crate::virtual_keys::VirtualKey;

verus! {

/// Whether a code falls in the fast-path ASCII ranges: the digits '0' to
/// '9' (0x30 to 0x39) or the upper-case letters 'A' to 'Z' (0x41 to 0x5A).
pub open spec fn spec_is_code_ascii(code: u8) -> bool {
    (0x30 <= code && code <= 0x39) || (0x41 <= code && code <= 0x5A)
}

/// The fast-path name: the fixed "VK_" prefix followed by the ASCII
/// character whose code point is the key code itself.
pub open spec fn spec_fast_name(code: u8) -> Seq<char> {
    seq!['V', 'K', '_', code as char]
}

/// The fixed named-code table, code to name.
pub open spec fn spec_table_name(code: u8) -> Option<Seq<char>> {
    match code {
        0x01 => Some("VK_LBUTTON"@),
        0x02 => Some("VK_RBUTTON"@),
        0x03 => Some("VK_CANCEL"@),
        0x04 => Some("VK_MBUTTON"@),
        0x05 => Some("VK_XBUTTON1"@),
        0x06 => Some("VK_XBUTTON2"@),
        0x08 => Some("VK_BACK"@),
        0x09 => Some("VK_TAB"@),
        0x0C => Some("VK_CLEAR"@),
        0x0D => Some("VK_RETURN"@),
        0x10 => Some("VK_SHIFT"@),
        0x11 => Some("VK_CONTROL"@),
        0x12 => Some("VK_MENU"@),
        0x13 => Some("VK_PAUSE"@),
        0x14 => Some("VK_CAPITAL"@),
        0x15 => Some("VK_HANGUL"@),
        0x16 => Some("VK_IME_ON"@),
        0x17 => Some("VK_JUNJA"@),
        0x18 => Some("VK_FINAL"@),
        0x19 => Some("VK_KANJI"@),
        0x1A => Some("VK_IME_OFF"@),
        0x1B => Some("VK_ESCAPE"@),
        0x1C => Some("VK_CONVERT"@),
        0x1D => Some("VK_NONCONVERT"@),
        0x1E => Some("VK_ACCEPT"@),
        0x1F => Some("VK_MODECHANGE"@),
        0x20 => Some("VK_SPACE"@),
        0x21 => Some("VK_PRIOR"@),
        0x22 => Some("VK_NEXT"@),
        0x23 => Some("VK_END"@),
        0x24 => Some("VK_HOME"@),
        0x25 => Some("VK_LEFT"@),
        0x26 => Some("VK_UP"@),
        0x27 => Some("VK_RIGHT"@),
        0x28 => Some("VK_DOWN"@),
        0x29 => Some("VK_SELECT"@),
        0x2A => Some("VK_PRINT"@),
        0x2B => Some("VK_EXECUTE"@),
        0x2C => Some("VK_SNAPSHOT"@),
        0x2D => Some("VK_INSERT"@),
        0x2E => Some("VK_DELETE"@),
        0x2F => Some("VK_HELP"@),
        0x5B => Some("VK_LWIN"@),
        0x5C => Some("VK_RWIN"@),
        0x5D => Some("VK_APPS"@),
        0x5F => Some("VK_SLEEP"@),
        0x60 => Some("VK_NUMPAD0"@),
        0x61 => Some("VK_NUMPAD1"@),
        0x62 => Some("VK_NUMPAD2"@),
        0x63 => Some("VK_NUMPAD3"@),
        0x64 => Some("VK_NUMPAD4"@),
        0x65 => Some("VK_NUMPAD5"@),
        0x66 => Some("VK_NUMPAD6"@),
        0x67 => Some("VK_NUMPAD7"@),
        0x68 => Some("VK_NUMPAD8"@),
        0x69 => Some("VK_NUMPAD9"@),
        0x6A => Some("VK_MULTIPLY"@),
        0x6B => Some("VK_ADD"@),
        0x6C => Some("VK_SEPARATOR"@),
        0x6D => Some("VK_SUBTRACT"@),
        0x6E => Some("VK_DECIMAL"@),
        0x6F => Some("VK_DIVIDE"@),
        0x70 => Some("VK_F1"@),
        0x71 => Some("VK_F2"@),
        0x72 => Some("VK_F3"@),
        0x73 => Some("VK_F4"@),
        0x74 => Some("VK_F5"@),
        0x75 => Some("VK_F6"@),
        0x76 => Some("VK_F7"@),
        0x77 => Some("VK_F8"@),
        0x78 => Some("VK_F9"@),
        0x79 => Some("VK_F10"@),
        0x7A => Some("VK_F11"@),
        0x7B => Some("VK_F12"@),
        0x7C => Some("VK_F13"@),
        0x7D => Some("VK_F14"@),
        0x7E => Some("VK_F15"@),
        0x7F => Some("VK_F16"@),
        0x80 => Some("VK_F17"@),
        0x81 => Some("VK_F18"@),
        0x82 => Some("VK_F19"@),
        0x83 => Some("VK_F20"@),
        0x84 => Some("VK_F21"@),
        0x85 => Some("VK_F22"@),
        0x86 => Some("VK_F23"@),
        0x87 => Some("VK_F24"@),
        0x90 => Some("VK_NUMLOCK"@),
        0x91 => Some("VK_SCROLL"@),
        0xA0 => Some("VK_LSHIFT"@),
        0xA1 => Some("VK_RSHIFT"@),
        0xA2 => Some("VK_LCONTROL"@),
        0xA3 => Some("VK_RCONTROL"@),
        0xA4 => Some("VK_LMENU"@),
        0xA5 => Some("VK_RMENU"@),
        0xA6 => Some("VK_BROWSER_BACK"@),
        0xA7 => Some("VK_BROWSER_FORWARD"@),
        0xA8 => Some("VK_BROWSER_REFRESH"@),
        0xA9 => Some("VK_BROWSER_STOP"@),
        0xAA => Some("VK_BROWSER_SEARCH"@),
        0xAB => Some("VK_BROWSER_FAVORITES"@),
        0xAC => Some("VK_BROWSER_HOME"@),
        0xAD => Some("VK_VOLUME_MUTE"@),
        0xAE => Some("VK_VOLUME_DOWN"@),
        0xAF => Some("VK_VOLUME_UP"@),
        0xB0 => Some("VK_MEDIA_NEXT_TRACK"@),
        0xB1 => Some("VK_MEDIA_PREV_TRACK"@),
        0xB2 => Some("VK_MEDIA_STOP"@),
        0xB3 => Some("VK_MEDIA_PLAY_PAUSE"@),
        0xB4 => Some("VK_LAUNCH_MAIL"@),
        0xB5 => Some("VK_LAUNCH_MEDIA_SELECT"@),
        0xB6 => Some("VK_LAUNCH_APP1"@),
        0xB7 => Some("VK_LAUNCH_APP2"@),
        0xBA => Some("VK_OEM_1"@),
        0xBB => Some("VK_OEM_PLUS"@),
        0xBC => Some("VK_OEM_COMMA"@),
        0xBD => Some("VK_OEM_MINUS"@),
        0xBE => Some("VK_OEM_PERIOD"@),
        0xBF => Some("VK_OEM_2"@),
        0xC0 => Some("VK_OEM_3"@),
        0xC1 => Some("VK_ABNT_C1"@),
        0xC2 => Some("VK_ABNT_C2"@),
        0xDB => Some("VK_OEM_4"@),
        0xDC => Some("VK_OEM_5"@),
        0xDD => Some("VK_OEM_6"@),
        0xDE => Some("VK_OEM_7"@),
        0xDF => Some("VK_OEM_8"@),
        0xE2 => Some("VK_OEM_102"@),
        0xE5 => Some("VK_PROCESSKEY"@),
        0xE7 => Some("VK_PACKET"@),
        0xF6 => Some("VK_ATTN"@),
        0xF7 => Some("VK_CRSEL"@),
        0xF8 => Some("VK_EXSEL"@),
        0xF9 => Some("VK_EREOF"@),
        0xFA => Some("VK_PLAY"@),
        0xFB => Some("VK_ZOOM"@),
        0xFC => Some("VK_NONAME"@),
        0xFD => Some("VK_PA1"@),
        0xFE => Some("VK_OEM_CLEAR"@),
        0xFF => Some("VK__none_"@),
        _ => None,
    }
}

/// The earlier historical name of a code that carries two names. Forward
/// lookup never produces it, but reverse lookup recognizes it.
pub open spec fn spec_table_alias(code: u8) -> Option<Seq<char>> {
    match code {
        0x15 => Some("VK_KANA"@),
        0x19 => Some("VK_HANJA"@),
        _ => None,
    }
}

/// The reverse of the named-code table: the least code at or above `from`
/// that the given name names, either as its canonical table name or as its
/// earlier historical one.
pub open spec fn spec_code_search(name: Seq<char>, from: int) -> Option<u8>
    decreases 256 - from,
{
    if from < 0 || from > 255 {
        None
    } else if spec_table_name(from as u8) == Some(name) || spec_table_alias(from as u8) == Some(
        name,
    ) {
        Some(from as u8)
    } else {
        spec_code_search(name, from + 1)
    }
}

/// The canonical name of a code: the fast path when enabled and in range,
/// else the table entry.
pub open spec fn spec_name_for(code: u8, include_ascii: bool) -> Option<Seq<char>> {
    if include_ascii && spec_is_code_ascii(code) {
        Some(spec_fast_name(code))
    } else {
        spec_table_name(code)
    }
}

/// The code of a canonical name: the fast path when enabled and the name is
/// the fixed prefix plus one fast-path ASCII character, else the least
/// matching table entry.
pub open spec fn spec_code_for(name: Seq<char>, include_ascii: bool) -> Option<u8> {
    if include_ascii && name.len() == 4 && name[0] == 'V' && name[1] == 'K' && name[2] == '_'
        && (name[3] as u32) < 0x80 && spec_is_code_ascii(name[3] as u8) {
        Some(name[3] as u8)
    } else {
        spec_code_search(name, 0)
    }
}

/// The fast-path name as an owned string.
fn fast_name(code: u8) -> (r: String)
    requires
        spec_is_code_ascii(code),
    ensures
        r@ == spec_fast_name(code),
{
    proof {
        reveal_strlit("VK_0");
        reveal_strlit("VK_1");
        reveal_strlit("VK_2");
        reveal_strlit("VK_3");
        reveal_strlit("VK_4");
        reveal_strlit("VK_5");
        reveal_strlit("VK_6");
        reveal_strlit("VK_7");
        reveal_strlit("VK_8");
        reveal_strlit("VK_9");
        reveal_strlit("VK_A");
        reveal_strlit("VK_B");
        reveal_strlit("VK_C");
        reveal_strlit("VK_D");
        reveal_strlit("VK_E");
        reveal_strlit("VK_F");
        reveal_strlit("VK_G");
        reveal_strlit("VK_H");
        reveal_strlit("VK_I");
        reveal_strlit("VK_J");
        reveal_strlit("VK_K");
        reveal_strlit("VK_L");
        reveal_strlit("VK_M");
        reveal_strlit("VK_N");
        reveal_strlit("VK_O");
        reveal_strlit("VK_P");
        reveal_strlit("VK_Q");
        reveal_strlit("VK_R");
        reveal_strlit("VK_S");
        reveal_strlit("VK_T");
        reveal_strlit("VK_U");
        reveal_strlit("VK_V");
        reveal_strlit("VK_W");
        reveal_strlit("VK_X");
        reveal_strlit("VK_Y");
        reveal_strlit("VK_Z");
    }
    match code {
        0x30 => "VK_0".to_owned(),
        0x31 => "VK_1".to_owned(),
        0x32 => "VK_2".to_owned(),
        0x33 => "VK_3".to_owned(),
        0x34 => "VK_4".to_owned(),
        0x35 => "VK_5".to_owned(),
        0x36 => "VK_6".to_owned(),
        0x37 => "VK_7".to_owned(),
        0x38 => "VK_8".to_owned(),
        0x39 => "VK_9".to_owned(),
        0x41 => "VK_A".to_owned(),
        0x42 => "VK_B".to_owned(),
        0x43 => "VK_C".to_owned(),
        0x44 => "VK_D".to_owned(),
        0x45 => "VK_E".to_owned(),
        0x46 => "VK_F".to_owned(),
        0x47 => "VK_G".to_owned(),
        0x48 => "VK_H".to_owned(),
        0x49 => "VK_I".to_owned(),
        0x4A => "VK_J".to_owned(),
        0x4B => "VK_K".to_owned(),
        0x4C => "VK_L".to_owned(),
        0x4D => "VK_M".to_owned(),
        0x4E => "VK_N".to_owned(),
        0x4F => "VK_O".to_owned(),
        0x50 => "VK_P".to_owned(),
        0x51 => "VK_Q".to_owned(),
        0x52 => "VK_R".to_owned(),
        0x53 => "VK_S".to_owned(),
        0x54 => "VK_T".to_owned(),
        0x55 => "VK_U".to_owned(),
        0x56 => "VK_V".to_owned(),
        0x57 => "VK_W".to_owned(),
        0x58 => "VK_X".to_owned(),
        0x59 => "VK_Y".to_owned(),
        0x5A => "VK_Z".to_owned(),
        _ => "VK_0".to_owned(),
    }
}

/// The table name as an owned string.
fn table_name(code: u8) -> (r: Option<String>)
    ensures
        r is Some <==> spec_table_name(code) is Some,
        r is Some ==> r->0@ == spec_table_name(code)->0,
{
    match code {
        0x01 => Some("VK_LBUTTON".to_owned()),
        0x02 => Some("VK_RBUTTON".to_owned()),
        0x03 => Some("VK_CANCEL".to_owned()),
        0x04 => Some("VK_MBUTTON".to_owned()),
        0x05 => Some("VK_XBUTTON1".to_owned()),
        0x06 => Some("VK_XBUTTON2".to_owned()),
        0x08 => Some("VK_BACK".to_owned()),
        0x09 => Some("VK_TAB".to_owned()),
        0x0C => Some("VK_CLEAR".to_owned()),
        0x0D => Some("VK_RETURN".to_owned()),
        0x10 => Some("VK_SHIFT".to_owned()),
        0x11 => Some("VK_CONTROL".to_owned()),
        0x12 => Some("VK_MENU".to_owned()),
        0x13 => Some("VK_PAUSE".to_owned()),
        0x14 => Some("VK_CAPITAL".to_owned()),
        0x15 => Some("VK_HANGUL".to_owned()),
        0x16 => Some("VK_IME_ON".to_owned()),
        0x17 => Some("VK_JUNJA".to_owned()),
        0x18 => Some("VK_FINAL".to_owned()),
        0x19 => Some("VK_KANJI".to_owned()),
        0x1A => Some("VK_IME_OFF".to_owned()),
        0x1B => Some("VK_ESCAPE".to_owned()),
        0x1C => Some("VK_CONVERT".to_owned()),
        0x1D => Some("VK_NONCONVERT".to_owned()),
        0x1E => Some("VK_ACCEPT".to_owned()),
        0x1F => Some("VK_MODECHANGE".to_owned()),
        0x20 => Some("VK_SPACE".to_owned()),
        0x21 => Some("VK_PRIOR".to_owned()),
        0x22 => Some("VK_NEXT".to_owned()),
        0x23 => Some("VK_END".to_owned()),
        0x24 => Some("VK_HOME".to_owned()),
        0x25 => Some("VK_LEFT".to_owned()),
        0x26 => Some("VK_UP".to_owned()),
        0x27 => Some("VK_RIGHT".to_owned()),
        0x28 => Some("VK_DOWN".to_owned()),
        0x29 => Some("VK_SELECT".to_owned()),
        0x2A => Some("VK_PRINT".to_owned()),
        0x2B => Some("VK_EXECUTE".to_owned()),
        0x2C => Some("VK_SNAPSHOT".to_owned()),
        0x2D => Some("VK_INSERT".to_owned()),
        0x2E => Some("VK_DELETE".to_owned()),
        0x2F => Some("VK_HELP".to_owned()),
        0x5B => Some("VK_LWIN".to_owned()),
        0x5C => Some("VK_RWIN".to_owned()),
        0x5D => Some("VK_APPS".to_owned()),
        0x5F => Some("VK_SLEEP".to_owned()),
        0x60 => Some("VK_NUMPAD0".to_owned()),
        0x61 => Some("VK_NUMPAD1".to_owned()),
        0x62 => Some("VK_NUMPAD2".to_owned()),
        0x63 => Some("VK_NUMPAD3".to_owned()),
        0x64 => Some("VK_NUMPAD4".to_owned()),
        0x65 => Some("VK_NUMPAD5".to_owned()),
        0x66 => Some("VK_NUMPAD6".to_owned()),
        0x67 => Some("VK_NUMPAD7".to_owned()),
        0x68 => Some("VK_NUMPAD8".to_owned()),
        0x69 => Some("VK_NUMPAD9".to_owned()),
        0x6A => Some("VK_MULTIPLY".to_owned()),
        0x6B => Some("VK_ADD".to_owned()),
        0x6C => Some("VK_SEPARATOR".to_owned()),
        0x6D => Some("VK_SUBTRACT".to_owned()),
        0x6E => Some("VK_DECIMAL".to_owned()),
        0x6F => Some("VK_DIVIDE".to_owned()),
        0x70 => Some("VK_F1".to_owned()),
        0x71 => Some("VK_F2".to_owned()),
        0x72 => Some("VK_F3".to_owned()),
        0x73 => Some("VK_F4".to_owned()),
        0x74 => Some("VK_F5".to_owned()),
        0x75 => Some("VK_F6".to_owned()),
        0x76 => Some("VK_F7".to_owned()),
        0x77 => Some("VK_F8".to_owned()),
        0x78 => Some("VK_F9".to_owned()),
        0x79 => Some("VK_F10".to_owned()),
        0x7A => Some("VK_F11".to_owned()),
        0x7B => Some("VK_F12".to_owned()),
        0x7C => Some("VK_F13".to_owned()),
        0x7D => Some("VK_F14".to_owned()),
        0x7E => Some("VK_F15".to_owned()),
        0x7F => Some("VK_F16".to_owned()),
        0x80 => Some("VK_F17".to_owned()),
        0x81 => Some("VK_F18".to_owned()),
        0x82 => Some("VK_F19".to_owned()),
        0x83 => Some("VK_F20".to_owned()),
        0x84 => Some("VK_F21".to_owned()),
        0x85 => Some("VK_F22".to_owned()),
        0x86 => Some("VK_F23".to_owned()),
        0x87 => Some("VK_F24".to_owned()),
        0x90 => Some("VK_NUMLOCK".to_owned()),
        0x91 => Some("VK_SCROLL".to_owned()),
        0xA0 => Some("VK_LSHIFT".to_owned()),
        0xA1 => Some("VK_RSHIFT".to_owned()),
        0xA2 => Some("VK_LCONTROL".to_owned()),
        0xA3 => Some("VK_RCONTROL".to_owned()),
        0xA4 => Some("VK_LMENU".to_owned()),
        0xA5 => Some("VK_RMENU".to_owned()),
        0xA6 => Some("VK_BROWSER_BACK".to_owned()),
        0xA7 => Some("VK_BROWSER_FORWARD".to_owned()),
        0xA8 => Some("VK_BROWSER_REFRESH".to_owned()),
        0xA9 => Some("VK_BROWSER_STOP".to_owned()),
        0xAA => Some("VK_BROWSER_SEARCH".to_owned()),
        0xAB => Some("VK_BROWSER_FAVORITES".to_owned()),
        0xAC => Some("VK_BROWSER_HOME".to_owned()),
        0xAD => Some("VK_VOLUME_MUTE".to_owned()),
        0xAE => Some("VK_VOLUME_DOWN".to_owned()),
        0xAF => Some("VK_VOLUME_UP".to_owned()),
        0xB0 => Some("VK_MEDIA_NEXT_TRACK".to_owned()),
        0xB1 => Some("VK_MEDIA_PREV_TRACK".to_owned()),
        0xB2 => Some("VK_MEDIA_STOP".to_owned()),
        0xB3 => Some("VK_MEDIA_PLAY_PAUSE".to_owned()),
        0xB4 => Some("VK_LAUNCH_MAIL".to_owned()),
        0xB5 => Some("VK_LAUNCH_MEDIA_SELECT".to_owned()),
        0xB6 => Some("VK_LAUNCH_APP1".to_owned()),
        0xB7 => Some("VK_LAUNCH_APP2".to_owned()),
        0xBA => Some("VK_OEM_1".to_owned()),
        0xBB => Some("VK_OEM_PLUS".to_owned()),
        0xBC => Some("VK_OEM_COMMA".to_owned()),
        0xBD => Some("VK_OEM_MINUS".to_owned()),
        0xBE => Some("VK_OEM_PERIOD".to_owned()),
        0xBF => Some("VK_OEM_2".to_owned()),
        0xC0 => Some("VK_OEM_3".to_owned()),
        0xC1 => Some("VK_ABNT_C1".to_owned()),
        0xC2 => Some("VK_ABNT_C2".to_owned()),
        0xDB => Some("VK_OEM_4".to_owned()),
        0xDC => Some("VK_OEM_5".to_owned()),
        0xDD => Some("VK_OEM_6".to_owned()),
        0xDE => Some("VK_OEM_7".to_owned()),
        0xDF => Some("VK_OEM_8".to_owned()),
        0xE2 => Some("VK_OEM_102".to_owned()),
        0xE5 => Some("VK_PROCESSKEY".to_owned()),
        0xE7 => Some("VK_PACKET".to_owned()),
        0xF6 => Some("VK_ATTN".to_owned()),
        0xF7 => Some("VK_CRSEL".to_owned()),
        0xF8 => Some("VK_EXSEL".to_owned()),
        0xF9 => Some("VK_EREOF".to_owned()),
        0xFA => Some("VK_PLAY".to_owned()),
        0xFB => Some("VK_ZOOM".to_owned()),
        0xFC => Some("VK_NONAME".to_owned()),
        0xFD => Some("VK_PA1".to_owned()),
        0xFE => Some("VK_OEM_CLEAR".to_owned()),
        0xFF => Some("VK__none_".to_owned()),
        _ => None,
    }
}

/// The earlier historical name as an owned string.
fn table_alias(code: u8) -> (r: Option<String>)
    ensures
        r is Some <==> spec_table_alias(code) is Some,
        r is Some ==> r->0@ == spec_table_alias(code)->0,
{
    match code {
        0x15 => Some("VK_KANA".to_owned()),
        0x19 => Some("VK_HANJA".to_owned()),
        _ => None,
    }
}

impl VirtualKey {
    /// Whether a code falls in the fast-path ASCII ranges (digits and
    /// upper-case letters).
    pub fn is_code_ascii(code: u8) -> (r: bool)
        ensures
            r == spec_is_code_ascii(code),
    {
        if code >= 0x30 && code <= 0x39 {
            true
        } else if code >= 0x41 && code <= 0x5A {
            true
        } else {
            false
        }
    }

    /// The canonical symbolic name of this virtual key, if it has one:
    /// the fast-path name for ASCII-range codes when `include_ascii` is
    /// set, else the fixed table's name.
    pub fn to_vk_enum(&self, include_ascii: bool) -> (r: Option<String>)
        ensures
            r is Some <==> spec_name_for(self.code, include_ascii) is Some,
            r is Some ==> r->0@ == spec_name_for(self.code, include_ascii)->0,
    {
        if include_ascii && Self::is_code_ascii(self.code) {
            Some(fast_name(self.code))
        } else {
            table_name(self.code)
        }
    }

    /// The virtual key carrying a symbolic name, if the name is
    /// recognized: the fast path for "VK_" plus one fast-path ASCII
    /// character when `include_ascii` is set, else the fixed table's code.
    /// Both names of a code that historically carries two are recognized.
    pub fn from_vk_enum(name: &str, include_ascii: bool) -> (r: Option<VirtualKey>)
        ensures
            r is Some <==> spec_code_for(name@, include_ascii) is Some,
            r is Some ==> r->0.code == spec_code_for(name@, include_ascii)->0,
    {
        if include_ascii && name.unicode_len() == 4 {
            let c0 = name.get_char(0);
            let c1 = name.get_char(1);
            let c2 = name.get_char(2);
            let c3 = name.get_char(3);
            if c0 == 'V' && c1 == 'K' && c2 == '_' && (c3 as u32) < 0x80 {
                let code = c3 as u8;
                if Self::is_code_ascii(code) {
                    return Some(VirtualKey { code });
                }
            }
        }
        match table_code(name) {
            Some(code) => Some(VirtualKey { code }),
            None => None,
        }
    }
}

/// Scans the whole table for a code that the given name names, canonically
/// or as an earlier historical name.
fn table_code(name: &str) -> (r: Option<u8>)
    ensures
        r == spec_code_search(name@, 0),
{
    let mut code: u16 = 0;
    while code < 256
        invariant
            code <= 256,
            spec_code_search(name@, 0) == spec_code_search(name@, code as int),
        decreases 256 - code,
    {
        match table_name(code as u8) {
            Some(entry) => {
                if string_eq(&entry, name) {
                    return Some(code as u8);
                }
            },
            None => {},
        }
        match table_alias(code as u8) {
            Some(alias) => {
                if string_eq(&alias, name) {
                    return Some(code as u8);
                }
            },
            None => {},
        }
        code = code + 1;
    }
    None
}

/// Whether a string equals a string slice, character for character.
fn string_eq(a: &String, b: &str) -> (r: bool)
    ensures
        r == (a@ == b@),
{
    let owned = b.to_owned();
    a.eq(&owned)
}

/// Round trip over the fast path: for every code in the fast-path ASCII
/// ranges, looking the canonical name back up yields the same code.
pub proof fn lemma_ascii_name_round_trip(code: u8)
    requires
        spec_is_code_ascii(code),
    ensures
        spec_name_for(code, true) == Some(spec_fast_name(code)),
        spec_code_for(spec_fast_name(code), true) == Some(code),
{
    let name = spec_fast_name(code);
    assert(name[3] == code as char);
    assert((code as char) as u32 == code as u32);
    assert(name[3] as u8 == code);
}

} // verus!
