//! Textual rendering of key identities, as consumed by external
//! serialization: scan codes as two upper-case hex digits with an escape
//! prefix for the extended variants, and virtual keys as their symbolic
//! name when one exists, else their two-digit hex code, with the reserved
//! "no mapping" value rendered as an explicit absence.

use vstd::prelude::*;
use vstd::string::StringExecFns;
use crate::naming::spec_name_for;
use crate::scan_codes::ScanCode;
use crate::virtual_keys::{VirtualKey, VK_NONE};

verus! {

/// One upper-case hex digit as a one-character string view.
pub open spec fn spec_hex_digit(n: u8) -> Seq<char> {
    match n {
        0x0 => "0"@,
        0x1 => "1"@,
        0x2 => "2"@,
        0x3 => "3"@,
        0x4 => "4"@,
        0x5 => "5"@,
        0x6 => "6"@,
        0x7 => "7"@,
        0x8 => "8"@,
        0x9 => "9"@,
        0xA => "A"@,
        0xB => "B"@,
        0xC => "C"@,
        0xD => "D"@,
        0xE => "E"@,
        _ => "F"@,
    }
}

/// A byte as two upper-case hex digits, high digit first.
pub open spec fn spec_hex_byte(b: u8) -> Seq<char> {
    spec_hex_digit(b / 16) + spec_hex_digit(b % 16)
}

/// A scan code rendered as text: the two hex digits of its byte, behind
/// the escape prefix of its variant.
pub open spec fn spec_render_scan_code(sc: ScanCode) -> Seq<char> {
    match sc {
        ScanCode::Unescaped(b) => spec_hex_byte(b),
        ScanCode::Extended0(b) => "E0"@ + spec_hex_byte(b),
        ScanCode::Extended1(b) => "E1"@ + spec_hex_byte(b),
    }
}

/// A virtual key rendered as text: nothing for the reserved "no mapping"
/// value, else the symbolic name when one exists, else the two hex digits
/// of the code.
pub open spec fn spec_render_virtual_key(code: u8) -> Option<Seq<char>> {
    if code == VK_NONE {
        None
    } else {
        match spec_name_for(code, true) {
            Some(name) => Some(name),
            None => Some(spec_hex_byte(code)),
        }
    }
}

/// One upper-case hex digit.
fn hex_digit(n: u8) -> (r: &'static str)
    requires
        n < 16,
    ensures
        r@ == spec_hex_digit(n),
{
    match n {
        0x0 => "0",
        0x1 => "1",
        0x2 => "2",
        0x3 => "3",
        0x4 => "4",
        0x5 => "5",
        0x6 => "6",
        0x7 => "7",
        0x8 => "8",
        0x9 => "9",
        0xA => "A",
        0xB => "B",
        0xC => "C",
        0xD => "D",
        0xE => "E",
        _ => "F",
    }
}

/// A byte as two upper-case hex digits.
pub fn hex_byte_string(b: u8) -> (r: String)
    ensures
        r@ == spec_hex_byte(b),
{
    let mut s = hex_digit(b / 16).to_owned();
    s.append(hex_digit(b % 16));
    s
}

impl ScanCode {
    /// Renders the scan code as upper-case hex text with the escape prefix
    /// of its variant.
    pub fn render(&self) -> (r: String)
        ensures
            r@ == spec_render_scan_code(*self),
    {
        match self {
            ScanCode::Unescaped(b) => hex_byte_string(*b),
            ScanCode::Extended0(b) => {
                let mut s = "E0".to_owned();
                let tail = hex_byte_string(*b);
                s.append(tail.as_str());
                s
            },
            ScanCode::Extended1(b) => {
                let mut s = "E1".to_owned();
                let tail = hex_byte_string(*b);
                s.append(tail.as_str());
                s
            },
        }
    }
}

impl VirtualKey {
    /// Renders the virtual key: nothing for the reserved "no mapping"
    /// value, the symbolic name when one exists, else the two hex digits
    /// of the code.
    pub fn render(&self) -> (r: Option<String>)
        ensures
            r is Some <==> spec_render_virtual_key(self.code) is Some,
            r is Some ==> r->0@ == spec_render_virtual_key(self.code)->0,
    {
        if self.code == VK_NONE {
            return None;
        }
        match self.to_vk_enum(true) {
            Some(name) => Some(name),
            None => Some(hex_byte_string(self.code)),
        }
    }
}

} // verus!
