//! Scan codes: raw hardware identifiers for physical key positions. A scan
//! code is either unescaped or carried behind one of the two legacy escape
//! prefixes, so the variant tag together with the byte value is the whole
//! identity of a physical key.

use vstd::prelude::*;

verus! {

/// A physical key identity: the escape class and the code byte.
#[derive(Clone, Copy, Debug, PartialEq, Eq, Hash, Structural)]
pub enum ScanCode {
    /// A plain one-byte scan code.
    Unescaped(u8),
    /// A scan code carried behind the E0 escape prefix.
    Extended0(u8),
    /// A scan code carried behind the E1 escape prefix.
    Extended1(u8),
}

impl ScanCode {
    /// The code byte, without the escape class.
    pub open spec fn spec_code_byte(self) -> u8 {
        match self {
            ScanCode::Unescaped(b) => b,
            ScanCode::Extended0(b) => b,
            ScanCode::Extended1(b) => b,
        }
    }

    /// The code byte, without the escape class.
    pub fn code_byte(&self) -> (b: u8)
        ensures
            b == self.spec_code_byte(),
    {
        match self {
            ScanCode::Unescaped(b) => *b,
            ScanCode::Extended0(b) => *b,
            ScanCode::Extended1(b) => *b,
        }
    }
}

} // verus!
