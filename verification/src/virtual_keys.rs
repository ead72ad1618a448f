//! Virtual keys: logical key identifiers independent of physical position.
//! A virtual key is a single byte; the value 0xFF is a reserved sentinel
//! meaning "no mapping". The per-assignment flag bits decoded from the high
//! byte of a packed 16-bit table value live here as well.

use vstd::prelude::*;

verus! {

/// The reserved virtual-key byte meaning "no mapping".
pub const VK_NONE: u8 = 0xFF;

/// A logical key identifier: a single byte 0 to 255.
#[derive(Clone, Copy, Debug, PartialEq, Eq, Hash, Structural)]
pub struct VirtualKey {
    /// The virtual-key code byte.
    pub code: u8,
}

/// Per-assignment flags decoded from the high byte of a packed
/// virtual-key value; one independent boolean per bit.
#[derive(Clone, Copy, Debug, PartialEq, Eq, Hash, Structural)]
pub struct VirtualKeyFlags {
    /// The key is an extended key.
    pub extended: bool,
    /// The key comes up in multi-key sequences.
    pub multi_vk: bool,
    /// The key is special-cased by the input stack.
    pub special: bool,
    /// The key sits on the numeric pad.
    pub numpad: bool,
    /// The value is a Unicode code point rather than a key.
    pub unicode: bool,
    /// The key event was injected.
    pub injected_vk: bool,
    /// The value was remapped by the driver.
    pub mapped_vk: bool,
    /// The value marks a key release rather than a press.
    pub is_break: bool,
}

impl VirtualKeyFlags {
    /// The flags denoted by a packed byte: one boolean per bit.
    pub open spec fn spec_from_bits(bits: u8) -> VirtualKeyFlags {
        VirtualKeyFlags {
            extended: bits & 0x01 != 0,
            multi_vk: bits & 0x02 != 0,
            special: bits & 0x04 != 0,
            numpad: bits & 0x08 != 0,
            unicode: bits & 0x10 != 0,
            injected_vk: bits & 0x20 != 0,
            mapped_vk: bits & 0x40 != 0,
            is_break: bits & 0x80 != 0,
        }
    }

    /// Decodes a packed flag byte into its eight booleans.
    pub fn from_bits(bits: u8) -> (r: VirtualKeyFlags)
        ensures
            r == Self::spec_from_bits(bits),
    {
        VirtualKeyFlags {
            extended: bits & 0x01 != 0,
            multi_vk: bits & 0x02 != 0,
            special: bits & 0x04 != 0,
            numpad: bits & 0x08 != 0,
            unicode: bits & 0x10 != 0,
            injected_vk: bits & 0x20 != 0,
            mapped_vk: bits & 0x40 != 0,
            is_break: bits & 0x80 != 0,
        }
    }
}

impl VirtualKey {
    /// The virtual key packed into the low byte of a 16-bit table value.
    pub open spec fn spec_key_of_extended_bits(value: u16) -> VirtualKey {
        VirtualKey { code: (value & 0xFF) as u8 }
    }

    /// The flag byte packed into the high byte of a 16-bit table value.
    pub open spec fn spec_flags_of_extended_bits(value: u16) -> VirtualKeyFlags {
        VirtualKeyFlags::spec_from_bits((value >> 8) as u8)
    }

    /// Splits a packed 16-bit table value into the virtual key (low byte)
    /// and its flags (high byte).
    pub fn from_extended_bits(value: u16) -> (r: (VirtualKey, VirtualKeyFlags))
        ensures
            r.0 == Self::spec_key_of_extended_bits(value),
            r.1 == Self::spec_flags_of_extended_bits(value),
    {
        (VirtualKey { code: (value & 0xFF) as u8 }, VirtualKeyFlags::from_bits((value >> 8) as u8))
    }

    /// Whether this is the reserved "no mapping" sentinel.
    pub open spec fn spec_is_none(self) -> bool {
        self.code == VK_NONE
    }

    /// Whether this is the reserved "no mapping" sentinel.
    pub fn is_none(&self) -> (r: bool)
        ensures
            r == self.spec_is_none(),
    {
        self.code == VK_NONE
    }
}

} // verus!
