//! The raw table layer: bounded reads over the borrowed read-only byte
//! buffer holding the layout module's memory, and the walks that extract
//! each sentinel-terminated table into owned rows. Addresses found inside
//! the tables are translated against the buffer's base address and every
//! read is bounds-checked; a read outside the buffer aborts the decode.
//!
//! The table shapes follow the legacy 64-bit layout: pointers are eight
//! bytes, and each row structure is read at its documented field offsets.

use vstd::prelude::*;
use crate::errors::DecodeError;

verus! {

// ---------------------------------------------------------------------
// Bounded little-endian reads
// ---------------------------------------------------------------------
/// Whether `size` bytes at address `addr` lie inside a buffer of length
/// `len` based at address `base`.
pub open spec fn spec_in_bounds(len: int, base: int, addr: int, size: int) -> bool {
    base <= addr && addr - base + size <= len
}

/// The byte at an offset.
pub open spec fn spec_u8(buf: Seq<u8>, off: int) -> u8 {
    buf[off]
}

/// The little-endian 16-bit word at an offset.
pub open spec fn spec_u16(buf: Seq<u8>, off: int) -> u16 {
    (buf[off] + buf[off + 1] * 0x100) as u16
}

/// The little-endian 32-bit word at an offset.
pub open spec fn spec_u32(buf: Seq<u8>, off: int) -> u32 {
    (buf[off] + buf[off + 1] * 0x100 + buf[off + 2] * 0x10000 + buf[off + 3] * 0x1000000) as u32
}

/// The little-endian 64-bit word at an offset.
pub open spec fn spec_u64(buf: Seq<u8>, off: int) -> u64 {
    (buf[off] + buf[off + 1] * 0x100 + buf[off + 2] * 0x10000 + buf[off + 3] * 0x1000000 + buf[off
        + 4] * 0x100000000 + buf[off + 5] * 0x10000000000 + buf[off + 6] * 0x1000000000000 + buf[off
        + 7] * 0x100000000000000) as u64
}

/// Translates `size` bytes at address `addr` into a buffer offset, if they
/// lie inside the buffer.
fn span(buf: &[u8], base: u64, addr: u64, size: u64) -> (r: Option<usize>)
    ensures
        r is Some <==> spec_in_bounds(buf@.len() as int, base as int, addr as int, size as int),
        r is Some ==> r->0 == addr - base,
{
    if addr < base {
        return None;
    }
    let off = addr - base;
    let len = buf.len() as u64;
    if size > len || off > len - size {
        return None;
    }
    Some(off as usize)
}

/// Reads the byte at an offset.
fn read_u8(buf: &[u8], off: usize) -> (r: u8)
    requires
        off < buf@.len(),
    ensures
        r == spec_u8(buf@, off as int),
{
    buf[off]
}

/// Reads the little-endian 16-bit word at an offset.
fn read_u16(buf: &[u8], off: usize) -> (r: u16)
    requires
        off + 2 <= buf@.len(),
    ensures
        r == spec_u16(buf@, off as int),
{
    let b0 = buf[off];
    let b1 = buf[off + 1];
    let r = (b0 as u16) | ((b1 as u16) << 8);
    proof {
        assert(r == (b0 + b1 * 0x100) as u16) by (bit_vector)
            requires
                r == (b0 as u16) | ((b1 as u16) << 8),
        ;
    }
    r
}

/// Reads the little-endian 32-bit word at an offset.
fn read_u32(buf: &[u8], off: usize) -> (r: u32)
    requires
        off + 4 <= buf@.len(),
    ensures
        r == spec_u32(buf@, off as int),
{
    let b0 = buf[off];
    let b1 = buf[off + 1];
    let b2 = buf[off + 2];
    let b3 = buf[off + 3];
    let r = (b0 as u32) | ((b1 as u32) << 8) | ((b2 as u32) << 16) | ((b3 as u32) << 24);
    proof {
        assert(r == (b0 + b1 * 0x100 + b2 * 0x10000 + b3 * 0x1000000) as u32) by (bit_vector)
            requires
                r == (b0 as u32) | ((b1 as u32) << 8) | ((b2 as u32) << 16) | ((b3 as u32) << 24),
        ;
    }
    r
}

/// Reads the little-endian 64-bit word at an offset.
fn read_u64(buf: &[u8], off: usize) -> (r: u64)
    requires
        off + 8 <= buf@.len(),
    ensures
        r == spec_u64(buf@, off as int),
{
    let b0 = buf[off];
    let b1 = buf[off + 1];
    let b2 = buf[off + 2];
    let b3 = buf[off + 3];
    let b4 = buf[off + 4];
    let b5 = buf[off + 5];
    let b6 = buf[off + 6];
    let b7 = buf[off + 7];
    let r = (b0 as u64) | ((b1 as u64) << 8) | ((b2 as u64) << 16) | ((b3 as u64) << 24) | ((
    b4 as u64) << 32) | ((b5 as u64) << 40) | ((b6 as u64) << 48) | ((b7 as u64) << 56);
    proof {
        assert(r == (b0 + b1 * 0x100 + b2 * 0x10000 + b3 * 0x1000000 + b4 * 0x100000000 + b5
            * 0x10000000000 + b6 * 0x1000000000000 + b7 * 0x100000000000000) as u64)
            by (bit_vector)
            requires
                r == (b0 as u64) | ((b1 as u64) << 8) | ((b2 as u64) << 16) | ((b3 as u64) << 24)
                    | ((b4 as u64) << 32) | ((b5 as u64) << 40) | ((b6 as u64) << 48) | ((
                b7 as u64) << 56),
        ;
    }
    r
}

// ---------------------------------------------------------------------
// Null-terminated wide strings
// ---------------------------------------------------------------------
/// The name that the lossy UTF-16 conversion gives a sequence of code
/// units; a function of the units alone.
pub uninterp spec fn utf16_lossy_of(units: Seq<u16>) -> Seq<char>;

/// Relies on String::from_utf16_lossy: the result depends on the code
/// units alone.
#[verifier::external_body]
fn utf16_lossy(units: &Vec<u16>) -> (r: String)
    ensures
        r@ == utf16_lossy_of(units@),
{
    String::from_utf16_lossy(units)
}

/// The 16-bit units at an offset up to, and not including, the first zero
/// unit; nothing if the walk leaves the buffer first.
pub open spec fn spec_wide_units(buf: Seq<u8>, off: int) -> Option<Seq<u16>>
    decreases buf.len() - off,
{
    if !(0 <= off && off + 2 <= buf.len()) {
        None
    } else if spec_u16(buf, off) == 0 {
        Some(Seq::empty())
    } else {
        match spec_wide_units(buf, off + 2) {
            None => None,
            Some(rest) => Some(seq![spec_u16(buf, off)] + rest),
        }
    }
}

/// Reads the zero-terminated 16-bit units at a buffer offset.
fn read_wide_units(buf: &[u8], start: u64) -> (r: Option<Vec<u16>>)
    ensures
        match r {
            Some(v) => spec_wide_units(buf@, start as int) == Some(v@),
            None => spec_wide_units(buf@, start as int) is None,
        },
{
    let len = buf.len() as u64;
    let mut off: u64 = start;
    let mut acc: Vec<u16> = Vec::new();
    let ghost off0 = start;
    proof {
        if spec_wide_units(buf@, off0 as int) is Some {
            assert(Seq::<u16>::empty() + spec_wide_units(buf@, off0 as int)->0 =~= spec_wide_units(
                buf@,
                off0 as int,
            )->0);
        }
    }
    loop
        invariant
            off0 == start,
            0 <= off0 <= off,
            len as int == buf@.len() as int,
            buf@.len() <= usize::MAX,
            spec_wide_units(buf@, off0 as int) == match spec_wide_units(buf@, off as int) {
                None => None::<Seq<u16>>,
                Some(rest) => Some(acc@ + rest),
            },
        decreases len - off,
    {
        if len < 2 || off > len - 2 {
            return None;
        }
        let unit = read_u16(buf, off as usize);
        if unit == 0 {
            proof {
                assert(acc@ + Seq::<u16>::empty() =~= acc@);
            }
            return Some(acc);
        }
        let ghost prev = acc@;
        acc.push(unit);
        proof {
            if spec_wide_units(buf@, off + 2) is Some {
                let rest = spec_wide_units(buf@, off + 2)->0;
                assert(prev + (seq![unit] + rest) =~= acc@ + rest);
            }
        }
        off = off + 2;
    }
}

// ---------------------------------------------------------------------
// Fixed-stride sentinel-terminated row tables
// ---------------------------------------------------------------------
/// One row of the extended scan-code tables: an explicit scan-code byte
/// and a packed virtual-key value.
#[derive(Clone, Copy, Debug, PartialEq, Eq, Structural)]
pub struct VscVkRow {
    /// The scan-code byte; zero ends the table.
    pub vsc: u8,
    /// The packed virtual-key and flag value.
    pub vk: u16,
}

/// The rows of an extended scan-code table at an offset, up to and not
/// including the first row whose scan-code byte is zero. Rows are four
/// bytes apart: the scan code at offset zero, the packed value at two.
pub open spec fn spec_vsc_vk_rows(buf: Seq<u8>, off: int) -> Option<Seq<VscVkRow>>
    decreases buf.len() - off,
{
    if !(0 <= off && off + 4 <= buf.len()) {
        None
    } else if spec_u8(buf, off) == 0 {
        Some(Seq::empty())
    } else {
        let row = VscVkRow { vsc: spec_u8(buf, off), vk: spec_u16(buf, off + 2) };
        match spec_vsc_vk_rows(buf, off + 4) {
            None => None,
            Some(rest) => Some(seq![row] + rest),
        }
    }
}

/// The extended scan-code table at an address: empty for a null address,
/// else the walk from that address.
pub open spec fn spec_vsc_vk_table(buf: Seq<u8>, base: int, addr: int) -> Option<Seq<VscVkRow>> {
    if addr == 0 {
        Some(Seq::empty())
    } else {
        spec_vsc_vk_rows(buf, addr - base)
    }
}

/// Reads an extended scan-code table.
fn read_vsc_vk_table(buf: &[u8], base: u64, addr: u64) -> (r: Option<Vec<VscVkRow>>)
    ensures
        match r {
            Some(v) => spec_vsc_vk_table(buf@, base as int, addr as int) == Some(v@),
            None => spec_vsc_vk_table(buf@, base as int, addr as int) is None,
        },
{
    let mut acc: Vec<VscVkRow> = Vec::new();
    if addr == 0 {
        return Some(acc);
    }
    if addr < base {
        return None;
    }
    let len = buf.len() as u64;
    let mut off: u64 = addr - base;
    let ghost off0 = addr - base;
    proof {
        if spec_vsc_vk_rows(buf@, off0 as int) is Some {
            assert(Seq::<VscVkRow>::empty() + spec_vsc_vk_rows(buf@, off0 as int)->0
                =~= spec_vsc_vk_rows(buf@, off0 as int)->0);
        }
    }
    loop
        invariant
            addr != 0,
            base <= addr,
            off0 == addr - base,
            0 <= off0 <= off,
            len as int == buf@.len() as int,
            buf@.len() <= usize::MAX,
            spec_vsc_vk_rows(buf@, off0 as int) == match spec_vsc_vk_rows(buf@, off as int) {
                None => None::<Seq<VscVkRow>>,
                Some(rest) => Some(acc@ + rest),
            },
        decreases len - off,
    {
        if len < 4 || off > len - 4 {
            return None;
        }
        let vsc = read_u8(buf, off as usize);
        if vsc == 0 {
            proof {
                assert(acc@ + Seq::<VscVkRow>::empty() =~= acc@);
            }
            return Some(acc);
        }
        let vk = read_u16(buf, (off + 2) as usize);
        let row = VscVkRow { vsc, vk };
        let ghost prev = acc@;
        acc.push(row);
        proof {
            if spec_vsc_vk_rows(buf@, off as int + 4) is Some {
                let rest = spec_vsc_vk_rows(buf@, off as int + 4)->0;
                assert(prev + (seq![row] + rest) =~= acc@ + rest);
            }
        }
        off = off + 4;
    }
}

/// One row of the modifier table: a virtual-key byte and the chord bit it
/// contributes.
#[derive(Clone, Copy, Debug, PartialEq, Eq, Structural)]
pub struct VkToBitRow {
    /// The modifier virtual key; zero ends the table.
    pub vk: u8,
    /// The chord bit the key contributes.
    pub mod_bits: u8,
}

/// The rows of the modifier table at an offset, up to and not including
/// the first row whose virtual-key byte is zero. Rows are two bytes apart.
pub open spec fn spec_vk_to_bit_rows(buf: Seq<u8>, off: int) -> Option<Seq<VkToBitRow>>
    decreases buf.len() - off,
{
    if !(0 <= off && off + 2 <= buf.len()) {
        None
    } else if spec_u8(buf, off) == 0 {
        Some(Seq::empty())
    } else {
        let row = VkToBitRow { vk: spec_u8(buf, off), mod_bits: spec_u8(buf, off + 1) };
        match spec_vk_to_bit_rows(buf, off + 2) {
            None => None,
            Some(rest) => Some(seq![row] + rest),
        }
    }
}

/// The modifier table at an address: empty for a null address.
pub open spec fn spec_vk_to_bit_table(buf: Seq<u8>, base: int, addr: int) -> Option<
    Seq<VkToBitRow>,
> {
    if addr == 0 {
        Some(Seq::empty())
    } else {
        spec_vk_to_bit_rows(buf, addr - base)
    }
}

/// Reads the modifier table.
fn read_vk_to_bit_table(buf: &[u8], base: u64, addr: u64) -> (r: Option<Vec<VkToBitRow>>)
    ensures
        match r {
            Some(v) => spec_vk_to_bit_table(buf@, base as int, addr as int) == Some(v@),
            None => spec_vk_to_bit_table(buf@, base as int, addr as int) is None,
        },
{
    let mut acc: Vec<VkToBitRow> = Vec::new();
    if addr == 0 {
        return Some(acc);
    }
    if addr < base {
        return None;
    }
    let len = buf.len() as u64;
    let mut off: u64 = addr - base;
    let ghost off0 = addr - base;
    proof {
        if spec_vk_to_bit_rows(buf@, off0 as int) is Some {
            assert(Seq::<VkToBitRow>::empty() + spec_vk_to_bit_rows(buf@, off0 as int)->0
                =~= spec_vk_to_bit_rows(buf@, off0 as int)->0);
        }
    }
    loop
        invariant
            addr != 0,
            base <= addr,
            off0 == addr - base,
            0 <= off0 <= off,
            len as int == buf@.len() as int,
            buf@.len() <= usize::MAX,
            spec_vk_to_bit_rows(buf@, off0 as int) == match spec_vk_to_bit_rows(buf@, off as int) {
                None => None::<Seq<VkToBitRow>>,
                Some(rest) => Some(acc@ + rest),
            },
        decreases len - off,
    {
        if len < 2 || off > len - 2 {
            return None;
        }
        let vk = read_u8(buf, off as usize);
        if vk == 0 {
            proof {
                assert(acc@ + Seq::<VkToBitRow>::empty() =~= acc@);
            }
            return Some(acc);
        }
        let mod_bits = read_u8(buf, (off + 1) as usize);
        let row = VkToBitRow { vk, mod_bits };
        let ghost prev = acc@;
        acc.push(row);
        proof {
            if spec_vk_to_bit_rows(buf@, off as int + 2) is Some {
                let rest = spec_vk_to_bit_rows(buf@, off as int + 2)->0;
                assert(prev + (seq![row] + rest) =~= acc@ + rest);
            }
        }
        off = off + 2;
    }
}

/// One row of the dead-key composition table: the accent and base
/// characters packed into one 32-bit field, the composed character, and
/// the row's flag bits.
#[derive(Clone, Copy, Debug, PartialEq, Eq, Structural)]
pub struct DeadKeyRow {
    /// The base character, from the low half of the packed field.
    pub base_char: u16,
    /// The accent character, from the high half of the packed field.
    pub accent_char: u16,
    /// The composed character; zero ends the table.
    pub composed_char: u16,
    /// The row's flag bits, copied verbatim.
    pub flags: u16,
}

/// The rows of the dead-key composition table at an offset, up to and not
/// including the first row whose composed character is zero. Rows are
/// eight bytes apart: the packed accent-and-base field at offset zero, the
/// composed character at four, the flags at six.
pub open spec fn spec_dead_key_rows(buf: Seq<u8>, off: int) -> Option<Seq<DeadKeyRow>>
    decreases buf.len() - off,
{
    if !(0 <= off && off + 8 <= buf.len()) {
        None
    } else if spec_u16(buf, off + 4) == 0 {
        Some(Seq::empty())
    } else {
        let both = spec_u32(buf, off);
        let row = DeadKeyRow {
            base_char: (both & 0xFFFF) as u16,
            accent_char: (both >> 16) as u16,
            composed_char: spec_u16(buf, off + 4),
            flags: spec_u16(buf, off + 6),
        };
        match spec_dead_key_rows(buf, off + 8) {
            None => None,
            Some(rest) => Some(seq![row] + rest),
        }
    }
}

/// The dead-key composition table at an address: empty for a null address.
pub open spec fn spec_dead_key_table(buf: Seq<u8>, base: int, addr: int) -> Option<
    Seq<DeadKeyRow>,
> {
    if addr == 0 {
        Some(Seq::empty())
    } else {
        spec_dead_key_rows(buf, addr - base)
    }
}

/// Reads the dead-key composition table.
fn read_dead_key_table(buf: &[u8], base: u64, addr: u64) -> (r: Option<Vec<DeadKeyRow>>)
    ensures
        match r {
            Some(v) => spec_dead_key_table(buf@, base as int, addr as int) == Some(v@),
            None => spec_dead_key_table(buf@, base as int, addr as int) is None,
        },
{
    let mut acc: Vec<DeadKeyRow> = Vec::new();
    if addr == 0 {
        return Some(acc);
    }
    if addr < base {
        return None;
    }
    let len = buf.len() as u64;
    let mut off: u64 = addr - base;
    let ghost off0 = addr - base;
    proof {
        if spec_dead_key_rows(buf@, off0 as int) is Some {
            assert(Seq::<DeadKeyRow>::empty() + spec_dead_key_rows(buf@, off0 as int)->0
                =~= spec_dead_key_rows(buf@, off0 as int)->0);
        }
    }
    loop
        invariant
            addr != 0,
            base <= addr,
            off0 == addr - base,
            0 <= off0 <= off,
            len as int == buf@.len() as int,
            buf@.len() <= usize::MAX,
            spec_dead_key_rows(buf@, off0 as int) == match spec_dead_key_rows(buf@, off as int) {
                None => None::<Seq<DeadKeyRow>>,
                Some(rest) => Some(acc@ + rest),
            },
        decreases len - off,
    {
        if len < 8 || off > len - 8 {
            return None;
        }
        let composed = read_u16(buf, (off + 4) as usize);
        if composed == 0 {
            proof {
                assert(acc@ + Seq::<DeadKeyRow>::empty() =~= acc@);
            }
            return Some(acc);
        }
        let both = read_u32(buf, off as usize);
        let flags = read_u16(buf, (off + 6) as usize);
        let base_char = (both & 0xFFFF) as u16;
        let accent_char = (both >> 16) as u16;
        proof {
            assert((both >> 16) <= 0xFFFF) by (bit_vector);
        }
        let row = DeadKeyRow { base_char, accent_char, composed_char: composed, flags };
        let ghost prev = acc@;
        acc.push(row);
        proof {
            if spec_dead_key_rows(buf@, off as int + 8) is Some {
                let rest = spec_dead_key_rows(buf@, off as int + 8)->0;
                assert(prev + (seq![row] + rest) =~= acc@ + rest);
            }
        }
        off = off + 8;
    }
}

// ---------------------------------------------------------------------
// Counted arrays
// ---------------------------------------------------------------------
/// The packed virtual-key values of the unescaped scan-code array: `count`
/// 16-bit words at an address, two bytes apart. An empty array needs no
/// readable memory.
pub open spec fn spec_vsc_to_vk_array(buf: Seq<u8>, base: int, addr: int, count: int) -> Option<
    Seq<u16>,
> {
    if count == 0 {
        Some(Seq::empty())
    } else if spec_in_bounds(buf.len() as int, base, addr, 2 * count) {
        Some(Seq::new(count as nat, |i: int| spec_u16(buf, addr - base + 2 * i)))
    } else {
        None
    }
}

/// Reads the unescaped scan-code array.
fn read_vsc_to_vk_array(buf: &[u8], base: u64, addr: u64, count: u8) -> (r: Option<Vec<u16>>)
    ensures
        match r {
            Some(v) => spec_vsc_to_vk_array(buf@, base as int, addr as int, count as int) == Some(
                v@,
            ),
            None => spec_vsc_to_vk_array(buf@, base as int, addr as int, count as int) is None,
        },
{
    let mut acc: Vec<u16> = Vec::new();
    if count == 0 {
        proof {
            assert(acc@ =~= Seq::<u16>::empty());
        }
        return Some(acc);
    }
    let off = match span(buf, base, addr, 2 * (count as u64)) {
        Some(o) => o,
        None => {
            return None;
        },
    };
    let slice_len = buf.len();
    proof {
        assert(buf@.len() == slice_len);
    }
    let ghost target = Seq::new(count as nat, |i: int| spec_u16(buf@, addr - base + 2 * i));
    let mut i: usize = 0;
    while i < count as usize
        invariant
            0 < count,
            off == addr - base,
            buf@.len() <= usize::MAX,
            spec_in_bounds(buf@.len() as int, base as int, addr as int, 2 * (count as int)),
            target == Seq::new(count as nat, |i: int| spec_u16(buf@, addr - base + 2 * i)),
            i <= count as usize,
            acc@ == target.take(i as int),
        decreases count as usize - i,
    {
        let unit = read_u16(buf, off + 2 * i);
        let ghost prev = acc@;
        acc.push(unit);
        proof {
            assert(prev.push(unit) =~= target.take(i as int + 1));
        }
        i = i + 1;
    }
    proof {
        assert(target.take(count as int) =~= target);
    }
    Some(acc)
}

/// The modification-number array: one byte per chord-bit pattern from zero
/// up to the given maximum inclusive, read from inside the modifier
/// structure.
pub open spec fn spec_mod_number_array(buf: Seq<u8>, off: int, count: int) -> Option<Seq<u8>> {
    if spec_in_bounds(buf.len() as int, 0, off, count) {
        Some(Seq::new(count as nat, |i: int| spec_u8(buf, off + i)))
    } else {
        None
    }
}

/// Reads the modification-number array at a buffer offset.
fn read_mod_number_array(buf: &[u8], off: u64, count: u64) -> (r: Option<Vec<u8>>)
    ensures
        match r {
            Some(v) => spec_mod_number_array(buf@, off as int, count as int) == Some(v@),
            None => spec_mod_number_array(buf@, off as int, count as int) is None,
        },
{
    let len = buf.len() as u64;
    if count > len || off > len - count {
        return None;
    }
    let ghost target = Seq::new(count as nat, |i: int| spec_u8(buf@, off as int + i));
    let mut acc: Vec<u8> = Vec::new();
    let mut i: usize = 0;
    while i < count as usize
        invariant
            off + count <= buf@.len(),
            buf@.len() <= usize::MAX,
            count <= usize::MAX,
            target == Seq::new(count as nat, |i: int| spec_u8(buf@, off as int + i)),
            i <= count as usize,
            acc@ == target.take(i as int),
        decreases count as usize - i,
    {
        let b = read_u8(buf, (off as usize) + i);
        let ghost prev = acc@;
        acc.push(b);
        proof {
            assert(prev.push(b) =~= target.take(i as int + 1));
        }
        i = i + 1;
    }
    proof {
        assert(target.take(count as int) =~= target);
    }
    Some(acc)
}

// ---------------------------------------------------------------------
// Name tables
// ---------------------------------------------------------------------
/// One row of a key-name table: a scan-code byte and the display name read
/// through the row's string pointer.
#[derive(Debug, PartialEq, Eq)]
pub struct KeyNameRow {
    /// The scan-code byte; zero ends the table.
    pub vsc: u8,
    /// The display name, converted from its zero-terminated wide string.
    pub name: String,
}

/// The abstract value of a key-name row.
pub struct KeyNameRowView {
    /// The scan-code byte.
    pub vsc: u8,
    /// The display name.
    pub name: Seq<char>,
}

impl View for KeyNameRow {
    type V = KeyNameRowView;

    open spec fn view(&self) -> KeyNameRowView {
        KeyNameRowView { vsc: self.vsc, name: self.name@ }
    }
}

/// The abstract values of a sequence of key-name rows.
pub open spec fn key_name_rows_view(s: Seq<KeyNameRow>) -> Seq<KeyNameRowView> {
    s.map_values(|r: KeyNameRow| r@)
}

/// The rows of a key-name table at an offset, up to and not including the
/// first row whose scan-code byte is zero. Rows are sixteen bytes apart:
/// the scan code at offset zero, the string pointer at eight.
pub open spec fn spec_key_name_rows(buf: Seq<u8>, base: int, off: int) -> Option<
    Seq<KeyNameRowView>,
>
    decreases buf.len() - off,
{
    if !(0 <= off && off + 16 <= buf.len()) {
        None
    } else if spec_u8(buf, off) == 0 {
        Some(Seq::empty())
    } else {
        let pwsz = spec_u64(buf, off + 8);
        match spec_wide_units(buf, pwsz - base) {
            None => None,
            Some(units) => {
                let row = KeyNameRowView { vsc: spec_u8(buf, off), name: utf16_lossy_of(units) };
                match spec_key_name_rows(buf, base, off + 16) {
                    None => None,
                    Some(rest) => Some(seq![row] + rest),
                }
            },
        }
    }
}

/// A key-name table at an address: empty for a null address.
pub open spec fn spec_key_name_table(buf: Seq<u8>, base: int, addr: int) -> Option<
    Seq<KeyNameRowView>,
> {
    if addr == 0 {
        Some(Seq::empty())
    } else {
        spec_key_name_rows(buf, base, addr - base)
    }
}

/// Reads a key-name table.
fn read_key_name_table(buf: &[u8], base: u64, addr: u64) -> (r: Option<Vec<KeyNameRow>>)
    ensures
        match r {
            Some(v) => spec_key_name_table(buf@, base as int, addr as int) == Some(
                key_name_rows_view(v@),
            ),
            None => spec_key_name_table(buf@, base as int, addr as int) is None,
        },
{
    let mut acc: Vec<KeyNameRow> = Vec::new();
    if addr == 0 {
        proof {
            assert(key_name_rows_view(acc@) =~= Seq::<KeyNameRowView>::empty());
        }
        return Some(acc);
    }
    if addr < base {
        return None;
    }
    let len = buf.len() as u64;
    let mut off: u64 = addr - base;
    let ghost off0 = addr - base;
    proof {
        assert(key_name_rows_view(acc@) =~= Seq::<KeyNameRowView>::empty());
        if spec_key_name_rows(buf@, base as int, off0 as int) is Some {
            assert(Seq::<KeyNameRowView>::empty() + spec_key_name_rows(
                buf@,
                base as int,
                off0 as int,
            )->0 =~= spec_key_name_rows(buf@, base as int, off0 as int)->0);
        }
    }
    loop
        invariant
            addr != 0,
            base <= addr,
            off0 == addr - base,
            0 <= off0 <= off,
            len as int == buf@.len() as int,
            buf@.len() <= usize::MAX,
            spec_key_name_rows(buf@, base as int, off0 as int) == match spec_key_name_rows(
                buf@,
                base as int,
                off as int,
            ) {
                None => None::<Seq<KeyNameRowView>>,
                Some(rest) => Some(key_name_rows_view(acc@) + rest),
            },
        decreases len - off,
    {
        if len < 16 || off > len - 16 {
            return None;
        }
        let vsc = read_u8(buf, off as usize);
        if vsc == 0 {
            proof {
                assert(key_name_rows_view(acc@) + Seq::<KeyNameRowView>::empty()
                    =~= key_name_rows_view(acc@));
            }
            return Some(acc);
        }
        let pwsz = read_u64(buf, (off + 8) as usize);
        let units = if pwsz < base {
            proof {
                assert(spec_wide_units(buf@, pwsz - base) is None);
            }
            None
        } else {
            read_wide_units(buf, pwsz - base)
        };
        let units = match units {
            Some(u) => u,
            None => {
                return None;
            },
        };
        let name = utf16_lossy(&units);
        let row = KeyNameRow { vsc, name };
        let ghost prev = acc@;
        acc.push(row);
        proof {
            assert(key_name_rows_view(acc@) =~= key_name_rows_view(prev).push(row@));
            if spec_key_name_rows(buf@, base as int, off as int + 16) is Some {
                let rest = spec_key_name_rows(buf@, base as int, off as int + 16)->0;
                assert(key_name_rows_view(prev) + (seq![row@] + rest) =~= key_name_rows_view(acc@)
                    + rest);
            }
        }
        off = off + 16;
    }
}

/// One record of the dead-key name table: the accent character and the
/// display name that follows it.
#[derive(Debug, PartialEq, Eq)]
pub struct DeadKeyNameRow {
    /// The accent character the name belongs to.
    pub accent_char: u16,
    /// The display name, converted from its zero-terminated wide string.
    pub name: String,
}

/// The abstract value of a dead-key name record.
pub struct DeadKeyNameRowView {
    /// The accent character the name belongs to.
    pub accent_char: u16,
    /// The display name.
    pub name: Seq<char>,
}

impl View for DeadKeyNameRow {
    type V = DeadKeyNameRowView;

    open spec fn view(&self) -> DeadKeyNameRowView {
        DeadKeyNameRowView { accent_char: self.accent_char, name: self.name@ }
    }
}

/// The abstract values of a sequence of dead-key name records.
pub open spec fn dead_key_name_rows_view(s: Seq<DeadKeyNameRow>) -> Seq<DeadKeyNameRowView> {
    s.map_values(|r: DeadKeyNameRow| r@)
}

/// The records of the dead-key name table at an offset: a table of
/// pointers eight bytes apart ending at the first null pointer, each
/// pointing at an accent character followed by its zero-terminated name.
pub open spec fn spec_dead_key_name_rows(buf: Seq<u8>, base: int, off: int) -> Option<
    Seq<DeadKeyNameRowView>,
>
    decreases buf.len() - off,
{
    if !(0 <= off && off + 8 <= buf.len()) {
        None
    } else if spec_u64(buf, off) == 0 {
        Some(Seq::empty())
    } else {
        let p = spec_u64(buf, off) - base;
        if !(0 <= p && p + 2 <= buf.len()) {
            None
        } else {
            match spec_wide_units(buf, p + 2) {
                None => None,
                Some(units) => {
                    let row = DeadKeyNameRowView {
                        accent_char: spec_u16(buf, p),
                        name: utf16_lossy_of(units),
                    };
                    match spec_dead_key_name_rows(buf, base, off + 8) {
                        None => None,
                        Some(rest) => Some(seq![row] + rest),
                    }
                },
            }
        }
    }
}

/// The dead-key name table at an address: empty for a null address.
pub open spec fn spec_dead_key_name_table(buf: Seq<u8>, base: int, addr: int) -> Option<
    Seq<DeadKeyNameRowView>,
> {
    if addr == 0 {
        Some(Seq::empty())
    } else {
        spec_dead_key_name_rows(buf, base, addr - base)
    }
}

/// Reads the dead-key name table.
fn read_dead_key_name_table(buf: &[u8], base: u64, addr: u64) -> (r: Option<Vec<DeadKeyNameRow>>)
    ensures
        match r {
            Some(v) => spec_dead_key_name_table(buf@, base as int, addr as int) == Some(
                dead_key_name_rows_view(v@),
            ),
            None => spec_dead_key_name_table(buf@, base as int, addr as int) is None,
        },
{
    let mut acc: Vec<DeadKeyNameRow> = Vec::new();
    if addr == 0 {
        proof {
            assert(dead_key_name_rows_view(acc@) =~= Seq::<DeadKeyNameRowView>::empty());
        }
        return Some(acc);
    }
    if addr < base {
        return None;
    }
    let len = buf.len() as u64;
    let mut off: u64 = addr - base;
    let ghost off0 = addr - base;
    proof {
        assert(dead_key_name_rows_view(acc@) =~= Seq::<DeadKeyNameRowView>::empty());
        if spec_dead_key_name_rows(buf@, base as int, off0 as int) is Some {
            assert(Seq::<DeadKeyNameRowView>::empty() + spec_dead_key_name_rows(
                buf@,
                base as int,
                off0 as int,
            )->0 =~= spec_dead_key_name_rows(buf@, base as int, off0 as int)->0);
        }
    }
    loop
        invariant
            addr != 0,
            base <= addr,
            off0 == addr - base,
            0 <= off0 <= off,
            len as int == buf@.len() as int,
            buf@.len() <= usize::MAX,
            spec_dead_key_name_rows(buf@, base as int, off0 as int)
                == match spec_dead_key_name_rows(buf@, base as int, off as int) {
                None => None::<Seq<DeadKeyNameRowView>>,
                Some(rest) => Some(dead_key_name_rows_view(acc@) + rest),
            },
        decreases len - off,
    {
        if len < 8 || off > len - 8 {
            return None;
        }
        let ptr = read_u64(buf, off as usize);
        if ptr == 0 {
            proof {
                assert(dead_key_name_rows_view(acc@) + Seq::<DeadKeyNameRowView>::empty()
                    =~= dead_key_name_rows_view(acc@));
            }
            return Some(acc);
        }
        if ptr < base {
            return None;
        }
        let p = ptr - base;
        if len < 2 || p > len - 2 {
            return None;
        }
        let accent_char = read_u16(buf, p as usize);
        let units = match read_wide_units(buf, p + 2) {
            Some(u) => u,
            None => {
                return None;
            },
        };
        let name = utf16_lossy(&units);
        let row = DeadKeyNameRow { accent_char, name };
        let ghost prev = acc@;
        acc.push(row);
        proof {
            assert(dead_key_name_rows_view(acc@) =~= dead_key_name_rows_view(prev).push(row@));
            if spec_dead_key_name_rows(buf@, base as int, off as int + 8) is Some {
                let rest = spec_dead_key_name_rows(buf@, base as int, off as int + 8)->0;
                assert(dead_key_name_rows_view(prev) + (seq![row@] + rest)
                    =~= dead_key_name_rows_view(acc@) + rest);
            }
        }
        off = off + 8;
    }
}

// ---------------------------------------------------------------------
// Typing row groups
// ---------------------------------------------------------------------
/// One inner row of a typing table: a virtual-key byte, an attribute byte,
/// and one character code per modification column.
#[derive(Debug, PartialEq, Eq)]
pub struct WcharRow {
    /// The virtual key; zero ends the group, 0xFF marks a dead-key partner
    /// row.
    pub virtual_key: u8,
    /// The packed capability attribute bits.
    pub attributes: u8,
    /// One character code per modification column.
    pub chars: Vec<u16>,
}

/// The abstract value of a typing row.
pub struct WcharRowView {
    /// The virtual key.
    pub virtual_key: u8,
    /// The packed capability attribute bits.
    pub attributes: u8,
    /// One character code per modification column.
    pub chars: Seq<u16>,
}

impl View for WcharRow {
    type V = WcharRowView;

    open spec fn view(&self) -> WcharRowView {
        WcharRowView {
            virtual_key: self.virtual_key,
            attributes: self.attributes,
            chars: self.chars@,
        }
    }
}

/// The abstract values of a sequence of typing rows.
pub open spec fn wchar_rows_view(s: Seq<WcharRow>) -> Seq<WcharRowView> {
    s.map_values(|r: WcharRow| r@)
}

/// One group of typing rows: the number of modification columns and the
/// rows themselves. The byte stride between rows is data-supplied and is
/// consumed during the read, not kept.
#[derive(Debug, PartialEq, Eq)]
pub struct WcharGroup {
    /// How many modification columns each row carries.
    pub n_modifications: u8,
    /// The group's rows, up to the terminator.
    pub rows: Vec<WcharRow>,
}

/// The abstract value of a typing row group.
pub struct WcharGroupView {
    /// How many modification columns each row carries.
    pub n_modifications: u8,
    /// The group's rows.
    pub rows: Seq<WcharRowView>,
}

impl View for WcharGroup {
    type V = WcharGroupView;

    open spec fn view(&self) -> WcharGroupView {
        WcharGroupView { n_modifications: self.n_modifications, rows: wchar_rows_view(self.rows@) }
    }
}

/// The abstract values of a sequence of typing row groups.
pub open spec fn wchar_groups_view(s: Seq<WcharGroup>) -> Seq<WcharGroupView> {
    s.map_values(|g: WcharGroup| g@)
}

/// The rows of one typing group at an offset, up to and not including the
/// first row whose virtual-key byte is zero. Each row carries `n`
/// character codes starting two bytes in; rows are `cb` bytes apart, as
/// the group's data supplies, and a stride of zero could never reach the
/// terminator.
pub open spec fn spec_wchar_rows(buf: Seq<u8>, off: int, n: int, cb: int) -> Result<
    Seq<WcharRowView>,
    DecodeError,
>
    decreases buf.len() - off,
{
    if !(0 <= off && off + 1 <= buf.len()) {
        Err(DecodeError::OutOfBounds)
    } else if spec_u8(buf, off) == 0 {
        Ok(Seq::empty())
    } else if off + 2 + 2 * n > buf.len() {
        Err(DecodeError::OutOfBounds)
    } else if cb <= 0 {
        Err(DecodeError::ZeroRowStride)
    } else if off + cb > buf.len() {
        Err(DecodeError::OutOfBounds)
    } else {
        let row = WcharRowView {
            virtual_key: spec_u8(buf, off),
            attributes: spec_u8(buf, off + 1),
            chars: Seq::new(n as nat, |i: int| spec_u16(buf, off + 2 + 2 * i)),
        };
        match spec_wchar_rows(buf, off + cb, n, cb) {
            Err(e) => Err(e),
            Ok(rest) => Ok(seq![row] + rest),
        }
    }
}

/// Reads the rows of one typing group.
fn read_wchar_rows(buf: &[u8], start: u64, n: u8, cb: u8) -> (r: Result<Vec<WcharRow>, DecodeError>)
    ensures
        match r {
            Ok(v) => spec_wchar_rows(buf@, start as int, n as int, cb as int) == Ok::<
                _,
                DecodeError,
            >(wchar_rows_view(v@)),
            Err(e) => spec_wchar_rows(buf@, start as int, n as int, cb as int) == Err::<
                Seq<WcharRowView>,
                _,
            >(e),
        },
{
    let len = buf.len() as u64;
    let mut off: u64 = start;
    let mut acc: Vec<WcharRow> = Vec::new();
    let ghost off0 = start;
    proof {
        assert(wchar_rows_view(acc@) =~= Seq::<WcharRowView>::empty());
        if spec_wchar_rows(buf@, off0 as int, n as int, cb as int) is Ok {
            assert(Seq::<WcharRowView>::empty() + spec_wchar_rows(
                buf@,
                off0 as int,
                n as int,
                cb as int,
            )->Ok_0 =~= spec_wchar_rows(buf@, off0 as int, n as int, cb as int)->Ok_0);
        }
    }
    loop
        invariant
            off0 == start,
            0 <= off0 <= off,
            len as int == buf@.len() as int,
            buf@.len() <= usize::MAX,
            spec_wchar_rows(buf@, off0 as int, n as int, cb as int) == match spec_wchar_rows(
                buf@,
                off as int,
                n as int,
                cb as int,
            ) {
                Err(e) => Err::<Seq<WcharRowView>, DecodeError>(e),
                Ok(rest) => Ok(wchar_rows_view(acc@) + rest),
            },
        decreases len - off,
    {
        if off >= len {
            return Err(DecodeError::OutOfBounds);
        }
        let vk = read_u8(buf, off as usize);
        if vk == 0 {
            proof {
                assert(wchar_rows_view(acc@) + Seq::<WcharRowView>::empty() =~= wchar_rows_view(
                    acc@,
                ));
            }
            return Ok(acc);
        }
        let span_needed: u64 = 2 + 2 * (n as u64);
        if span_needed > len || off > len - span_needed {
            return Err(DecodeError::OutOfBounds);
        }
        if cb == 0 {
            return Err(DecodeError::ZeroRowStride);
        }
        if (cb as u64) > len || off > len - (cb as u64) {
            return Err(DecodeError::OutOfBounds);
        }
        let attributes = read_u8(buf, (off + 1) as usize);
        let ghost target = Seq::new(n as nat, |i: int| spec_u16(buf@, off as int + 2 + 2 * i));
        let mut chars: Vec<u16> = Vec::new();
        let mut i: usize = 0;
        while i < n as usize
            invariant
                off + 2 + 2 * (n as int) <= len,
                len as int == buf@.len() as int,
                buf@.len() <= usize::MAX,
                target == Seq::new(n as nat, |i: int| spec_u16(buf@, off as int + 2 + 2 * i)),
                i <= n as usize,
                chars@ == target.take(i as int),
            decreases n as usize - i,
        {
            let unit = read_u16(buf, (off + 2) as usize + 2 * i);
            let ghost prev = chars@;
            chars.push(unit);
            proof {
                assert(prev.push(unit) =~= target.take(i as int + 1));
            }
            i = i + 1;
        }
        proof {
            assert(target.take(n as int) =~= target);
        }
        let row = WcharRow { virtual_key: vk, attributes, chars };
        let ghost prev = acc@;
        acc.push(row);
        proof {
            assert(wchar_rows_view(acc@) =~= wchar_rows_view(prev).push(row@));
            if spec_wchar_rows(buf@, off as int + cb as int, n as int, cb as int) is Ok {
                let rest = spec_wchar_rows(buf@, off as int + cb as int, n as int, cb as int)->Ok_0;
                assert(wchar_rows_view(prev) + (seq![row@] + rest) =~= wchar_rows_view(acc@)
                    + rest);
            }
        }
        off = off + cb as u64;
    }
}

/// The typing row groups at an offset, up to and not including the first
/// group whose inner-table pointer is null. Groups are sixteen bytes
/// apart: the inner-table pointer at offset zero, the column count at
/// eight, the row stride at nine.
pub open spec fn spec_wchar_groups(buf: Seq<u8>, base: int, off: int) -> Result<
    Seq<WcharGroupView>,
    DecodeError,
>
    decreases buf.len() - off,
{
    if !(0 <= off && off + 16 <= buf.len()) {
        Err(DecodeError::OutOfBounds)
    } else if spec_u64(buf, off) == 0 {
        Ok(Seq::empty())
    } else {
        let rows_addr = spec_u64(buf, off);
        let n = spec_u8(buf, off + 8);
        let cb = spec_u8(buf, off + 9);
        match spec_wchar_rows(buf, rows_addr - base, n as int, cb as int) {
            Err(e) => Err(e),
            Ok(rows) => match spec_wchar_groups(buf, base, off + 16) {
                Err(e) => Err(e),
                Ok(rest) => Ok(seq![WcharGroupView { n_modifications: n, rows }] + rest),
            },
        }
    }
}

/// The typing table of row groups at an address: empty for a null address.
pub open spec fn spec_wchar_group_table(buf: Seq<u8>, base: int, addr: int) -> Result<
    Seq<WcharGroupView>,
    DecodeError,
> {
    if addr == 0 {
        Ok(Seq::empty())
    } else {
        spec_wchar_groups(buf, base, addr - base)
    }
}

/// Reads the typing table of row groups.
fn read_wchar_group_table(buf: &[u8], base: u64, addr: u64) -> (r: Result<
    Vec<WcharGroup>,
    DecodeError,
>)
    ensures
        match r {
            Ok(v) => spec_wchar_group_table(buf@, base as int, addr as int) == Ok::<
                _,
                DecodeError,
            >(wchar_groups_view(v@)),
            Err(e) => spec_wchar_group_table(buf@, base as int, addr as int) == Err::<
                Seq<WcharGroupView>,
                _,
            >(e),
        },
{
    let mut acc: Vec<WcharGroup> = Vec::new();
    if addr == 0 {
        proof {
            assert(wchar_groups_view(acc@) =~= Seq::<WcharGroupView>::empty());
        }
        return Ok(acc);
    }
    if addr < base {
        return Err(DecodeError::OutOfBounds);
    }
    let len = buf.len() as u64;
    let mut off: u64 = addr - base;
    let ghost off0 = addr - base;
    proof {
        assert(wchar_groups_view(acc@) =~= Seq::<WcharGroupView>::empty());
        if spec_wchar_groups(buf@, base as int, off0 as int) is Ok {
            assert(Seq::<WcharGroupView>::empty() + spec_wchar_groups(
                buf@,
                base as int,
                off0 as int,
            )->Ok_0 =~= spec_wchar_groups(buf@, base as int, off0 as int)->Ok_0);
        }
    }
    loop
        invariant
            addr != 0,
            base <= addr,
            off0 == addr - base,
            0 <= off0 <= off,
            len as int == buf@.len() as int,
            buf@.len() <= usize::MAX,
            spec_wchar_groups(buf@, base as int, off0 as int) == match spec_wchar_groups(
                buf@,
                base as int,
                off as int,
            ) {
                Err(e) => Err::<Seq<WcharGroupView>, DecodeError>(e),
                Ok(rest) => Ok(wchar_groups_view(acc@) + rest),
            },
        decreases len - off,
    {
        if len < 16 || off > len - 16 {
            return Err(DecodeError::OutOfBounds);
        }
        let rows_addr = read_u64(buf, off as usize);
        if rows_addr == 0 {
            proof {
                assert(wchar_groups_view(acc@) + Seq::<WcharGroupView>::empty()
                    =~= wchar_groups_view(acc@));
            }
            return Ok(acc);
        }
        let n = read_u8(buf, (off + 8) as usize);
        let cb = read_u8(buf, (off + 9) as usize);
        let rows = if rows_addr < base {
            proof {
                assert(spec_wchar_rows(buf@, rows_addr - base, n as int, cb as int) == Err::<
                    Seq<WcharRowView>,
                    _,
                >(DecodeError::OutOfBounds));
            }
            Err(DecodeError::OutOfBounds)
        } else {
            read_wchar_rows(buf, rows_addr - base, n, cb)
        };
        let rows = match rows {
            Ok(rs) => rs,
            Err(e) => {
                return Err(e);
            },
        };
        let group = WcharGroup { n_modifications: n, rows };
        let ghost prev = acc@;
        acc.push(group);
        proof {
            assert(wchar_groups_view(acc@) =~= wchar_groups_view(prev).push(group@));
            if spec_wchar_groups(buf@, base as int, off as int + 16) is Ok {
                let rest = spec_wchar_groups(buf@, base as int, off as int + 16)->Ok_0;
                assert(wchar_groups_view(prev) + (seq![group@] + rest) =~= wchar_groups_view(acc@)
                    + rest);
            }
        }
        off = off + 16;
    }
}

// ---------------------------------------------------------------------
// The root table and the full raw read
// ---------------------------------------------------------------------
/// The root table's fields, read at their fixed offsets in the legacy
/// 64-bit layout.
#[derive(Clone, Copy, Debug, PartialEq, Eq, Structural)]
pub struct KbdHeader {
    /// Address of the modifier structure.
    pub char_modifiers_addr: u64,
    /// Address of the typing group table.
    pub wchar_table_addr: u64,
    /// Address of the dead-key composition table.
    pub dead_key_addr: u64,
    /// Address of the unescaped key-name table.
    pub key_names_addr: u64,
    /// Address of the extended key-name table.
    pub key_names_ext_addr: u64,
    /// Address of the dead-key name table.
    pub key_names_dead_addr: u64,
    /// Address of the unescaped scan-code array.
    pub vsc_to_vk_addr: u64,
    /// Length of the unescaped scan-code array.
    pub max_vsc_to_vk: u8,
    /// Address of the E0-escaped scan-code table.
    pub e0_addr: u64,
    /// Address of the E1-escaped scan-code table.
    pub e1_addr: u64,
    /// The locale flags word: version in the high half, capability bits in
    /// the low half.
    pub locale_flags: u32,
    /// The ligature table's maximum length; non-zero is unsupported.
    pub lg_max: u8,
    /// The numeric layout type.
    pub type_value: u32,
    /// The numeric layout subtype.
    pub subtype_value: u32,
}

/// The root table's fields at an address, if its whole structure lies
/// inside the buffer.
pub open spec fn spec_header(buf: Seq<u8>, base: int, root: int) -> Option<KbdHeader> {
    if spec_in_bounds(buf.len() as int, base, root, 104) {
        let off = root - base;
        Some(
            KbdHeader {
                char_modifiers_addr: spec_u64(buf, off),
                wchar_table_addr: spec_u64(buf, off + 8),
                dead_key_addr: spec_u64(buf, off + 16),
                key_names_addr: spec_u64(buf, off + 24),
                key_names_ext_addr: spec_u64(buf, off + 32),
                key_names_dead_addr: spec_u64(buf, off + 40),
                vsc_to_vk_addr: spec_u64(buf, off + 48),
                max_vsc_to_vk: spec_u8(buf, off + 56),
                e0_addr: spec_u64(buf, off + 64),
                e1_addr: spec_u64(buf, off + 72),
                locale_flags: spec_u32(buf, off + 80),
                lg_max: spec_u8(buf, off + 84),
                type_value: spec_u32(buf, off + 96),
                subtype_value: spec_u32(buf, off + 100),
            },
        )
    } else {
        None
    }
}

/// Reads the root table's fields.
fn read_header(buf: &[u8], base: u64, root: u64) -> (r: Option<KbdHeader>)
    ensures
        match r {
            Some(h) => spec_header(buf@, base as int, root as int) == Some(h),
            None => spec_header(buf@, base as int, root as int) is None,
        },
{
    let n = buf.len();
    proof {
        assert(buf@.len() == n);
    }
    let off = match span(buf, base, root, 104) {
        Some(o) => o,
        None => {
            return None;
        },
    };
    Some(
        KbdHeader {
            char_modifiers_addr: read_u64(buf, off),
            wchar_table_addr: read_u64(buf, off + 8),
            dead_key_addr: read_u64(buf, off + 16),
            key_names_addr: read_u64(buf, off + 24),
            key_names_ext_addr: read_u64(buf, off + 32),
            key_names_dead_addr: read_u64(buf, off + 40),
            vsc_to_vk_addr: read_u64(buf, off + 48),
            max_vsc_to_vk: read_u8(buf, off + 56),
            e0_addr: read_u64(buf, off + 64),
            e1_addr: read_u64(buf, off + 72),
            locale_flags: read_u32(buf, off + 80),
            lg_max: read_u8(buf, off + 84),
            type_value: read_u32(buf, off + 96),
            subtype_value: read_u32(buf, off + 100),
        },
    )
}

/// The modifier structure at an address: the modifier table read through
/// its pointer, and the modification-number array that follows the
/// maximum-bits field inline.
pub open spec fn spec_modifiers(buf: Seq<u8>, base: int, addr: int) -> Option<
    (Seq<VkToBitRow>, Seq<u8>),
> {
    if !spec_in_bounds(buf.len() as int, base, addr, 10) {
        None
    } else {
        let off = addr - base;
        let vk_to_bit_addr = spec_u64(buf, off);
        let max_mod_bits = spec_u16(buf, off + 8);
        match spec_vk_to_bit_table(buf, base, vk_to_bit_addr as int) {
            None => None,
            Some(rows) => match spec_mod_number_array(buf, off + 10, max_mod_bits + 1) {
                None => None,
                Some(nums) => Some((rows, nums)),
            },
        }
    }
}

/// Reads the modifier structure.
fn read_modifiers(buf: &[u8], base: u64, addr: u64) -> (r: Option<(Vec<VkToBitRow>, Vec<u8>)>)
    ensures
        match r {
            Some(v) => spec_modifiers(buf@, base as int, addr as int) == Some((v.0@, v.1@)),
            None => spec_modifiers(buf@, base as int, addr as int) is None,
        },
{
    let n = buf.len();
    proof {
        assert(buf@.len() == n);
    }
    let off = match span(buf, base, addr, 10) {
        Some(o) => o,
        None => {
            return None;
        },
    };
    let vk_to_bit_addr = read_u64(buf, off);
    let max_mod_bits = read_u16(buf, off + 8);
    let rows = match read_vk_to_bit_table(buf, base, vk_to_bit_addr) {
        Some(rs) => rs,
        None => {
            return None;
        },
    };
    let nums = match read_mod_number_array(
        buf,
        (addr - base) + 10,
        (max_mod_bits as u64) + 1,
    ) {
        Some(ns) => ns,
        None => {
            return None;
        },
    };
    Some((rows, nums))
}

/// Everything read out of the raw table graph: each table as owned rows,
/// and the root table's scalar fields.
#[derive(Debug, PartialEq, Eq)]
pub struct KbdTables {
    /// The packed values of the unescaped scan-code array.
    pub vsc_to_vk: Vec<u16>,
    /// The rows of the E0-escaped scan-code table.
    pub vsc_to_vk_e0: Vec<VscVkRow>,
    /// The rows of the E1-escaped scan-code table.
    pub vsc_to_vk_e1: Vec<VscVkRow>,
    /// The rows of the unescaped key-name table.
    pub key_names: Vec<KeyNameRow>,
    /// The rows of the extended key-name table.
    pub key_names_ext: Vec<KeyNameRow>,
    /// The rows of the modifier table.
    pub vk_to_bit: Vec<VkToBitRow>,
    /// The modification-number array, indexed by chord bit pattern.
    pub mod_numbers: Vec<u8>,
    /// The typing row groups.
    pub wchar_groups: Vec<WcharGroup>,
    /// The rows of the dead-key composition table.
    pub dead_key_rows: Vec<DeadKeyRow>,
    /// The records of the dead-key name table.
    pub dead_key_names: Vec<DeadKeyNameRow>,
    /// The locale flags word.
    pub locale_flags: u32,
    /// The ligature table's maximum length.
    pub lg_max: u8,
    /// The numeric layout type.
    pub type_value: u32,
    /// The numeric layout subtype.
    pub subtype_value: u32,
}

/// The abstract value of the raw tables.
pub struct KbdTablesView {
    /// The packed values of the unescaped scan-code array.
    pub vsc_to_vk: Seq<u16>,
    /// The rows of the E0-escaped scan-code table.
    pub vsc_to_vk_e0: Seq<VscVkRow>,
    /// The rows of the E1-escaped scan-code table.
    pub vsc_to_vk_e1: Seq<VscVkRow>,
    /// The rows of the unescaped key-name table.
    pub key_names: Seq<KeyNameRowView>,
    /// The rows of the extended key-name table.
    pub key_names_ext: Seq<KeyNameRowView>,
    /// The rows of the modifier table.
    pub vk_to_bit: Seq<VkToBitRow>,
    /// The modification-number array, indexed by chord bit pattern.
    pub mod_numbers: Seq<u8>,
    /// The typing row groups.
    pub wchar_groups: Seq<WcharGroupView>,
    /// The rows of the dead-key composition table.
    pub dead_key_rows: Seq<DeadKeyRow>,
    /// The records of the dead-key name table.
    pub dead_key_names: Seq<DeadKeyNameRowView>,
    /// The locale flags word.
    pub locale_flags: u32,
    /// The ligature table's maximum length.
    pub lg_max: u8,
    /// The numeric layout type.
    pub type_value: u32,
    /// The numeric layout subtype.
    pub subtype_value: u32,
}

impl KbdTablesView {
    /// Whether every typing row carries exactly its group's number of
    /// character columns, as rows read from a buffer always do.
    pub open spec fn wf(self) -> bool {
        forall|g: int, j: int|
            0 <= g < self.wchar_groups.len() && 0 <= j < self.wchar_groups[g].rows.len()
                ==> (#[trigger] self.wchar_groups[g].rows[j]).chars.len()
                == self.wchar_groups[g].n_modifications
    }
}

/// Rows read from a buffer carry exactly `n` character columns each.
proof fn lemma_wchar_rows_len(buf: Seq<u8>, off: int, n: int, cb: int)
    requires
        n >= 0,
    ensures
        spec_wchar_rows(buf, off, n, cb) matches Ok(rows) ==> forall|j: int|
            0 <= j < rows.len() ==> (#[trigger] rows[j]).chars.len() == n,
    decreases buf.len() - off,
{
    if 0 <= off && off + 1 <= buf.len() && spec_u8(buf, off) != 0 && off + 2 + 2 * n <= buf.len()
        && cb > 0 && off + cb <= buf.len() {
        lemma_wchar_rows_len(buf, off + cb, n, cb);
        if spec_wchar_rows(buf, off, n, cb) is Ok {
            let rows = spec_wchar_rows(buf, off, n, cb)->Ok_0;
            let rest = spec_wchar_rows(buf, off + cb, n, cb)->Ok_0;
            assert forall|j: int| 0 <= j < rows.len() implies (#[trigger] rows[j]).chars.len()
                == n by {
                if j > 0 {
                    assert(rows[j] == rest[j - 1]);
                } else {
                    assert(rows[0].chars.len() == Seq::new(
                        n as nat,
                        |i: int| spec_u16(buf, off + 2 + 2 * i),
                    ).len());
                }
            }
        }
    }
}

/// Groups read from a buffer are well-formed: each of their rows carries
/// exactly the group's number of character columns.
proof fn lemma_wchar_groups_wf(buf: Seq<u8>, base: int, off: int)
    ensures
        spec_wchar_groups(buf, base, off) matches Ok(groups) ==> forall|g: int, j: int|
            0 <= g < groups.len() && 0 <= j < groups[g].rows.len() ==> (
            #[trigger] groups[g].rows[j]).chars.len() == groups[g].n_modifications,
    decreases buf.len() - off,
{
    if 0 <= off && off + 16 <= buf.len() && spec_u64(buf, off) != 0 {
        let rows_addr = spec_u64(buf, off);
        let n = spec_u8(buf, off + 8);
        let cb = spec_u8(buf, off + 9);
        lemma_wchar_rows_len(buf, rows_addr - base, n as int, cb as int);
        lemma_wchar_groups_wf(buf, base, off + 16);
        if spec_wchar_groups(buf, base, off) is Ok {
            let groups = spec_wchar_groups(buf, base, off)->Ok_0;
            let rest = spec_wchar_groups(buf, base, off + 16)->Ok_0;
            assert forall|g: int, j: int|
                0 <= g < groups.len() && 0 <= j < groups[g].rows.len() implies (
            #[trigger] groups[g].rows[j]).chars.len() == groups[g].n_modifications by {
                if g > 0 {
                    assert(groups[g] == rest[g - 1]);
                }
            }
        }
    }
}

/// The typing groups of a whole raw read are well-formed.
pub proof fn lemma_read_tables_wf(buf: Seq<u8>, base: int, root: int)
    ensures
        spec_read_tables(buf, base, root) matches Ok(t) ==> t.wf(),
{
    if spec_read_tables(buf, base, root) is Ok {
        let h = spec_header(buf, base, root)->0;
        lemma_wchar_groups_wf(buf, base, h.wchar_table_addr - base);
    }
}

impl View for KbdTables {
    type V = KbdTablesView;

    open spec fn view(&self) -> KbdTablesView {
        KbdTablesView {
            vsc_to_vk: self.vsc_to_vk@,
            vsc_to_vk_e0: self.vsc_to_vk_e0@,
            vsc_to_vk_e1: self.vsc_to_vk_e1@,
            key_names: key_name_rows_view(self.key_names@),
            key_names_ext: key_name_rows_view(self.key_names_ext@),
            vk_to_bit: self.vk_to_bit@,
            mod_numbers: self.mod_numbers@,
            wchar_groups: wchar_groups_view(self.wchar_groups@),
            dead_key_rows: self.dead_key_rows@,
            dead_key_names: dead_key_name_rows_view(self.dead_key_names@),
            locale_flags: self.locale_flags,
            lg_max: self.lg_max,
            type_value: self.type_value,
            subtype_value: self.subtype_value,
        }
    }
}

/// Everything the raw read extracts from a buffer, in the order the tables
/// are walked: the root table, the physical-key tables, the modifier
/// structure, the typing groups, and the dead-key tables. The first table
/// that leaves the buffer decides the error.
pub open spec fn spec_read_tables(buf: Seq<u8>, base: int, root: int) -> Result<
    KbdTablesView,
    DecodeError,
> {
    match spec_header(buf, base, root) {
        None => Err(DecodeError::OutOfBounds),
        Some(h) => match spec_vsc_to_vk_array(
            buf,
            base,
            h.vsc_to_vk_addr as int,
            h.max_vsc_to_vk as int,
        ) {
            None => Err(DecodeError::OutOfBounds),
            Some(vsc_to_vk) => match spec_vsc_vk_table(buf, base, h.e0_addr as int) {
                None => Err(DecodeError::OutOfBounds),
                Some(e0) => match spec_vsc_vk_table(buf, base, h.e1_addr as int) {
                    None => Err(DecodeError::OutOfBounds),
                    Some(e1) => match spec_key_name_table(buf, base, h.key_names_addr as int) {
                        None => Err(DecodeError::OutOfBounds),
                        Some(names) => match spec_key_name_table(
                            buf,
                            base,
                            h.key_names_ext_addr as int,
                        ) {
                            None => Err(DecodeError::OutOfBounds),
                            Some(names_ext) => match spec_modifiers(
                                buf,
                                base,
                                h.char_modifiers_addr as int,
                            ) {
                                None => Err(DecodeError::OutOfBounds),
                                Some(mods) => match spec_wchar_group_table(
                                    buf,
                                    base,
                                    h.wchar_table_addr as int,
                                ) {
                                    Err(e) => Err(e),
                                    Ok(groups) => match spec_dead_key_table(
                                        buf,
                                        base,
                                        h.dead_key_addr as int,
                                    ) {
                                        None => Err(DecodeError::OutOfBounds),
                                        Some(dead_rows) => match spec_dead_key_name_table(
                                            buf,
                                            base,
                                            h.key_names_dead_addr as int,
                                        ) {
                                            None => Err(DecodeError::OutOfBounds),
                                            Some(dead_names) => Ok(
                                                KbdTablesView {
                                                    vsc_to_vk,
                                                    vsc_to_vk_e0: e0,
                                                    vsc_to_vk_e1: e1,
                                                    key_names: names,
                                                    key_names_ext: names_ext,
                                                    vk_to_bit: mods.0,
                                                    mod_numbers: mods.1,
                                                    wchar_groups: groups,
                                                    dead_key_rows: dead_rows,
                                                    dead_key_names: dead_names,
                                                    locale_flags: h.locale_flags,
                                                    lg_max: h.lg_max,
                                                    type_value: h.type_value,
                                                    subtype_value: h.subtype_value,
                                                },
                                            ),
                                        },
                                    },
                                },
                            },
                        },
                    },
                },
            },
        },
    }
}

/// Reads every raw table reachable from the root table in one pass over
/// the buffer.
pub fn read_tables(buf: &[u8], base: u64, root: u64) -> (r: Result<KbdTables, DecodeError>)
    ensures
        match r {
            Ok(t) => spec_read_tables(buf@, base as int, root as int) == Ok::<_, DecodeError>(t@)
                && t@.wf(),
            Err(e) => spec_read_tables(buf@, base as int, root as int) == Err::<KbdTablesView, _>(
                e,
            ),
        },
{
    proof {
        lemma_read_tables_wf(buf@, base as int, root as int);
    }
    let h = match read_header(buf, base, root) {
        Some(h) => h,
        None => {
            return Err(DecodeError::OutOfBounds);
        },
    };
    let vsc_to_vk = match read_vsc_to_vk_array(buf, base, h.vsc_to_vk_addr, h.max_vsc_to_vk) {
        Some(v) => v,
        None => {
            return Err(DecodeError::OutOfBounds);
        },
    };
    let vsc_to_vk_e0 = match read_vsc_vk_table(buf, base, h.e0_addr) {
        Some(v) => v,
        None => {
            return Err(DecodeError::OutOfBounds);
        },
    };
    let vsc_to_vk_e1 = match read_vsc_vk_table(buf, base, h.e1_addr) {
        Some(v) => v,
        None => {
            return Err(DecodeError::OutOfBounds);
        },
    };
    let key_names = match read_key_name_table(buf, base, h.key_names_addr) {
        Some(v) => v,
        None => {
            return Err(DecodeError::OutOfBounds);
        },
    };
    let key_names_ext = match read_key_name_table(buf, base, h.key_names_ext_addr) {
        Some(v) => v,
        None => {
            return Err(DecodeError::OutOfBounds);
        },
    };
    let (vk_to_bit, mod_numbers) = match read_modifiers(buf, base, h.char_modifiers_addr) {
        Some(v) => v,
        None => {
            return Err(DecodeError::OutOfBounds);
        },
    };
    let wchar_groups = match read_wchar_group_table(buf, base, h.wchar_table_addr) {
        Ok(v) => v,
        Err(e) => {
            return Err(e);
        },
    };
    let dead_key_rows = match read_dead_key_table(buf, base, h.dead_key_addr) {
        Some(v) => v,
        None => {
            return Err(DecodeError::OutOfBounds);
        },
    };
    let dead_key_names = match read_dead_key_name_table(buf, base, h.key_names_dead_addr) {
        Some(v) => v,
        None => {
            return Err(DecodeError::OutOfBounds);
        },
    };
    Ok(
        KbdTables {
            vsc_to_vk,
            vsc_to_vk_e0,
            vsc_to_vk_e1,
            key_names,
            key_names_ext,
            vk_to_bit,
            mod_numbers,
            wchar_groups,
            dead_key_rows,
            dead_key_names,
            locale_flags: h.locale_flags,
            lg_max: h.lg_max,
            type_value: h.type_value,
            subtype_value: h.subtype_value,
        },
    )
}

} // verus!
