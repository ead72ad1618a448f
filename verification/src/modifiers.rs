//! Modifier chords: a simultaneous combination of modifier keys packed 1:1
//! into a single byte. The packed byte is the canonical encoding of a chord;
//! every map keyed by chords is keyed by that byte.

use vstd::prelude::*;
use vstd::string::StringExecFns;

verus! {

/// Bit assigned to the shift modifier in a packed chord byte.
pub const KBD_SHIFT: u8 = 0x01;
/// Bit assigned to the control modifier in a packed chord byte.
pub const KBD_CTRL: u8 = 0x02;
/// Bit assigned to the alt modifier in a packed chord byte.
pub const KBD_ALT: u8 = 0x04;
/// Bit assigned to the kana modifier in a packed chord byte.
pub const KBD_KANA: u8 = 0x08;
/// Bit assigned to the right-oyayubi modifier in a packed chord byte.
pub const KBD_ROYA: u8 = 0x10;
/// Bit assigned to the left-oyayubi modifier in a packed chord byte.
pub const KBD_LOYA: u8 = 0x20;
/// Bit with no documented meaning, carried through unchanged.
pub const KBD_UNKNOWN_0X40: u8 = 0x40;
/// Bit assigned to the group-select modifier in a packed chord byte.
pub const KBD_GRPSELTAP: u8 = 0x80;

/// A modifier chord: eight independent booleans, one per bit of the packed
/// byte encoding.
#[derive(Clone, Copy, Debug, PartialEq, Eq, Hash, Structural)]
pub struct KeyModifiers {
    /// The shift modifier.
    pub shift: bool,
    /// The control modifier. Combines with alt for altgr.
    pub control: bool,
    /// The alt modifier. Combines with control for altgr.
    pub alt: bool,
    /// The kana modifier.
    pub kana: bool,
    /// The right-oyayubi modifier.
    pub roya: bool,
    /// The left-oyayubi modifier.
    pub loya: bool,
    /// An undocumented modifier bit, kept so the byte round-trips.
    pub unknown0x40: bool,
    /// The group-select modifier.
    pub grpseltap: bool,
}

/// Packs eight booleans into a byte, one bit each, lowest bit first.
pub open spec fn spec_pack_bits(
    shift: bool,
    control: bool,
    alt: bool,
    kana: bool,
    roya: bool,
    loya: bool,
    unknown0x40: bool,
    grpseltap: bool,
) -> u8 {
    (if shift { KBD_SHIFT } else { 0 }) | (if control { KBD_CTRL } else { 0 }) | (if alt {
        KBD_ALT
    } else {
        0
    }) | (if kana { KBD_KANA } else { 0 }) | (if roya { KBD_ROYA } else { 0 }) | (if loya {
        KBD_LOYA
    } else {
        0
    }) | (if unknown0x40 { KBD_UNKNOWN_0X40 } else { 0 }) | (if grpseltap {
        KBD_GRPSELTAP
    } else {
        0
    })
}

impl KeyModifiers {
    /// The chord denoted by a packed byte: one boolean per bit.
    pub open spec fn spec_from_bits(bits: u8) -> KeyModifiers {
        KeyModifiers {
            shift: bits & KBD_SHIFT != 0,
            control: bits & KBD_CTRL != 0,
            alt: bits & KBD_ALT != 0,
            kana: bits & KBD_KANA != 0,
            roya: bits & KBD_ROYA != 0,
            loya: bits & KBD_LOYA != 0,
            unknown0x40: bits & KBD_UNKNOWN_0X40 != 0,
            grpseltap: bits & KBD_GRPSELTAP != 0,
        }
    }

    /// The packed byte encoding of a chord.
    pub open spec fn spec_to_bits(self) -> u8 {
        spec_pack_bits(
            self.shift,
            self.control,
            self.alt,
            self.kana,
            self.roya,
            self.loya,
            self.unknown0x40,
            self.grpseltap,
        )
    }

    /// Decodes a packed chord byte into its eight booleans.
    pub fn from_bits(bits: u8) -> (r: KeyModifiers)
        ensures
            r == Self::spec_from_bits(bits),
    {
        KeyModifiers {
            shift: bits & KBD_SHIFT != 0,
            control: bits & KBD_CTRL != 0,
            alt: bits & KBD_ALT != 0,
            kana: bits & KBD_KANA != 0,
            roya: bits & KBD_ROYA != 0,
            loya: bits & KBD_LOYA != 0,
            unknown0x40: bits & KBD_UNKNOWN_0X40 != 0,
            grpseltap: bits & KBD_GRPSELTAP != 0,
        }
    }

    /// Packs the chord back into its canonical byte encoding.
    pub fn to_bits(&self) -> (r: u8)
        ensures
            r == self.spec_to_bits(),
    {
        (if self.shift { KBD_SHIFT } else { 0 }) | (if self.control { KBD_CTRL } else { 0 }) | (
        if self.alt { KBD_ALT } else { 0 }) | (if self.kana { KBD_KANA } else { 0 }) | (if self.roya {
            KBD_ROYA
        } else {
            0
        }) | (if self.loya { KBD_LOYA } else { 0 }) | (if self.unknown0x40 {
            KBD_UNKNOWN_0X40
        } else {
            0
        }) | (if self.grpseltap { KBD_GRPSELTAP } else { 0 })
    }
}

/// The short lowercase mask string of a chord: one fixed letter for each
/// active bit, concatenated in a fixed order.
pub open spec fn spec_mask_string(m: KeyModifiers) -> Seq<char> {
    (if m.shift {
        seq!['s']
    } else {
        Seq::empty()
    }) + (if m.control {
        seq!['c']
    } else {
        Seq::empty()
    }) + (if m.alt {
        seq!['a']
    } else {
        Seq::empty()
    }) + (if m.kana {
        seq!['k']
    } else {
        Seq::empty()
    }) + (if m.roya {
        seq!['r']
    } else {
        Seq::empty()
    }) + (if m.loya {
        seq!['l']
    } else {
        Seq::empty()
    }) + (if m.unknown0x40 {
        seq!['u']
    } else {
        Seq::empty()
    }) + (if m.grpseltap {
        seq!['g']
    } else {
        Seq::empty()
    })
}

/// The named token of a chord with exactly one named bit set: the name of
/// that modifier. Chords with several bits, no bits, or only unnamed bits
/// have no token.
pub open spec fn spec_modifier_token(m: KeyModifiers) -> Option<Seq<char>> {
    let bits = m.spec_to_bits();
    if bits == KBD_SHIFT {
        Some("shift"@)
    } else if bits == KBD_CTRL {
        Some("control"@)
    } else if bits == KBD_ALT {
        Some("alt"@)
    } else if bits == KBD_KANA {
        Some("kana"@)
    } else if bits == KBD_ROYA {
        Some("roya"@)
    } else if bits == KBD_LOYA {
        Some("loya"@)
    } else {
        None
    }
}

impl KeyModifiers {
    /// Renders the chord as its short lowercase mask string, one letter per
    /// active bit in a fixed order.
    pub fn to_mask_string(&self) -> (r: String)
        ensures
            r@ == spec_mask_string(*self),
    {
        proof {
            reveal_strlit("s");
            reveal_strlit("c");
            reveal_strlit("a");
            reveal_strlit("k");
            reveal_strlit("r");
            reveal_strlit("l");
            reveal_strlit("u");
            reveal_strlit("g");
            reveal_strlit("");
        }
        let mut mask = (if self.shift { "s" } else { "" }).to_owned();
        mask.append(if self.control { "c" } else { "" });
        mask.append(if self.alt { "a" } else { "" });
        mask.append(if self.kana { "k" } else { "" });
        mask.append(if self.roya { "r" } else { "" });
        mask.append(if self.loya { "l" } else { "" });
        mask.append(if self.unknown0x40 { "u" } else { "" });
        mask.append(if self.grpseltap { "g" } else { "" });
        proof {
            assert((if self.shift { "s"@ } else { ""@ }) == (if self.shift {
                seq!['s']
            } else {
                Seq::<char>::empty()
            }));
            assert((if self.control { "c"@ } else { ""@ }) == (if self.control {
                seq!['c']
            } else {
                Seq::<char>::empty()
            }));
            assert((if self.alt { "a"@ } else { ""@ }) == (if self.alt {
                seq!['a']
            } else {
                Seq::<char>::empty()
            }));
            assert((if self.kana { "k"@ } else { ""@ }) == (if self.kana {
                seq!['k']
            } else {
                Seq::<char>::empty()
            }));
            assert((if self.roya { "r"@ } else { ""@ }) == (if self.roya {
                seq!['r']
            } else {
                Seq::<char>::empty()
            }));
            assert((if self.loya { "l"@ } else { ""@ }) == (if self.loya {
                seq!['l']
            } else {
                Seq::<char>::empty()
            }));
            assert((if self.unknown0x40 { "u"@ } else { ""@ }) == (if self.unknown0x40 {
                seq!['u']
            } else {
                Seq::<char>::empty()
            }));
            assert((if self.grpseltap { "g"@ } else { ""@ }) == (if self.grpseltap {
                seq!['g']
            } else {
                Seq::<char>::empty()
            }));
            assert(mask@ == spec_mask_string(*self));
        }
        mask
    }

    /// The named token of the chord when exactly one named modifier bit is
    /// set, and nothing otherwise.
    pub fn modifier_token(&self) -> (r: Option<String>)
        ensures
            r is Some <==> spec_modifier_token(*self) is Some,
            r is Some ==> r->0@ == spec_modifier_token(*self)->0,
    {
        let bits = self.to_bits();
        if bits == KBD_SHIFT {
            Some("shift".to_owned())
        } else if bits == KBD_CTRL {
            Some("control".to_owned())
        } else if bits == KBD_ALT {
            Some("alt".to_owned())
        } else if bits == KBD_KANA {
            Some("kana".to_owned())
        } else if bits == KBD_ROYA {
            Some("roya".to_owned())
        } else if bits == KBD_LOYA {
            Some("loya".to_owned())
        } else {
            None
        }
    }
}

/// Unpacking a packed byte recovers exactly the booleans that were packed,
/// bit by bit.
pub proof fn lemma_pack_unpack_bits()
    by (bit_vector)
    ensures
        forall|s: bool, c: bool, a: bool, k: bool, r: bool, l: bool, u: bool, g: bool|
            #![trigger spec_pack_bits(s, c, a, k, r, l, u, g)]
            (spec_pack_bits(s, c, a, k, r, l, u, g) & 0x01u8 != 0) == s && (spec_pack_bits(
                s,
                c,
                a,
                k,
                r,
                l,
                u,
                g,
            ) & 0x02u8 != 0) == c && (spec_pack_bits(s, c, a, k, r, l, u, g) & 0x04u8 != 0) == a && (
            spec_pack_bits(s, c, a, k, r, l, u, g) & 0x08u8 != 0) == k && (spec_pack_bits(
                s,
                c,
                a,
                k,
                r,
                l,
                u,
                g,
            ) & 0x10u8 != 0) == r && (spec_pack_bits(s, c, a, k, r, l, u, g) & 0x20u8 != 0) == l && (
            spec_pack_bits(s, c, a, k, r, l, u, g) & 0x40u8 != 0) == u && (spec_pack_bits(
                s,
                c,
                a,
                k,
                r,
                l,
                u,
                g,
            ) & 0x80u8 != 0) == g,
{
}

/// Round trip: decoding any packed byte and re-encoding it yields the same
/// byte, so chords and their packed bytes are in one-to-one correspondence
/// over all 256 byte values.
pub proof fn lemma_modifier_bits_round_trip()
    by (bit_vector)
    ensures
        forall|b: u8| #[trigger] KeyModifiers::spec_from_bits(b).spec_to_bits() == b,
{
}

/// Round trip in the other direction: encoding a chord and decoding the byte
/// recovers the identical set of booleans.
pub proof fn lemma_modifier_round_trip(m: KeyModifiers)
    ensures
        KeyModifiers::spec_from_bits(m.spec_to_bits()) == m,
{
    lemma_pack_unpack_bits();
}

} // verus!
