//! The table decoder: turns the raw tables into the owned domain model.
//! Each sub-decode is specified as a left fold over the raw rows, so the
//! value of the decoded model is pinned down row by row; any protocol
//! violation aborts the whole decode with no partial result.

use vstd::prelude::*;
use crate::errors::DecodeError;
use crate::model::{
    KeyEffectView,
    KeyboardDesc,
    KeyboardView,
    ModNumberMap,
    PhysicalKeyView,
    ScanCodeMap,
};
use crate::modifiers::KeyModifiers;
use crate::scan_codes::ScanCode;
use crate::tables::{KbdTables, KbdTablesView, KeyNameRowView, VkToBitRow, VscVkRow};
use crate::virtual_keys::{VirtualKey, VK_NONE};

verus! {

/// The reserved character code meaning "no character for this chord".
pub const WCH_NONE: u16 = 0xF000;
/// The reserved character code announcing a dead key; the composed accent
/// sits in the partner row that follows.
pub const WCH_DEAD: u16 = 0xF001;
/// The reserved character code announcing a ligature.
pub const WCH_LGTR: u16 = 0xF002;
/// The reserved modification number meaning "no chord assigned".
pub const SHFT_INVALID: u8 = 0x0F;

/// The virtual-key byte marking a dead-key partner row.
pub const DEAD_KEY_PARTNER_VK: u8 = 0xFF;

// ---------------------------------------------------------------------
// Physical keys
// ---------------------------------------------------------------------
/// The unescaped pass: entry `i` of the array assigns packed value
/// `codes[i]` to unescaped scan code `i`, except that entries whose
/// virtual key is the "no mapping" sentinel are skipped.
pub open spec fn spec_unescaped_pass(
    m: Map<ScanCode, PhysicalKeyView>,
    codes: Seq<u16>,
    i: int,
) -> Map<ScanCode, PhysicalKeyView>
    decreases codes.len() - i,
{
    if i < 0 || i >= codes.len() {
        m
    } else {
        let value = codes[i];
        let next = if value & 0xFF == 0xFF {
            m
        } else {
            m.insert(
                ScanCode::Unescaped(i as u8),
                PhysicalKeyView {
                    virtual_key: VirtualKey::spec_key_of_extended_bits(value),
                    virtual_key_flags: VirtualKey::spec_flags_of_extended_bits(value),
                    name: None,
                },
            )
        };
        spec_unescaped_pass(next, codes, i + 1)
    }
}

/// An extended pass: each row assigns its packed value to the escaped scan
/// code it names, later rows winning over earlier ones.
pub open spec fn spec_extended_pass(
    m: Map<ScanCode, PhysicalKeyView>,
    rows: Seq<VscVkRow>,
    extended1: bool,
    i: int,
) -> Map<ScanCode, PhysicalKeyView>
    decreases rows.len() - i,
{
    if i < 0 || i >= rows.len() {
        m
    } else {
        let row = rows[i];
        let sc = if extended1 {
            ScanCode::Extended1(row.vsc)
        } else {
            ScanCode::Extended0(row.vsc)
        };
        let next = m.insert(
            sc,
            PhysicalKeyView {
                virtual_key: VirtualKey::spec_key_of_extended_bits(row.vk),
                virtual_key_flags: VirtualKey::spec_flags_of_extended_bits(row.vk),
                name: None,
            },
        );
        spec_extended_pass(next, rows, extended1, i + 1)
    }
}

/// A name pass: each row assigns its display name to the scan code it
/// names, if that scan code is already present; a name for an absent scan
/// code is ignored, not inserted.
pub open spec fn spec_name_pass(
    m: Map<ScanCode, PhysicalKeyView>,
    rows: Seq<KeyNameRowView>,
    extended0: bool,
    i: int,
) -> Map<ScanCode, PhysicalKeyView>
    decreases rows.len() - i,
{
    if i < 0 || i >= rows.len() {
        m
    } else {
        let row = rows[i];
        let sc = if extended0 {
            ScanCode::Extended0(row.vsc)
        } else {
            ScanCode::Unescaped(row.vsc)
        };
        let next = if m.contains_key(sc) {
            m.insert(sc, PhysicalKeyView { name: Some(row.name), ..m[sc] })
        } else {
            m
        };
        spec_name_pass(next, rows, extended0, i + 1)
    }
}

/// The whole physical-key decode: the unescaped array, the two extended
/// tables, then the two name overlays — names from the first name table
/// onto unescaped entries, names from the second onto E0-escaped entries.
pub open spec fn spec_physical_keys(t: KbdTablesView) -> Map<ScanCode, PhysicalKeyView> {
    let m1 = spec_unescaped_pass(Map::empty(), t.vsc_to_vk, 0);
    let m2 = spec_extended_pass(m1, t.vsc_to_vk_e0, false, 0);
    let m3 = spec_extended_pass(m2, t.vsc_to_vk_e1, true, 0);
    let m4 = spec_name_pass(m3, t.key_names, false, 0);
    spec_name_pass(m4, t.key_names_ext, true, 0)
}

/// Decodes the physical-key tables into the scan-code map.
pub fn build_physical_keys(t: &KbdTables) -> (m: ScanCodeMap)
    ensures
        m.wf(),
        m@ == spec_physical_keys(t@),
{
    let ghost tv = t@;
    let mut m = ScanCodeMap::new();
    let n_unescaped = t.vsc_to_vk.len();
    let mut i: usize = 0;
    while i < n_unescaped
        invariant
            n_unescaped == t.vsc_to_vk@.len(),
            i <= n_unescaped,
            tv == t@,
            m.wf(),
            spec_unescaped_pass(m@, tv.vsc_to_vk, i as int) == spec_unescaped_pass(
                Map::empty(),
                tv.vsc_to_vk,
                0,
            ),
        decreases n_unescaped - i,
    {
        let value = t.vsc_to_vk[i];
        let (key, flags) = VirtualKey::from_extended_bits(value);
        if key.code != VK_NONE {
            m.insert(
                ScanCode::Unescaped(i as u8),
                crate::model::PhysicalKeyDesc {
                    virtual_key: key,
                    virtual_key_flags: flags,
                    name: None,
                },
            );
            proof {
                assert(value & 0xFF != 0xFF) by (bit_vector)
                    requires
                        (value & 0xFF) as u8 != 0xFFu8,
                ;
            }
        } else {
            proof {
                assert(value & 0xFF == 0xFF) by (bit_vector)
                    requires
                        (value & 0xFF) as u8 == 0xFFu8,
                ;
            }
        }
        i = i + 1;
    }
    let ghost m1 = spec_unescaped_pass(Map::empty(), tv.vsc_to_vk, 0);
    let n_e0 = t.vsc_to_vk_e0.len();
    let mut i: usize = 0;
    while i < n_e0
        invariant
            n_e0 == t.vsc_to_vk_e0@.len(),
            i <= n_e0,
            tv == t@,
            m.wf(),
            spec_extended_pass(m@, tv.vsc_to_vk_e0, false, i as int) == spec_extended_pass(
                m1,
                tv.vsc_to_vk_e0,
                false,
                0,
            ),
        decreases n_e0 - i,
    {
        let row = t.vsc_to_vk_e0[i];
        let (key, flags) = VirtualKey::from_extended_bits(row.vk);
        m.insert(
            ScanCode::Extended0(row.vsc),
            crate::model::PhysicalKeyDesc { virtual_key: key, virtual_key_flags: flags, name: None },
        );
        i = i + 1;
    }
    let ghost m2 = spec_extended_pass(m1, tv.vsc_to_vk_e0, false, 0);
    let n_e1 = t.vsc_to_vk_e1.len();
    let mut i: usize = 0;
    while i < n_e1
        invariant
            n_e1 == t.vsc_to_vk_e1@.len(),
            i <= n_e1,
            tv == t@,
            m.wf(),
            spec_extended_pass(m@, tv.vsc_to_vk_e1, true, i as int) == spec_extended_pass(
                m2,
                tv.vsc_to_vk_e1,
                true,
                0,
            ),
        decreases n_e1 - i,
    {
        let row = t.vsc_to_vk_e1[i];
        let (key, flags) = VirtualKey::from_extended_bits(row.vk);
        m.insert(
            ScanCode::Extended1(row.vsc),
            crate::model::PhysicalKeyDesc { virtual_key: key, virtual_key_flags: flags, name: None },
        );
        i = i + 1;
    }
    let ghost m3 = spec_extended_pass(m2, tv.vsc_to_vk_e1, true, 0);
    let n_names = t.key_names.len();
    let mut i: usize = 0;
    while i < n_names
        invariant
            n_names == t.key_names@.len(),
            i <= n_names,
            tv == t@,
            m.wf(),
            spec_name_pass(m@, tv.key_names, false, i as int) == spec_name_pass(
                m3,
                tv.key_names,
                false,
                0,
            ),
        decreases n_names - i,
    {
        let row = &t.key_names[i];
        proof {
            assert(tv.key_names[i as int] == t.key_names@[i as int]@);
        }
        m.set_name(ScanCode::Unescaped(row.vsc), row.name.clone());
        i = i + 1;
    }
    let ghost m4 = spec_name_pass(m3, tv.key_names, false, 0);
    let n_names_ext = t.key_names_ext.len();
    let mut i: usize = 0;
    while i < n_names_ext
        invariant
            n_names_ext == t.key_names_ext@.len(),
            i <= n_names_ext,
            tv == t@,
            m.wf(),
            spec_name_pass(m@, tv.key_names_ext, true, i as int) == spec_name_pass(
                m4,
                tv.key_names_ext,
                true,
                0,
            ),
        decreases n_names_ext - i,
    {
        let row = &t.key_names_ext[i];
        proof {
            assert(tv.key_names_ext[i as int] == t.key_names_ext@[i as int]@);
        }
        m.set_name(ScanCode::Extended0(row.vsc), row.name.clone());
        i = i + 1;
    }
    m
}

// ---------------------------------------------------------------------
// Modification-number indirection
// ---------------------------------------------------------------------
/// The modification-number indirection: chord bit pattern `b` is assigned
/// the number `nums[b]`, unless that number is the reserved invalid value;
/// the resulting map runs from each assigned number to the chord it
/// stands for, later bit patterns winning over earlier ones.
pub open spec fn spec_mod_number_pass(
    m: Map<u8, KeyModifiers>,
    nums: Seq<u8>,
    b: int,
) -> Map<u8, KeyModifiers>
    decreases nums.len() - b,
{
    if b < 0 || b >= nums.len() {
        m
    } else {
        let next = if nums[b] == SHFT_INVALID {
            m
        } else {
            m.insert(nums[b], KeyModifiers::spec_from_bits(b as u8))
        };
        spec_mod_number_pass(next, nums, b + 1)
    }
}

/// The whole modification-number map of a raw table read.
pub open spec fn spec_mod_number_map(nums: Seq<u8>) -> Map<u8, KeyModifiers> {
    spec_mod_number_pass(Map::empty(), nums, 0)
}

/// Builds the modification-number map from the raw array.
///
/// The array is indexed by chord bit pattern, from zero up to the
/// supplied maximum inclusive; bit patterns above 255 cannot occur, since
/// the chord of a pattern is its low byte and the table is data for
/// single-byte chords, but any longer array is folded the same way with
/// the pattern truncated to its low byte.
pub fn build_mod_number_map(nums: &Vec<u8>) -> (m: ModNumberMap)
    ensures
        m.wf(),
        m@ == spec_mod_number_map(nums@),
{
    let mut m = ModNumberMap::new();
    let n = nums.len();
    let mut b: usize = 0;
    while b < n
        invariant
            n == nums@.len(),
            b <= n,
            m.wf(),
            spec_mod_number_pass(m@, nums@, b as int) == spec_mod_number_pass(
                Map::empty(),
                nums@,
                0,
            ),
        decreases n - b,
    {
        let num = nums[b];
        if num != SHFT_INVALID {
            m.insert(num, KeyModifiers::from_bits(b as u8));
        }
        b = b + 1;
    }
    m
}

// ---------------------------------------------------------------------
// Typing decode
// ---------------------------------------------------------------------
/// Attribute bit: caps lock acts as shift.
pub const CAPLOK: u8 = 0x01;
/// Attribute bit: caps lock upper-cases the unshifted character.
pub const SGCAPS: u8 = 0x02;
/// Attribute bit: caps lock acts as shift under altgr.
pub const CAPLOKALTGR: u8 = 0x04;
/// Attribute bit: kana lock applies.
pub const KANALOK: u8 = 0x08;
/// Attribute bit: group selection applies.
pub const GRPSELTAP_BIT: u8 = 0x80;

/// The chord-to-effect entries of one typing row, folded column by column
/// from column `i` up to the column count `n`. A column's character code
/// may be the "no character" sentinel (the chord types nothing), the
/// dead-key sentinel (the accent is read from the same column of the
/// partner row, which must exist), the ligature sentinel (unsupported,
/// fatal), or a plain character. Each recorded effect is keyed by the
/// chord that the column's modification number stands for; a column whose
/// number the indirection does not define is fatal.
pub open spec fn spec_row_chords(
    m: Map<u8, crate::model::TypingEffectView>,
    chars: Seq<u16>,
    partner: Option<Seq<u16>>,
    numbers: Map<u8, KeyModifiers>,
    i: int,
    n: int,
) -> Result<Map<u8, crate::model::TypingEffectView>, DecodeError>
    decreases n - i,
{
    if i < 0 || i >= n {
        Ok(m)
    } else {
        let ch = chars[i];
        if ch == WCH_NONE {
            spec_row_chords(m, chars, partner, numbers, i + 1, n)
        } else if !numbers.contains_key(i as u8) {
            Err(DecodeError::UnknownModificationNumber)
        } else {
            let chord = numbers[i as u8];
            if ch == WCH_DEAD {
                match partner {
                    None => Err(DecodeError::MissingDeadKeyRow),
                    Some(p) => spec_row_chords(
                        m.insert(
                            chord.spec_to_bits(),
                            crate::model::TypingEffectView::DeadKey(p[i]),
                        ),
                        chars,
                        partner,
                        numbers,
                        i + 1,
                        n,
                    ),
                }
            } else if ch == WCH_LGTR {
                Err(DecodeError::UnsupportedLigature)
            } else {
                spec_row_chords(
                    m.insert(chord.spec_to_bits(), crate::model::TypingEffectView::Char(ch)),
                    chars,
                    partner,
                    numbers,
                    i + 1,
                    n,
                )
            }
        }
    }
}

/// Whether one of the first `n` columns carries the dead-key sentinel;
/// exactly then the partner row is consumed.
pub open spec fn spec_row_has_dead(chars: Seq<u16>, n: int) -> bool {
    exists|i: int| 0 <= i < n && chars[i] == WCH_DEAD
}

/// The five capability flags of a typing row's attribute byte.
pub open spec fn spec_typing_view(
    attributes: u8,
    chords: Map<u8, crate::model::TypingEffectView>,
) -> crate::model::KeyTypingView {
    crate::model::KeyTypingView {
        by_modifiers: chords,
        caps_lock_as_shift: attributes & CAPLOK != 0,
        caps_lock_as_uppercase: attributes & SGCAPS != 0,
        caps_lock_altgr_as_shift: attributes & CAPLOKALTGR != 0,
        kana_support: attributes & KANALOK != 0,
        grpseltap_support: attributes & GRPSELTAP_BIT != 0,
    }
}

/// The typing rows of one group, folded row by row from row `j`. A row
/// whose columns hold a dead-key sentinel consumes the row after it as its
/// partner, which must carry the partner marker; the partner supplies
/// accent characters and is not itself decoded as a typing row.
pub open spec fn spec_typing_rows(
    m: Map<u8, KeyEffectView>,
    rows: Seq<crate::tables::WcharRowView>,
    n: u8,
    numbers: Map<u8, KeyModifiers>,
    j: int,
) -> Result<Map<u8, KeyEffectView>, DecodeError>
    decreases rows.len() - j,
{
    if j < 0 || j >= rows.len() {
        Ok(m)
    } else {
        let row = rows[j];
        let partner_valid = j + 1 < rows.len() && rows[j + 1].virtual_key == DEAD_KEY_PARTNER_VK;
        let partner = if partner_valid {
            Some(rows[j + 1].chars)
        } else {
            None::<Seq<u16>>
        };
        match spec_row_chords(Map::empty(), row.chars, partner, numbers, 0, n as int) {
            Err(e) => Err(e),
            Ok(chords) => {
                let m2 = m.insert(
                    row.virtual_key,
                    KeyEffectView::Typing(spec_typing_view(row.attributes, chords)),
                );
                let adv: int = if spec_row_has_dead(row.chars, n as int) && partner_valid {
                    2
                } else {
                    1
                };
                spec_typing_rows(m2, rows, n, numbers, j + adv)
            },
        }
    }
}

/// The typing groups, folded group by group from group `g`; each group
/// carries its own column count.
pub open spec fn spec_typing_groups(
    m: Map<u8, KeyEffectView>,
    groups: Seq<crate::tables::WcharGroupView>,
    numbers: Map<u8, KeyModifiers>,
    g: int,
) -> Result<Map<u8, KeyEffectView>, DecodeError>
    decreases groups.len() - g,
{
    if g < 0 || g >= groups.len() {
        Ok(m)
    } else {
        match spec_typing_rows(m, groups[g].rows, groups[g].n_modifications, numbers, 0) {
            Err(e) => Err(e),
            Ok(m2) => spec_typing_groups(m2, groups, numbers, g + 1),
        }
    }
}

/// The modifier pass: each modifier-table row records its virtual key as a
/// modifier contributing the row's chord bits.
pub open spec fn spec_modifier_pass(
    m: Map<u8, KeyEffectView>,
    rows: Seq<VkToBitRow>,
    i: int,
) -> Map<u8, KeyEffectView>
    decreases rows.len() - i,
{
    if i < 0 || i >= rows.len() {
        m
    } else {
        spec_modifier_pass(
            m.insert(
                rows[i].vk,
                KeyEffectView::Modifier(KeyModifiers::spec_from_bits(rows[i].mod_bits)),
            ),
            rows,
            i + 1,
        )
    }
}

/// The whole virtual-key decode: the modifier rows, then every typing
/// group, with chords resolved through the modification-number
/// indirection.
pub open spec fn spec_virtual_keys(t: KbdTablesView) -> Result<Map<u8, KeyEffectView>, DecodeError> {
    let m1 = spec_modifier_pass(Map::empty(), t.vk_to_bit, 0);
    spec_typing_groups(m1, t.wchar_groups, spec_mod_number_map(t.mod_numbers), 0)
}

/// The chars of an optional partner row.
pub open spec fn spec_partner_chars(p: Option<&crate::tables::WcharRow>) -> Option<Seq<u16>> {
    match p {
        Some(r) => Some(r.chars@),
        None => None,
    }
}

/// Whether one of the first `n` columns of a row carries the dead-key
/// sentinel.
fn row_has_dead(row: &crate::tables::WcharRow, n: u8) -> (r: bool)
    requires
        row.chars@.len() >= n,
    ensures
        r == spec_row_has_dead(row.chars@, n as int),
{
    let mut i: usize = 0;
    while i < n as usize
        invariant
            row.chars@.len() >= n,
            i <= n as usize,
            forall|k: int| 0 <= k < i ==> row.chars@[k] != WCH_DEAD,
        decreases n as usize - i,
    {
        if row.chars[i] == WCH_DEAD {
            return true;
        }
        i = i + 1;
    }
    false
}

/// Decodes the chord-to-effect entries of one typing row.
fn build_row_chords(
    row: &crate::tables::WcharRow,
    partner: Option<&crate::tables::WcharRow>,
    numbers: &ModNumberMap,
    n: u8,
) -> (r: Result<crate::model::ChordMap, DecodeError>)
    requires
        numbers.wf(),
        row.chars@.len() >= n,
        partner is Some ==> partner->0.chars@.len() >= n,
    ensures
        match r {
            Ok(chords) => chords.wf() && spec_row_chords(
                Map::empty(),
                row.chars@,
                spec_partner_chars(partner),
                numbers@,
                0,
                n as int,
            ) == Ok::<_, DecodeError>(chords@),
            Err(e) => spec_row_chords(
                Map::empty(),
                row.chars@,
                spec_partner_chars(partner),
                numbers@,
                0,
                n as int,
            ) == Err::<Map<u8, crate::model::TypingEffectView>, _>(e),
        },
{
    let ghost target = spec_row_chords(
        Map::empty(),
        row.chars@,
        spec_partner_chars(partner),
        numbers@,
        0,
        n as int,
    );
    let mut chords = crate::model::ChordMap::new();
    let mut i: usize = 0;
    while i < n as usize
        invariant
            numbers.wf(),
            row.chars@.len() >= n,
            partner is Some ==> partner->0.chars@.len() >= n,
            i <= n as usize,
            chords.wf(),
            target == spec_row_chords(
                Map::empty(),
                row.chars@,
                spec_partner_chars(partner),
                numbers@,
                0,
                n as int,
            ),
            spec_row_chords(
                chords@,
                row.chars@,
                spec_partner_chars(partner),
                numbers@,
                i as int,
                n as int,
            ) == target,
        decreases n as usize - i,
    {
        let ch = row.chars[i];
        if ch != WCH_NONE {
            let chord = match numbers.get(i as u8) {
                Some(c) => *c,
                None => {
                    return Err(DecodeError::UnknownModificationNumber);
                },
            };
            if ch == WCH_DEAD {
                let p = match partner {
                    Some(p) => p,
                    None => {
                        return Err(DecodeError::MissingDeadKeyRow);
                    },
                };
                chords.insert(chord, crate::model::TypingEffect::DeadKey(p.chars[i]));
            } else if ch == WCH_LGTR {
                return Err(DecodeError::UnsupportedLigature);
            } else {
                chords.insert(chord, crate::model::TypingEffect::Char(ch));
            }
        }
        i = i + 1;
    }
    Ok(chords)
}

/// Decodes one typing group's rows into the virtual-key map.
fn apply_typing_group(
    m: &mut crate::model::VirtualKeyMap,
    group: &crate::tables::WcharGroup,
    numbers: &ModNumberMap,
) -> (r: Result<(), DecodeError>)
    requires
        old(m).wf(),
        numbers.wf(),
        forall|j: int|
            0 <= j < group.rows@.len() ==> (#[trigger] group.rows@[j]).chars@.len()
                == group.n_modifications,
    ensures
        final(m).wf(),
        match r {
            Ok(()) => spec_typing_rows(
                old(m)@,
                crate::tables::wchar_rows_view(group.rows@),
                group.n_modifications,
                numbers@,
                0,
            ) == Ok::<_, DecodeError>(final(m)@),
            Err(e) => spec_typing_rows(
                old(m)@,
                crate::tables::wchar_rows_view(group.rows@),
                group.n_modifications,
                numbers@,
                0,
            ) == Err::<Map<u8, KeyEffectView>, _>(e),
        },
{
    let ghost rowsv = crate::tables::wchar_rows_view(group.rows@);
    let ghost target = spec_typing_rows(old(m)@, rowsv, group.n_modifications, numbers@, 0);
    let n_rows = group.rows.len();
    let n = group.n_modifications;
    let mut j: usize = 0;
    while j < n_rows
        invariant
            n_rows == group.rows@.len(),
            n == group.n_modifications,
            rowsv == crate::tables::wchar_rows_view(group.rows@),
            target == spec_typing_rows(old(m)@, rowsv, n, numbers@, 0),
            numbers.wf(),
            forall|k: int|
                0 <= k < group.rows@.len() ==> (#[trigger] group.rows@[k]).chars@.len() == n,
            m.wf(),
            spec_typing_rows(m@, rowsv, n, numbers@, j as int) == target,
        decreases n_rows - j,
    {
        let row = &group.rows[j];
        proof {
            assert(rowsv[j as int] == group.rows@[j as int]@);
        }
        let partner_valid = j + 1 < n_rows && group.rows[j + 1].virtual_key
            == DEAD_KEY_PARTNER_VK;
        let partner = if partner_valid {
            proof {
                assert(rowsv[j as int + 1] == group.rows@[j as int + 1]@);
            }
            Some(&group.rows[j + 1])
        } else {
            None
        };
        proof {
            assert(spec_partner_chars(partner) == (if j as int + 1 < rowsv.len()
                && rowsv[j as int + 1].virtual_key == DEAD_KEY_PARTNER_VK {
                Some(rowsv[j as int + 1].chars)
            } else {
                None::<Seq<u16>>
            }));
        }
        let chords = match build_row_chords(row, partner, numbers, n) {
            Ok(c) => c,
            Err(e) => {
                return Err(e);
            },
        };
        let typing = crate::model::KeyTyping {
            by_modifiers: chords,
            caps_lock_as_shift: row.attributes & CAPLOK != 0,
            caps_lock_as_uppercase: row.attributes & SGCAPS != 0,
            caps_lock_altgr_as_shift: row.attributes & CAPLOKALTGR != 0,
            kana_support: row.attributes & KANALOK != 0,
            grpseltap_support: row.attributes & GRPSELTAP_BIT != 0,
        };
        let has_dead = row_has_dead(row, n);
        m.insert(
            VirtualKey { code: row.virtual_key },
            crate::model::KeyEffect::Typing(typing),
        );
        if has_dead && partner_valid {
            j = j + 2;
        } else {
            j = j + 1;
        }
    }
    Ok(())
}

/// Decodes the modifier rows and typing groups into the virtual-key map.
pub fn build_virtual_keys(t: &KbdTables) -> (r: Result<crate::model::VirtualKeyMap, DecodeError>)
    requires
        t@.wf(),
    ensures
        match r {
            Ok(m) => m.wf() && spec_virtual_keys(t@) == Ok::<_, DecodeError>(m@),
            Err(e) => spec_virtual_keys(t@) == Err::<Map<u8, KeyEffectView>, _>(e),
        },
{
    let ghost tv = t@;
    let mut m = crate::model::VirtualKeyMap::new();
    let n_mod = t.vk_to_bit.len();
    let mut i: usize = 0;
    while i < n_mod
        invariant
            n_mod == t.vk_to_bit@.len(),
            i <= n_mod,
            tv == t@,
            m.wf(),
            spec_modifier_pass(m@, tv.vk_to_bit, i as int) == spec_modifier_pass(
                Map::empty(),
                tv.vk_to_bit,
                0,
            ),
        decreases n_mod - i,
    {
        let row = t.vk_to_bit[i];
        m.insert(
            VirtualKey { code: row.vk },
            crate::model::KeyEffect::Modifier(KeyModifiers::from_bits(row.mod_bits)),
        );
        i = i + 1;
    }
    let ghost m1 = spec_modifier_pass(Map::empty(), tv.vk_to_bit, 0);
    let numbers = build_mod_number_map(&t.mod_numbers);
    let ghost target = spec_typing_groups(m1, tv.wchar_groups, numbers@, 0);
    let n_groups = t.wchar_groups.len();
    let mut g: usize = 0;
    while g < n_groups
        invariant
            n_groups == t.wchar_groups@.len(),
            g <= n_groups,
            tv == t@,
            tv.wf(),
            numbers.wf(),
            numbers@ == spec_mod_number_map(tv.mod_numbers),
            m1 == spec_modifier_pass(Map::empty(), tv.vk_to_bit, 0),
            target == spec_typing_groups(m1, tv.wchar_groups, numbers@, 0),
            m.wf(),
            spec_typing_groups(m@, tv.wchar_groups, numbers@, g as int) == target,
        decreases n_groups - g,
    {
        let group = &t.wchar_groups[g];
        proof {
            assert(tv.wchar_groups[g as int] == t.wchar_groups@[g as int]@);
            assert forall|j: int|
                0 <= j < group.rows@.len() implies (#[trigger] group.rows@[j]).chars@.len()
                == group.n_modifications by {
                assert(tv.wchar_groups[g as int].rows[j] == group.rows@[j]@);
            }
        }
        let ghost m_before = m@;
        match apply_typing_group(&mut m, group, &numbers) {
            Ok(()) => {},
            Err(e) => {
                proof {
                    assert(crate::tables::wchar_rows_view(group.rows@) == tv.wchar_groups[
                    g as int].rows);
                    assert(group.n_modifications == tv.wchar_groups[g as int].n_modifications);
                    assert(spec_typing_rows(
                        m_before,
                        tv.wchar_groups[g as int].rows,
                        tv.wchar_groups[g as int].n_modifications,
                        numbers@,
                        0,
                    ) == Err::<Map<u8, KeyEffectView>, _>(e));
                    assert(spec_typing_groups(m_before, tv.wchar_groups, numbers@, g as int)
                        == Err::<Map<u8, KeyEffectView>, _>(e));
                }
                return Err(e);
            },
        }
        proof {
            assert(crate::tables::wchar_rows_view(group.rows@) == tv.wchar_groups[g as int].rows);
            assert(group.n_modifications == tv.wchar_groups[g as int].n_modifications);
            assert(spec_typing_rows(
                m_before,
                tv.wchar_groups[g as int].rows,
                tv.wchar_groups[g as int].n_modifications,
                numbers@,
                0,
            ) == Ok::<_, DecodeError>(m@));
        }
        g = g + 1;
    }
    Ok(m)
}

// ---------------------------------------------------------------------
// Dead-key decode
// ---------------------------------------------------------------------
/// The combo pass: each row records, under its accent character, what its
/// base character composes to, creating the accent's description on first
/// use.
pub open spec fn spec_dead_combo_pass(
    m: Map<u16, crate::model::DeadKeyView>,
    rows: Seq<crate::tables::DeadKeyRow>,
    i: int,
) -> Map<u16, crate::model::DeadKeyView>
    decreases rows.len() - i,
{
    if i < 0 || i >= rows.len() {
        m
    } else {
        let row = rows[i];
        let prev = if m.contains_key(row.accent_char) {
            m[row.accent_char]
        } else {
            crate::model::DeadKeyView { name: None, combos: Map::empty() }
        };
        let combo = crate::model::DeadKeyCombo {
            composed_char: row.composed_char,
            flags: row.flags,
        };
        let next = m.insert(
            row.accent_char,
            crate::model::DeadKeyView {
                name: prev.name,
                combos: prev.combos.insert(row.base_char, combo),
            },
        );
        spec_dead_combo_pass(next, rows, i + 1)
    }
}

/// The name pass: each record assigns its display name to its accent's
/// description, creating it on first use.
pub open spec fn spec_dead_name_pass(
    m: Map<u16, crate::model::DeadKeyView>,
    rows: Seq<crate::tables::DeadKeyNameRowView>,
    i: int,
) -> Map<u16, crate::model::DeadKeyView>
    decreases rows.len() - i,
{
    if i < 0 || i >= rows.len() {
        m
    } else {
        let row = rows[i];
        let prev = if m.contains_key(row.accent_char) {
            m[row.accent_char]
        } else {
            crate::model::DeadKeyView { name: None, combos: Map::empty() }
        };
        let next = m.insert(
            row.accent_char,
            crate::model::DeadKeyView { name: Some(row.name), combos: prev.combos },
        );
        spec_dead_name_pass(next, rows, i + 1)
    }
}

/// The whole dead-key decode: the composition rows grouped by accent, then
/// the name overlay.
pub open spec fn spec_dead_keys(t: KbdTablesView) -> Map<u16, crate::model::DeadKeyView> {
    spec_dead_name_pass(spec_dead_combo_pass(Map::empty(), t.dead_key_rows, 0), t.dead_key_names, 0)
}

/// Decodes the dead-key tables into the dead-key map.
pub fn build_dead_keys(t: &KbdTables) -> (m: crate::model::DeadKeyMap)
    ensures
        m.wf(),
        m@ == spec_dead_keys(t@),
{
    let ghost tv = t@;
    let mut m = crate::model::DeadKeyMap::new();
    let n_rows = t.dead_key_rows.len();
    let mut i: usize = 0;
    while i < n_rows
        invariant
            n_rows == t.dead_key_rows@.len(),
            i <= n_rows,
            tv == t@,
            m.wf(),
            spec_dead_combo_pass(m@, tv.dead_key_rows, i as int) == spec_dead_combo_pass(
                Map::empty(),
                tv.dead_key_rows,
                0,
            ),
        decreases n_rows - i,
    {
        let row = t.dead_key_rows[i];
        m.insert_combo(
            row.accent_char,
            row.base_char,
            crate::model::DeadKeyCombo { composed_char: row.composed_char, flags: row.flags },
        );
        i = i + 1;
    }
    let ghost m1 = spec_dead_combo_pass(Map::empty(), tv.dead_key_rows, 0);
    let n_names = t.dead_key_names.len();
    let mut i: usize = 0;
    while i < n_names
        invariant
            n_names == t.dead_key_names@.len(),
            i <= n_names,
            tv == t@,
            m.wf(),
            spec_dead_name_pass(m@, tv.dead_key_names, i as int) == spec_dead_name_pass(
                m1,
                tv.dead_key_names,
                0,
            ),
        decreases n_names - i,
    {
        let row = &t.dead_key_names[i];
        proof {
            assert(tv.dead_key_names[i as int] == t.dead_key_names@[i as int]@);
        }
        m.set_name(row.accent_char, row.name.clone());
        i = i + 1;
    }
    m
}

// ---------------------------------------------------------------------
// The whole decode
// ---------------------------------------------------------------------
/// Locale-flags bit: the layout treats the right alt key as control plus
/// alt.
pub const KLLF_ALTGR: u32 = 0x1;
/// Locale-flags bit: the layout turns off caps lock when shift is pressed.
pub const KLLF_SHIFTLOCK: u32 = 0x2;
/// Locale-flags bit: the layout inserts directionality markers on some
/// combinations.
pub const KLLF_LRM_RLM: u32 = 0x4;

/// The layout a raw table read decodes to, or the first protocol violation
/// met: the physical keys, the virtual keys, the dead keys, the version
/// from the high half of the locale flags, the three capability bits, and
/// the numeric fields verbatim. A non-zero ligature count is fatal after
/// the tables decode.
pub open spec fn spec_decode_tables(t: KbdTablesView) -> Result<KeyboardView, DecodeError> {
    match spec_virtual_keys(t) {
        Err(e) => Err(e),
        Ok(vks) => if t.lg_max != 0 {
            Err(DecodeError::UnsupportedLigature)
        } else {
            Ok(
                KeyboardView {
                    physical_keys: spec_physical_keys(t),
                    virtual_keys: vks,
                    dead_keys: spec_dead_keys(t),
                    version: (t.locale_flags >> 16) as u16,
                    supports_altgr: t.locale_flags & KLLF_ALTGR != 0,
                    supports_shift_lock: t.locale_flags & KLLF_SHIFTLOCK != 0,
                    supports_directionality: t.locale_flags & KLLF_LRM_RLM != 0,
                    type_value: t.type_value,
                    subtype_value: t.subtype_value,
                },
            )
        },
    }
}

/// Decodes raw tables into the owned domain model, or fails on the first
/// protocol violation with no partial result. The tables must be
/// well-formed — every typing row carries exactly its group's number of
/// character columns — as tables read from a buffer always are.
pub fn decode_tables(t: &KbdTables) -> (r: Result<KeyboardDesc, DecodeError>)
    requires
        t@.wf(),
    ensures
        match r {
            Ok(d) => d.wf() && spec_decode_tables(t@) == Ok::<_, DecodeError>(d@),
            Err(e) => spec_decode_tables(t@) == Err::<KeyboardView, _>(e),
        },
{
    let physical_keys = build_physical_keys(t);
    let virtual_keys = match build_virtual_keys(t) {
        Ok(m) => m,
        Err(e) => {
            return Err(e);
        },
    };
    if t.lg_max != 0 {
        return Err(DecodeError::UnsupportedLigature);
    }
    let dead_keys = build_dead_keys(t);
    let version = (t.locale_flags >> 16) as u16;
    Ok(
        KeyboardDesc {
            physical_keys,
            virtual_keys,
            dead_keys,
            version,
            supports_altgr: t.locale_flags & KLLF_ALTGR != 0,
            supports_shift_lock: t.locale_flags & KLLF_SHIFTLOCK != 0,
            supports_directionality: t.locale_flags & KLLF_LRM_RLM != 0,
            type_value: t.type_value,
            subtype_value: t.subtype_value,
        },
    )
}

/// The layout a buffer decodes to: the raw tables are read from the root
/// table at `root`, addresses translated against `base`, and decoded into
/// the model; the first read outside the buffer or protocol violation is
/// the result instead.
pub open spec fn spec_decode_keyboard(buf: Seq<u8>, base: int, root: int) -> Result<
    KeyboardView,
    DecodeError,
> {
    match crate::tables::spec_read_tables(buf, base, root) {
        Err(e) => Err(e),
        Ok(t) => spec_decode_tables(t),
    }
}

/// Decodes the keyboard layout whose root table sits at address `root`
/// inside the given source region, which is based at address `base`. The
/// returned model owns all its data: the source region can be released as
/// soon as the call returns.
pub fn decode_keyboard(buf: &[u8], base: u64, root: u64) -> (r: Result<KeyboardDesc, DecodeError>)
    ensures
        match r {
            Ok(d) => d.wf() && spec_decode_keyboard(buf@, base as int, root as int) == Ok::<
                _,
                DecodeError,
            >(d@),
            Err(e) => spec_decode_keyboard(buf@, base as int, root as int) == Err::<
                KeyboardView,
                _,
            >(e),
        },
{
    let tables = match crate::tables::read_tables(buf, base, root) {
        Ok(t) => t,
        Err(e) => {
            return Err(e);
        },
    };
    decode_tables(&tables)
}

} // verus!
