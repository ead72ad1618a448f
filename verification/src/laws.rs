//! Properties of the decode, stated and proved over the decode's own
//! specification: uniqueness of decoded scan codes, absence of the
//! reserved "no mapping" virtual key, resolution of every recorded chord
//! through the modification-number indirection, and the fatality of
//! malformed dead-key rows and of ligatures.

use vstd::prelude::*;
use crate::decode::{
    spec_decode_tables,
    spec_extended_pass,
    spec_mod_number_map,
    spec_modifier_pass,
    spec_name_pass,
    spec_physical_keys,
    spec_row_chords,
    spec_row_has_dead,
    spec_typing_groups,
    spec_typing_rows,
    spec_unescaped_pass,
    spec_virtual_keys,
    DEAD_KEY_PARTNER_VK,
    WCH_DEAD,
    WCH_LGTR,
    WCH_NONE,
};
use crate::model::{KeyEffectView, PhysicalKeyView, ScanCodeMap};
use crate::modifiers::KeyModifiers;
use crate::scan_codes::ScanCode;
use crate::tables::{KbdTablesView, VkToBitRow, VscVkRow, WcharGroupView, WcharRowView};
use crate::virtual_keys::VK_NONE;

verus! {

// ---------------------------------------------------------------------
// Scan-code uniqueness
// ---------------------------------------------------------------------
/// Every scan code — the variant tag together with the byte value — is
/// unique among the entries of a well-formed physical-key map, as the
/// decode produces it.
pub proof fn lemma_physical_scan_codes_unique(m: ScanCodeMap)
    requires
        m.wf(),
    ensures
        forall|i: int, j: int|
            0 <= i < j < m.entries@.len() ==> (#[trigger] m.entries@[i]).0 != (
            #[trigger] m.entries@[j]).0,
{
    assert forall|i: int, j: int|
        0 <= i < j < m.entries@.len() implies (#[trigger] m.entries@[i]).0 != (
    #[trigger] m.entries@[j]).0 by {
        assert(crate::model::sc_kf()(m.entries@[i].0) == m.entries@[i].0);
        assert(crate::model::sc_kf()(m.entries@[j].0) == m.entries@[j].0);
    }
}

// ---------------------------------------------------------------------
// The reserved "no mapping" virtual key never appears
// ---------------------------------------------------------------------
/// Whether no physical-key assignment in the map carries the reserved "no
/// mapping" virtual key.
pub open spec fn spec_no_none_values(m: Map<ScanCode, PhysicalKeyView>) -> bool {
    forall|sc: ScanCode| #[trigger] m.contains_key(sc) ==> m[sc].virtual_key.code != VK_NONE
}

proof fn lemma_unescaped_pass_no_none(m: Map<ScanCode, PhysicalKeyView>, codes: Seq<u16>, i: int)
    requires
        spec_no_none_values(m),
    ensures
        spec_no_none_values(spec_unescaped_pass(m, codes, i)),
    decreases codes.len() - i,
{
    if 0 <= i < codes.len() {
        let value = codes[i];
        if value & 0xFF == 0xFF {
            lemma_unescaped_pass_no_none(m, codes, i + 1);
        } else {
            assert((value & 0xFF) as u8 != 0xFF) by (bit_vector)
                requires
                    value & 0xFF != 0xFF,
            ;
            let next = m.insert(
                ScanCode::Unescaped(i as u8),
                PhysicalKeyView {
                    virtual_key: crate::virtual_keys::VirtualKey::spec_key_of_extended_bits(value),
                    virtual_key_flags: crate::virtual_keys::VirtualKey::spec_flags_of_extended_bits(
                        value,
                    ),
                    name: None,
                },
            );
            assert(spec_no_none_values(next));
            lemma_unescaped_pass_no_none(next, codes, i + 1);
        }
    }
}

proof fn lemma_extended_pass_no_none(
    m: Map<ScanCode, PhysicalKeyView>,
    rows: Seq<VscVkRow>,
    extended1: bool,
    i: int,
)
    requires
        spec_no_none_values(m),
        forall|k: int| i <= k < rows.len() ==> (#[trigger] rows[k]).vk & 0xFF != 0xFF,
    ensures
        spec_no_none_values(spec_extended_pass(m, rows, extended1, i)),
    decreases rows.len() - i,
{
    if 0 <= i < rows.len() {
        let row = rows[i];
        let packed = row.vk;
        assert((packed & 0xFF) as u8 != 0xFF) by (bit_vector)
            requires
                packed & 0xFF != 0xFF,
        ;
        let sc = if extended1 {
            ScanCode::Extended1(row.vsc)
        } else {
            ScanCode::Extended0(row.vsc)
        };
        let next = m.insert(
            sc,
            PhysicalKeyView {
                virtual_key: crate::virtual_keys::VirtualKey::spec_key_of_extended_bits(row.vk),
                virtual_key_flags: crate::virtual_keys::VirtualKey::spec_flags_of_extended_bits(
                    row.vk,
                ),
                name: None,
            },
        );
        assert(spec_no_none_values(next));
        lemma_extended_pass_no_none(next, rows, extended1, i + 1);
    }
}

proof fn lemma_name_pass_no_none(
    m: Map<ScanCode, PhysicalKeyView>,
    rows: Seq<crate::tables::KeyNameRowView>,
    extended0: bool,
    i: int,
)
    requires
        spec_no_none_values(m),
    ensures
        spec_no_none_values(spec_name_pass(m, rows, extended0, i)),
    decreases rows.len() - i,
{
    if 0 <= i < rows.len() {
        let row = rows[i];
        let sc = if extended0 {
            ScanCode::Extended0(row.vsc)
        } else {
            ScanCode::Unescaped(row.vsc)
        };
        if m.contains_key(sc) {
            let next = m.insert(sc, PhysicalKeyView { name: Some(row.name), ..m[sc] });
            assert(spec_no_none_values(next));
            lemma_name_pass_no_none(next, rows, extended0, i + 1);
        } else {
            lemma_name_pass_no_none(m, rows, extended0, i + 1);
        }
    }
}

/// The reserved "no mapping" virtual key is never an assigned virtual key
/// in the decoded physical-key map. The unescaped pass filters it out by
/// construction; for the extended tables this holds of every table whose
/// rows do not themselves carry the reserved value in their packed low
/// byte.
pub proof fn lemma_physical_keys_no_none(t: KbdTablesView)
    requires
        forall|k: int|
            0 <= k < t.vsc_to_vk_e0.len() ==> (#[trigger] t.vsc_to_vk_e0[k]).vk & 0xFF != 0xFF,
        forall|k: int|
            0 <= k < t.vsc_to_vk_e1.len() ==> (#[trigger] t.vsc_to_vk_e1[k]).vk & 0xFF != 0xFF,
    ensures
        spec_no_none_values(spec_physical_keys(t)),
{
    let m0 = Map::<ScanCode, PhysicalKeyView>::empty();
    assert(spec_no_none_values(m0));
    lemma_unescaped_pass_no_none(m0, t.vsc_to_vk, 0);
    let m1 = spec_unescaped_pass(m0, t.vsc_to_vk, 0);
    lemma_extended_pass_no_none(m1, t.vsc_to_vk_e0, false, 0);
    let m2 = spec_extended_pass(m1, t.vsc_to_vk_e0, false, 0);
    lemma_extended_pass_no_none(m2, t.vsc_to_vk_e1, true, 0);
    let m3 = spec_extended_pass(m2, t.vsc_to_vk_e1, true, 0);
    lemma_name_pass_no_none(m3, t.key_names, false, 0);
    let m4 = spec_name_pass(m3, t.key_names, false, 0);
    lemma_name_pass_no_none(m4, t.key_names_ext, true, 0);
}

/// The reserved "no mapping" value never appears in a decoded layout:
/// neither as a key of the virtual-keys map nor as any physical key's
/// assigned virtual key. This holds of every table set whose extended
/// rows do not pack the reserved value as their virtual-key byte, whose
/// modifier rows do not carry it, and whose processed typing rows do not
/// either — a typing row carrying it is a consumed dead-key partner,
/// which the walk never processes.
pub proof fn lemma_decoded_layout_never_maps_none(t: KbdTablesView)
    requires
        forall|k: int|
            0 <= k < t.vsc_to_vk_e0.len() ==> (#[trigger] t.vsc_to_vk_e0[k]).vk & 0xFF != 0xFF,
        forall|k: int|
            0 <= k < t.vsc_to_vk_e1.len() ==> (#[trigger] t.vsc_to_vk_e1[k]).vk & 0xFF != 0xFF,
        forall|k: int| 0 <= k < t.vk_to_bit.len() ==> (#[trigger] t.vk_to_bit[k]).vk != VK_NONE,
        forall|g: int, row: int|
            0 <= g < t.wchar_groups.len() && #[trigger] spec_walk_reaches(
                t.wchar_groups[g].rows,
                t.wchar_groups[g].n_modifications,
                0,
                row,
            ) ==> t.wchar_groups[g].rows[row].virtual_key != VK_NONE,
    ensures
        spec_decode_tables(t) matches Ok(v) ==> spec_no_none_values(v.physical_keys)
            && !v.virtual_keys.contains_key(VK_NONE),
{
    lemma_physical_keys_no_none(t);
    lemma_virtual_keys_no_none(t);
}

/// Every modifier chord recorded in any typing effect of a decoded layout
/// is the chord of a modification number that the indirection table
/// assigned.
pub proof fn lemma_decoded_layout_chords_assigned(t: KbdTablesView)
    ensures
        spec_decode_tables(t) matches Ok(v) ==> spec_all_chords_assigned(
            v.virtual_keys,
            spec_mod_number_map(t.mod_numbers),
        ),
{
    lemma_typing_chords_assigned(t);
}

// ---------------------------------------------------------------------
// The chord map of an effect
// ---------------------------------------------------------------------
/// The chord-to-effect map inside an effect: empty for a modifier.
pub open spec fn spec_chords_of(e: KeyEffectView) -> Map<u8, crate::model::TypingEffectView> {
    match e {
        KeyEffectView::Modifier(_) => Map::empty(),
        KeyEffectView::Typing(tv) => tv.by_modifiers,
    }
}

// ---------------------------------------------------------------------
// The walk over typing rows
// ---------------------------------------------------------------------
/// Whether the row after `j` is a valid dead-key partner.
pub open spec fn spec_partner_valid(rows: Seq<WcharRowView>, j: int) -> bool {
    j + 1 < rows.len() && rows[j + 1].virtual_key == DEAD_KEY_PARTNER_VK
}

/// How far the typing walk advances past row `j`: two rows when the row
/// consumes its partner, one otherwise.
pub open spec fn spec_walk_step(rows: Seq<WcharRowView>, n: u8, j: int) -> int {
    if spec_row_has_dead(rows[j].chars, n as int) && spec_partner_valid(rows, j) {
        j + 2
    } else {
        j + 1
    }
}

/// Whether the typing walk starting at row `j` processes row `t` as a
/// typing row (rather than skipping it as a consumed partner).
pub open spec fn spec_walk_reaches(rows: Seq<WcharRowView>, n: u8, j: int, t: int) -> bool
    decreases rows.len() - j,
{
    if j < 0 || j >= rows.len() {
        false
    } else if j == t {
        true
    } else {
        spec_walk_reaches(rows, n, spec_walk_step(rows, n, j), t)
    }
}

/// A row with a dead-key sentinel column and no partner row cannot decode:
/// every column fold over it fails.
proof fn lemma_row_chords_dead_no_partner(
    m: Map<u8, crate::model::TypingEffectView>,
    chars: Seq<u16>,
    numbers: Map<u8, KeyModifiers>,
    i: int,
    n: int,
)
    requires
        0 <= i,
        exists|k: int| i <= k < n && chars[k] == WCH_DEAD,
    ensures
        spec_row_chords(m, chars, None, numbers, i, n) is Err,
    decreases n - i,
{
    let k = choose|k: int| i <= k < n && chars[k] == WCH_DEAD;
    let ch = chars[i];
    if ch == WCH_NONE {
        assert(k != i);
        lemma_row_chords_dead_no_partner(m, chars, numbers, i + 1, n);
    } else if !numbers.contains_key(i as u8) {
    } else if ch == WCH_DEAD {
    } else if ch == WCH_LGTR {
    } else {
        assert(k != i);
        let chord = numbers[i as u8];
        lemma_row_chords_dead_no_partner(
            m.insert(chord.spec_to_bits(), crate::model::TypingEffectView::Char(ch)),
            chars,
            numbers,
            i + 1,
            n,
        );
    }
}

/// A row carrying the dead-key sentinel whose following row is missing or
/// does not carry the partner marker makes the whole row walk fail: the
/// decode does not silently skip it.
pub proof fn lemma_missing_dead_partner_fails(
    m: Map<u8, KeyEffectView>,
    rows: Seq<WcharRowView>,
    n: u8,
    numbers: Map<u8, KeyModifiers>,
    j: int,
    t: int,
)
    requires
        spec_walk_reaches(rows, n, j, t),
        spec_row_has_dead(rows[t].chars, n as int),
        !spec_partner_valid(rows, t),
    ensures
        spec_typing_rows(m, rows, n, numbers, j) is Err,
    decreases rows.len() - j,
{
    if j == t {
        lemma_row_chords_dead_no_partner(Map::empty(), rows[j].chars, numbers, 0, n as int);
    } else {
        match spec_row_chords(Map::empty(), rows[j].chars, (if spec_partner_valid(rows, j) {
            Some(rows[j + 1].chars)
        } else {
            None
        }), numbers, 0, n as int) {
            Err(_) => {},
            Ok(chords) => {
                let m2 = m.insert(
                    rows[j].virtual_key,
                    KeyEffectView::Typing(
                        crate::decode::spec_typing_view(rows[j].attributes, chords),
                    ),
                );
                lemma_missing_dead_partner_fails(
                    m2,
                    rows,
                    n,
                    numbers,
                    spec_walk_step(rows, n, j),
                    t,
                );
            },
        }
    }
}

/// A row with a ligature sentinel column cannot decode: every column fold
/// over it fails, whatever the partner.
proof fn lemma_row_chords_ligature(
    m: Map<u8, crate::model::TypingEffectView>,
    chars: Seq<u16>,
    partner: Option<Seq<u16>>,
    numbers: Map<u8, KeyModifiers>,
    i: int,
    n: int,
)
    requires
        0 <= i,
        exists|k: int| i <= k < n && chars[k] == WCH_LGTR,
    ensures
        spec_row_chords(m, chars, partner, numbers, i, n) is Err,
    decreases n - i,
{
    let k = choose|k: int| i <= k < n && chars[k] == WCH_LGTR;
    let ch = chars[i];
    if ch == WCH_NONE {
        assert(k != i);
        lemma_row_chords_ligature(m, chars, partner, numbers, i + 1, n);
    } else if !numbers.contains_key(i as u8) {
    } else if ch == WCH_DEAD {
        assert(k != i);
        match partner {
            None => {},
            Some(p) => {
                let chord = numbers[i as u8];
                lemma_row_chords_ligature(
                    m.insert(
                        chord.spec_to_bits(),
                        crate::model::TypingEffectView::DeadKey(p[i]),
                    ),
                    chars,
                    partner,
                    numbers,
                    i + 1,
                    n,
                );
            },
        }
    } else if ch == WCH_LGTR {
    } else {
        assert(k != i);
        let chord = numbers[i as u8];
        lemma_row_chords_ligature(
            m.insert(chord.spec_to_bits(), crate::model::TypingEffectView::Char(ch)),
            chars,
            partner,
            numbers,
            i + 1,
            n,
        );
    }
}

/// A processed row carrying a ligature sentinel column makes the whole row
/// walk fail: ligatures are never silently dropped.
pub proof fn lemma_ligature_fails(
    m: Map<u8, KeyEffectView>,
    rows: Seq<WcharRowView>,
    n: u8,
    numbers: Map<u8, KeyModifiers>,
    j: int,
    t: int,
)
    requires
        spec_walk_reaches(rows, n, j, t),
        exists|k: int| 0 <= k < n as int && rows[t].chars[k] == WCH_LGTR,
    ensures
        spec_typing_rows(m, rows, n, numbers, j) is Err,
    decreases rows.len() - j,
{
    if j == t {
        lemma_row_chords_ligature(
            Map::empty(),
            rows[j].chars,
            (if spec_partner_valid(rows, j) {
                Some(rows[j + 1].chars)
            } else {
                None
            }),
            numbers,
            0,
            n as int,
        );
    } else {
        match spec_row_chords(Map::empty(), rows[j].chars, (if spec_partner_valid(rows, j) {
            Some(rows[j + 1].chars)
        } else {
            None
        }), numbers, 0, n as int) {
            Err(_) => {},
            Ok(chords) => {
                let m2 = m.insert(
                    rows[j].virtual_key,
                    KeyEffectView::Typing(
                        crate::decode::spec_typing_view(rows[j].attributes, chords),
                    ),
                );
                lemma_ligature_fails(m2, rows, n, numbers, spec_walk_step(rows, n, j), t);
            },
        }
    }
}

/// A group walk that fails in one group makes the whole group fold fail,
/// whatever came before it.
proof fn lemma_groups_fail_at(
    m: Map<u8, KeyEffectView>,
    groups: Seq<WcharGroupView>,
    numbers: Map<u8, KeyModifiers>,
    g0: int,
    g: int,
    t: int,
    dead: bool,
)
    requires
        0 <= g0 <= g < groups.len(),
        spec_walk_reaches(groups[g].rows, groups[g].n_modifications, 0, t),
        dead ==> spec_row_has_dead(groups[g].rows[t].chars, groups[g].n_modifications as int)
            && !spec_partner_valid(groups[g].rows, t),
        !dead ==> exists|k: int|
            0 <= k < groups[g].n_modifications as int && groups[g].rows[t].chars[k] == WCH_LGTR,
    ensures
        spec_typing_groups(m, groups, numbers, g0) is Err,
    decreases g - g0,
{
    if g0 == g {
        if dead {
            lemma_missing_dead_partner_fails(
                m,
                groups[g].rows,
                groups[g].n_modifications,
                numbers,
                0,
                t,
            );
        } else {
            lemma_ligature_fails(m, groups[g].rows, groups[g].n_modifications, numbers, 0, t);
        }
    } else {
        match spec_typing_rows(m, groups[g0].rows, groups[g0].n_modifications, numbers, 0) {
            Err(_) => {},
            Ok(m2) => {
                lemma_groups_fail_at(m2, groups, numbers, g0 + 1, g, t, dead);
            },
        }
    }
}

/// The whole decode fails on a dead-key sentinel without its partner row:
/// if any processed row of any typing group carries a dead-key sentinel
/// and the row after it is missing or does not carry the partner marker,
/// no layout is produced.
pub proof fn lemma_decode_fails_on_missing_dead_partner(t: KbdTablesView, g: int, row: int)
    requires
        0 <= g < t.wchar_groups.len(),
        spec_walk_reaches(t.wchar_groups[g].rows, t.wchar_groups[g].n_modifications, 0, row),
        spec_row_has_dead(
            t.wchar_groups[g].rows[row].chars,
            t.wchar_groups[g].n_modifications as int,
        ),
        !spec_partner_valid(t.wchar_groups[g].rows, row),
    ensures
        spec_virtual_keys(t) is Err,
        spec_decode_tables(t) is Err,
{
    let m1 = spec_modifier_pass(Map::empty(), t.vk_to_bit, 0);
    lemma_groups_fail_at(m1, t.wchar_groups, spec_mod_number_map(t.mod_numbers), 0, g, row, true);
}

/// The whole decode fails on a ligature: if any processed row of any
/// typing group carries a ligature sentinel column, or the ligature count
/// at the top level is non-zero, no layout is produced.
pub proof fn lemma_decode_fails_on_ligature(t: KbdTablesView, g: int, row: int)
    requires
        0 <= g < t.wchar_groups.len(),
        spec_walk_reaches(t.wchar_groups[g].rows, t.wchar_groups[g].n_modifications, 0, row),
        exists|k: int|
            0 <= k < t.wchar_groups[g].n_modifications as int && t.wchar_groups[g].rows[row].chars[k]
                == WCH_LGTR,
    ensures
        spec_virtual_keys(t) is Err,
        spec_decode_tables(t) is Err,
{
    let m1 = spec_modifier_pass(Map::empty(), t.vk_to_bit, 0);
    lemma_groups_fail_at(m1, t.wchar_groups, spec_mod_number_map(t.mod_numbers), 0, g, row, false);
}

/// The whole decode fails on a non-zero top-level ligature count.
pub proof fn lemma_decode_fails_on_ligature_count(t: KbdTablesView)
    requires
        t.lg_max != 0,
    ensures
        spec_decode_tables(t) is Err,
{
}

// ---------------------------------------------------------------------
// The reserved code never keys the virtual-key map
// ---------------------------------------------------------------------
proof fn lemma_modifier_pass_no_none(m: Map<u8, KeyEffectView>, rows: Seq<VkToBitRow>, i: int)
    requires
        !m.contains_key(VK_NONE),
        forall|k: int| i <= k < rows.len() ==> (#[trigger] rows[k]).vk != VK_NONE,
    ensures
        !spec_modifier_pass(m, rows, i).contains_key(VK_NONE),
    decreases rows.len() - i,
{
    if 0 <= i < rows.len() {
        let next = m.insert(
            rows[i].vk,
            KeyEffectView::Modifier(KeyModifiers::spec_from_bits(rows[i].mod_bits)),
        );
        lemma_modifier_pass_no_none(next, rows, i + 1);
    }
}

proof fn lemma_typing_rows_no_none(
    m: Map<u8, KeyEffectView>,
    rows: Seq<WcharRowView>,
    n: u8,
    numbers: Map<u8, KeyModifiers>,
    j: int,
)
    requires
        !m.contains_key(VK_NONE),
        forall|t: int|
            #[trigger] spec_walk_reaches(rows, n, j, t) ==> rows[t].virtual_key != VK_NONE,
    ensures
        spec_typing_rows(m, rows, n, numbers, j) matches Ok(m2) ==> !m2.contains_key(VK_NONE),
    decreases rows.len() - j,
{
    if 0 <= j < rows.len() {
        assert(spec_walk_reaches(rows, n, j, j));
        match spec_row_chords(Map::empty(), rows[j].chars, (if spec_partner_valid(rows, j) {
            Some(rows[j + 1].chars)
        } else {
            None
        }), numbers, 0, n as int) {
            Err(_) => {},
            Ok(chords) => {
                let m2 = m.insert(
                    rows[j].virtual_key,
                    KeyEffectView::Typing(
                        crate::decode::spec_typing_view(rows[j].attributes, chords),
                    ),
                );
                let step = spec_walk_step(rows, n, j);
                assert forall|t: int| #[trigger] spec_walk_reaches(rows, n, step, t) implies
                    rows[t].virtual_key != VK_NONE by {
                    assert(spec_walk_reaches(rows, n, j, t));
                }
                lemma_typing_rows_no_none(m2, rows, n, numbers, step);
            },
        }
    }
}

proof fn lemma_typing_groups_no_none(
    m: Map<u8, KeyEffectView>,
    groups: Seq<WcharGroupView>,
    numbers: Map<u8, KeyModifiers>,
    g: int,
)
    requires
        !m.contains_key(VK_NONE),
        forall|g2: int, t: int|
            g <= g2 < groups.len() && #[trigger] spec_walk_reaches(
                groups[g2].rows,
                groups[g2].n_modifications,
                0,
                t,
            ) ==> groups[g2].rows[t].virtual_key != VK_NONE,
    ensures
        spec_typing_groups(m, groups, numbers, g) matches Ok(m2) ==> !m2.contains_key(VK_NONE),
    decreases groups.len() - g,
{
    if 0 <= g < groups.len() {
        assert forall|t: int|
            #[trigger] spec_walk_reaches(groups[g].rows, groups[g].n_modifications, 0, t) implies
            groups[g].rows[t].virtual_key != VK_NONE by {
            assert(spec_walk_reaches(groups[g].rows, groups[g].n_modifications, 0, t));
        }
        lemma_typing_rows_no_none(m, groups[g].rows, groups[g].n_modifications, numbers, 0);
        match spec_typing_rows(m, groups[g].rows, groups[g].n_modifications, numbers, 0) {
            Err(_) => {},
            Ok(m2) => {
                lemma_typing_groups_no_none(m2, groups, numbers, g + 1);
            },
        }
    }
}

/// The reserved "no mapping" value never keys the decoded virtual-key map.
/// This holds of every table set whose modifier rows do not carry the
/// reserved byte as a virtual key and whose processed typing rows do not
/// either — a typing row carrying it is one the walk never processes: a
/// consumed dead-key partner.
pub proof fn lemma_virtual_keys_no_none(t: KbdTablesView)
    requires
        forall|k: int| 0 <= k < t.vk_to_bit.len() ==> (#[trigger] t.vk_to_bit[k]).vk != VK_NONE,
        forall|g: int, row: int|
            0 <= g < t.wchar_groups.len() && #[trigger] spec_walk_reaches(
                t.wchar_groups[g].rows,
                t.wchar_groups[g].n_modifications,
                0,
                row,
            ) ==> t.wchar_groups[g].rows[row].virtual_key != VK_NONE,
    ensures
        spec_virtual_keys(t) matches Ok(m) ==> !m.contains_key(VK_NONE),
{
    let m0 = Map::<u8, KeyEffectView>::empty();
    lemma_modifier_pass_no_none(m0, t.vk_to_bit, 0);
    let m1 = spec_modifier_pass(m0, t.vk_to_bit, 0);
    lemma_typing_groups_no_none(m1, t.wchar_groups, spec_mod_number_map(t.mod_numbers), 0);
}

// ---------------------------------------------------------------------
// Every recorded chord is resolved through the indirection
// ---------------------------------------------------------------------
/// Whether a packed chord byte is the chord of some modification number
/// that the indirection assigns — a number that was present in the array
/// and not marked invalid.
pub open spec fn spec_chord_assigned(numbers: Map<u8, KeyModifiers>, c: u8) -> bool {
    exists|num: u8| numbers.contains_key(num) && (#[trigger] numbers[num]).spec_to_bits() == c
}

/// Whether every chord recorded in any typing effect of the map is
/// assigned by the indirection.
pub open spec fn spec_all_chords_assigned(
    m: Map<u8, KeyEffectView>,
    numbers: Map<u8, KeyModifiers>,
) -> bool {
    forall|vk: u8, c: u8|
        m.contains_key(vk) && #[trigger] spec_chords_of(m[vk]).contains_key(c)
            ==> spec_chord_assigned(numbers, c)
}

proof fn lemma_row_chords_assigned(
    mc: Map<u8, crate::model::TypingEffectView>,
    chars: Seq<u16>,
    partner: Option<Seq<u16>>,
    numbers: Map<u8, KeyModifiers>,
    i: int,
    n: int,
)
    requires
        forall|c: u8| #[trigger] mc.contains_key(c) ==> spec_chord_assigned(numbers, c),
    ensures
        spec_row_chords(mc, chars, partner, numbers, i, n) matches Ok(mc2) ==> forall|c: u8|
            #[trigger] mc2.contains_key(c) ==> spec_chord_assigned(numbers, c),
    decreases n - i,
{
    if 0 <= i < n {
        let ch = chars[i];
        if ch == WCH_NONE {
            lemma_row_chords_assigned(mc, chars, partner, numbers, i + 1, n);
        } else if !numbers.contains_key(i as u8) {
        } else {
            let chord = numbers[i as u8];
            assert(spec_chord_assigned(numbers, chord.spec_to_bits()));
            if ch == WCH_DEAD {
                match partner {
                    None => {},
                    Some(p) => {
                        lemma_row_chords_assigned(
                            mc.insert(
                                chord.spec_to_bits(),
                                crate::model::TypingEffectView::DeadKey(p[i]),
                            ),
                            chars,
                            partner,
                            numbers,
                            i + 1,
                            n,
                        );
                    },
                }
            } else if ch == WCH_LGTR {
            } else {
                lemma_row_chords_assigned(
                    mc.insert(chord.spec_to_bits(), crate::model::TypingEffectView::Char(ch)),
                    chars,
                    partner,
                    numbers,
                    i + 1,
                    n,
                );
            }
        }
    }
}

proof fn lemma_typing_rows_assigned(
    m: Map<u8, KeyEffectView>,
    rows: Seq<WcharRowView>,
    n: u8,
    numbers: Map<u8, KeyModifiers>,
    j: int,
)
    requires
        spec_all_chords_assigned(m, numbers),
    ensures
        spec_typing_rows(m, rows, n, numbers, j) matches Ok(m2) ==> spec_all_chords_assigned(
            m2,
            numbers,
        ),
    decreases rows.len() - j,
{
    if 0 <= j < rows.len() {
        let partner = if spec_partner_valid(rows, j) {
            Some(rows[j + 1].chars)
        } else {
            None
        };
        lemma_row_chords_assigned(Map::empty(), rows[j].chars, partner, numbers, 0, n as int);
        match spec_row_chords(Map::empty(), rows[j].chars, partner, numbers, 0, n as int) {
            Err(_) => {},
            Ok(chords) => {
                let effect = KeyEffectView::Typing(
                    crate::decode::spec_typing_view(rows[j].attributes, chords),
                );
                let m2 = m.insert(rows[j].virtual_key, effect);
                assert(spec_chords_of(effect) == chords);
                assert(spec_all_chords_assigned(m2, numbers));
                lemma_typing_rows_assigned(m2, rows, n, numbers, spec_walk_step(rows, n, j));
            },
        }
    }
}

proof fn lemma_typing_groups_assigned(
    m: Map<u8, KeyEffectView>,
    groups: Seq<WcharGroupView>,
    numbers: Map<u8, KeyModifiers>,
    g: int,
)
    requires
        spec_all_chords_assigned(m, numbers),
    ensures
        spec_typing_groups(m, groups, numbers, g) matches Ok(m2) ==> spec_all_chords_assigned(
            m2,
            numbers,
        ),
    decreases groups.len() - g,
{
    if 0 <= g < groups.len() {
        lemma_typing_rows_assigned(m, groups[g].rows, groups[g].n_modifications, numbers, 0);
        match spec_typing_rows(m, groups[g].rows, groups[g].n_modifications, numbers, 0) {
            Err(_) => {},
            Ok(m2) => {
                lemma_typing_groups_assigned(m2, groups, numbers, g + 1);
            },
        }
    }
}

proof fn lemma_modifier_pass_assigned(
    m: Map<u8, KeyEffectView>,
    rows: Seq<VkToBitRow>,
    numbers: Map<u8, KeyModifiers>,
    i: int,
)
    requires
        spec_all_chords_assigned(m, numbers),
    ensures
        spec_all_chords_assigned(spec_modifier_pass(m, rows, i), numbers),
    decreases rows.len() - i,
{
    if 0 <= i < rows.len() {
        let effect = KeyEffectView::Modifier(KeyModifiers::spec_from_bits(rows[i].mod_bits));
        let next = m.insert(rows[i].vk, effect);
        assert(spec_chords_of(effect) =~= Map::<u8, crate::model::TypingEffectView>::empty());
        assert(spec_all_chords_assigned(next, numbers));
        lemma_modifier_pass_assigned(next, rows, numbers, i + 1);
    }
}

/// Every modifier chord recorded as a key in any decoded typing-effect
/// mapping is the chord of a modification number that was present and not
/// marked invalid in the modifier indirection table: the decoded
/// indirection map holds exactly the numbers that were assigned, and each
/// chord key was resolved through it.
pub proof fn lemma_typing_chords_assigned(t: KbdTablesView)
    ensures
        spec_virtual_keys(t) matches Ok(m) ==> spec_all_chords_assigned(
            m,
            spec_mod_number_map(t.mod_numbers),
        ),
{
    let numbers = spec_mod_number_map(t.mod_numbers);
    let m0 = Map::<u8, KeyEffectView>::empty();
    assert(spec_all_chords_assigned(m0, numbers));
    lemma_modifier_pass_assigned(m0, t.vk_to_bit, numbers, 0);
    let m1 = spec_modifier_pass(m0, t.vk_to_bit, 0);
    lemma_typing_groups_assigned(m1, t.wchar_groups, numbers, 0);
}

} // verus!