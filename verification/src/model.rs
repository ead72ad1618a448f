//! The owned domain model of a decoded keyboard layout: physical-key
//! assignments, virtual-key effects, dead-key composition tables and the
//! layout-wide flags. Every map of the model is stored as an entry vector
//! with pairwise-distinct keys; its abstract value is a finite map over
//! plain values, with modifier chords keyed by their canonical packed byte.

use vstd::prelude::*;
use crate::assoc::{
    assoc_unique,
    assoc_view,
    lemma_assoc_at,
    lemma_assoc_contains,
    lemma_assoc_push,
    lemma_assoc_remove,
};
use crate::modifiers::KeyModifiers;
use crate::scan_codes::ScanCode;
use crate::virtual_keys::{VirtualKey, VirtualKeyFlags};

verus! {

// ---------------------------------------------------------------------
// Typing effects
// ---------------------------------------------------------------------
/// The result of pressing a key under one modifier chord.
#[derive(Clone, Debug, PartialEq, Eq)]
pub enum TypingEffect {
    /// A character gets typed.
    Char(u16),
    /// A dead key with the given accent character gets triggered.
    DeadKey(u16),
    /// A ligature gets entered (recognized but unsupported: the decoder
    /// fails rather than produce one).
    Ligature(Vec<u16>),
}

/// The abstract value of a typing effect.
pub enum TypingEffectView {
    /// A character gets typed.
    Char(u16),
    /// A dead key with the given accent character gets triggered.
    DeadKey(u16),
    /// A ligature gets entered.
    Ligature(Seq<u16>),
}

impl View for TypingEffect {
    type V = TypingEffectView;

    open spec fn view(&self) -> TypingEffectView {
        match self {
            TypingEffect::Char(c) => TypingEffectView::Char(*c),
            TypingEffect::DeadKey(c) => TypingEffectView::DeadKey(*c),
            TypingEffect::Ligature(units) => TypingEffectView::Ligature(units@),
        }
    }
}

// ---------------------------------------------------------------------
// Chord-to-effect map
// ---------------------------------------------------------------------
/// The key function of chord maps: a chord is identified by its canonical
/// packed byte.
pub open spec fn chord_kf() -> spec_fn(KeyModifiers) -> u8 {
    |m: KeyModifiers| m.spec_to_bits()
}

/// The value function of chord maps.
pub open spec fn chord_vf() -> spec_fn(TypingEffect) -> TypingEffectView {
    |v: TypingEffect| v@
}

/// A map from modifier chords to typing effects, keyed by the chord's
/// packed byte.
#[derive(Clone, Debug, PartialEq, Eq)]
pub struct ChordMap {
    /// The entries, with pairwise-distinct packed chord bytes.
    pub entries: Vec<(KeyModifiers, TypingEffect)>,
}

impl View for ChordMap {
    type V = Map<u8, TypingEffectView>;

    open spec fn view(&self) -> Map<u8, TypingEffectView> {
        assoc_view(self.entries@, chord_kf(), chord_vf())
    }
}

impl ChordMap {
    /// Whether the entries carry pairwise-distinct chord bytes.
    pub open spec fn wf(self) -> bool {
        assoc_unique(self.entries@, chord_kf())
    }

    /// An empty chord map.
    pub fn new() -> (r: ChordMap)
        ensures
            r.wf(),
            r@ == Map::<u8, TypingEffectView>::empty(),
            r.entries@.len() == 0,
    {
        ChordMap { entries: Vec::new() }
    }

    /// The number of chords in the map.
    pub fn len(&self) -> (n: usize)
        ensures
            n == self.entries@.len(),
            self.wf() ==> (n == 0 <==> self@ == Map::<u8, TypingEffectView>::empty()),
    {
        proof {
            crate::assoc::lemma_assoc_empty(self.entries@, chord_kf(), chord_vf());
        }
        self.entries.len()
    }

    /// The entry at an index, for iteration in insertion order.
    pub fn entry(&self, i: usize) -> (r: &(KeyModifiers, TypingEffect))
        requires
            i < self.entries@.len(),
        ensures
            *r == self.entries@[i as int],
            self.wf() ==> self@.contains_key(r.0.spec_to_bits()) && self@[r.0.spec_to_bits()]
                == r.1@,
    {
        proof {
            if self.wf() {
                lemma_assoc_at(self.entries@, chord_kf(), chord_vf(), i as int);
            }
        }
        &self.entries[i]
    }

    /// The effect recorded for a chord, if any.
    pub fn get(&self, chord: &KeyModifiers) -> (r: Option<&TypingEffect>)
        requires
            self.wf(),
        ensures
            match r {
                Some(v) => self@.contains_key(chord.spec_to_bits()) && v@ == self@[
                    chord.spec_to_bits()
                ],
                None => !self@.contains_key(chord.spec_to_bits()),
            },
    {
        let key = chord.to_bits();
        let n = self.entries.len();
        let mut i: usize = 0;
        while i < n
            invariant
                n == self.entries@.len(),
                i <= n,
                self.wf(),
                key == chord.spec_to_bits(),
                forall|j: int| 0 <= j < i ==> (#[trigger] self.entries@[j].0).spec_to_bits() != key,
            decreases n - i,
        {
            if self.entries[i].0.to_bits() == key {
                proof {
                    lemma_assoc_at(self.entries@, chord_kf(), chord_vf(), i as int);
                }
                return Some(&self.entries[i].1);
            }
            i = i + 1;
        }
        proof {
            lemma_assoc_contains(self.entries@, chord_kf(), chord_vf(), key);
        }
        None
    }

    /// Records an effect for a chord, replacing any effect already recorded
    /// for the same packed byte.
    pub fn insert(&mut self, chord: KeyModifiers, effect: TypingEffect)
        requires
            old(self).wf(),
        ensures
            final(self).wf(),
            final(self)@ == old(self)@.insert(chord.spec_to_bits(), effect@),
    {
        let key = chord.to_bits();
        let n = self.entries.len();
        let mut found: usize = n;
        let mut i: usize = 0;
        while i < n
            invariant
                n == self.entries@.len(),
                i <= n,
                found <= n,
                key == chord.spec_to_bits(),
                found == n ==> forall|j: int|
                    0 <= j < i ==> (#[trigger] self.entries@[j].0).spec_to_bits() != key,
                found < n ==> (self.entries@[found as int].0).spec_to_bits() == key,
            decreases n - i,
        {
            if self.entries[i].0.to_bits() == key {
                found = i;
            }
            i = i + 1;
        }
        let ghost pre = self.entries@;
        if found < n {
            proof {
                assert(chord_kf()(pre[found as int].0) == key);
                lemma_assoc_remove(pre, chord_kf(), chord_vf(), found as int);
            }
            let _ = self.entries.remove(found);
            proof {
                lemma_assoc_contains(self.entries@, chord_kf(), chord_vf(), key);
                assert(self.entries@ == pre.remove(found as int));
                assert(assoc_view(self.entries@, chord_kf(), chord_vf()) == assoc_view(
                    pre,
                    chord_kf(),
                    chord_vf(),
                ).remove(key));
                assert(!assoc_view(self.entries@, chord_kf(), chord_vf()).contains_key(key));
                assert(!(exists|j: int|
                    0 <= j < self.entries@.len() && chord_kf()(#[trigger] self.entries@[j].0)
                        == key));
                assert(chord_kf()(chord) == key);
                assert forall|j: int|
                    0 <= j < self.entries@.len() implies chord_kf()(
                    #[trigger] self.entries@[j].0,
                ) != chord_kf()(chord) by {
                    if chord_kf()(self.entries@[j].0) == key {
                        assert(exists|j2: int|
                            0 <= j2 < self.entries@.len() && chord_kf()(
                                #[trigger] self.entries@[j2].0,
                            ) == key);
                        assert(false);
                    }
                }
                lemma_assoc_push(self.entries@, chord_kf(), chord_vf(), chord, effect);
            }
            self.entries.push((chord, effect));
            proof {
                assert(assoc_view(pre, chord_kf(), chord_vf()).remove(key).insert(key, effect@)
                    =~= assoc_view(pre, chord_kf(), chord_vf()).insert(key, effect@));
            }
        } else {
            proof {
                assert(chord_kf()(chord) == key);
                assert forall|j: int|
                    0 <= j < self.entries@.len() implies chord_kf()(
                    #[trigger] self.entries@[j].0,
                ) != chord_kf()(chord) by {
                    assert(chord_kf()(self.entries@[j].0) == (self.entries@[j].0).spec_to_bits());
                }
                lemma_assoc_push(self.entries@, chord_kf(), chord_vf(), chord, effect);
            }
            self.entries.push((chord, effect));
        }
    }
}

// ---------------------------------------------------------------------
// Typing behavior of one virtual key
// ---------------------------------------------------------------------
/// The typing behavior of one virtual key: what each modifier chord types,
/// and five independent capability flags decoded from the row's attribute
/// bits.
#[derive(Debug, PartialEq, Eq)]
pub struct KeyTyping {
    /// What each modifier chord types. A chord that is absent types
    /// nothing.
    pub by_modifiers: ChordMap,
    /// Caps lock acts as a shift modifier on this key.
    pub caps_lock_as_shift: bool,
    /// Caps lock upper-cases the unshifted character of this key.
    pub caps_lock_as_uppercase: bool,
    /// Caps lock acts as a shift modifier when altgr is held.
    pub caps_lock_altgr_as_shift: bool,
    /// Kana lock applies to this key.
    pub kana_support: bool,
    /// Group selection applies to this key.
    pub grpseltap_support: bool,
}

/// The abstract value of a key's typing behavior.
pub struct KeyTypingView {
    /// What each chord types, keyed by the chord's packed byte.
    pub by_modifiers: Map<u8, TypingEffectView>,
    /// Caps lock acts as a shift modifier on this key.
    pub caps_lock_as_shift: bool,
    /// Caps lock upper-cases the unshifted character of this key.
    pub caps_lock_as_uppercase: bool,
    /// Caps lock acts as a shift modifier when altgr is held.
    pub caps_lock_altgr_as_shift: bool,
    /// Kana lock applies to this key.
    pub kana_support: bool,
    /// Group selection applies to this key.
    pub grpseltap_support: bool,
}

impl View for KeyTyping {
    type V = KeyTypingView;

    open spec fn view(&self) -> KeyTypingView {
        KeyTypingView {
            by_modifiers: self.by_modifiers@,
            caps_lock_as_shift: self.caps_lock_as_shift,
            caps_lock_as_uppercase: self.caps_lock_as_uppercase,
            caps_lock_altgr_as_shift: self.caps_lock_altgr_as_shift,
            kana_support: self.kana_support,
            grpseltap_support: self.grpseltap_support,
        }
    }
}

impl KeyTyping {
    /// Whether the chord map inside carries pairwise-distinct chords.
    pub open spec fn wf(self) -> bool {
        self.by_modifiers.wf()
    }
}

// ---------------------------------------------------------------------
// Key effects
// ---------------------------------------------------------------------
/// What a virtual key does: it either acts as a modifier or types.
#[derive(Debug, PartialEq, Eq)]
pub enum KeyEffect {
    /// The virtual key is a modifier contributing the given chord bits.
    Modifier(KeyModifiers),
    /// The virtual key types characters.
    Typing(KeyTyping),
}

/// The abstract value of a key effect.
pub enum KeyEffectView {
    /// The virtual key is a modifier contributing the given chord bits.
    Modifier(KeyModifiers),
    /// The virtual key types characters.
    Typing(KeyTypingView),
}

impl View for KeyEffect {
    type V = KeyEffectView;

    open spec fn view(&self) -> KeyEffectView {
        match self {
            KeyEffect::Modifier(m) => KeyEffectView::Modifier(*m),
            KeyEffect::Typing(t) => KeyEffectView::Typing(t@),
        }
    }
}

impl KeyEffect {
    /// Whether any chord map inside carries pairwise-distinct chords.
    pub open spec fn wf(self) -> bool {
        match self {
            KeyEffect::Modifier(_) => true,
            KeyEffect::Typing(t) => t.wf(),
        }
    }
}

// ---------------------------------------------------------------------
// Virtual-key-to-effect map
// ---------------------------------------------------------------------
/// The key function of virtual-key maps: a virtual key is its code byte.
pub open spec fn vk_kf() -> spec_fn(VirtualKey) -> u8 {
    |k: VirtualKey| k.code
}

/// The value function of virtual-key maps.
pub open spec fn vk_vf() -> spec_fn(KeyEffect) -> KeyEffectView {
    |v: KeyEffect| v@
}

/// A map from virtual keys to their effects, keyed by the code byte.
#[derive(Debug, PartialEq, Eq)]
pub struct VirtualKeyMap {
    /// The entries, with pairwise-distinct code bytes.
    pub entries: Vec<(VirtualKey, KeyEffect)>,
}

impl View for VirtualKeyMap {
    type V = Map<u8, KeyEffectView>;

    open spec fn view(&self) -> Map<u8, KeyEffectView> {
        assoc_view(self.entries@, vk_kf(), vk_vf())
    }
}

impl VirtualKeyMap {
    /// Whether the entries carry pairwise-distinct codes and every effect
    /// inside is well-formed.
    pub open spec fn wf(self) -> bool {
        assoc_unique(self.entries@, vk_kf()) && forall|j: int|
            0 <= j < self.entries@.len() ==> (#[trigger] self.entries@[j]).1.wf()
    }

    /// An empty virtual-key map.
    pub fn new() -> (r: VirtualKeyMap)
        ensures
            r.wf(),
            r@ == Map::<u8, KeyEffectView>::empty(),
            r.entries@.len() == 0,
    {
        VirtualKeyMap { entries: Vec::new() }
    }

    /// The number of virtual keys in the map.
    pub fn len(&self) -> (n: usize)
        ensures
            n == self.entries@.len(),
            n == 0 <==> self@ == Map::<u8, KeyEffectView>::empty(),
    {
        proof {
            crate::assoc::lemma_assoc_empty(self.entries@, vk_kf(), vk_vf());
        }
        self.entries.len()
    }

    /// The entry at an index, for iteration in insertion order.
    pub fn entry(&self, i: usize) -> (r: &(VirtualKey, KeyEffect))
        requires
            i < self.entries@.len(),
        ensures
            *r == self.entries@[i as int],
            self.wf() ==> self@.contains_key(r.0.code) && self@[r.0.code] == r.1@ && r.1.wf(),
    {
        proof {
            if self.wf() {
                lemma_assoc_at(self.entries@, vk_kf(), vk_vf(), i as int);
            }
        }
        &self.entries[i]
    }

    /// The effect recorded for a virtual key, if any.
    pub fn get(&self, key: &VirtualKey) -> (r: Option<&KeyEffect>)
        requires
            self.wf(),
        ensures
            match r {
                Some(v) => self@.contains_key(key.code) && v@ == self@[key.code] && v.wf(),
                None => !self@.contains_key(key.code),
            },
    {
        let n = self.entries.len();
        let mut i: usize = 0;
        while i < n
            invariant
                n == self.entries@.len(),
                i <= n,
                self.wf(),
                forall|j: int| 0 <= j < i ==> (#[trigger] self.entries@[j].0).code != key.code,
            decreases n - i,
        {
            if self.entries[i].0.code == key.code {
                proof {
                    lemma_assoc_at(self.entries@, vk_kf(), vk_vf(), i as int);
                }
                return Some(&self.entries[i].1);
            }
            i = i + 1;
        }
        proof {
            lemma_assoc_contains(self.entries@, vk_kf(), vk_vf(), key.code);
        }
        None
    }

    /// Records an effect for a virtual key, replacing any effect already
    /// recorded for the same code.
    pub fn insert(&mut self, key: VirtualKey, effect: KeyEffect)
        requires
            old(self).wf(),
            effect.wf(),
        ensures
            final(self).wf(),
            final(self)@ == old(self)@.insert(key.code, effect@),
    {
        let n = self.entries.len();
        let mut found: usize = n;
        let mut i: usize = 0;
        while i < n
            invariant
                n == self.entries@.len(),
                i <= n,
                found <= n,
                found == n ==> forall|j: int|
                    0 <= j < i ==> (#[trigger] self.entries@[j].0).code != key.code,
                found < n ==> (self.entries@[found as int].0).code == key.code,
            decreases n - i,
        {
            if self.entries[i].0.code == key.code {
                found = i;
            }
            i = i + 1;
        }
        let ghost pre = self.entries@;
        if found < n {
            proof {
                assert(vk_kf()(pre[found as int].0) == key.code);
                lemma_assoc_remove(pre, vk_kf(), vk_vf(), found as int);
            }
            let _ = self.entries.remove(found);
            proof {
                lemma_assoc_contains(self.entries@, vk_kf(), vk_vf(), key.code);
                assert(self.entries@ == pre.remove(found as int));
                assert(!assoc_view(self.entries@, vk_kf(), vk_vf()).contains_key(key.code));
                assert forall|j: int|
                    0 <= j < self.entries@.len() implies vk_kf()(#[trigger] self.entries@[j].0)
                    != vk_kf()(key) by {
                    if vk_kf()(self.entries@[j].0) == key.code {
                        assert(exists|j2: int|
                            0 <= j2 < self.entries@.len() && vk_kf()(
                                #[trigger] self.entries@[j2].0,
                            ) == key.code);
                        assert(false);
                    }
                }
                assert forall|j: int|
                    0 <= j < self.entries@.len() implies (#[trigger] self.entries@[j]).1.wf() by {
                    let j0 = if j < found as int {
                        j
                    } else {
                        j + 1
                    };
                    assert(self.entries@[j] == pre[j0]);
                }
                lemma_assoc_push(self.entries@, vk_kf(), vk_vf(), key, effect);
            }
            self.entries.push((key, effect));
            proof {
                assert(assoc_view(pre, vk_kf(), vk_vf()).remove(key.code).insert(key.code, effect@)
                    =~= assoc_view(pre, vk_kf(), vk_vf()).insert(key.code, effect@));
                assert forall|j: int|
                    0 <= j < self.entries@.len() implies (#[trigger] self.entries@[j]).1.wf() by {
                    if j < self.entries@.len() - 1 {
                        let j0 = if j < found as int {
                            j
                        } else {
                            j + 1
                        };
                        assert(self.entries@[j] == pre[j0]);
                    }
                }
            }
        } else {
            proof {
                assert forall|j: int|
                    0 <= j < self.entries@.len() implies vk_kf()(#[trigger] self.entries@[j].0)
                    != vk_kf()(key) by {
                    assert(vk_kf()(self.entries@[j].0) == self.entries@[j].0.code);
                }
                lemma_assoc_push(self.entries@, vk_kf(), vk_vf(), key, effect);
            }
            self.entries.push((key, effect));
            proof {
                assert forall|j: int|
                    0 <= j < self.entries@.len() implies (#[trigger] self.entries@[j]).1.wf() by {
                    if j < self.entries@.len() - 1 {
                        assert(self.entries@[j] == pre[j]);
                    }
                }
            }
        }
    }
}

// ---------------------------------------------------------------------
// Physical keys
// ---------------------------------------------------------------------
/// One scan code's assignment: the virtual key, its flags, and an optional
/// display name supplied by a name table.
#[derive(Debug, PartialEq, Eq)]
pub struct PhysicalKeyDesc {
    /// The virtual key to which the scan code maps.
    pub virtual_key: VirtualKey,
    /// Flags applying to that virtual key.
    pub virtual_key_flags: VirtualKeyFlags,
    /// The display name of the physical key, absent unless a name table
    /// supplies one.
    pub name: Option<String>,
}

/// The abstract value of a physical-key assignment.
pub struct PhysicalKeyView {
    /// The virtual key to which the scan code maps.
    pub virtual_key: VirtualKey,
    /// Flags applying to that virtual key.
    pub virtual_key_flags: VirtualKeyFlags,
    /// The display name of the physical key, if any.
    pub name: Option<Seq<char>>,
}

impl View for PhysicalKeyDesc {
    type V = PhysicalKeyView;

    open spec fn view(&self) -> PhysicalKeyView {
        PhysicalKeyView {
            virtual_key: self.virtual_key,
            virtual_key_flags: self.virtual_key_flags,
            name: match &self.name {
                Some(n) => Some(n@),
                None => None,
            },
        }
    }
}

/// The key function of scan-code maps: the scan code itself, variant tag
/// and byte value together.
pub open spec fn sc_kf() -> spec_fn(ScanCode) -> ScanCode {
    |k: ScanCode| k
}

/// The value function of scan-code maps.
pub open spec fn sc_vf() -> spec_fn(PhysicalKeyDesc) -> PhysicalKeyView {
    |v: PhysicalKeyDesc| v@
}

/// A map from scan codes to physical-key assignments.
#[derive(Debug, PartialEq, Eq)]
pub struct ScanCodeMap {
    /// The entries, with pairwise-distinct scan codes.
    pub entries: Vec<(ScanCode, PhysicalKeyDesc)>,
}

impl View for ScanCodeMap {
    type V = Map<ScanCode, PhysicalKeyView>;

    open spec fn view(&self) -> Map<ScanCode, PhysicalKeyView> {
        assoc_view(self.entries@, sc_kf(), sc_vf())
    }
}

impl ScanCodeMap {
    /// Whether the entries carry pairwise-distinct scan codes.
    pub open spec fn wf(self) -> bool {
        assoc_unique(self.entries@, sc_kf())
    }

    /// An empty scan-code map.
    pub fn new() -> (r: ScanCodeMap)
        ensures
            r.wf(),
            r@ == Map::<ScanCode, PhysicalKeyView>::empty(),
            r.entries@.len() == 0,
    {
        ScanCodeMap { entries: Vec::new() }
    }

    /// The number of scan codes in the map.
    pub fn len(&self) -> (n: usize)
        ensures
            n == self.entries@.len(),
            n == 0 <==> self@ == Map::<ScanCode, PhysicalKeyView>::empty(),
    {
        proof {
            crate::assoc::lemma_assoc_empty(self.entries@, sc_kf(), sc_vf());
        }
        self.entries.len()
    }

    /// The entry at an index, for iteration in insertion order.
    pub fn entry(&self, i: usize) -> (r: &(ScanCode, PhysicalKeyDesc))
        requires
            i < self.entries@.len(),
        ensures
            *r == self.entries@[i as int],
            self.wf() ==> self@.contains_key(r.0) && self@[r.0] == r.1@,
    {
        proof {
            if self.wf() {
                lemma_assoc_at(self.entries@, sc_kf(), sc_vf(), i as int);
            }
        }
        &self.entries[i]
    }

    /// The assignment recorded for a scan code, if any.
    pub fn get(&self, key: &ScanCode) -> (r: Option<&PhysicalKeyDesc>)
        requires
            self.wf(),
        ensures
            match r {
                Some(v) => self@.contains_key(*key) && v@ == self@[*key],
                None => !self@.contains_key(*key),
            },
    {
        let n = self.entries.len();
        let mut i: usize = 0;
        while i < n
            invariant
                n == self.entries@.len(),
                i <= n,
                self.wf(),
                forall|j: int| 0 <= j < i ==> #[trigger] self.entries@[j].0 != *key,
            decreases n - i,
        {
            if self.entries[i].0 == *key {
                proof {
                    lemma_assoc_at(self.entries@, sc_kf(), sc_vf(), i as int);
                }
                return Some(&self.entries[i].1);
            }
            i = i + 1;
        }
        proof {
            lemma_assoc_contains(self.entries@, sc_kf(), sc_vf(), *key);
        }
        None
    }

    /// Records an assignment for a scan code, replacing any assignment
    /// already recorded for it.
    pub fn insert(&mut self, key: ScanCode, desc: PhysicalKeyDesc)
        requires
            old(self).wf(),
        ensures
            final(self).wf(),
            final(self)@ == old(self)@.insert(key, desc@),
    {
        let n = self.entries.len();
        let mut found: usize = n;
        let mut i: usize = 0;
        while i < n
            invariant
                n == self.entries@.len(),
                i <= n,
                found <= n,
                found == n ==> forall|j: int| 0 <= j < i ==> #[trigger] self.entries@[j].0 != key,
                found < n ==> self.entries@[found as int].0 == key,
            decreases n - i,
        {
            if self.entries[i].0 == key {
                found = i;
            }
            i = i + 1;
        }
        let ghost pre = self.entries@;
        if found < n {
            proof {
                assert(sc_kf()(pre[found as int].0) == key);
                lemma_assoc_remove(pre, sc_kf(), sc_vf(), found as int);
            }
            let _ = self.entries.remove(found);
            proof {
                lemma_assoc_contains(self.entries@, sc_kf(), sc_vf(), key);
                assert(!assoc_view(self.entries@, sc_kf(), sc_vf()).contains_key(key));
                assert forall|j: int|
                    0 <= j < self.entries@.len() implies sc_kf()(#[trigger] self.entries@[j].0)
                    != sc_kf()(key) by {
                    if sc_kf()(self.entries@[j].0) == key {
                        assert(exists|j2: int|
                            0 <= j2 < self.entries@.len() && sc_kf()(
                                #[trigger] self.entries@[j2].0,
                            ) == key);
                        assert(false);
                    }
                }
                lemma_assoc_push(self.entries@, sc_kf(), sc_vf(), key, desc);
            }
            self.entries.push((key, desc));
            proof {
                assert(assoc_view(pre, sc_kf(), sc_vf()).remove(key).insert(key, desc@)
                    =~= assoc_view(pre, sc_kf(), sc_vf()).insert(key, desc@));
            }
        } else {
            proof {
                assert forall|j: int|
                    0 <= j < self.entries@.len() implies sc_kf()(#[trigger] self.entries@[j].0)
                    != sc_kf()(key) by {
                    assert(sc_kf()(self.entries@[j].0) == self.entries@[j].0);
                }
                lemma_assoc_push(self.entries@, sc_kf(), sc_vf(), key, desc);
            }
            self.entries.push((key, desc));
        }
    }

    /// Overlays a display name onto the assignment already recorded for a
    /// scan code. A name for a scan code that is not present is ignored,
    /// not inserted.
    pub fn set_name(&mut self, key: ScanCode, name: String)
        requires
            old(self).wf(),
        ensures
            final(self).wf(),
            old(self)@.contains_key(key) ==> final(self)@ == old(self)@.insert(
                key,
                PhysicalKeyView { name: Some(name@), ..old(self)@[key] },
            ),
            !old(self)@.contains_key(key) ==> final(self)@ == old(self)@,
    {
        let n = self.entries.len();
        let mut found: usize = n;
        let mut i: usize = 0;
        while i < n
            invariant
                n == self.entries@.len(),
                i <= n,
                found <= n,
                found == n ==> forall|j: int| 0 <= j < i ==> #[trigger] self.entries@[j].0 != key,
                found < n ==> self.entries@[found as int].0 == key,
            decreases n - i,
        {
            if self.entries[i].0 == key {
                found = i;
            }
            i = i + 1;
        }
        let ghost pre = self.entries@;
        if found < n {
            proof {
                assert(sc_kf()(pre[found as int].0) == key);
                lemma_assoc_at(pre, sc_kf(), sc_vf(), found as int);
                lemma_assoc_remove(pre, sc_kf(), sc_vf(), found as int);
            }
            let (_, old_desc) = self.entries.remove(found);
            let updated = PhysicalKeyDesc {
                virtual_key: old_desc.virtual_key,
                virtual_key_flags: old_desc.virtual_key_flags,
                name: Some(name),
            };
            proof {
                lemma_assoc_contains(self.entries@, sc_kf(), sc_vf(), key);
                assert(!assoc_view(self.entries@, sc_kf(), sc_vf()).contains_key(key));
                assert forall|j: int|
                    0 <= j < self.entries@.len() implies sc_kf()(#[trigger] self.entries@[j].0)
                    != sc_kf()(key) by {
                    if sc_kf()(self.entries@[j].0) == key {
                        assert(exists|j2: int|
                            0 <= j2 < self.entries@.len() && sc_kf()(
                                #[trigger] self.entries@[j2].0,
                            ) == key);
                        assert(false);
                    }
                }
                lemma_assoc_push(self.entries@, sc_kf(), sc_vf(), key, updated);
            }
            self.entries.push((key, updated));
            proof {
                assert(updated@ == PhysicalKeyView {
                    name: Some(name@),
                    ..assoc_view(pre, sc_kf(), sc_vf())[key]
                });
                assert(assoc_view(pre, sc_kf(), sc_vf()).remove(key).insert(key, updated@)
                    =~= assoc_view(pre, sc_kf(), sc_vf()).insert(key, updated@));
            }
        } else {
            proof {
                lemma_assoc_contains(pre, sc_kf(), sc_vf(), key);
            }
        }
    }
}

// ---------------------------------------------------------------------
// Dead keys
// ---------------------------------------------------------------------
/// One base-plus-accent composition: the composed character and the row's
/// flag bits.
#[derive(Clone, Copy, Debug, PartialEq, Eq, Structural)]
pub struct DeadKeyCombo {
    /// The character resulting from the accent plus the base character.
    pub composed_char: u16,
    /// The row's flag bits, copied verbatim.
    pub flags: u16,
}

/// The key function of base-character maps: the base character itself.
pub open spec fn base_kf() -> spec_fn(u16) -> u16 {
    |k: u16| k
}

/// The value function of base-character maps: a combo is plain data and is
/// its own abstract value.
pub open spec fn base_vf() -> spec_fn(DeadKeyCombo) -> DeadKeyCombo {
    |v: DeadKeyCombo| v
}

/// A map from base characters to their compositions under one accent.
#[derive(Debug, PartialEq, Eq)]
pub struct BaseCharMap {
    /// The entries, with pairwise-distinct base characters.
    pub entries: Vec<(u16, DeadKeyCombo)>,
}

impl View for BaseCharMap {
    type V = Map<u16, DeadKeyCombo>;

    open spec fn view(&self) -> Map<u16, DeadKeyCombo> {
        assoc_view(self.entries@, base_kf(), base_vf())
    }
}

impl BaseCharMap {
    /// Whether the entries carry pairwise-distinct base characters.
    pub open spec fn wf(self) -> bool {
        assoc_unique(self.entries@, base_kf())
    }

    /// An empty base-character map.
    pub fn new() -> (r: BaseCharMap)
        ensures
            r.wf(),
            r@ == Map::<u16, DeadKeyCombo>::empty(),
            r.entries@.len() == 0,
    {
        BaseCharMap { entries: Vec::new() }
    }

    /// The number of base characters in the map.
    pub fn len(&self) -> (n: usize)
        ensures
            n == self.entries@.len(),
            n == 0 <==> self@ == Map::<u16, DeadKeyCombo>::empty(),
    {
        proof {
            crate::assoc::lemma_assoc_empty(self.entries@, base_kf(), base_vf());
        }
        self.entries.len()
    }

    /// The entry at an index, for iteration in insertion order.
    pub fn entry(&self, i: usize) -> (r: &(u16, DeadKeyCombo))
        requires
            i < self.entries@.len(),
        ensures
            *r == self.entries@[i as int],
            self.wf() ==> self@.contains_key(r.0) && self@[r.0] == r.1,
    {
        proof {
            if self.wf() {
                lemma_assoc_at(self.entries@, base_kf(), base_vf(), i as int);
            }
        }
        &self.entries[i]
    }

    /// The composition recorded for a base character, if any.
    pub fn get(&self, base: u16) -> (r: Option<&DeadKeyCombo>)
        requires
            self.wf(),
        ensures
            match r {
                Some(v) => self@.contains_key(base) && *v == self@[base],
                None => !self@.contains_key(base),
            },
    {
        let n = self.entries.len();
        let mut i: usize = 0;
        while i < n
            invariant
                n == self.entries@.len(),
                i <= n,
                self.wf(),
                forall|j: int| 0 <= j < i ==> #[trigger] self.entries@[j].0 != base,
            decreases n - i,
        {
            if self.entries[i].0 == base {
                proof {
                    lemma_assoc_at(self.entries@, base_kf(), base_vf(), i as int);
                }
                return Some(&self.entries[i].1);
            }
            i = i + 1;
        }
        proof {
            lemma_assoc_contains(self.entries@, base_kf(), base_vf(), base);
        }
        None
    }

    /// Records a composition for a base character, replacing any recorded
    /// for it before.
    pub fn insert(&mut self, base: u16, combo: DeadKeyCombo)
        requires
            old(self).wf(),
        ensures
            final(self).wf(),
            final(self)@ == old(self)@.insert(base, combo),
    {
        let n = self.entries.len();
        let mut found: usize = n;
        let mut i: usize = 0;
        while i < n
            invariant
                n == self.entries@.len(),
                i <= n,
                found <= n,
                found == n ==> forall|j: int| 0 <= j < i ==> #[trigger] self.entries@[j].0 != base,
                found < n ==> self.entries@[found as int].0 == base,
            decreases n - i,
        {
            if self.entries[i].0 == base {
                found = i;
            }
            i = i + 1;
        }
        let ghost pre = self.entries@;
        if found < n {
            proof {
                assert(base_kf()(pre[found as int].0) == base);
                lemma_assoc_remove(pre, base_kf(), base_vf(), found as int);
            }
            let _ = self.entries.remove(found);
            proof {
                lemma_assoc_contains(self.entries@, base_kf(), base_vf(), base);
                assert(!assoc_view(self.entries@, base_kf(), base_vf()).contains_key(base));
                assert forall|j: int|
                    0 <= j < self.entries@.len() implies base_kf()(#[trigger] self.entries@[j].0)
                    != base_kf()(base) by {
                    if base_kf()(self.entries@[j].0) == base {
                        assert(exists|j2: int|
                            0 <= j2 < self.entries@.len() && base_kf()(
                                #[trigger] self.entries@[j2].0,
                            ) == base);
                        assert(false);
                    }
                }
                lemma_assoc_push(self.entries@, base_kf(), base_vf(), base, combo);
            }
            self.entries.push((base, combo));
            proof {
                assert(assoc_view(pre, base_kf(), base_vf()).remove(base).insert(base, combo)
                    =~= assoc_view(pre, base_kf(), base_vf()).insert(base, combo));
            }
        } else {
            proof {
                assert forall|j: int|
                    0 <= j < self.entries@.len() implies base_kf()(#[trigger] self.entries@[j].0)
                    != base_kf()(base) by {
                    assert(base_kf()(self.entries@[j].0) == self.entries@[j].0);
                }
                lemma_assoc_push(self.entries@, base_kf(), base_vf(), base, combo);
            }
            self.entries.push((base, combo));
        }
    }
}

/// One accent's dead-key behavior: an optional display name and the
/// composition of each base character, keyed by the accent character that
/// triggers it.
#[derive(Debug, PartialEq, Eq)]
pub struct DeadKeyDesc {
    /// The human-readable display name of this dead key, if any.
    pub name: Option<String>,
    /// What each base character composes to under this accent.
    pub combos: BaseCharMap,
}

/// The abstract value of one accent's dead-key behavior.
pub struct DeadKeyView {
    /// The display name, if any.
    pub name: Option<Seq<char>>,
    /// What each base character composes to.
    pub combos: Map<u16, DeadKeyCombo>,
}

impl View for DeadKeyDesc {
    type V = DeadKeyView;

    open spec fn view(&self) -> DeadKeyView {
        DeadKeyView {
            name: match &self.name {
                Some(n) => Some(n@),
                None => None,
            },
            combos: self.combos@,
        }
    }
}

impl DeadKeyDesc {
    /// Whether the base-character map inside carries pairwise-distinct
    /// bases.
    pub open spec fn wf(self) -> bool {
        self.combos.wf()
    }
}

/// The key function of dead-key maps: the accent character itself.
pub open spec fn accent_kf() -> spec_fn(u16) -> u16 {
    |k: u16| k
}

/// The value function of dead-key maps.
pub open spec fn accent_vf() -> spec_fn(DeadKeyDesc) -> DeadKeyView {
    |v: DeadKeyDesc| v@
}

/// A map from accent characters to their dead-key descriptions.
#[derive(Debug, PartialEq, Eq)]
pub struct DeadKeyMap {
    /// The entries, with pairwise-distinct accent characters.
    pub entries: Vec<(u16, DeadKeyDesc)>,
}

impl View for DeadKeyMap {
    type V = Map<u16, DeadKeyView>;

    open spec fn view(&self) -> Map<u16, DeadKeyView> {
        assoc_view(self.entries@, accent_kf(), accent_vf())
    }
}

impl DeadKeyMap {
    /// Whether the entries carry pairwise-distinct accents and every
    /// description inside is well-formed.
    pub open spec fn wf(self) -> bool {
        assoc_unique(self.entries@, accent_kf()) && forall|j: int|
            0 <= j < self.entries@.len() ==> (#[trigger] self.entries@[j]).1.wf()
    }

    /// An empty dead-key map.
    pub fn new() -> (r: DeadKeyMap)
        ensures
            r.wf(),
            r@ == Map::<u16, DeadKeyView>::empty(),
            r.entries@.len() == 0,
    {
        DeadKeyMap { entries: Vec::new() }
    }

    /// The number of accents in the map.
    pub fn len(&self) -> (n: usize)
        ensures
            n == self.entries@.len(),
            n == 0 <==> self@ == Map::<u16, DeadKeyView>::empty(),
    {
        proof {
            crate::assoc::lemma_assoc_empty(self.entries@, accent_kf(), accent_vf());
        }
        self.entries.len()
    }

    /// The entry at an index, for iteration in insertion order.
    pub fn entry(&self, i: usize) -> (r: &(u16, DeadKeyDesc))
        requires
            i < self.entries@.len(),
        ensures
            *r == self.entries@[i as int],
            self.wf() ==> self@.contains_key(r.0) && self@[r.0] == r.1@ && r.1.wf(),
    {
        proof {
            if self.wf() {
                lemma_assoc_at(self.entries@, accent_kf(), accent_vf(), i as int);
            }
        }
        &self.entries[i]
    }

    /// The description recorded for an accent, if any.
    pub fn get(&self, accent: u16) -> (r: Option<&DeadKeyDesc>)
        requires
            self.wf(),
        ensures
            match r {
                Some(v) => self@.contains_key(accent) && v@ == self@[accent] && v.wf(),
                None => !self@.contains_key(accent),
            },
    {
        let n = self.entries.len();
        let mut i: usize = 0;
        while i < n
            invariant
                n == self.entries@.len(),
                i <= n,
                self.wf(),
                forall|j: int| 0 <= j < i ==> #[trigger] self.entries@[j].0 != accent,
            decreases n - i,
        {
            if self.entries[i].0 == accent {
                proof {
                    lemma_assoc_at(self.entries@, accent_kf(), accent_vf(), i as int);
                }
                return Some(&self.entries[i].1);
            }
            i = i + 1;
        }
        proof {
            lemma_assoc_contains(self.entries@, accent_kf(), accent_vf(), accent);
        }
        None
    }

    /// Takes the description of an accent out of the map, handing back the
    /// owned description, or a fresh empty one when the accent is absent.
    /// Afterwards the accent is not in the map; `put` restores it.
    fn take(&mut self, accent: u16) -> (r: DeadKeyDesc)
        requires
            old(self).wf(),
        ensures
            final(self).wf(),
            r.wf(),
            !final(self)@.contains_key(accent),
            old(self)@.contains_key(accent) ==> r@ == old(self)@[accent] && final(self)@ == old(
                self,
            )@.remove(accent),
            !old(self)@.contains_key(accent) ==> r@ == (DeadKeyView {
                name: None,
                combos: Map::empty(),
            }) && final(self)@ == old(self)@,
    {
        let n = self.entries.len();
        let mut found: usize = n;
        let mut i: usize = 0;
        while i < n
            invariant
                n == self.entries@.len(),
                i <= n,
                found <= n,
                found == n ==> forall|j: int|
                    0 <= j < i ==> #[trigger] self.entries@[j].0 != accent,
                found < n ==> self.entries@[found as int].0 == accent,
            decreases n - i,
        {
            if self.entries[i].0 == accent {
                found = i;
            }
            i = i + 1;
        }
        let ghost pre = self.entries@;
        if found < n {
            proof {
                assert(accent_kf()(pre[found as int].0) == accent);
                lemma_assoc_at(pre, accent_kf(), accent_vf(), found as int);
                lemma_assoc_remove(pre, accent_kf(), accent_vf(), found as int);
            }
            let (_, desc) = self.entries.remove(found);
            proof {
                lemma_assoc_contains(self.entries@, accent_kf(), accent_vf(), accent);
                assert forall|j: int|
                    0 <= j < self.entries@.len() implies (#[trigger] self.entries@[j]).1.wf() by {
                    let j0 = if j < found as int {
                        j
                    } else {
                        j + 1
                    };
                    assert(self.entries@[j] == pre[j0]);
                }
            }
            desc
        } else {
            proof {
                lemma_assoc_contains(pre, accent_kf(), accent_vf(), accent);
            }
            DeadKeyDesc { name: None, combos: BaseCharMap::new() }
        }
    }

    /// Puts a description back for an accent that is not in the map.
    fn put(&mut self, accent: u16, desc: DeadKeyDesc)
        requires
            old(self).wf(),
            desc.wf(),
            !old(self)@.contains_key(accent),
        ensures
            final(self).wf(),
            final(self)@ == old(self)@.insert(accent, desc@),
    {
        let ghost pre = self.entries@;
        proof {
            lemma_assoc_contains(self.entries@, accent_kf(), accent_vf(), accent);
            assert forall|j: int|
                0 <= j < self.entries@.len() implies accent_kf()(#[trigger] self.entries@[j].0)
                != accent_kf()(accent) by {
                if accent_kf()(self.entries@[j].0) == accent {
                    assert(exists|j2: int|
                        0 <= j2 < self.entries@.len() && accent_kf()(
                            #[trigger] self.entries@[j2].0,
                        ) == accent);
                    assert(false);
                }
            }
            lemma_assoc_push(self.entries@, accent_kf(), accent_vf(), accent, desc);
        }
        self.entries.push((accent, desc));
        proof {
            assert forall|j: int|
                0 <= j < self.entries@.len() implies (#[trigger] self.entries@[j]).1.wf() by {
                if j < self.entries@.len() - 1 {
                    assert(self.entries@[j] == pre[j]);
                }
            }
        }
    }

    /// Records one composition under an accent, creating the accent's
    /// description on first use.
    pub fn insert_combo(&mut self, accent: u16, base: u16, combo: DeadKeyCombo)
        requires
            old(self).wf(),
        ensures
            final(self).wf(),
            old(self)@.contains_key(accent) ==> final(self)@ == old(self)@.insert(
                accent,
                DeadKeyView {
                    name: old(self)@[accent].name,
                    combos: old(self)@[accent].combos.insert(base, combo),
                },
            ),
            !old(self)@.contains_key(accent) ==> final(self)@ == old(self)@.insert(
                accent,
                DeadKeyView {
                    name: None,
                    combos: Map::<u16, DeadKeyCombo>::empty().insert(base, combo),
                },
            ),
    {
        let ghost pre = self@;
        let mut desc = self.take(accent);
        desc.combos.insert(base, combo);
        self.put(accent, desc);
        proof {
            if pre.contains_key(accent) {
                assert(pre.remove(accent).insert(
                    accent,
                    DeadKeyView {
                        name: pre[accent].name,
                        combos: pre[accent].combos.insert(base, combo),
                    },
                ) =~= pre.insert(
                    accent,
                    DeadKeyView {
                        name: pre[accent].name,
                        combos: pre[accent].combos.insert(base, combo),
                    },
                ));
            }
        }
    }

    /// Assigns a display name to an accent, creating the accent's
    /// description on first use and keeping its compositions.
    pub fn set_name(&mut self, accent: u16, name: String)
        requires
            old(self).wf(),
        ensures
            final(self).wf(),
            old(self)@.contains_key(accent) ==> final(self)@ == old(self)@.insert(
                accent,
                DeadKeyView { name: Some(name@), combos: old(self)@[accent].combos },
            ),
            !old(self)@.contains_key(accent) ==> final(self)@ == old(self)@.insert(
                accent,
                DeadKeyView { name: Some(name@), combos: Map::<u16, DeadKeyCombo>::empty() },
            ),
    {
        let ghost pre = self@;
        let mut desc = self.take(accent);
        desc.name = Some(name);
        self.put(accent, desc);
        proof {
            if pre.contains_key(accent) {
                assert(pre.remove(accent).insert(
                    accent,
                    DeadKeyView { name: Some(name@), combos: pre[accent].combos },
                ) =~= pre.insert(
                    accent,
                    DeadKeyView { name: Some(name@), combos: pre[accent].combos },
                ));
            }
        }
    }
}

// ---------------------------------------------------------------------
// Modification-number indirection
// ---------------------------------------------------------------------
/// The key function of modification-number maps: the number itself.
pub open spec fn num_kf() -> spec_fn(u8) -> u8 {
    |k: u8| k
}

/// The value function of modification-number maps: a chord is plain data
/// and is its own abstract value.
pub open spec fn num_vf() -> spec_fn(KeyModifiers) -> KeyModifiers {
    |v: KeyModifiers| v
}

/// A map from modification numbers (small column indices used by the
/// typing tables) to the modifier chords they stand for.
#[derive(Debug, PartialEq, Eq)]
pub struct ModNumberMap {
    /// The entries, with pairwise-distinct numbers.
    pub entries: Vec<(u8, KeyModifiers)>,
}

impl View for ModNumberMap {
    type V = Map<u8, KeyModifiers>;

    open spec fn view(&self) -> Map<u8, KeyModifiers> {
        assoc_view(self.entries@, num_kf(), num_vf())
    }
}

impl ModNumberMap {
    /// Whether the entries carry pairwise-distinct numbers.
    pub open spec fn wf(self) -> bool {
        assoc_unique(self.entries@, num_kf())
    }

    /// An empty modification-number map.
    pub fn new() -> (r: ModNumberMap)
        ensures
            r.wf(),
            r@ == Map::<u8, KeyModifiers>::empty(),
            r.entries@.len() == 0,
    {
        ModNumberMap { entries: Vec::new() }
    }

    /// The chord recorded for a number, if any.
    pub fn get(&self, num: u8) -> (r: Option<&KeyModifiers>)
        requires
            self.wf(),
        ensures
            match r {
                Some(v) => self@.contains_key(num) && *v == self@[num],
                None => !self@.contains_key(num),
            },
    {
        let n = self.entries.len();
        let mut i: usize = 0;
        while i < n
            invariant
                n == self.entries@.len(),
                i <= n,
                self.wf(),
                forall|j: int| 0 <= j < i ==> #[trigger] self.entries@[j].0 != num,
            decreases n - i,
        {
            if self.entries[i].0 == num {
                proof {
                    lemma_assoc_at(self.entries@, num_kf(), num_vf(), i as int);
                }
                return Some(&self.entries[i].1);
            }
            i = i + 1;
        }
        proof {
            lemma_assoc_contains(self.entries@, num_kf(), num_vf(), num);
        }
        None
    }

    /// Records the chord a number stands for, replacing any recorded
    /// before.
    pub fn insert(&mut self, num: u8, chord: KeyModifiers)
        requires
            old(self).wf(),
        ensures
            final(self).wf(),
            final(self)@ == old(self)@.insert(num, chord),
    {
        let n = self.entries.len();
        let mut found: usize = n;
        let mut i: usize = 0;
        while i < n
            invariant
                n == self.entries@.len(),
                i <= n,
                found <= n,
                found == n ==> forall|j: int| 0 <= j < i ==> #[trigger] self.entries@[j].0 != num,
                found < n ==> self.entries@[found as int].0 == num,
            decreases n - i,
        {
            if self.entries[i].0 == num {
                found = i;
            }
            i = i + 1;
        }
        let ghost pre = self.entries@;
        if found < n {
            proof {
                assert(num_kf()(pre[found as int].0) == num);
                lemma_assoc_remove(pre, num_kf(), num_vf(), found as int);
            }
            let _ = self.entries.remove(found);
            proof {
                lemma_assoc_contains(self.entries@, num_kf(), num_vf(), num);
                assert(!assoc_view(self.entries@, num_kf(), num_vf()).contains_key(num));
                assert forall|j: int|
                    0 <= j < self.entries@.len() implies num_kf()(#[trigger] self.entries@[j].0)
                    != num_kf()(num) by {
                    if num_kf()(self.entries@[j].0) == num {
                        assert(exists|j2: int|
                            0 <= j2 < self.entries@.len() && num_kf()(
                                #[trigger] self.entries@[j2].0,
                            ) == num);
                        assert(false);
                    }
                }
                lemma_assoc_push(self.entries@, num_kf(), num_vf(), num, chord);
            }
            self.entries.push((num, chord));
            proof {
                assert(assoc_view(pre, num_kf(), num_vf()).remove(num).insert(num, chord)
                    =~= assoc_view(pre, num_kf(), num_vf()).insert(num, chord));
            }
        } else {
            proof {
                assert forall|j: int|
                    0 <= j < self.entries@.len() implies num_kf()(#[trigger] self.entries@[j].0)
                    != num_kf()(num) by {
                    assert(num_kf()(self.entries@[j].0) == self.entries@[j].0);
                }
                lemma_assoc_push(self.entries@, num_kf(), num_vf(), num, chord);
            }
            self.entries.push((num, chord));
        }
    }
}

// ---------------------------------------------------------------------
// The decoded layout
// ---------------------------------------------------------------------
/// A fully decoded keyboard layout: the aggregate root of the domain
/// model, owned and independent of the source memory it was decoded from.
#[derive(Debug, PartialEq, Eq)]
pub struct KeyboardDesc {
    /// What each physical key maps to.
    pub physical_keys: ScanCodeMap,
    /// What each virtual key does.
    pub virtual_keys: VirtualKeyMap,
    /// Each accent character's dead-key behavior.
    pub dead_keys: DeadKeyMap,
    /// The layout version taken from the high half of the locale flags.
    pub version: u16,
    /// The layout treats the right alt key as control plus alt.
    pub supports_altgr: bool,
    /// The layout turns off caps lock when shift is pressed.
    pub supports_shift_lock: bool,
    /// The layout inserts directionality markers on some combinations.
    pub supports_directionality: bool,
    /// The numeric layout type, copied verbatim.
    pub type_value: u32,
    /// The numeric layout subtype, copied verbatim.
    pub subtype_value: u32,
}

/// The abstract value of a decoded layout.
pub struct KeyboardView {
    /// What each physical key maps to.
    pub physical_keys: Map<ScanCode, PhysicalKeyView>,
    /// What each virtual key does, keyed by the code byte.
    pub virtual_keys: Map<u8, KeyEffectView>,
    /// Each accent's dead-key behavior, keyed by the accent character.
    pub dead_keys: Map<u16, DeadKeyView>,
    /// The layout version.
    pub version: u16,
    /// The layout treats the right alt key as control plus alt.
    pub supports_altgr: bool,
    /// The layout turns off caps lock when shift is pressed.
    pub supports_shift_lock: bool,
    /// The layout inserts directionality markers on some combinations.
    pub supports_directionality: bool,
    /// The numeric layout type.
    pub type_value: u32,
    /// The numeric layout subtype.
    pub subtype_value: u32,
}

impl View for KeyboardDesc {
    type V = KeyboardView;

    open spec fn view(&self) -> KeyboardView {
        KeyboardView {
            physical_keys: self.physical_keys@,
            virtual_keys: self.virtual_keys@,
            dead_keys: self.dead_keys@,
            version: self.version,
            supports_altgr: self.supports_altgr,
            supports_shift_lock: self.supports_shift_lock,
            supports_directionality: self.supports_directionality,
            type_value: self.type_value,
            subtype_value: self.subtype_value,
        }
    }
}

impl KeyboardDesc {
    /// Whether all three maps carry pairwise-distinct keys and every
    /// nested map does too.
    pub open spec fn wf(self) -> bool {
        self.physical_keys.wf() && self.virtual_keys.wf() && self.dead_keys.wf()
    }

    /// An empty layout: no keys, no dead keys, all flags off, version and
    /// numeric fields zero.
    pub fn new() -> (r: KeyboardDesc)
        ensures
            r.wf(),
            r@.physical_keys == Map::<ScanCode, PhysicalKeyView>::empty(),
            r@.virtual_keys == Map::<u8, KeyEffectView>::empty(),
            r@.dead_keys == Map::<u16, DeadKeyView>::empty(),
            r@.version == 0u16,
            !r@.supports_altgr,
            !r@.supports_shift_lock,
            !r@.supports_directionality,
            r@.type_value == 0u32,
            r@.subtype_value == 0u32,
    {
        KeyboardDesc {
            physical_keys: ScanCodeMap::new(),
            virtual_keys: VirtualKeyMap::new(),
            dead_keys: DeadKeyMap::new(),
            version: 0,
            supports_altgr: false,
            supports_shift_lock: false,
            supports_directionality: false,
            type_value: 0,
            subtype_value: 0,
        }
    }
}

} // verus!
