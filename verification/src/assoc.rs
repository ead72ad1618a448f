//! Association sequences: the mathematical model behind the decoded maps.
//! Each map of the domain model is stored as a vector of key-value entries
//! with pairwise-distinct keys; its abstract value is the finite map built
//! by folding the entries left to right, with a key function and a value
//! function translating entries into the abstract key and value types.

use vstd::prelude::*;

verus! {

/// The finite map denoted by an entry sequence: entries are folded in
/// order, so of two entries with one key the later one wins.
pub open spec fn assoc_view<K, V, BK, BV>(
    s: Seq<(K, V)>,
    kf: spec_fn(K) -> BK,
    vf: spec_fn(V) -> BV,
) -> Map<BK, BV>
    decreases s.len(),
{
    if s.len() == 0 {
        Map::empty()
    } else {
        assoc_view(s.drop_last(), kf, vf).insert(kf(s.last().0), vf(s.last().1))
    }
}

/// Whether the entries carry pairwise-distinct keys.
pub open spec fn assoc_unique<K, V, BK>(s: Seq<(K, V)>, kf: spec_fn(K) -> BK) -> bool {
    forall|i: int, j: int|
        0 <= i < j < s.len() ==> kf(#[trigger] s[i].0) != kf(#[trigger] s[j].0)
}

/// A key is in the map exactly when some entry carries it.
pub proof fn lemma_assoc_contains<K, V, BK, BV>(
    s: Seq<(K, V)>,
    kf: spec_fn(K) -> BK,
    vf: spec_fn(V) -> BV,
    k: BK,
)
    ensures
        assoc_view(s, kf, vf).contains_key(k) <==> exists|i: int|
            0 <= i < s.len() && kf(#[trigger] s[i].0) == k,
    decreases s.len(),
{
    if s.len() > 0 {
        lemma_assoc_contains(s.drop_last(), kf, vf, k);
        if kf(s.last().0) == k {
            assert(kf(s[s.len() - 1].0) == k);
        } else if assoc_view(s, kf, vf).contains_key(k) {
            let i = choose|i: int| 0 <= i < s.drop_last().len() && kf(s.drop_last()[i].0) == k;
            assert(kf(s[i].0) == k);
        } else {
            assert(forall|i: int|
                0 <= i < s.len() - 1 ==> kf(#[trigger] s[i].0) == kf(s.drop_last()[i].0));
        }
    }
}

/// With distinct keys, the entry carrying a key decides its value.
pub proof fn lemma_assoc_at<K, V, BK, BV>(
    s: Seq<(K, V)>,
    kf: spec_fn(K) -> BK,
    vf: spec_fn(V) -> BV,
    i: int,
)
    requires
        assoc_unique(s, kf),
        0 <= i < s.len(),
    ensures
        assoc_view(s, kf, vf).contains_key(kf(s[i].0)),
        assoc_view(s, kf, vf)[kf(s[i].0)] == vf(s[i].1),
    decreases s.len(),
{
    if i == s.len() - 1 {
    } else {
        assert(forall|a: int, b: int|
            0 <= a < b < s.len() - 1 ==> kf(#[trigger] s.drop_last()[a].0) != kf(
                #[trigger] s.drop_last()[b].0,
            )) by {
            assert(forall|a: int|
                0 <= a < s.len() - 1 ==> #[trigger] s.drop_last()[a] == s[a]);
        }
        lemma_assoc_at(s.drop_last(), kf, vf, i);
        assert(kf(s[i].0) != kf(s.last().0));
    }
}

/// Removing the entry that carries a key removes that key from the map and
/// keeps the other keys distinct and unchanged.
pub proof fn lemma_assoc_remove<K, V, BK, BV>(
    s: Seq<(K, V)>,
    kf: spec_fn(K) -> BK,
    vf: spec_fn(V) -> BV,
    i: int,
)
    requires
        assoc_unique(s, kf),
        0 <= i < s.len(),
    ensures
        assoc_unique(s.remove(i), kf),
        assoc_view(s.remove(i), kf, vf) == assoc_view(s, kf, vf).remove(kf(s[i].0)),
    decreases s.len(),
{
    let k = kf(s[i].0);
    let short = s.remove(i);
    assert forall|a: int, b: int| 0 <= a < b < short.len() implies kf(#[trigger] short[a].0) != kf(
        #[trigger] short[b].0,
    ) by {
        let a0 = if a < i {
            a
        } else {
            a + 1
        };
        let b0 = if b < i {
            b
        } else {
            b + 1
        };
        assert(short[a] == s[a0] && short[b] == s[b0]);
    }
    if i == s.len() - 1 {
        assert(short =~= s.drop_last());
        lemma_assoc_contains(s.drop_last(), kf, vf, k);
        assert(assoc_view(s.drop_last(), kf, vf) =~= assoc_view(s, kf, vf).remove(k));
    } else {
        assert(forall|a: int, b: int|
            0 <= a < b < s.len() - 1 ==> kf(#[trigger] s.drop_last()[a].0) != kf(
                #[trigger] s.drop_last()[b].0,
            )) by {
            assert(forall|a: int|
                0 <= a < s.len() - 1 ==> #[trigger] s.drop_last()[a] == s[a]);
        }
        lemma_assoc_remove(s.drop_last(), kf, vf, i);
        assert(short.drop_last() =~= s.drop_last().remove(i));
        assert(short.last() == s.last());
        assert(kf(s.last().0) != k);
        assert(assoc_view(short, kf, vf) == assoc_view(s.drop_last().remove(i), kf, vf).insert(
            kf(s.last().0),
            vf(s.last().1),
        ));
        assert(assoc_view(s, kf, vf).remove(k) =~= assoc_view(s.drop_last(), kf, vf).remove(
            k,
        ).insert(kf(s.last().0), vf(s.last().1)));
    }
}

/// Appending an entry whose key no earlier entry carries keeps the keys
/// distinct and inserts the translated pair into the map.
pub proof fn lemma_assoc_push<K, V, BK, BV>(
    s: Seq<(K, V)>,
    kf: spec_fn(K) -> BK,
    vf: spec_fn(V) -> BV,
    k: K,
    v: V,
)
    requires
        assoc_unique(s, kf),
        forall|i: int| 0 <= i < s.len() ==> kf(#[trigger] s[i].0) != kf(k),
    ensures
        assoc_unique(s.push((k, v)), kf),
        assoc_view(s.push((k, v)), kf, vf) == assoc_view(s, kf, vf).insert(kf(k), vf(v)),
{
    let t = s.push((k, v));
    assert(t.drop_last() =~= s);
    assert(t.last() == (k, v));
    assert forall|a: int, b: int| 0 <= a < b < t.len() implies kf(#[trigger] t[a].0) != kf(
        #[trigger] t[b].0,
    ) by {
        if b < t.len() - 1 {
            assert(t[a] == s[a] && t[b] == s[b]);
        } else {
            assert(t[a] == s[a] && t[b] == (k, v));
        }
    }
}

/// With distinct keys, no two entries agree on the key, so an entry count
/// of zero is the same as an empty map.
pub proof fn lemma_assoc_empty<K, V, BK, BV>(
    s: Seq<(K, V)>,
    kf: spec_fn(K) -> BK,
    vf: spec_fn(V) -> BV,
)
    ensures
        (s.len() == 0) <==> (assoc_view(s, kf, vf) =~= Map::empty()),
{
    if s.len() > 0 {
        assert(assoc_view(s, kf, vf).contains_key(kf(s.last().0)));
    }
}

} // verus!
