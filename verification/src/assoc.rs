//! Association sequences as maps.
//!
//! The registries of this crate hold their entries in plain vectors
//! and are specified through the finite map such a vector denotes
//! under a key function, later entries shadowing earlier ones. The
//! lemmas here relate the vector operations the code performs to
//! `insert` and `remove` on the denoted map, under the invariant that
//! no key occurs twice.

use vstd::prelude::*;

verus! {

/// The map an association sequence denotes under key function `f`:
/// later entries shadow earlier ones.
pub open spec fn assoc_map<K, V>(s: Seq<V>, f: spec_fn(V) -> K) -> Map<K, V>
    decreases s.len(),
{
    if s.len() == 0 {
        Map::empty()
    } else {
        assoc_map(s.drop_last(), f).insert(f(s.last()), s.last())
    }
}

/// No two entries share a key under `f`.
pub open spec fn distinct_keys<K, V>(s: Seq<V>, f: spec_fn(V) -> K) -> bool {
    forall|i: int, j: int| 0 <= i < j < s.len() ==> f(#[trigger] s[i]) != f(#[trigger] s[j])
}

/// A key is in the denoted map exactly when some entry carries it.
pub proof fn lemma_assoc_contains<K, V>(s: Seq<V>, f: spec_fn(V) -> K, k: K)
    ensures
        assoc_map(s, f).contains_key(k) <==> exists|i: int|
            0 <= i < s.len() && f(#[trigger] s[i]) == k,
    decreases s.len(),
{
    if s.len() == 0 {
    } else {
        lemma_assoc_contains(s.drop_last(), f, k);
        if f(s.last()) == k {
            assert(f(s[s.len() - 1]) == k);
        } else {
            if assoc_map(s, f).contains_key(k) {
                let i = choose|i: int|
                    0 <= i < s.drop_last().len() && f(#[trigger] s.drop_last()[i]) == k;
                assert(f(s[i]) == k);
            }
            if exists|i: int| 0 <= i < s.len() && f(#[trigger] s[i]) == k {
                let i = choose|i: int| 0 <= i < s.len() && f(#[trigger] s[i]) == k;
                assert(i < s.len() - 1);
                assert(f(s.drop_last()[i]) == k);
            }
        }
    }
}

/// With distinct keys, the denoted map sends each entry's key to that
/// entry.
pub proof fn lemma_assoc_get<K, V>(s: Seq<V>, f: spec_fn(V) -> K, i: int)
    requires
        distinct_keys(s, f),
        0 <= i < s.len(),
    ensures
        assoc_map(s, f).contains_key(f(s[i])),
        assoc_map(s, f)[f(s[i])] == s[i],
    decreases s.len(),
{
    if i == s.len() - 1 {
    } else {
        assert(distinct_keys(s.drop_last(), f));
        lemma_assoc_get(s.drop_last(), f, i);
        assert(s.drop_last()[i] == s[i]);
        assert(f(s[i]) != f(s.last()));
    }
}

/// With distinct keys, removing the entry at `i` removes its key from
/// the denoted map.
pub proof fn lemma_assoc_remove<K, V>(s: Seq<V>, f: spec_fn(V) -> K, i: int)
    requires
        distinct_keys(s, f),
        0 <= i < s.len(),
    ensures
        assoc_map(s.remove(i), f) == assoc_map(s, f).remove(f(s[i])),
    decreases s.len(),
{
    if i == s.len() - 1 {
        assert(s.remove(i) =~= s.drop_last());
        lemma_assoc_contains(s.drop_last(), f, f(s.last()));
        assert(forall|j: int|
            0 <= j < s.drop_last().len() ==> f(#[trigger] s.drop_last()[j]) != f(s.last()));
        assert(!assoc_map(s.drop_last(), f).contains_key(f(s.last())));
        assert(assoc_map(s.drop_last(), f) =~= assoc_map(s.drop_last(), f).insert(
            f(s.last()),
            s.last(),
        ).remove(f(s.last())));
    } else {
        assert(distinct_keys(s.drop_last(), f));
        lemma_assoc_remove(s.drop_last(), f, i);
        assert(s.remove(i).drop_last() =~= s.drop_last().remove(i));
        assert(s.remove(i).last() == s.last());
        assert(s.drop_last()[i] == s[i]);
        assert(f(s[i]) != f(s.last()));
        assert(assoc_map(s.remove(i), f) == assoc_map(s.drop_last().remove(i), f).insert(
            f(s.last()),
            s.last(),
        ));
        assert(assoc_map(s.drop_last(), f).remove(f(s[i])).insert(f(s.last()), s.last())
            =~= assoc_map(s.drop_last(), f).insert(f(s.last()), s.last()).remove(f(s[i])));
    }
}

/// Removing an entry keeps the keys distinct.
pub proof fn lemma_distinct_remove<K, V>(s: Seq<V>, f: spec_fn(V) -> K, i: int)
    requires
        distinct_keys(s, f),
        0 <= i < s.len(),
    ensures
        distinct_keys(s.remove(i), f),
{
    assert forall|a: int, b: int| 0 <= a < b < s.remove(i).len() implies f(
        #[trigger] s.remove(i)[a],
    ) != f(#[trigger] s.remove(i)[b]) by {
        let a0 = if a < i {
            a
        } else {
            a + 1
        };
        let b0 = if b < i {
            b
        } else {
            b + 1
        };
        assert(s.remove(i)[a] == s[a0]);
        assert(s.remove(i)[b] == s[b0]);
    }
}

/// Mapping a function over a sequence commutes with removing an entry.
pub proof fn lemma_map_values_remove<A, B>(s: Seq<A>, g: spec_fn(A) -> B, i: int)
    requires
        0 <= i < s.len(),
    ensures
        s.remove(i).map_values(g) =~= s.map_values(g).remove(i),
{
    assert forall|j: int| 0 <= j < s.len() - 1 implies s.remove(i).map_values(g)[j]
        == s.map_values(g).remove(i)[j] by {
        if j < i {
            assert(s.remove(i)[j] == s[j]);
        } else {
            assert(s.remove(i)[j] == s[j + 1]);
        }
    }
}


/// With distinct keys and a fresh key on the new entry, appending the
/// entry inserts its key into the denoted map and keeps the keys
/// distinct.
pub proof fn lemma_assoc_push<K, V>(s: Seq<V>, f: spec_fn(V) -> K, v: V)
    requires
        distinct_keys(s, f),
        forall|j: int| 0 <= j < s.len() ==> f(#[trigger] s[j]) != f(v),
    ensures
        assoc_map(s.push(v), f) == assoc_map(s, f).insert(f(v), v),
        distinct_keys(s.push(v), f),
{
    assert(s.push(v).drop_last() =~= s);
    assert(s.push(v).last() == v);
    assert forall|a: int, b: int| 0 <= a < b < s.push(v).len() implies f(#[trigger] s.push(v)[a])
        != f(#[trigger] s.push(v)[b]) by {
        assert(s.push(v)[a] == s[a]);
        if b < s.len() {
            assert(s.push(v)[b] == s[b]);
        } else {
            assert(s.push(v)[b] == v);
        }
    }
}


} // verus!
