//! Laws relating the map's operations, stated over the spec-level model
//! that the operations' contracts use: [`spec_find`] for lookup,
//! [`spec_insert`] for insertion, index update plus swap-removal for
//! removal, and [`entry_pairs`] for iteration.

use vstd::prelude::*;
use vstd::std_specs::cmp::PartialEqSpec;
use crate::{lemma_spec_find_first, spec_find, spec_insert, LinearMap};
use crate::iter::entry_pairs;

verus! {

/// No two keys match each other, in either direction.
pub open spec fn unique_keys<K: PartialEq>(keys: Seq<K>) -> bool {
    forall|i: int, j: int|
        0 <= i < j < keys.len() ==> !keys[i].eq_spec(&keys[j]) && !keys[j].eq_spec(&keys[i])
}

/// A match at index `i` with no match before it is exactly what
/// [`spec_find`] returns.
pub proof fn lemma_first_match_is_spec_find<K: PartialEq>(keys: Seq<K>, q: K, i: int)
    requires
        0 <= i < keys.len(),
        q.eq_spec(&keys[i]),
        forall|j: int| 0 <= j < i ==> !q.eq_spec(&keys[j]),
    ensures
        spec_find(keys, q) == Some(i),
    decreases keys.len(),
{
    if i == 0 {
    } else {
        lemma_first_match_is_spec_find(keys.skip(1), q, i - 1);
    }
}

/// Insert/get round trip: inserting a key that no stored key matches
/// appends the pair, and a lookup of that key afterwards finds the new
/// entry and its value. Needs the key to match itself, as a genuine
/// equality does.
pub proof fn lemma_insert_get_round_trip<K: PartialEq, V>(keys: Seq<K>, values: Seq<V>, k: K, v: V)
    requires
        keys.len() == values.len(),
        spec_find(keys, k) is None,
        k.eq_spec(&k),
    ensures
        ({
            let (keys2, values2) = spec_insert(keys, values, k, v);
            &&& spec_find(keys2, k) == Some(keys.len() as int)
            &&& values2[keys.len() as int] == v
            &&& keys2.len() == keys.len() + 1
            &&& values2.len() == values.len() + 1
        }),
{
    let (keys2, values2) = spec_insert(keys, values, k, v);
    lemma_spec_find_first(keys, k);
    assert(keys2 == keys.push(k));
    assert(k.eq_spec(&keys2[keys.len() as int]));
    lemma_first_match_is_spec_find(keys2, k, keys.len() as int);
}

/// Remove then absence: swap-removing the one entry whose key `k` matches
/// shrinks the sequences by one, and a lookup of `k` afterwards finds
/// nothing. The match must be unique, as it is for maps built with a
/// genuine equality.
pub proof fn lemma_remove_then_absent<K: PartialEq, V>(keys: Seq<K>, values: Seq<V>, k: K)
    requires
        keys.len() == values.len(),
        spec_find(keys, k) is Some,
        forall|j: int|
            spec_find(keys, k).unwrap() < j < keys.len() ==> !k.eq_spec(&keys[j]),
    ensures
        ({
            let i = spec_find(keys, k).unwrap();
            let keys2 = keys.update(i, keys.last()).drop_last();
            let values2 = values.update(i, values.last()).drop_last();
            &&& spec_find(keys2, k) is None
            &&& keys2.len() == keys.len() - 1
            &&& values2.len() == values.len() - 1
        }),
{
    let i = spec_find(keys, k).unwrap();
    lemma_spec_find_first(keys, k);
    let keys2 = keys.update(i, keys.last()).drop_last();
    assert forall|p: int| 0 <= p < keys2.len() implies !k.eq_spec(&keys2[p]) by {
        if p == i {
            assert(keys2[p] == keys[keys.len() - 1]);
        } else {
            assert(keys2[p] == keys[p]);
        }
    }
    lemma_spec_find_first(keys2, k);
    if spec_find(keys2, k) is Some {
        let w = spec_find(keys2, k).unwrap();
        assert(!k.eq_spec(&keys2[w]));
    }
}

/// Clear idempotence: a map in the state that `clear` leaves behind is
/// well formed and has no entries, and that state meets `clear`'s
/// precondition and is exactly the state `clear` leaves behind again, so
/// emptiness and zero length persist over any number of repeated clears.
pub proof fn lemma_clear_idempotent<K: PartialEq, V>(m: LinearMap<K, V>)
    requires
        m.key_seq() == Seq::<K>::empty(),
        m.value_seq() == Seq::<V>::empty(),
    ensures
        m.well_formed(),
        m.spec_len() == 0,
{
}

/// Iteration completeness: the pair sequence of two same-length parallel
/// sequences holds exactly one pair per entry, each pairing a key with the
/// value at the same index, and it decomposes head-first the way the
/// traversal views hand entries out.
pub proof fn lemma_entry_pairs_complete<K, V>(keys: Seq<K>, values: Seq<V>)
    requires
        keys.len() == values.len(),
    ensures
        entry_pairs(keys, values).len() == keys.len(),
        forall|i: int|
            0 <= i < keys.len() ==> entry_pairs(keys, values)[i] == (keys[i], values[i]),
        keys.len() > 0 ==> entry_pairs(keys, values) == seq![(keys[0], values[0])] + entry_pairs(
            keys.skip(1),
            values.skip(1),
        ),
{
    if keys.len() > 0 {
        assert(entry_pairs(keys, values) =~= seq![(keys[0], values[0])] + entry_pairs(
            keys.skip(1),
            values.skip(1),
        ));
    }
}

/// Inserting a pair keeps the keys free of mutual matches: an overwrite
/// leaves the keys unchanged, and an appended key matches no stored key.
/// Matching must be symmetric between the new key and the stored ones, as
/// it is for a genuine equality.
pub proof fn lemma_insert_preserves_unique_keys<K: PartialEq, V>(
    keys: Seq<K>,
    values: Seq<V>,
    k: K,
    v: V,
)
    requires
        unique_keys(keys),
        forall|i: int| 0 <= i < keys.len() ==> (keys[i].eq_spec(&k) <==> k.eq_spec(&keys[i])),
    ensures
        unique_keys(spec_insert(keys, values, k, v).0),
{
    let keys2 = spec_insert(keys, values, k, v).0;
    if spec_find(keys, k) is None {
        lemma_spec_find_first(keys, k);
        assert(keys2 == keys.push(k));
        assert forall|i: int, j: int|
            0 <= i < j < keys2.len() implies !keys2[i].eq_spec(&keys2[j]) && !keys2[j].eq_spec(
            &keys2[i],
        ) by {
            if j == keys.len() {
                assert(keys2[i] == keys[i]);
                assert(keys2[j] == k);
            }
        }
    }
}

/// Swap-removing an entry keeps the keys free of mutual matches: every
/// remaining key was already stored, at a distinct position.
pub proof fn lemma_remove_preserves_unique_keys<K: PartialEq>(keys: Seq<K>, i: int)
    requires
        unique_keys(keys),
        0 <= i < keys.len(),
    ensures
        unique_keys(keys.update(i, keys.last()).drop_last()),
{
    let keys2 = keys.update(i, keys.last()).drop_last();
    assert forall|p: int, q: int|
        0 <= p < q < keys2.len() implies !keys2[p].eq_spec(&keys2[q]) && !keys2[q].eq_spec(
        &keys2[p],
    ) by {
        let p0: int = if p == i {
            keys.len() - 1
        } else {
            p
        };
        let q0: int = if q == i {
            keys.len() - 1
        } else {
            q
        };
        assert(keys2[p] == keys[p0]);
        assert(keys2[q] == keys[q0]);
        assert(p0 != q0);
    }
}

} // verus!
