//! A map from keys to values backed by two parallel vectors, one holding the
//! keys and one holding the values, kept at equal length at all times.
//! Lookup, insertion and removal scan the key vector linearly, so every
//! operation is O(n); in exchange the entries sit contiguously in memory,
//! which makes iteration fast and keeps the structure simple for small
//! collections.
//!
//! Keys are compared with `PartialEq::eq`. The contracts describe the exact
//! result of every operation through the spec function [`spec_find`], which
//! gives the index of the first stored key that the lookup key matches.
//! Those clauses are stated under `K::obeys_eq_spec()`, the vstd condition
//! that the key type's `eq` agrees with its specification; primitive types
//! satisfy it. The structural clauses (lengths, emptiness) hold for every
//! key type.

use vstd::prelude::*;
use vstd::std_specs::cmp::PartialEqSpec;

mod iter;
mod laws;

pub use iter::{entry_pairs, IntoIter, Iter, IterMut, Keys, Values, ValuesMut};
pub use laws::{
    lemma_clear_idempotent, lemma_entry_pairs_complete, lemma_first_match_is_spec_find,
    lemma_insert_get_round_trip, lemma_insert_preserves_unique_keys,
    lemma_remove_preserves_unique_keys, lemma_remove_then_absent, unique_keys,
};

verus! {

/// The index of the first key in `keys` that the lookup key `q` matches
/// (`q.eq_spec(&keys[i])`), or `None` when no key matches.
pub open spec fn spec_find<K: PartialEq>(keys: Seq<K>, q: K) -> Option<int>
    decreases keys.len(),
{
    if keys.len() == 0 {
        None
    } else if q.eq_spec(&keys[0]) {
        Some(0)
    } else {
        match spec_find(keys.skip(1), q) {
            Some(i) => Some(i + 1),
            None => None,
        }
    }
}

/// Whether some key in `keys` matches the lookup key `q`.
pub open spec fn has_key<K: PartialEq>(keys: Seq<K>, q: K) -> bool {
    exists|i: int| 0 <= i < keys.len() && q.eq_spec(&keys[i])
}

/// `spec_find` returns the first matching index: a match at that index,
/// no match anywhere before it, and `None` exactly when nothing matches.
pub proof fn lemma_spec_find_first<K: PartialEq>(keys: Seq<K>, q: K)
    ensures
        match spec_find(keys, q) {
            Some(i) => 0 <= i < keys.len() && q.eq_spec(&keys[i]) && (forall|j: int|
                0 <= j < i ==> !q.eq_spec(&keys[j])),
            None => forall|j: int| 0 <= j < keys.len() ==> !q.eq_spec(&keys[j]),
        },
    decreases keys.len(),
{
    if keys.len() == 0 {
    } else if q.eq_spec(&keys[0]) {
    } else {
        lemma_spec_find_first(keys.skip(1), q);
        assert forall|j: int| 1 <= j < keys.len() implies keys.skip(1)[j - 1] == keys[j] by {}
    }
}

/// The parallel sequences after inserting the pair `(k, v)`: when some key
/// matches `k`, the value at the first matching index is replaced and the
/// keys are unchanged; otherwise both sequences grow by the new pair.
pub open spec fn spec_insert<K: PartialEq, V>(keys: Seq<K>, values: Seq<V>, k: K, v: V) -> (Seq<
    K,
>, Seq<V>) {
    match spec_find(keys, k) {
        Some(i) => (keys, values.update(i, v)),
        None => (keys.push(k), values.push(v)),
    }
}

/// The parallel sequences after inserting every pair of `okeys`/`ovalues`
/// into `keys`/`values`, in index order, each through [`spec_insert`].
pub open spec fn spec_append<K: PartialEq, V>(
    keys: Seq<K>,
    values: Seq<V>,
    okeys: Seq<K>,
    ovalues: Seq<V>,
) -> (Seq<K>, Seq<V>)
    decreases okeys.len(),
{
    if okeys.len() == 0 || ovalues.len() == 0 {
        (keys, values)
    } else {
        let (keys2, values2) = spec_insert(keys, values, okeys[0], ovalues[0]);
        spec_append(keys2, values2, okeys.skip(1), ovalues.skip(1))
    }
}

/// Relies on `Vec::capacity`: the total number of elements the vector can
/// hold without reallocating, which std documents to be at least its length.
#[verifier::external_body]
fn vec_capacity<T>(v: &Vec<T>) -> (c: usize)
    ensures
        c >= v@.len(),
{
    v.capacity()
}

/// A map from `K` to `V` stored as two parallel vectors of equal length;
/// the entry at index `i` is the pair `(keys[i], values[i])`.
pub struct LinearMap<K: PartialEq, V> {
    pub(crate) keys: Vec<K>,
    pub(crate) values: Vec<V>,
}

impl<K: PartialEq, V> LinearMap<K, V> {
    /// The stored keys, in their current index order.
    pub closed spec fn key_seq(self) -> Seq<K> {
        self.keys@
    }

    /// The stored values, in their current index order.
    pub closed spec fn value_seq(self) -> Seq<V> {
        self.values@
    }

    /// The two vectors hold one value for every key.
    pub open spec fn well_formed(self) -> bool {
        self.key_seq().len() == self.value_seq().len()
    }

    /// The number of entries.
    pub open spec fn spec_len(self) -> nat {
        self.key_seq().len()
    }

    /// Creates an empty map. No storage is reserved until the first insert.
    pub fn new() -> (m: Self)
        ensures
            m.well_formed(),
            m.key_seq() == Seq::<K>::empty(),
            m.value_seq() == Seq::<V>::empty(),
    {
        LinearMap { keys: Vec::new(), values: Vec::new() }
    }

    /// Creates an empty map with storage reserved for `capacity` entries
    /// in each of the two vectors.
    pub fn with_capacity(capacity: usize) -> (m: Self)
        ensures
            m.well_formed(),
            m.key_seq() == Seq::<K>::empty(),
            m.value_seq() == Seq::<V>::empty(),
    {
        LinearMap { keys: Vec::with_capacity(capacity), values: Vec::with_capacity(capacity) }
    }

    /// Returns the number of entries in the map.
    pub fn len(&self) -> (n: usize)
        ensures
            n == self.spec_len(),
    {
        self.keys.len()
    }

    /// Returns whether the map holds no entries.
    pub fn is_empty(&self) -> (r: bool)
        ensures
            r <==> self.spec_len() == 0,
    {
        self.keys.is_empty()
    }

    /// Removes every entry. The allocated storage is kept for reuse.
    pub fn clear(&mut self)
        ensures
            final(self).well_formed(),
            final(self).key_seq() == Seq::<K>::empty(),
            final(self).value_seq() == Seq::<V>::empty(),
    {
        self.keys.clear();
        self.values.clear();
    }

    /// Scans the keys from index 0 and returns the index of the first key
    /// that `key` matches, or `None` when no key matches.
    fn find(&self, key: &K) -> (r: Option<usize>)
        ensures
            match r {
                Some(i) => i < self.key_seq().len() && (K::obeys_eq_spec() ==> spec_find(
                    self.key_seq(),
                    *key,
                ) == Some(i as int)),
                None => K::obeys_eq_spec() ==> spec_find(self.key_seq(), *key) is None,
            },
    {
        let n = self.keys.len();
        let mut i: usize = 0;
        while i < n
            invariant
                n == self.key_seq().len(),
                i <= n,
                K::obeys_eq_spec() ==> forall|j: int| 0 <= j < i ==> !key.eq_spec(&self.keys@[j]),
            decreases n - i,
        {
            if key.eq(&self.keys[i]) {
                proof {
                    if K::obeys_eq_spec() {
                        lemma_spec_find_first(self.key_seq(), *key);
                    }
                }
                return Some(i);
            }
            i += 1;
        }
        proof {
            if K::obeys_eq_spec() {
                lemma_spec_find_first(self.key_seq(), *key);
            }
        }
        None
    }

    /// Returns a reference to the value of the first entry whose key
    /// `key` matches, or `None` when no key matches.
    pub fn get(&self, key: &K) -> (r: Option<&V>)
        requires
            self.well_formed(),
        ensures
            K::obeys_eq_spec() ==> match spec_find(self.key_seq(), *key) {
                Some(i) => r matches Some(v) && *v == self.value_seq()[i],
                None => r is None,
            },
    {
        if let Some(i) = self.find(key) {
            Some(&self.values[i])
        } else {
            None
        }
    }

    /// Returns a mutable reference to the value of the first entry whose
    /// key `key` matches, or `None` when no key matches. The keys are left
    /// unchanged; writing through the returned reference updates exactly
    /// that entry's value.
    pub fn get_mut(&mut self, key: &K) -> (r: Option<&mut V>)
        requires
            old(self).well_formed(),
        ensures
            final(self).well_formed(),
            final(self).key_seq() == old(self).key_seq(),
            final(self).value_seq().len() == old(self).value_seq().len(),
            K::obeys_eq_spec() ==> match spec_find(old(self).key_seq(), *key) {
                Some(i) => r is Some && *r.unwrap() == old(self).value_seq()[i]
                    && final(self).value_seq() == old(self).value_seq().update(
                    i,
                    *final(r.unwrap()),
                ),
                None => r is None && final(self).value_seq() == old(self).value_seq(),
            },
    {
        if let Some(i) = self.find(key) {
            Some(&mut self.values[i])
        } else {
            None
        }
    }

    /// Returns references to the stored key and the value of the first
    /// entry whose key `key` matches, or `None` when no key matches.
    pub fn get_key_value(&self, key: &K) -> (r: Option<(&K, &V)>)
        requires
            self.well_formed(),
        ensures
            K::obeys_eq_spec() ==> match spec_find(self.key_seq(), *key) {
                Some(i) => r matches Some(kv) && *kv.0 == self.key_seq()[i] && *kv.1
                    == self.value_seq()[i],
                None => r is None,
            },
    {
        if let Some(i) = self.find(key) {
            Some((&self.keys[i], &self.values[i]))
        } else {
            None
        }
    }

    /// Inserts the pair `(key, value)`. When some stored key matches `key`,
    /// the value of the first such entry is replaced and the old value
    /// returned; the stored key itself is left untouched, even when it is
    /// distinguishable from `key`. Otherwise the pair is appended as a new
    /// final entry and `None` is returned.
    pub fn insert(&mut self, key: K, value: V) -> (r: Option<V>)
        requires
            old(self).well_formed(),
        ensures
            final(self).well_formed(),
            old(self).spec_len() <= final(self).spec_len() <= old(self).spec_len() + 1,
            K::obeys_eq_spec() ==> match spec_find(old(self).key_seq(), key) {
                Some(i) => final(self).key_seq() == old(self).key_seq() && final(self).value_seq()
                    == old(self).value_seq().update(i, value) && r == Some(
                    old(self).value_seq()[i],
                ),
                None => final(self).key_seq() == old(self).key_seq().push(key)
                    && final(self).value_seq() == old(self).value_seq().push(value) && r is None,
            },
    {
        if let Some(i) = self.find(&key) {
            let mut prev = value;
            core::mem::swap(&mut self.values[i], &mut prev);
            Some(prev)
        } else {
            self.keys.push(key);
            self.values.push(value);
            None
        }
    }

    /// Removes the first entry whose key `key` matches and returns its
    /// value, or returns `None` and leaves the map unchanged when no key
    /// matches. The removal swaps the last entry into the removed slot and
    /// shrinks both vectors by one, so the relative order of the remaining
    /// entries is not preserved.
    pub fn remove(&mut self, key: &K) -> (r: Option<V>)
        requires
            old(self).well_formed(),
        ensures
            final(self).well_formed(),
            final(self).spec_len() <= old(self).spec_len() <= final(self).spec_len() + 1,
            K::obeys_eq_spec() ==> match spec_find(old(self).key_seq(), *key) {
                Some(i) => final(self).key_seq() == old(self).key_seq().update(
                    i,
                    old(self).key_seq().last(),
                ).drop_last() && final(self).value_seq() == old(self).value_seq().update(
                    i,
                    old(self).value_seq().last(),
                ).drop_last() && r == Some(old(self).value_seq()[i]),
                None => *final(self) == *old(self) && r is None,
            },
    {
        if let Some(i) = self.find(key) {
            self.keys.swap_remove(i);
            Some(self.values.swap_remove(i))
        } else {
            None
        }
    }

    /// Moves every entry out of `other` into `self`, in `other`'s index
    /// order, inserting each pair as [`Self::insert`] does: a pair whose key
    /// matches a key already in `self` replaces that entry's value (the
    /// incoming value wins). Afterwards `other` is empty; its allocated
    /// storage is kept.
    pub fn append(&mut self, other: &mut LinearMap<K, V>)
        requires
            old(self).well_formed(),
            old(other).well_formed(),
        ensures
            final(self).well_formed(),
            final(other).well_formed(),
            final(other).key_seq() == Seq::<K>::empty(),
            final(other).value_seq() == Seq::<V>::empty(),
            K::obeys_eq_spec() ==> (final(self).key_seq(), final(self).value_seq()) == spec_append(
                old(self).key_seq(),
                old(self).value_seq(),
                old(other).key_seq(),
                old(other).value_seq(),
            ),
    {
        let ghost target = spec_append(
            old(self).key_seq(),
            old(self).value_seq(),
            old(other).key_seq(),
            old(other).value_seq(),
        );
        while other.keys.len() > 0
            invariant
                self.well_formed(),
                other.well_formed(),
                K::obeys_eq_spec() ==> spec_append(
                    self.key_seq(),
                    self.value_seq(),
                    other.key_seq(),
                    other.value_seq(),
                ) == target,
            decreases other.spec_len(),
        {
            let ghost okeys = other.key_seq();
            let ghost ovalues = other.value_seq();
            let k = other.keys.remove(0);
            let v = other.values.remove(0);
            proof {
                assert(okeys.remove(0) =~= okeys.skip(1));
                assert(ovalues.remove(0) =~= ovalues.skip(1));
            }
            self.insert(k, v);
        }
        proof {
            assert(other.key_seq() =~= Seq::<K>::empty());
            assert(other.value_seq() =~= Seq::<V>::empty());
        }
    }

    /// Returns the number of entries the key vector can hold without
    /// reallocating; the value vector's reserved storage is assumed to
    /// track it and is not separately reported.
    pub fn capacity(&self) -> (c: usize)
        ensures
            c >= self.spec_len(),
    {
        vec_capacity(&self.keys)
    }

    /// Returns whether some key in the map matches `key`.
    pub fn contains_key(&self, key: &K) -> (r: bool)
        ensures
            K::obeys_eq_spec() ==> (r <==> has_key(self.key_seq(), *key)),
    {
        proof {
            if K::obeys_eq_spec() {
                lemma_spec_find_first(self.key_seq(), *key);
            }
        }
        self.find(key).is_some()
    }
}

} // verus!
