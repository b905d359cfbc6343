//! Traversal views over a [`LinearMap`]: borrowed key/value pairs, mutably
//! borrowed values, owned pairs, and the key-only and value-only views.
//! Every view walks the two parallel vectors in lock-step, in the map's
//! current index order, and hands out one entry per call to `next`.

use vstd::prelude::*;
use crate::LinearMap;

verus! {

/// The entries of the parallel sequences as a sequence of pairs, pairing
/// each key with the value at the same index. Meaningful when the two
/// sequences have the same length.
pub open spec fn entry_pairs<K, V>(keys: Seq<K>, values: Seq<V>) -> Seq<(K, V)> {
    Seq::new(keys.len(), |i: int| (keys[i], values[i]))
}

/// A borrowing view over the keys of a [`LinearMap`]; `elems` holds the
/// keys not yet handed out.
pub struct Keys<'a, K> {
    pub elems: &'a [K],
}

impl<'a, K> Keys<'a, K> {
    /// Hands out a reference to the next key, or `None` when every key has
    /// been handed out.
    pub fn next(&mut self) -> (r: Option<&'a K>)
        ensures
            old(self).elems@.len() == 0 ==> r is None && *final(self) == *old(self),
            old(self).elems@.len() > 0 ==> r is Some && *r.unwrap() == old(self).elems@[0]
                && final(self).elems@ == old(self).elems@.skip(1),
    {
        if self.elems.len() > 0 {
            let elems = self.elems;
            self.elems = &elems[1..elems.len()];
            Some(&elems[0])
        } else {
            None
        }
    }
}

/// A borrowing view over the values of a [`LinearMap`]; `elems` holds the
/// values not yet handed out.
pub struct Values<'a, V> {
    pub elems: &'a [V],
}

impl<'a, V> Values<'a, V> {
    /// Hands out a reference to the next value, or `None` when every value
    /// has been handed out.
    pub fn next(&mut self) -> (r: Option<&'a V>)
        ensures
            old(self).elems@.len() == 0 ==> r is None && *final(self) == *old(self),
            old(self).elems@.len() > 0 ==> r is Some && *r.unwrap() == old(self).elems@[0]
                && final(self).elems@ == old(self).elems@.skip(1),
    {
        if self.elems.len() > 0 {
            let elems = self.elems;
            self.elems = &elems[1..elems.len()];
            Some(&elems[0])
        } else {
            None
        }
    }
}

/// A mutably borrowing view over the values of a [`LinearMap`]; `elems`
/// holds the values not yet handed out. Writing through a handed-out
/// reference updates the corresponding entry of the map; the keys cannot be
/// reached through this view.
pub struct ValuesMut<'a, V> {
    pub elems: &'a mut [V],
}

impl<'a, V> ValuesMut<'a, V> {
    /// Hands out a mutable reference to the next value, or `None` when
    /// every value has been handed out. The borrowed storage ends up
    /// holding whatever the caller leaves in the handed-out references,
    /// in the original order.
    pub fn next(&mut self) -> (r: Option<&'a mut V>)
        ensures
            old(self).elems@.len() == 0 ==> r is None && *final(self) == *old(self),
            old(self).elems@.len() > 0 ==> r is Some && *r.unwrap() == old(self).elems@[0]
                && final(self).elems@ == old(self).elems@.skip(1) && final(old(self).elems)@
                == seq![*final(r.unwrap())] + final(final(self).elems)@,
    {
        if self.elems.len() > 0 {
            let mut taken: &'a mut [V] = &mut [];
            core::mem::swap(&mut self.elems, &mut taken);
            let (head, rest) = taken.split_at_mut(1);
            self.elems = rest;
            let v = head.first_mut().unwrap();
            proof {
                assert(seq![*final(v)] =~= old(self).elems@.subrange(0, 1).update(0, *final(v)));
            }
            Some(v)
        } else {
            None
        }
    }
}

/// A borrowing view over the entries of a [`LinearMap`]; `keys` and
/// `values` hold, in lock-step, the entries not yet handed out.
pub struct Iter<'a, K, V> {
    pub keys: &'a [K],
    pub values: &'a [V],
}

impl<'a, K, V> Iter<'a, K, V> {
    /// Hands out references to the next entry's key and value, or `None`
    /// when either cursor is exhausted; on a well-formed map both are
    /// exhausted together.
    pub fn next(&mut self) -> (r: Option<(&'a K, &'a V)>)
        ensures
            !(old(self).keys@.len() > 0 && old(self).values@.len() > 0) ==> r is None && *final(self) == *old(self),
            old(self).keys@.len() > 0 && old(self).values@.len() > 0 ==> r is Some && *r.unwrap().0
                == old(self).keys@[0] && *r.unwrap().1 == old(self).values@[0] && final(self).keys@
                == old(self).keys@.skip(1) && final(self).values@ == old(self).values@.skip(1),
    {
        if self.keys.len() > 0 && self.values.len() > 0 {
            let keys = self.keys;
            let values = self.values;
            self.keys = &keys[1..keys.len()];
            self.values = &values[1..values.len()];
            Some((&keys[0], &values[0]))
        } else {
            None
        }
    }
}

/// A view over the entries of a [`LinearMap`] that borrows the keys and
/// mutably borrows the values; `keys` and `values` hold, in lock-step, the
/// entries not yet handed out.
pub struct IterMut<'a, K, V> {
    pub keys: &'a [K],
    pub values: &'a mut [V],
}

impl<'a, K, V> IterMut<'a, K, V> {
    /// Hands out a reference to the next entry's key and a mutable
    /// reference to its value, or `None` when either cursor is exhausted.
    /// The borrowed value storage ends up holding whatever the caller
    /// leaves in the handed-out references, in the original order; the keys
    /// cannot be changed through this view.
    pub fn next(&mut self) -> (r: Option<(&'a K, &'a mut V)>)
        ensures
            !(old(self).keys@.len() > 0 && old(self).values@.len() > 0) ==> r is None && *final(self) == *old(self),
            old(self).keys@.len() > 0 && old(self).values@.len() > 0 ==> r is Some && *r.unwrap().0
                == old(self).keys@[0] && *r.unwrap().1 == old(self).values@[0] && final(self).keys@
                == old(self).keys@.skip(1) && final(self).values@ == old(self).values@.skip(1)
                && final(old(self).values)@ == seq![*final(r.unwrap().1)]
                + final(final(self).values)@,
    {
        if self.keys.len() > 0 && self.values.len() > 0 {
            let keys = self.keys;
            self.keys = &keys[1..keys.len()];
            let mut taken: &'a mut [V] = &mut [];
            core::mem::swap(&mut self.values, &mut taken);
            let (head, rest) = taken.split_at_mut(1);
            self.values = rest;
            let v = head.first_mut().unwrap();
            proof {
                assert(seq![*final(v)] =~= old(self).values@.subrange(0, 1).update(0, *final(v)));
            }
            Some((&keys[0], v))
        } else {
            None
        }
    }
}

/// An owning view over the entries of a [`LinearMap`]; `keys` and `values`
/// hold, in lock-step, the entries not yet handed out.
pub struct IntoIter<K, V> {
    pub keys: Vec<K>,
    pub values: Vec<V>,
}

impl<K, V> IntoIter<K, V> {
    /// Hands out the next entry's key and value by value, or `None` when
    /// either cursor is exhausted.
    pub fn next(&mut self) -> (r: Option<(K, V)>)
        ensures
            !(old(self).keys@.len() > 0 && old(self).values@.len() > 0) ==> r is None && *final(self) == *old(self),
            old(self).keys@.len() > 0 && old(self).values@.len() > 0 ==> r is Some && r.unwrap().0
                == old(self).keys@[0] && r.unwrap().1 == old(self).values@[0] && final(self).keys@
                == old(self).keys@.skip(1) && final(self).values@ == old(self).values@.skip(1),
    {
        if self.keys.len() > 0 && self.values.len() > 0 {
            let k = self.keys.remove(0);
            let v = self.values.remove(0);
            proof {
                assert(old(self).keys@.remove(0) =~= old(self).keys@.skip(1));
                assert(old(self).values@.remove(0) =~= old(self).values@.skip(1));
            }
            Some((k, v))
        } else {
            None
        }
    }
}

impl<K: PartialEq, V> LinearMap<K, V> {
    /// A borrowing view over the keys, in current index order.
    pub fn keys(&self) -> (it: Keys<'_, K>)
        ensures
            it.elems@ == self.key_seq(),
    {
        Keys { elems: self.keys.as_slice() }
    }

    /// A borrowing view over the values, in current index order.
    pub fn values(&self) -> (it: Values<'_, V>)
        ensures
            it.elems@ == self.value_seq(),
    {
        Values { elems: self.values.as_slice() }
    }

    /// A view that hands out the values for in-place mutation, in current
    /// index order. The keys are unchanged; the map's values end up as
    /// whatever the caller leaves in the view's storage.
    pub fn values_mut(&mut self) -> (it: ValuesMut<'_, V>)
        requires
            old(self).well_formed(),
        ensures
            it.elems@ == old(self).value_seq(),
            final(self).key_seq() == old(self).key_seq(),
            final(self).value_seq() == final(it.elems)@,
    {
        ValuesMut { elems: self.values.as_mut_slice() }
    }

    /// A borrowing view over the entries, in current index order.
    pub fn iter(&self) -> (it: Iter<'_, K, V>)
        ensures
            it.keys@ == self.key_seq(),
            it.values@ == self.value_seq(),
    {
        Iter { keys: self.keys.as_slice(), values: self.values.as_slice() }
    }

    /// A view over the entries that hands out each value for in-place
    /// mutation beside its borrowed key, in current index order. The keys
    /// are unchanged; the map's values end up as whatever the caller leaves
    /// in the view's storage.
    pub fn iter_mut(&mut self) -> (it: IterMut<'_, K, V>)
        requires
            old(self).well_formed(),
        ensures
            it.keys@ == old(self).key_seq(),
            it.values@ == old(self).value_seq(),
            final(self).key_seq() == old(self).key_seq(),
            final(self).value_seq() == final(it.values)@,
    {
        IterMut { keys: self.keys.as_slice(), values: self.values.as_mut_slice() }
    }

    /// An owning view over the entries, in current index order; consumes
    /// the map.
    pub fn into_iter(self) -> (it: IntoIter<K, V>)
        ensures
            it.keys@ == self.key_seq(),
            it.values@ == self.value_seq(),
    {
        IntoIter { keys: self.keys, values: self.values }
    }
}

} // verus!
