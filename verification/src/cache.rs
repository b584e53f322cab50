//! A bounded keyed cache: get, insert-or-overwrite up to a capacity,
//! and clear.
//!
//! Keys may be any `PartialEq` type; where the key type's equality
//! agrees with its specification (`obeys_eq_spec`), every operation is
//! pinned down exactly, in terms of the first entry whose key equals
//! the one given.

use vstd::prelude::*;

verus! {

use vstd::pervasive::cloned;
use vstd::std_specs::cmp::PartialEqSpec;

/// Index of the first entry whose key equals `key` under the key
/// type's equality spec, or `-1`.
pub open spec fn eq_idx<K: PartialEq, V>(m: Seq<(K, V)>, key: K) -> int
    decreases m.len(),
{
    if m.len() == 0 {
        -1
    } else if m[0].0.eq_spec(&key) {
        0
    } else {
        let r = eq_idx(m.drop_first(), key);
        if r < 0 {
            -1
        } else {
            1 + r
        }
    }
}

pub proof fn lemma_eq_idx<K: PartialEq, V>(m: Seq<(K, V)>, key: K)
    ensures
        -1 <= eq_idx(m, key) < m.len(),
        eq_idx(m, key) >= 0 ==> m[eq_idx(m, key)].0.eq_spec(&key) && forall|j: int|
            0 <= j < eq_idx(m, key) ==> !(#[trigger] m[j]).0.eq_spec(&key),
        eq_idx(m, key) < 0 ==> forall|j: int|
            0 <= j < m.len() ==> !(#[trigger] m[j]).0.eq_spec(&key),
    decreases m.len(),
{
    if m.len() > 0 && !m[0].0.eq_spec(&key) {
        lemma_eq_idx(m.drop_first(), key);
        let d = m.drop_first();
        let r = eq_idx(d, key);
        if r >= 0 {
            assert(m[r + 1] == d[r]);
            assert forall|j: int| 0 <= j < eq_idx(m, key) implies !(#[trigger] m[j]).0.eq_spec(
                &key,
            ) by {
                if j > 0 {
                    assert(d[j - 1] == m[j]);
                }
            }
        } else {
            assert forall|j: int| 0 <= j < m.len() implies !(#[trigger] m[j]).0.eq_spec(&key) by {
                if j > 0 {
                    assert(d[j - 1] == m[j]);
                }
            }
        }
    }
}

proof fn lemma_eq_idx_unique<K: PartialEq, V>(m: Seq<(K, V)>, key: K, i: int)
    requires
        0 <= i <= m.len(),
        forall|j: int| 0 <= j < i ==> !(#[trigger] m[j]).0.eq_spec(&key),
        i < m.len() ==> m[i].0.eq_spec(&key),
    ensures
        i < m.len() ==> i == eq_idx(m, key),
        i == m.len() ==> eq_idx(m, key) < 0,
{
    lemma_eq_idx(m, key);
    let f = eq_idx(m, key);
    if i < m.len() {
        if f < 0 {
            assert(!m[i].0.eq_spec(&key));
        } else if f < i {
            assert(!m[f].0.eq_spec(&key));
        } else if f > i {
            assert(!m[i].0.eq_spec(&key));
        }
    } else {
        if f >= 0 {
            assert(!m[f].0.eq_spec(&key));
        }
    }
}

/// A bounded keyed cache backed by an entry list.
#[derive(Debug)]
pub struct Cache<K, V> {
    store: Vec<(K, V)>,
    max_size: usize,
}

impl<K: PartialEq + Clone, V: Clone> Cache<K, V> {
    /// The stored entries, in insertion order.
    pub closed spec fn entries(&self) -> Seq<(K, V)> {
        self.store@
    }

    /// The configured capacity.
    pub closed spec fn capacity(&self) -> usize {
        self.max_size
    }

    /// An empty cache that holds at most `max_size` entries.
    pub fn new(max_size: usize) -> (r: Self)
        ensures
            r.entries() == Seq::<(K, V)>::empty(),
            r.capacity() == max_size,
    {
        Cache { store: Vec::new(), max_size }
    }

    /// Reads a clone of the value stored under `key`, matching keys by
    /// equality.
    pub fn get(&self, key: &K) -> (r: Option<V>)
        ensures
            K::obeys_eq_spec() ==> match r {
                Some(v) => {
                    let i = eq_idx(self.entries(), *key);
                    i >= 0 && cloned(self.entries()[i].1, v)
                },
                None => eq_idx(self.entries(), *key) < 0,
            },
    {
        let ghost m = self.entries();
        let mut i: usize = 0;
        while i < self.store.len()
            invariant
                i <= self.store@.len(),
                m == self.entries(),
                K::obeys_eq_spec() ==> forall|j: int|
                    0 <= j < i ==> !(#[trigger] m[j]).0.eq_spec(key),
            decreases self.store@.len() - i,
        {
            if &self.store[i].0 == key {
                proof {
                    if K::obeys_eq_spec() {
                        lemma_eq_idx_unique(m, *key, i as int);
                    }
                }
                return Some(self.store[i].1.clone());
            }
            i = i + 1;
        }
        proof {
            if K::obeys_eq_spec() {
                lemma_eq_idx_unique(m, *key, m.len() as int);
            }
        }
        None
    }

    /// Stores a value. A full cache rejects the insert; otherwise the
    /// first entry with an equal key is replaced, or the pair is
    /// appended.
    pub fn set(&mut self, key: K, value: V) -> (r: Result<(), String>)
        ensures
            old(self).entries().len() >= old(self).capacity() ==> (r matches Err(m) && m@
                == "Cache is full"@ && *final(self) == *old(self)),
            old(self).entries().len() < old(self).capacity() ==> r is Ok && final(self).capacity()
                == old(self).capacity(),
            old(self).entries().len() < old(self).capacity() && K::obeys_eq_spec() ==> {
                let i = eq_idx(old(self).entries(), key);
                if i >= 0 {
                    final(self).entries() == old(self).entries().update(i, (key, value))
                } else {
                    final(self).entries() == old(self).entries().push((key, value))
                }
            },
    {
        if self.store.len() >= self.max_size {
            return Err("Cache is full".to_owned());
        }
        let ghost m = self.entries();
        let mut i: usize = 0;
        while i < self.store.len()
            invariant
                i <= self.store@.len(),
                self.store@ == old(self).store@,
                self.max_size == old(self).max_size,
                old(self).store@.len() < old(self).max_size,
                m == self.entries(),
                K::obeys_eq_spec() ==> forall|j: int|
                    0 <= j < i ==> !(#[trigger] m[j]).0.eq_spec(&key),
            decreases self.store@.len() - i,
        {
            if &self.store[i].0 == &key {
                proof {
                    if K::obeys_eq_spec() {
                        lemma_eq_idx_unique(m, key, i as int);
                    }
                }
                let entry = (key, value);
                self.store.set(i, entry);
                return Ok(());
            }
            i = i + 1;
        }
        proof {
            if K::obeys_eq_spec() {
                lemma_eq_idx_unique(m, key, m.len() as int);
            }
        }
        self.store.push((key, value));
        Ok(())
    }

    /// Removes every entry; the capacity stays.
    pub fn clear(&mut self)
        ensures
            final(self).entries() == Seq::<(K, V)>::empty(),
            final(self).capacity() == old(self).capacity(),
    {
        self.store.clear();
    }
}

} // verus!
