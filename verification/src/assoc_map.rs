//! A finite map kept as a vector of distinct key/value pairs, with a `Map` view.

use vstd::prelude::*;

verus! {

/// Keys of an [`AssocMap`]: values that can be compared for equality in executable code.
pub trait MapKey: Sized {
    fn key_eq(&self, other: &Self) -> (b: bool)
        ensures
            b == (*self == *other),
    ;
}

impl MapKey for u64 {
    fn key_eq(&self, other: &Self) -> (b: bool) {
        *self == *other
    }
}

impl MapKey for [u8; 32] {
    fn key_eq(&self, other: &Self) -> (b: bool) {
        let mut i: usize = 0;
        while i < 32
            invariant
                0 <= i <= 32,
                forall|j: int| 0 <= j < i ==> self[j] == other[j],
            decreases 32 - i,
        {
            if self[i] != other[i] {
                return false;
            }
            i = i + 1;
        }
        assert(*self =~= *other);
        true
    }
}

impl MapKey for ([u8; 32], u8) {
    fn key_eq(&self, other: &Self) -> (b: bool) {
        self.0.key_eq(&other.0) && self.1 == other.1
    }
}

impl MapKey for ([u8; 32], u64) {
    fn key_eq(&self, other: &Self) -> (b: bool) {
        self.0.key_eq(&other.0) && self.1 == other.1
    }
}

/// A map from keys to values, stored as pairs with pairwise distinct keys.
#[derive(Clone, Debug, PartialEq, Eq)]
pub struct AssocMap<K, V> {
    entries: Vec<(K, V)>,
}

impl<K: MapKey, V> AssocMap<K, V> {
    /// Keys of the stored pairs are pairwise distinct.
    pub closed spec fn wf(&self) -> bool {
        forall|i: int, j: int|
            0 <= i < j < self.entries@.len() ==> #[trigger] self.entries@[i].0
                != #[trigger] self.entries@[j].0
    }

    pub closed spec fn has_index(&self, k: K, i: int) -> bool {
        0 <= i < self.entries@.len() && self.entries@[i].0 == k
    }

    /// The map that the pairs stand for.
    pub closed spec fn view(&self) -> Map<K, V> {
        Map::new(
            |k: K| exists|i: int| self.has_index(k, i),
            |k: K| self.entries@[choose|i: int| self.has_index(k, i)].1,
        )
    }

    proof fn lemma_index(&self, k: K, i: int)
        requires
            self.wf(),
            self.has_index(k, i),
        ensures
            self.view().contains_key(k),
            self.view()[k] == self.entries@[i].1,
    {
        let j = choose|j: int| self.has_index(k, j);
        assert(self.has_index(k, j));
        if j != i {
            if j < i {
                assert(self.entries@[j].0 != self.entries@[i].0);
            } else {
                assert(self.entries@[i].0 != self.entries@[j].0);
            }
        }
    }

    proof fn lemma_domain_finite(&self)
        requires
            self.wf(),
        ensures
            self.view().dom() =~= self.entries@.map_values(|e: (K, V)| e.0).to_set(),
            self.view().dom().finite(),
            self.view().dom().len() == self.entries@.len(),
    {
        let keys = self.entries@.map_values(|e: (K, V)| e.0);
        assert forall|k: K| self.view().dom().contains(k) <==> keys.to_set().contains(k) by {
            if self.view().dom().contains(k) {
                let i = choose|i: int| self.has_index(k, i);
                assert(keys[i] == k);
            }
            if keys.to_set().contains(k) {
                let i = choose|i: int| 0 <= i < keys.len() && keys[i] == k;
                assert(self.has_index(k, i));
            }
        }
        assert(keys.no_duplicates()) by {
            assert forall|i: int, j: int|
                0 <= i < keys.len() && 0 <= j < keys.len() && i != j implies keys[i]
                != keys[j] by {
                if i < j {
                    assert(self.entries@[i].0 != self.entries@[j].0);
                } else {
                    assert(self.entries@[j].0 != self.entries@[i].0);
                }
            }
        }
        keys.unique_seq_to_set();
    }

    pub fn new() -> (m: Self)
        ensures
            m.wf(),
            m@ == Map::<K, V>::empty(),
    {
        let m = AssocMap { entries: Vec::new() };
        assert(m@ =~= Map::<K, V>::empty());
        m
    }

    fn find(&self, k: &K) -> (r: Option<usize>)
        ensures
            match r {
                Some(i) => self.has_index(*k, i as int),
                None => forall|i: int| 0 <= i < self.entries@.len() ==> self.entries@[i].0 != *k,
            },
    {
        let mut i: usize = 0;
        while i < self.entries.len()
            invariant
                0 <= i <= self.entries@.len(),
                forall|j: int| 0 <= j < i ==> self.entries@[j].0 != *k,
            decreases self.entries@.len() - i,
        {
            if self.entries[i].0.key_eq(k) {
                return Some(i);
            }
            i = i + 1;
        }
        None
    }

    /// Number of keys in the map.
    pub fn len(&self) -> (n: usize)
        requires
            self.wf(),
        ensures
            self@.dom().finite(),
            n == self@.dom().len(),
    {
        proof {
            self.lemma_domain_finite();
        }
        self.entries.len()
    }

    pub fn contains_key(&self, k: &K) -> (b: bool)
        requires
            self.wf(),
        ensures
            b == self@.contains_key(*k),
    {
        match self.find(k) {
            Some(i) => {
                proof {
                    self.lemma_index(*k, i as int);
                }
                true
            },
            None => false,
        }
    }

    pub fn get(&self, k: &K) -> (r: Option<&V>)
        requires
            self.wf(),
        ensures
            match r {
                Some(v) => self@.contains_key(*k) && *v == self@[*k],
                None => !self@.contains_key(*k),
            },
    {
        match self.find(k) {
            Some(i) => {
                proof {
                    self.lemma_index(*k, i as int);
                }
                Some(&self.entries[i].1)
            },
            None => None,
        }
    }

    pub fn insert(&mut self, k: K, v: V)
        requires
            old(self).wf(),
        ensures
            final(self).wf(),
            final(self)@ == old(self)@.insert(k, v),
    {
        let ghost before = *self;
        match self.find(&k) {
            Some(i) => {
                self.entries.set(i, (k, v));
                proof {
                    assert forall|a: int, b: int|
                        0 <= a < b < self.entries@.len() implies #[trigger] self.entries@[a].0
                        != #[trigger] self.entries@[b].0 by {
                        assert(before.entries@[a].0 != before.entries@[b].0);
                    }
                    assert forall|key: K| #[trigger]
                        self@.contains_key(key) <==> before@.insert(k, v).contains_key(key) by {
                        if self@.contains_key(key) {
                            let j = choose|j: int| self.has_index(key, j);
                            if key != k {
                                assert(before.has_index(key, j));
                                before.lemma_index(key, j);
                            }
                        }
                        if before@.contains_key(key) && key != k {
                            let j = choose|j: int| before.has_index(key, j);
                            assert(self.has_index(key, j));
                        }
                        assert(self.has_index(k, i as int));
                    }
                    assert forall|key: K| #[trigger] self@.contains_key(key) implies self@[key]
                        == before@.insert(k, v)[key] by {
                        let j = choose|j: int| self.has_index(key, j);
                        self.lemma_index(key, j);
                        if key != k {
                            assert(before.has_index(key, j));
                            before.lemma_index(key, j);
                        } else {
                            self.lemma_index(k, i as int);
                        }
                    }
                    assert(self@ =~= before@.insert(k, v));
                }
            },
            None => {
                self.entries.push((k, v));
                proof {
                    let n = before.entries@.len() as int;
                    assert forall|a: int, b: int|
                        0 <= a < b < self.entries@.len() implies #[trigger] self.entries@[a].0
                        != #[trigger] self.entries@[b].0 by {
                        if b < n {
                            assert(before.entries@[a].0 != before.entries@[b].0);
                        }
                    }
                    assert forall|key: K| #[trigger]
                        self@.contains_key(key) <==> before@.insert(k, v).contains_key(key) by {
                        if self@.contains_key(key) && key != k {
                            let j = choose|j: int| self.has_index(key, j);
                            assert(j != n);
                            assert(before.has_index(key, j));
                        }
                        if before@.contains_key(key) {
                            let j = choose|j: int| before.has_index(key, j);
                            assert(self.has_index(key, j));
                        }
                        assert(self.has_index(k, n));
                    }
                    assert forall|key: K| #[trigger] self@.contains_key(key) implies self@[key]
                        == before@.insert(k, v)[key] by {
                        let j = choose|j: int| self.has_index(key, j);
                        self.lemma_index(key, j);
                        if key != k {
                            assert(j != n);
                            assert(before.has_index(key, j));
                            before.lemma_index(key, j);
                        } else {
                            self.lemma_index(k, n);
                        }
                    }
                    assert(self@ =~= before@.insert(k, v));
                }
            },
        }
    }

    pub fn remove(&mut self, k: &K) -> (r: Option<V>)
        requires
            old(self).wf(),
        ensures
            final(self).wf(),
            final(self)@ == old(self)@.remove(*k),
            match r {
                Some(v) => old(self)@.contains_key(*k) && v == old(self)@[*k],
                None => !old(self)@.contains_key(*k),
            },
    {
        let ghost before = *self;
        match self.find(k) {
            Some(i) => {
                proof {
                    before.lemma_index(*k, i as int);
                }
                let (_, v) = self.entries.remove(i);
                proof {
                    let ii = i as int;
                    assert forall|a: int| 0 <= a < self.entries@.len() implies #[trigger]
                        self.entries@[a] == (if a < ii {
                            before.entries@[a]
                        } else {
                            before.entries@[a + 1]
                        }) by {}
                    assert forall|a: int, b: int|
                        0 <= a < b < self.entries@.len() implies #[trigger] self.entries@[a].0
                        != #[trigger] self.entries@[b].0 by {
                        let a2 = if a < ii { a } else { a + 1 };
                        let b2 = if b < ii { b } else { b + 1 };
                        assert(self.entries@[a] == before.entries@[a2]);
                        assert(self.entries@[b] == before.entries@[b2]);
                        assert(before.entries@[a2].0 != before.entries@[b2].0);
                    }
                    assert forall|key: K| #[trigger]
                        self@.contains_key(key) <==> before@.remove(*k).contains_key(key) by {
                        if self@.contains_key(key) {
                            let j = choose|j: int| self.has_index(key, j);
                            let j2 = if j < ii { j } else { j + 1 };
                            assert(self.entries@[j] == before.entries@[j2]);
                            assert(before.has_index(key, j2));
                            assert(j2 != ii ==> before.entries@[j2].0 != before.entries@[ii].0)
                                by {
                                if j2 < ii {
                                    assert(before.entries@[j2].0 != before.entries@[ii].0);
                                } else if j2 > ii {
                                    assert(before.entries@[ii].0 != before.entries@[j2].0);
                                }
                            }
                        }
                        if before@.contains_key(key) && key != *k {
                            let j = choose|j: int| before.has_index(key, j);
                            assert(j != ii);
                            let j2 = if j < ii { j } else { j - 1 };
                            assert(self.entries@[j2] == before.entries@[j]);
                            assert(self.has_index(key, j2));
                        }
                    }
                    assert forall|key: K| #[trigger] self@.contains_key(key) implies self@[key]
                        == before@.remove(*k)[key] by {
                        let j = choose|j: int| self.has_index(key, j);
                        self.lemma_index(key, j);
                        let j2 = if j < ii { j } else { j + 1 };
                        assert(self.entries@[j] == before.entries@[j2]);
                        before.lemma_index(key, j2);
                    }
                    assert(self@ =~= before@.remove(*k));
                }
                Some(v)
            },
            None => {
                proof {
                    assert forall|key: K| #[trigger] self@.contains_key(key) implies key != *k by {
                        let j = choose|j: int| self.has_index(key, j);
                    }
                    assert(self@ =~= before@.remove(*k));
                }
                None
            },
        }
    }
}

} // verus!
