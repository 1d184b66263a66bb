//! An association list with unique keys, for keys that are compared by value rather than hashed.
use vstd::prelude::*;

verus! {

/// A key that can be compared for equality.
pub trait Key: Copy {
    /// Whether two keys are the same.
    fn same(&self, other: &Self) -> (r: bool)
        ensures
            r == (*self == *other),
    ;
}

/// A map from keys to values that remembers the order in which keys were first inserted.
#[derive(Debug)]
pub struct KeyedMap<K: Key, V> {
    entries: Vec<(K, V)>,
}

impl<K: Key, V> View for KeyedMap<K, V> {
    type V = Map<K, V>;

    closed spec fn view(&self) -> Map<K, V> {
        Map::new(
            |k: K| exists|i: int| 0 <= i < self.entries@.len() && (#[trigger] self.entries@[i]).0 == k,
            |k: K| self.entries@[self.position_of(k)].1,
        )
    }
}

impl<K: Key, V> KeyedMap<K, V> {
    /// The entries in insertion order.
    pub closed spec fn entries(&self) -> Seq<(K, V)> {
        self.entries@
    }

    /// No key occurs twice.
    pub open spec fn wf(&self) -> bool {
        forall|i: int, j: int|
            #![trigger self.entries()[i], self.entries()[j]]
            0 <= i < j < self.entries().len() ==> self.entries()[i].0 != self.entries()[j].0
    }

    spec fn position_of(&self, k: K) -> int {
        choose|i: int| 0 <= i < self.entries@.len() && (#[trigger] self.entries@[i]).0 == k
    }

    /// Each entry is in the map, and the map holds nothing else.
    pub proof fn lemma_entries(&self)
        requires
            self.wf(),
        ensures
            forall|i: int|
                0 <= i < self.entries().len() ==> {
                    let e = #[trigger] self.entries()[i];
                    self@.dom().contains(e.0) && self@[e.0] == e.1
                },
            forall|k: K| #[trigger]
                self@.dom().contains(k) ==> exists|i: int|
                    0 <= i < self.entries().len() && (#[trigger] self.entries()[i]).0 == k,
    {
        assert forall|i: int| 0 <= i < self.entries().len() implies {
            let e = #[trigger] self.entries()[i];
            self@.dom().contains(e.0) && self@[e.0] == e.1
        } by {
            let e = self.entries()[i];
            assert(self.entries@[i].0 == e.0);
            let p = self.position_of(e.0);
            assert(0 <= p < self.entries@.len() && self.entries@[p].0 == e.0);
            if p < i {
                assert(self.entries()[p].0 != self.entries()[i].0);
            }
            if i < p {
                assert(self.entries()[i].0 != self.entries()[p].0);
            }
        }
        assert forall|k: K| #[trigger] self@.dom().contains(k) implies exists|i: int|
            0 <= i < self.entries().len() && (#[trigger] self.entries()[i]).0 == k by {
            let i = choose|i: int| 0 <= i < self.entries@.len() && (#[trigger] self.entries@[i]).0 == k;
            assert(self.entries()[i].0 == k);
        }
    }

    /// The map is finite and has as many keys as there are entries.
    pub proof fn lemma_len(&self)
        requires
            self.wf(),
        ensures
            self@.dom().finite(),
            self@.dom().len() == self.entries().len(),
    {
        let keys = self.entries@.map_values(|e: (K, V)| e.0);
        assert(keys.no_duplicates()) by {
            assert forall|i: int, j: int| 0 <= i < keys.len() && 0 <= j < keys.len() && i != j implies keys[i]
                != keys[j] by {
                if i < j {
                    assert(self.entries()[i].0 != self.entries()[j].0);
                } else {
                    assert(self.entries()[j].0 != self.entries()[i].0);
                }
            }
        }
        keys.unique_seq_to_set();
        assert(self@.dom() =~= keys.to_set()) by {
            assert forall|k: K| self@.dom().contains(k) == keys.to_set().contains(k) by {
                if self@.dom().contains(k) {
                    let i = choose|i: int| 0 <= i < self.entries@.len() && (#[trigger] self.entries@[i]).0 == k;
                    assert(keys[i] == k);
                }
                if keys.to_set().contains(k) {
                    let i = choose|i: int| 0 <= i < keys.len() && keys[i] == k;
                    assert(self.entries@[i].0 == k);
                }
            }
        }
    }

    /// Creates an empty map.
    pub fn new() -> (m: Self)
        ensures
            m.wf(),
            m@ == Map::<K, V>::empty(),
            m.entries() == Seq::<(K, V)>::empty(),
    {
        let m = KeyedMap { entries: Vec::new() };
        assert(m@ =~= Map::<K, V>::empty());
        m
    }

    /// The number of keys in the map.
    pub fn len(&self) -> (n: usize)
        requires
            self.wf(),
        ensures
            n == self.entries().len(),
            n == self@.dom().len(),
            self@.dom().finite(),
    {
        proof {
            self.lemma_len();
        }
        self.entries.len()
    }

    /// The position of a key among the entries, if it is in the map.
    fn position(&self, key: &K) -> (p: Option<usize>)
        requires
            self.wf(),
        ensures
            match p {
                Some(i) => {
                    &&& i < self.entries().len()
                    &&& self.entries()[i as int].0 == *key
                    &&& self@.dom().contains(*key)
                    &&& self@[*key] == self.entries()[i as int].1
                },
                None => !self@.dom().contains(*key),
            },
    {
        let mut i: usize = 0;
        while i < self.entries.len()
            invariant
                self.wf(),
                i <= self.entries@.len(),
                forall|j: int| 0 <= j < i ==> (#[trigger] self.entries@[j]).0 != *key,
            decreases self.entries@.len() - i,
        {
            if self.entries[i].0.same(key) {
                proof {
                    self.lemma_entries();
                    assert(self.entries()[i as int].0 == *key);
                }
                return Some(i);
            }
            i += 1;
        }
        None
    }

    /// Whether a key is in the map.
    pub fn contains_key(&self, key: &K) -> (r: bool)
        requires
            self.wf(),
        ensures
            r == self@.dom().contains(*key),
    {
        self.position(key).is_some()
    }

    /// The value of a key, if it is in the map.
    pub fn get(&self, key: &K) -> (r: Option<&V>)
        requires
            self.wf(),
        ensures
            match r {
                Some(v) => self@.dom().contains(*key) && self@[*key] == *v,
                None => !self@.dom().contains(*key),
            },
    {
        match self.position(key) {
            Some(i) => Some(&self.entries[i].1),
            None => None,
        }
    }

    /// The entry at a position in insertion order.
    pub fn entry_at(&self, i: usize) -> (e: &(K, V))
        requires
            self.wf(),
            i < self.entries().len(),
        ensures
            *e == self.entries()[i as int],
            self@.dom().contains(e.0),
            self@[e.0] == e.1,
    {
        proof {
            self.lemma_entries();
        }
        &self.entries[i]
    }

    /// Sets the value of a key, returning the value that it had before.
    pub fn insert(&mut self, key: K, value: V) -> (previous: Option<V>)
        requires
            old(self).wf(),
        ensures
            final(self).wf(),
            final(self)@ == old(self)@.insert(key, value),
            previous == (if old(self)@.dom().contains(key) {
                Some(old(self)@[key])
            } else {
                None
            }),
            !old(self)@.dom().contains(key) ==> final(self).entries() == old(self).entries().push((key, value)),
            old(self)@.dom().contains(key) ==> final(self).entries().len() == old(self).entries().len(),
            old(self)@.dom().contains(key) ==> forall|i: int|
                0 <= i < old(self).entries().len() ==> #[trigger] final(self).entries()[i] == (if old(
                    self,
                ).entries()[i].0 == key {
                    (key, value)
                } else {
                    old(self).entries()[i]
                }),
    {
        let ghost before = *self;
        match self.position(&key) {
            Some(i) => {
                let mut entry = (key, value);
                std::mem::swap(&mut self.entries[i], &mut entry);
                proof {
                    assert(self.entries@ =~= before.entries@.update(i as int, (key, value)));
                    assert(self.wf()) by {
                        assert forall|a: int, b: int|
                            #![trigger self.entries()[a], self.entries()[b]]
                            0 <= a < b < self.entries().len() implies self.entries()[a].0
                            != self.entries()[b].0 by {
                            assert(before.entries()[a].0 != before.entries()[b].0);
                        }
                    }
                    assert forall|a: int| 0 <= a < before.entries().len() implies #[trigger] self.entries()[a] == (
                    if before.entries()[a].0 == key {
                        (key, value)
                    } else {
                        before.entries()[a]
                    }) by {
                        if a < i {
                            assert(before.entries()[a].0 != before.entries()[i as int].0);
                        }
                        if i < a {
                            assert(before.entries()[i as int].0 != before.entries()[a].0);
                        }
                    }
                    before.lemma_entries();
                    self.lemma_entries();
                    assert(self@ =~= before@.insert(key, value)) by {
                        assert forall|k: K|
                            self@.dom().contains(k) == before@.insert(key, value).dom().contains(k) by {
                            if self@.dom().contains(k) {
                                let a = choose|a: int|
                                    0 <= a < self.entries().len() && (#[trigger] self.entries()[a]).0 == k;
                                assert(before.entries()[a].0 == k);
                            }
                            if before@.dom().contains(k) {
                                let a = choose|a: int|
                                    0 <= a < before.entries().len() && (#[trigger] before.entries()[a]).0 == k;
                                assert(self.entries()[a].0 == k);
                            }
                            assert(self.entries()[i as int].0 == key);
                        }
                        assert forall|k: K| self@.dom().contains(k) implies #[trigger] self@[k] == before@.insert(
                            key,
                            value,
                        )[k] by {
                            let a = choose|a: int|
                                0 <= a < self.entries().len() && (#[trigger] self.entries()[a]).0 == k;
                            assert(self@[k] == self.entries()[a].1);
                            assert(before.entries()[a].0 == k);
                        }
                    }
                }
                Some(entry.1)
            },
            None => {
                proof {
                    before.lemma_entries();
                }
                self.entries.push((key, value));
                proof {
                    assert(self.entries() =~= before.entries().push((key, value)));
                    assert(self.wf()) by {
                        assert forall|a: int, b: int|
                            #![trigger self.entries()[a], self.entries()[b]]
                            0 <= a < b < self.entries().len() implies self.entries()[a].0
                            != self.entries()[b].0 by {
                            assert(self.entries()[a] == before.entries()[a]);
                            if b < before.entries().len() {
                                assert(before.entries()[a].0 != before.entries()[b].0);
                            }
                        }
                    }
                    self.lemma_entries();
                    let n = before.entries().len() as int;
                    assert(self@ =~= before@.insert(key, value)) by {
                        assert forall|k: K|
                            self@.dom().contains(k) == before@.insert(key, value).dom().contains(k) by {
                            if self@.dom().contains(k) {
                                let a = choose|a: int|
                                    0 <= a < self.entries().len() && (#[trigger] self.entries()[a]).0 == k;
                                if a < n {
                                    assert(before.entries()[a].0 == k);
                                }
                            }
                            if before@.dom().contains(k) {
                                let a = choose|a: int|
                                    0 <= a < before.entries().len() && (#[trigger] before.entries()[a]).0 == k;
                                assert(self.entries()[a].0 == k);
                            }
                            assert(self.entries()[n].0 == key);
                        }
                        assert forall|k: K| self@.dom().contains(k) implies #[trigger] self@[k] == before@.insert(
                            key,
                            value,
                        )[k] by {
                            let a = choose|a: int|
                                0 <= a < self.entries().len() && (#[trigger] self.entries()[a]).0 == k;
                            assert(self@[k] == self.entries()[a].1);
                            if a < n {
                                assert(before.entries()[a].0 == k);
                                assert(before@[k] == before.entries()[a].1);
                            }
                        }
                    }
                }
                None
            },
        }
    }

    /// Removes a key, returning the value that it had.
    pub fn remove(&mut self, key: &K) -> (removed: Option<V>)
        requires
            old(self).wf(),
        ensures
            final(self).wf(),
            final(self)@ == old(self)@.remove(*key),
            removed == (if old(self)@.dom().contains(*key) {
                Some(old(self)@[*key])
            } else {
                None
            }),
            !old(self)@.dom().contains(*key) ==> final(self).entries() == old(self).entries(),
            old(self)@.dom().contains(*key) ==> exists|p: int|
                0 <= p < old(self).entries().len() && #[trigger] old(self).entries()[p] == (
                *key, old(self)@[*key]) && final(self).entries() == old(self).entries().remove(p),
    {
        let ghost before = *self;
        match self.position(key) {
            Some(i) => {
                let entry = self.entries.remove(i);
                proof {
                    let p = i as int;
                    assert(self.entries() =~= before.entries().remove(p));
                    assert(before.entries()[p] == (*key, before@[*key]));
                    assert(self.wf()) by {
                        assert forall|a: int, b: int|
                            #![trigger self.entries()[a], self.entries()[b]]
                            0 <= a < b < self.entries().len() implies self.entries()[a].0
                            != self.entries()[b].0 by {
                            let c = if a < p { a } else { a + 1 };
                            let d = if b < p { b } else { b + 1 };
                            assert(before.entries()[c].0 != before.entries()[d].0);
                        }
                    }
                    before.lemma_entries();
                    self.lemma_entries();
                    assert(self@ =~= before@.remove(*key)) by {
                        assert forall|k: K|
                            self@.dom().contains(k) == before@.remove(*key).dom().contains(k) by {
                            if self@.dom().contains(k) {
                                let a = choose|a: int|
                                    0 <= a < self.entries().len() && (#[trigger] self.entries()[a]).0 == k;
                                let c = if a < p { a } else { a + 1 };
                                assert(before.entries()[c].0 == k);
                                if c < p {
                                    assert(before.entries()[c].0 != before.entries()[p].0);
                                } else {
                                    assert(before.entries()[p].0 != before.entries()[c].0);
                                }
                            }
                            if before@.dom().contains(k) && k != *key {
                                let c = choose|c: int|
                                    0 <= c < before.entries().len() && (#[trigger] before.entries()[c]).0 == k;
                                let a = if c < p { c } else { c - 1 };
                                assert(self.entries()[a].0 == k);
                            }
                        }
                        assert forall|k: K| self@.dom().contains(k) implies #[trigger] self@[k] == before@.remove(
                            *key,
                        )[k] by {
                            let a = choose|a: int|
                                0 <= a < self.entries().len() && (#[trigger] self.entries()[a]).0 == k;
                            let c = if a < p { a } else { a + 1 };
                            assert(self@[k] == self.entries()[a].1);
                            assert(before.entries()[c].0 == k);
                            assert(before@[k] == before.entries()[c].1);
                        }
                    }
                }
                Some(entry.1)
            },
            None => {
                assert(self@ =~= before@.remove(*key));
                None
            },
        }
    }
}

impl Key for u64 {
    fn same(&self, other: &Self) -> (r: bool) {
        *self == *other
    }
}

} // verus!
