//! A map from catalogue keys to the lists fetched for them.

use crate::keys::CatalogKey;
use vstd::prelude::*;

verus! {

/// Maps each key to the list last stored for it. Keys are held once each,
/// in the order of their first insertion.
pub struct Cache<K, V> {
    keys: Vec<K>,
    values: Vec<Vec<V>>,
}

impl<K: CatalogKey, V> Cache<K, V> {
    /// The abstract keys, in the order of their first insertion.
    pub closed spec fn keys(&self) -> Seq<K::V> {
        self.keys@.map_values(|k: K| k@)
    }

    /// The stored lists, aligned with `keys()`.
    pub closed spec fn values(&self) -> Seq<Seq<V>> {
        self.values@.map_values(|v: Vec<V>| v@)
    }

    pub open spec fn wf(&self) -> bool {
        &&& self.keys().len() == self.values().len()
        &&& self.keys().no_duplicates()
    }

    /// The map that the cache stands for.
    pub open spec fn map(&self) -> Map<K::V, Seq<V>> {
        Map::new(
            |k: K::V| self.keys().contains(k),
            |k: K::V| self.values()[self.keys().index_of(k)],
        )
    }

    pub fn new() -> (c: Self)
        ensures
            c.wf(),
            c.keys() == Seq::<K::V>::empty(),
            c.map() == Map::<K::V, Seq<V>>::empty(),
    {
        let c = Cache { keys: Vec::new(), values: Vec::new() };
        assert(c.keys() =~= Seq::<K::V>::empty());
        assert(c.values() =~= Seq::<Seq<V>>::empty());
        assert(c.map() =~= Map::<K::V, Seq<V>>::empty());
        c
    }

    pub fn len(&self) -> (n: usize)
        requires
            self.wf(),
        ensures
            n == self.keys().len(),
    {
        self.keys.len()
    }

    pub fn key_at(&self, i: usize) -> (k: &K)
        requires
            self.wf(),
            i < self.keys().len(),
        ensures
            k@ == self.keys()[i as int],
    {
        &self.keys[i]
    }

    pub fn values_at(&self, i: usize) -> (v: &Vec<V>)
        requires
            self.wf(),
            i < self.keys().len(),
        ensures
            v@ == self.values()[i as int],
    {
        &self.values[i]
    }

    /// The entry at position `i` is what the map holds for its key.
    pub proof fn lemma_entry(&self, i: int)
        requires
            self.wf(),
            0 <= i < self.keys().len(),
        ensures
            self.map().contains_key(self.keys()[i]),
            self.map()[self.keys()[i]] == self.values()[i],
    {
        let k = self.keys()[i];
        assert(self.keys().contains(k));
        let j = self.keys().index_of(k);
        assert(self.keys()[j] == k);
    }

    fn position(&self, key: &K) -> (r: Option<usize>)
        requires
            self.wf(),
        ensures
            r is None ==> !self.keys().contains(key@),
            r matches Some(i) ==> i < self.keys().len() && self.keys()[i as int] == key@,
    {
        let mut i: usize = 0;
        while i < self.keys.len()
            invariant
                self.wf(),
                i <= self.keys.len(),
                forall|j: int| 0 <= j < i ==> self.keys()[j] != key@,
            decreases self.keys.len() - i,
        {
            if self.keys[i].same_key(key) {
                return Some(i);
            }
            i += 1;
        }
        None
    }

    pub fn contains_key(&self, key: &K) -> (b: bool)
        requires
            self.wf(),
        ensures
            b == self.map().contains_key(key@),
    {
        self.position(key).is_some()
    }

    pub fn get(&self, key: &K) -> (r: Option<&Vec<V>>)
        requires
            self.wf(),
        ensures
            r is None ==> !self.map().contains_key(key@),
            r matches Some(v) ==> self.map().contains_key(key@) && self.map()[key@] == v@,
    {
        match self.position(key) {
            Some(i) => {
                proof {
                    self.lemma_entry(i as int);
                }
                Some(&self.values[i])
            },
            None => None,
        }
    }

    /// Stores `value` under `key`, replacing what was stored before.
    pub fn insert(&mut self, key: K, value: Vec<V>)
        requires
            old(self).wf(),
        ensures
            final(self).wf(),
            final(self).map() == old(self).map().insert(key@, value@),
            forall|k: K::V| #[trigger] old(self).keys().contains(k) ==> final(self).keys().contains(k),
    {
        let ghost k0 = key@;
        let ghost v0 = value@;
        match self.position(&key) {
            Some(i) => {
                let ghost old_keys = self.keys();
                self.values.set(i, value);
                assert(self.keys() == old_keys);
                assert(self.values() =~= old(self).values().update(i as int, v0));
                assert(self.map() =~= old(self).map().insert(k0, v0)) by {
                    assert forall|k: K::V| #[trigger] self.keys().contains(k) implies
                        self.map()[k] == old(self).map().insert(k0, v0)[k] by {
                        let j = self.keys().index_of(k);
                        assert(self.keys()[j] == k);
                        if k == k0 {
                            assert(j == i);
                        } else {
                            old(self).lemma_entry(j);
                        }
                    }
                }
            },
            None => {
                self.keys.push(key);
                self.values.push(value);
                let ghost n: int = old(self).keys().len() as int;
                assert(self.keys() =~= old(self).keys().push(k0));
                assert(self.values() =~= old(self).values().push(v0));
                assert forall|a: int, b: int| 0 <= a < self.keys().len() && 0 <= b < self.keys().len() && a != b
                    implies self.keys()[a] != self.keys()[b] by {
                    if a == n {
                        assert(old(self).keys()[b] != k0);
                    } else if b == n {
                        assert(old(self).keys()[a] != k0);
                    }
                }
                assert forall|k: K::V| #[trigger] old(self).keys().contains(k) implies self.keys().contains(k) by {
                    let j = old(self).keys().index_of(k);
                    assert(self.keys()[j] == k);
                }
                assert(self.map() =~= old(self).map().insert(k0, v0)) by {
                    assert forall|k: K::V| #[trigger] self.keys().contains(k) <==> (old(self).keys().contains(k) || k == k0) by {
                        if k == k0 {
                            assert(self.keys()[n] == k);
                        }
                        if self.keys().contains(k) && k != k0 {
                            let j = self.keys().index_of(k);
                            assert(self.keys()[j] == k);
                            assert(old(self).keys()[j] == k);
                        }
                    }
                    assert forall|k: K::V| #[trigger] self.keys().contains(k) implies
                        self.map()[k] == old(self).map().insert(k0, v0)[k] by {
                        let j = self.keys().index_of(k);
                        assert(self.keys()[j] == k);
                        if k == k0 {
                            assert(self.keys()[n] == k);
                            assert(j == n);
                        } else {
                            assert(old(self).keys()[j] == k);
                            old(self).lemma_entry(j);
                        }
                    }
                }
            },
        }
    }
}

} // verus!
