//! A set of catalogue keys held in a vector without repetitions.

use crate::keys::CatalogKey;
use vstd::prelude::*;

verus! {

/// A finite set of keys. Each key occurs at most once; the keys are kept in
/// the order in which they were first inserted.
pub struct KeySet<K> {
    items: Vec<K>,
}

impl<K: CatalogKey> KeySet<K> {
    /// The abstract values of the keys, in insertion order.
    pub closed spec fn keys(&self) -> Seq<K::V> {
        self.items@.map_values(|k: K| k@)
    }

    /// The set of keys held.
    pub open spec fn set(&self) -> Set<K::V> {
        self.keys().to_set()
    }

    /// No key is held twice.
    pub open spec fn wf(&self) -> bool {
        self.keys().no_duplicates()
    }

    pub fn new() -> (s: Self)
        ensures
            s.wf(),
            s.keys() == Seq::<K::V>::empty(),
            s.set() == Set::<K::V>::empty(),
    {
        let s = KeySet { items: Vec::new() };
        assert(s.keys() =~= Seq::<K::V>::empty());
        assert(s.set() =~= Set::<K::V>::empty());
        s
    }

    pub fn len(&self) -> (n: usize)
        ensures
            n == self.keys().len(),
    {
        self.items.len()
    }

    pub fn get(&self, i: usize) -> (k: &K)
        requires
            i < self.keys().len(),
        ensures
            k@ == self.keys()[i as int],
    {
        &self.items[i]
    }

    pub fn contains(&self, key: &K) -> (b: bool)
        ensures
            b == self.set().contains(key@),
    {
        let mut i: usize = 0;
        while i < self.items.len()
            invariant
                i <= self.items.len(),
                forall|j: int| 0 <= j < i ==> self.keys()[j] != key@,
            decreases self.items.len() - i,
        {
            if self.items[i].same_key(key) {
                assert(self.keys()[i as int] == key@);
                return true;
            }
            i += 1;
        }
        false
    }

    /// Adds a key; returns whether it was absent before.
    pub fn insert(&mut self, key: K) -> (added: bool)
        requires
            old(self).wf(),
        ensures
            final(self).wf(),
            added == !old(self).set().contains(key@),
            final(self).set() == old(self).set().insert(key@),
            added ==> final(self).keys() == old(self).keys().push(key@),
            !added ==> final(self).keys() == old(self).keys(),
    {
        if self.contains(&key) {
            assert(self.set() =~= self.set().insert(key@));
            false
        } else {
            let ghost before = self.keys();
            self.items.push(key);
            assert(self.keys() =~= before.push(key@));
            assert(self.set() =~= old(self).set().insert(key@)) by {
                assert forall|x: K::V| #[trigger] self.set().contains(x) <==> old(self).set().contains(x) || x == key@ by {
                    if x == key@ {
                        assert(self.keys()[before.len() as int] == x);
                    }
                    if old(self).set().contains(x) {
                        let j = choose|j: int| 0 <= j < before.len() && before[j] == x;
                        assert(self.keys()[j] == x);
                    }
                }
            }
            true
        }
    }

    /// The keys, in insertion order.
    pub fn into_vec(self) -> (v: Vec<K>)
        ensures
            v@.map_values(|k: K| k@) == self.keys(),
    {
        self.items
    }

    /// Removes a key if it is held.
    pub fn remove(&mut self, key: &K)
        requires
            old(self).wf(),
        ensures
            final(self).wf(),
            final(self).set() == old(self).set().remove(key@),
    {
        let mut i: usize = 0;
        while i < self.items.len()
            invariant
                i <= self.items.len(),
                self.wf(),
                self.keys() == old(self).keys(),
                forall|j: int| 0 <= j < i ==> self.keys()[j] != key@,
            decreases self.items.len() - i,
        {
            if self.items[i].same_key(key) {
                let ghost before = self.keys();
                assert(before[i as int] == key@);
                let _ = self.items.remove(i);
                assert(self.keys() =~= before.remove(i as int));
                assert(self.set() =~= old(self).set().remove(key@)) by {
                    assert forall|x: K::V| #[trigger] self.set().contains(x) <==> (old(self).set().contains(x) && x != key@) by {
                        if self.set().contains(x) {
                            let j = choose|j: int| 0 <= j < self.keys().len() && self.keys()[j] == x;
                            if j < i {
                                assert(before[j] == x);
                            } else {
                                assert(before[j + 1] == x);
                            }
                        }
                        if old(self).set().contains(x) && x != key@ {
                            let j = choose|j: int| 0 <= j < before.len() && before[j] == x;
                            if j < i {
                                assert(self.keys()[j] == x);
                            } else {
                                assert(self.keys()[j - 1] == x);
                            }
                        }
                    }
                }
                return;
            }
            i += 1;
        }
        assert(self.set() =~= old(self).set().remove(key@));
    }
}

/// The first `i + 1` elements hold what the first `i` hold and the `i`-th.
pub proof fn lemma_take_to_set_step<A>(s: Seq<A>, i: int)
    requires
        0 <= i < s.len(),
    ensures
        s.take(i + 1).to_set() == s.take(i).to_set().insert(s[i]),
{
    let t = s.take(i + 1);
    let p = s.take(i);
    assert(t =~= p.push(s[i]));
    assert forall|x: A| #[trigger] t.to_set().contains(x) <==> p.to_set().insert(s[i]).contains(x) by {
        if t.contains(x) {
            let j = choose|j: int| 0 <= j < t.len() && #[trigger] t[j] == x;
            if j < i {
                assert(p[j] == x);
            }
        }
        if p.contains(x) {
            let j = choose|j: int| 0 <= j < p.len() && #[trigger] p[j] == x;
            assert(t[j] == x);
        }
        if x == s[i] {
            assert(t[i] == x);
        }
    }
    assert(s.take(i + 1).to_set() =~= s.take(i).to_set().insert(s[i]));
}

/// No element is taken before the start.
pub proof fn lemma_take_none_to_set<A>(s: Seq<A>)
    ensures
        s.take(0).to_set() == Set::<A>::empty(),
{
    assert(s.take(0).to_set() =~= Set::<A>::empty());
}

/// Taking every element takes the whole set.
pub proof fn lemma_take_all_to_set<A>(s: Seq<A>)
    ensures
        s.take(s.len() as int).to_set() == s.to_set(),
{
    assert(s.take(s.len() as int) =~= s);
}

} // verus!
