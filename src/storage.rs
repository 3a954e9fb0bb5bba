//! An in-memory key-value store with the operations the pallets use:
//! `get`, `insert`, `remove`, `contains_key` and a bounded `clear_prefix`
//! for maps keyed by pairs.
use vstd::prelude::*;

verus! {

/// Keys of a [`StorageMap`]: plain values that can be compared at run time.
pub trait StorageKey: Sized {
    fn same(&self, other: &Self) -> (r: bool)
        ensures
            r == (*self == *other),
    ;
}

impl StorageKey for u32 {
    fn same(&self, other: &Self) -> (r: bool) {
        *self == *other
    }
}

impl StorageKey for u64 {
    fn same(&self, other: &Self) -> (r: bool) {
        *self == *other
    }
}

impl StorageKey for [u8; 16] {
    fn same(&self, other: &Self) -> (r: bool) {
        let mut i: usize = 0;
        while i < 16
            invariant
                i <= 16,
                forall|j: int| 0 <= j < i ==> self[j] == other[j],
            decreases 16 - i,
        {
            if self[i] != other[i] {
                return false;
            }
            i = i + 1;
        }
        proof {
            broadcast use vstd::array::axiom_array_ext_equal;
            assert(*self =~= *other);
        }
        true
    }
}

impl<A: StorageKey, B: StorageKey> StorageKey for (A, B) {
    fn same(&self, other: &Self) -> (r: bool) {
        self.0.same(&other.0) && self.1.same(&other.1)
    }
}

/// A finite map held as a list of entries with pairwise distinct keys.
#[verifier::reject_recursive_types(K)]
pub struct StorageMap<K, V> {
    entries: Vec<(K, V)>,
    contents: Ghost<Map<K, V>>,
}

impl<K, V> View for StorageMap<K, V> {
    type V = Map<K, V>;

    closed spec fn view(&self) -> Map<K, V> {
        self.contents@
    }
}

impl<K: StorageKey, V: Copy> StorageMap<K, V> {
    /// The entries have distinct keys and hold exactly the map's contents.
    pub closed spec fn wf(&self) -> bool {
        &&& self.contents@.dom().finite()
        &&& forall|i: int, j: int|
            0 <= i < j < self.entries@.len() ==> self.entries@[i].0 != self.entries@[j].0
        &&& forall|i: int|
            0 <= i < self.entries@.len() ==> {
                &&& self.contents@.contains_key(#[trigger] self.entries@[i].0)
                &&& self.contents@[self.entries@[i].0] == self.entries@[i].1
            }
        &&& forall|k: K|
            #[trigger] self.contents@.contains_key(k) ==> exists|i: int|
                0 <= i < self.entries@.len() && #[trigger] self.entries@[i].0 == k
    }

    pub proof fn lemma_finite(&self)
        requires
            self.wf(),
        ensures
            self@.dom().finite(),
    {
    }

    pub fn new() -> (r: Self)
        ensures
            r.wf(),
            r@ == Map::<K, V>::empty(),
    {
        StorageMap { entries: Vec::new(), contents: Ghost(Map::empty()) }
    }

    /// The position of the entry for `k`, if there is one.
    fn find(&self, k: &K) -> (r: Option<usize>)
        requires
            self.wf(),
        ensures
            match r {
                Some(i) => i < self.entries@.len() && self.entries@[i as int].0 == *k,
                None => !self@.contains_key(*k),
            },
    {
        let mut i: usize = 0;
        while i < self.entries.len()
            invariant
                self.wf(),
                i <= self.entries@.len(),
                forall|j: int| 0 <= j < i ==> self.entries@[j].0 != *k,
            decreases self.entries@.len() - i,
        {
            if self.entries[i].0.same(k) {
                return Some(i);
            }
            i = i + 1;
        }
        None
    }

    pub fn contains_key(&self, k: &K) -> (r: bool)
        requires
            self.wf(),
        ensures
            r == self@.contains_key(*k),
    {
        self.find(k).is_some()
    }

    pub fn get(&self, k: &K) -> (r: Option<V>)
        requires
            self.wf(),
        ensures
            r == (if self@.contains_key(*k) {
                Some(self@[*k])
            } else {
                None
            }),
    {
        match self.find(k) {
            Some(i) => Some(self.entries[i].1),
            None => None,
        }
    }

    pub fn insert(&mut self, k: K, v: V)
        requires
            old(self).wf(),
        ensures
            final(self).wf(),
            final(self)@ == old(self)@.insert(k, v),
    {
        let ghost pos: int;
        match self.find(&k) {
            Some(i) => {
                self.entries.set(i, (k, v));
                proof {
                    pos = i as int;
                }
            },
            None => {
                self.entries.push((k, v));
                proof {
                    pos = self.entries@.len() - 1;
                }
            },
        }
        self.contents = Ghost(self.contents@.insert(k, v));
        assert forall|key: K| #[trigger] self.contents@.contains_key(key) implies exists|i: int|
            0 <= i < self.entries@.len() && #[trigger] self.entries@[i].0 == key by {
            if key != k {
                let i = choose|i: int|
                    0 <= i < old(self).entries@.len() && #[trigger] old(self).entries@[i].0 == key;
                assert(self.entries@[i].0 == key);
            } else {
                assert(self.entries@[pos].0 == key);
            }
        }
    }

    /// Removes the entry at position `i`.
    fn remove_at(&mut self, i: usize)
        requires
            old(self).wf(),
            i < old(self).entries@.len(),
        ensures
            final(self).wf(),
            final(self)@ == old(self)@.remove(old(self).entries@[i as int].0),
            final(self).entries@ == old(self).entries@.remove(i as int),
    {
        let ghost k = self.entries@[i as int].0;
        self.entries.remove(i);
        self.contents = Ghost(self.contents@.remove(k));
        let ghost e = old(self).entries@;
        assert forall|j: int| 0 <= j < self.entries@.len() implies {
            &&& self.contents@.contains_key(#[trigger] self.entries@[j].0)
            &&& self.contents@[self.entries@[j].0] == self.entries@[j].1
        } by {
            if j < i {
                assert(self.entries@[j] == e[j]);
            } else {
                assert(self.entries@[j] == e[j + 1]);
            }
        }
        assert forall|key: K| #[trigger] self.contents@.contains_key(key) implies exists|j: int|
            0 <= j < self.entries@.len() && #[trigger] self.entries@[j].0 == key by {
            let j = choose|j: int| 0 <= j < e.len() && #[trigger] e[j].0 == key;
            if j < i {
                assert(self.entries@[j].0 == key);
            } else {
                assert(self.entries@[j - 1].0 == key);
            }
        }
    }

    pub fn remove(&mut self, k: &K)
        requires
            old(self).wf(),
        ensures
            final(self).wf(),
            final(self)@ == old(self)@.remove(*k),
    {
        match self.find(k) {
            Some(i) => {
                self.remove_at(i);
            },
            None => {
                assert(self@ =~= old(self)@.remove(*k));
            },
        }
    }
}

impl<A: StorageKey, B: StorageKey, V: Copy> StorageMap<(A, B), V> {
    /// Removes at most `limit` entries whose first key is `prefix`. Returns
    /// how many were removed and whether no entry with that first key is
    /// left. Entries under other first keys are kept as they are.
    pub fn clear_prefix(&mut self, prefix: &A, limit: u32) -> (r: (u32, bool))
        requires
            old(self).wf(),
        ensures
            final(self).wf(),
            final(self)@.submap_of(old(self)@),
            forall|k: (A, B)|
                #![trigger old(self)@.contains_key(k)]
                old(self)@.contains_key(k) && k.0 != *prefix ==> final(self)@.contains_key(k),
            r.0 <= limit,
            old(self)@.dom().difference(final(self)@.dom()).len() == r.0,
            r.1 <==> (forall|k: (A, B)| #[trigger] final(self)@.contains_key(k) ==> k.0 != *prefix),
            !r.1 ==> r.0 == limit,
    {
        broadcast use vstd::set::group_set_axioms;

        let mut removed: u32 = 0;
        let mut more = false;
        let ghost mut left: (A, B);
        let mut i: usize = 0;
        proof {
            assert(old(self)@.dom().difference(self@.dom()) =~= Set::empty());
        }
        while i < self.entries.len()
            invariant
                self.wf(),
                old(self).wf(),
                i <= self.entries@.len(),
                removed <= limit,
                self@.submap_of(old(self)@),
                forall|k: (A, B)|
                    #![trigger old(self)@.contains_key(k)]
                    old(self)@.contains_key(k) && k.0 != *prefix ==> self@.contains_key(k),
                old(self)@.dom().difference(self@.dom()).len() == removed,
                !more ==> forall|j: int| 0 <= j < i ==> (#[trigger] self.entries@[j]).0.0 != *prefix,
                more ==> removed == limit && self@.contains_key(left) && left.0 == *prefix,
            decreases self.entries@.len() - i,
        {
            if self.entries[i].0.0.same(prefix) {
                if removed < limit {
                    let ghost before = self@;
                    let ghost k = self.entries@[i as int].0;
                    self.remove_at(i);
                    proof {
                        let d0 = old(self)@.dom().difference(before.dom());
                        assert(old(self)@.dom().difference(self@.dom()) =~= d0.insert(k));
                        assert(!d0.contains(k));
                    }
                    removed = removed + 1;
                } else {
                    proof {
                        left = self.entries@[i as int].0;
                    }
                    more = true;
                    i = i + 1;
                }
            } else {
                i = i + 1;
            }
        }
        proof {
            if !more {
                assert forall|k: (A, B)| #[trigger] self@.contains_key(k) implies k.0 != *prefix by {
                    let j = choose|j: int|
                        0 <= j < self.entries@.len() && #[trigger] self.entries@[j].0 == k;
                    assert(self.entries@[j].0.0 != *prefix);
                }
            }
        }
        (removed, !more)
    }
}

} // verus!
