//! Finite maps and sets over keys with decidable equality, kept as
//! duplicate-free vectors so that every operation has an exact model.
use vstd::prelude::*;

verus! {

/// Keys whose equality can be decided at run time.
pub trait Key: Sized {
    /// Run-time equality, agreeing with spec equality.
    fn key_eq(&self, other: &Self) -> (r: bool)
        ensures
            r == (*self == *other),
    ;
}

impl Key for u64 {
    fn key_eq(&self, other: &Self) -> (r: bool) {
        *self == *other
    }
}

impl Key for u32 {
    fn key_eq(&self, other: &Self) -> (r: bool) {
        *self == *other
    }
}

impl<A: Key, B: Key> Key for (A, B) {
    fn key_eq(&self, other: &Self) -> (r: bool) {
        self.0.key_eq(&other.0) && self.1.key_eq(&other.1)
    }
}

/// A finite map.
#[derive(Debug)]
pub struct Table<K, V> {
    entries: Vec<(K, V)>,
}

impl<K: Key + Copy, V: Copy> Table<K, V> {
    /// The stored pairs, in insertion order.
    pub closed spec fn pairs(&self) -> Seq<(K, V)> {
        self.entries@
    }

    /// No key occurs twice.
    pub open spec fn wf(&self) -> bool {
        forall|i: int, j: int|
            0 <= i < self.pairs().len() && 0 <= j < self.pairs().len() && i != j
                ==> #[trigger] self.pairs()[i].0 != #[trigger] self.pairs()[j].0
    }

    /// Key `k` is present.
    pub open spec fn has(&self, k: K) -> bool {
        exists|i: int| 0 <= i < self.pairs().len() && #[trigger] self.pairs()[i].0 == k
    }

    /// The value at `k` (meaningful when present).
    pub open spec fn at(&self, k: K) -> V {
        self.pairs()[choose|i: int| 0 <= i < self.pairs().len() && #[trigger] self.pairs()[i].0 == k].1
    }

    /// The map this table stands for.
    pub open spec fn view(&self) -> Map<K, V> {
        Map::new(|k: K| self.has(k), |k: K| self.at(k))
    }

    /// In a duplicate-free table the value at a present key is the one stored with it.
    pub proof fn lemma_at(&self, i: int)
        requires
            self.wf(),
            0 <= i < self.pairs().len(),
        ensures
            self.has(self.pairs()[i].0),
            self.at(self.pairs()[i].0) == self.pairs()[i].1,
    {
        let k = self.pairs()[i].0;
        assert(self.pairs()[i].0 == k);
        let j = choose|j: int| 0 <= j < self.pairs().len() && #[trigger] self.pairs()[j].0 == k;
        assert(self.pairs()[j].0 == k);
    }

    /// The empty map.
    pub fn new() -> (t: Self)
        ensures
            t.wf(),
            t@ == Map::<K, V>::empty(),
            t.pairs().len() == 0,
    {
        let t = Table { entries: Vec::new() };
        assert(t@ =~= Map::<K, V>::empty());
        t
    }

    /// Number of keys.
    pub fn len(&self) -> (r: usize)
        ensures
            r == self.pairs().len(),
    {
        self.entries.len()
    }

    /// The `i`-th stored pair.
    pub fn pair(&self, i: usize) -> (r: (K, V))
        requires
            i < self.pairs().len(),
        ensures
            r == self.pairs()[i as int],
    {
        self.entries[i]
    }

    /// Position of `k`, if present.
    pub fn find(&self, k: &K) -> (r: Option<usize>)
        ensures
            match r {
                Some(i) => i < self.pairs().len() && self.pairs()[i as int].0 == *k,
                None => !self.has(*k),
            },
    {
        let mut i: usize = 0;
        while i < self.entries.len()
            invariant
                0 <= i <= self.entries.len(),
                forall|j: int| 0 <= j < i ==> self.entries@[j].0 != *k,
            decreases self.entries.len() - i,
        {
            if self.entries[i].0.key_eq(k) {
                return Some(i);
            }
            i = i + 1;
        }
        assert(!self.has(*k)) by {
            assert forall|j: int| 0 <= j < self.pairs().len() implies #[trigger] self.pairs()[j].0 != *k by {
                assert(self.entries@[j].0 != *k);
            }
        }
        None
    }

    /// Value at `k`, if present.
    pub fn get(&self, k: &K) -> (r: Option<V>)
        requires
            self.wf(),
        ensures
            r == (if self@.contains_key(*k) { Some(self@[*k]) } else { None }),
    {
        match self.find(k) {
            Some(i) => {
                proof {
                    self.lemma_at(i as int);
                }
                Some(self.entries[i].1)
            },
            None => None,
        }
    }

    /// Whether `k` is present.
    pub fn contains(&self, k: &K) -> (r: bool)
        ensures
            r == self@.contains_key(*k),
    {
        match self.find(k) {
            Some(i) => {
                assert(self.pairs()[i as int].0 == *k);
                true
            },
            None => false,
        }
    }

    /// Sets `k` to `v`.
    pub fn insert(&mut self, k: K, v: V)
        requires
            old(self).wf(),
        ensures
            final(self).wf(),
            final(self)@ == old(self)@.insert(k, v),
            old(self).pairs().len() <= final(self).pairs().len() <= old(self).pairs().len() + 1,
    {
        let ghost pre = *self;
        match self.find(&k) {
            Some(i) => {
                self.entries.set(i, (k, v));
                proof {
                    assert forall|kk: K| #[trigger] self.has(kk) == pre.has(kk) by {
                        if pre.has(kk) {
                            let j = choose|j: int| 0 <= j < pre.pairs().len() && #[trigger] pre.pairs()[j].0 == kk;
                            assert(self.pairs()[j].0 == kk);
                        }
                        if self.has(kk) {
                            let j = choose|j: int| 0 <= j < self.pairs().len() && #[trigger] self.pairs()[j].0 == kk;
                            assert(pre.pairs()[j].0 == kk);
                        }
                    }
                    assert forall|kk: K| self.has(kk) implies #[trigger] self.at(kk) == (if kk == k { v } else { pre.at(kk) }) by {
                        let j = choose|j: int| 0 <= j < self.pairs().len() && #[trigger] self.pairs()[j].0 == kk;
                        self.lemma_at(j);
                        if kk != k {
                            pre.lemma_at(j);
                        }
                    }
                    assert(self@ =~= pre@.insert(k, v));
                }
            },
            None => {
                self.entries.push((k, v));
                proof {
                    let n = pre.pairs().len();
                    assert forall|kk: K| #[trigger] self.has(kk) == (pre.has(kk) || kk == k) by {
                        if pre.has(kk) {
                            let j = choose|j: int| 0 <= j < pre.pairs().len() && #[trigger] pre.pairs()[j].0 == kk;
                            assert(self.pairs()[j].0 == kk);
                        }
                        if kk == k {
                            assert(self.pairs()[n as int].0 == kk);
                        }
                        if self.has(kk) && kk != k {
                            let j = choose|j: int| 0 <= j < self.pairs().len() && #[trigger] self.pairs()[j].0 == kk;
                            assert(pre.pairs()[j].0 == kk);
                        }
                    }
                    assert forall|kk: K| self.has(kk) implies #[trigger] self.at(kk) == (if kk == k { v } else { pre.at(kk) }) by {
                        let j = choose|j: int| 0 <= j < self.pairs().len() && #[trigger] self.pairs()[j].0 == kk;
                        self.lemma_at(j);
                        if kk != k {
                            pre.lemma_at(j);
                        }
                    }
                    assert(self@ =~= pre@.insert(k, v));
                }
            },
        }
    }

    /// Removes `k`.
    pub fn remove(&mut self, k: &K)
        requires
            old(self).wf(),
        ensures
            final(self).wf(),
            final(self)@ == old(self)@.remove(*k),
    {
        let ghost pre = *self;
        match self.find(k) {
            Some(i) => {
                self.entries.remove(i);
                proof {
                    assert forall|kk: K| #[trigger] self.has(kk) == (pre.has(kk) && kk != *k) by {
                        if pre.has(kk) && kk != *k {
                            let j = choose|j: int| 0 <= j < pre.pairs().len() && #[trigger] pre.pairs()[j].0 == kk;
                            if j < i {
                                assert(self.pairs()[j].0 == kk);
                            } else {
                                assert(self.pairs()[j - 1].0 == kk);
                            }
                        }
                        if self.has(kk) {
                            let j = choose|j: int| 0 <= j < self.pairs().len() && #[trigger] self.pairs()[j].0 == kk;
                            if j < i {
                                assert(pre.pairs()[j].0 == kk);
                            } else {
                                assert(pre.pairs()[j + 1].0 == kk);
                            }
                        }
                    }
                    assert forall|kk: K| self.has(kk) implies #[trigger] self.at(kk) == pre.at(kk) by {
                        let j = choose|j: int| 0 <= j < self.pairs().len() && #[trigger] self.pairs()[j].0 == kk;
                        self.lemma_at(j);
                        if j < i {
                            pre.lemma_at(j);
                        } else {
                            pre.lemma_at(j + 1);
                        }
                    }
                    assert(self@ =~= pre@.remove(*k));
                }
            },
            None => {
                assert(self@ =~= pre@.remove(*k));
            },
        }
    }
}


/// A finite set.
#[derive(Debug)]
pub struct KeySet<K> {
    items: Vec<K>,
}

impl<K: Key + Copy> KeySet<K> {
    /// The members, in insertion order.
    pub closed spec fn elems(&self) -> Seq<K> {
        self.items@
    }

    /// No member occurs twice.
    pub open spec fn wf(&self) -> bool {
        self.elems().no_duplicates()
    }

    /// The set this stands for.
    pub open spec fn view(&self) -> Set<K> {
        self.elems().to_set()
    }

    /// The number of members equals the size of the modelled set.
    pub proof fn lemma_len(&self)
        requires
            self.wf(),
        ensures
            self@.finite(),
            self@.len() == self.elems().len(),
    {
        self.elems().unique_seq_to_set();
        vstd::seq_lib::seq_to_set_is_finite(self.elems());
    }

    /// A set holds at most `usize::MAX` members.
    pub proof fn lemma_len_bound(&self)
        ensures
            self.elems().len() <= usize::MAX,
    {
        assert(self.items.len() == self.items@.len());
    }

    /// The empty set.
    pub fn new() -> (s: Self)
        ensures
            s.wf(),
            s.elems().len() == 0,
            s@ == Set::<K>::empty(),
    {
        let s = KeySet { items: Vec::new() };
        assert(s@ =~= Set::<K>::empty());
        s
    }

    /// Number of members.
    pub fn len(&self) -> (r: usize)
        ensures
            r == self.elems().len(),
    {
        self.items.len()
    }

    /// The `i`-th member in insertion order.
    pub fn item(&self, i: usize) -> (r: K)
        requires
            i < self.elems().len(),
        ensures
            r == self.elems()[i as int],
    {
        self.items[i]
    }

    /// Membership.
    pub fn contains(&self, k: &K) -> (r: bool)
        ensures
            r == self@.contains(*k),
    {
        let mut i: usize = 0;
        while i < self.items.len()
            invariant
                0 <= i <= self.items.len(),
                forall|j: int| 0 <= j < i ==> self.items@[j] != *k,
            decreases self.items.len() - i,
        {
            if self.items[i].key_eq(k) {
                assert(self.elems()[i as int] == *k);
                return true;
            }
            i = i + 1;
        }
        assert(!self.elems().contains(*k));
        false
    }

    /// Adds `k`; returns whether it was new.
    pub fn insert(&mut self, k: K) -> (fresh: bool)
        requires
            old(self).wf(),
        ensures
            final(self).wf(),
            final(self)@ == old(self)@.insert(k),
            fresh == !old(self)@.contains(k),
            fresh ==> final(self).elems() == old(self).elems().push(k),
            !fresh ==> final(self).elems() == old(self).elems(),
    {
        if self.contains(&k) {
            assert(self@ =~= self@.insert(k));
            false
        } else {
            let ghost pre = self.elems();
            self.items.push(k);
            assert(self.elems() =~= pre.push(k));
            assert(self@ =~= pre.to_set().insert(k)) by {
                assert forall|x: K| #[trigger] self.elems().contains(x) == (pre.contains(x) || x == k) by {
                    if pre.contains(x) {
                        let j = choose|j: int| 0 <= j < pre.len() && pre[j] == x;
                        assert(self.elems()[j] == x);
                    }
                    if x == k {
                        assert(self.elems()[pre.len() as int] == x);
                    }
                }
            }
            true
        }
    }

    /// Removes every member.
    pub fn clear(&mut self)
        ensures
            final(self).wf(),
            final(self).elems().len() == 0,
            final(self)@ == Set::<K>::empty(),
    {
        self.items.clear();
        assert(self@ =~= Set::<K>::empty());
    }
}

} // verus!
