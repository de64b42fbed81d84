use vstd::prelude::*;

verus! {

/// A key type whose executable equality agrees with equality of its view.
pub trait StoreKey: View + Sized {
    fn same_key(&self, other: &Self) -> (r: bool)
        ensures
            r == (self@ == other@),
    ;
}

impl StoreKey for u64 {
    fn same_key(&self, other: &u64) -> (r: bool) {
        *self == *other
    }
}

impl StoreKey for Vec<u8> {
    fn same_key(&self, other: &Vec<u8>) -> (r: bool) {
        if self.len() != other.len() {
            return false;
        }
        let mut i: usize = 0;
        while i < self.len()
            invariant
                self@.len() == other@.len(),
                0 <= i <= self@.len(),
                forall|j: int| 0 <= j < i ==> self@[j] == other@[j],
            decreases self@.len() - i,
        {
            if self[i] != other[i] {
                return false;
            }
            i = i + 1;
        }
        assert(self@ =~= other@);
        true
    }
}

/// A finite map kept as two parallel vectors of keys and values, with no key
/// stored twice. Its model is a `Map` from key views to value views.
pub struct AssocMap<K, V> {
    keys: Vec<K>,
    vals: Vec<V>,
}

impl<K: StoreKey, V: View> AssocMap<K, V> {
    /// The stored keys, by their views, in storage order.
    pub closed spec fn key_seq(&self) -> Seq<K::V> {
        self.keys@.map_values(|k: K| k@)
    }

    /// Keys and values pair up, and no key is stored twice.
    pub closed spec fn wf(&self) -> bool {
        &&& self.keys@.len() == self.vals@.len()
        &&& self.key_seq().no_duplicates()
    }

    closed spec fn index_of(&self, k: K::V) -> int {
        choose|i: int| 0 <= i < self.keys@.len() && #[trigger] self.keys@[i]@ == k
    }

    pub closed spec fn view(&self) -> Map<K::V, V::V> {
        Map::new(
            |k: K::V| self.key_seq().contains(k),
            |k: K::V| self.vals@[self.index_of(k)]@,
        )
    }

    proof fn lemma_index(&self, i: int)
        requires
            self.wf(),
            0 <= i < self.keys@.len(),
        ensures
            self@.contains_key(self.keys@[i]@),
            self@[self.keys@[i]@] == self.vals@[i]@,
    {
        let k = self.keys@[i]@;
        assert(self.key_seq()[i] == k);
        let j = self.index_of(k);
        assert(self.key_seq()[j] == k);
    }

    proof fn lemma_absent(&self, k: K::V)
        requires
            self.wf(),
            forall|i: int| 0 <= i < self.keys@.len() ==> self.keys@[i]@ != k,
        ensures
            !self@.contains_key(k),
    {
        if self.key_seq().contains(k) {
            let i = choose|i: int| 0 <= i < self.key_seq().len() && self.key_seq()[i] == k;
            assert(self.keys@[i]@ == k);
        }
    }

    /// Every key is stored once: the stored keys are exactly the map's domain,
    /// with no repetition.
    pub proof fn lemma_one_entry_per_key(&self)
        requires
            self.wf(),
        ensures
            self.key_seq().no_duplicates(),
            self.key_seq().to_set() == self@.dom(),
    {
        assert(self.key_seq().to_set() =~= self@.dom());
    }

    /// An empty map.
    pub fn new() -> (r: Self)
        ensures
            r.wf(),
            r@ == Map::<K::V, V::V>::empty(),
    {
        let r = AssocMap { keys: Vec::new(), vals: Vec::new() };
        assert(r@ =~= Map::<K::V, V::V>::empty());
        r
    }

    fn find(&self, k: &K) -> (r: Option<usize>)
        requires
            self.wf(),
        ensures
            match r {
                Some(i) => i < self.keys@.len() && self.keys@[i as int]@ == k@,
                None => forall|i: int| 0 <= i < self.keys@.len() ==> self.keys@[i]@ != k@,
            },
    {
        let mut i: usize = 0;
        while i < self.keys.len()
            invariant
                0 <= i <= self.keys@.len(),
                forall|j: int| 0 <= j < i ==> self.keys@[j]@ != k@,
            decreases self.keys@.len() - i,
        {
            if self.keys[i].same_key(k) {
                return Some(i);
            }
            i = i + 1;
        }
        None
    }

    /// The value stored under `k`, if any.
    pub fn get(&self, k: &K) -> (r: Option<&V>)
        requires
            self.wf(),
        ensures
            match r {
                Some(v) => self@.contains_key(k@) && v@ == self@[k@],
                None => !self@.contains_key(k@),
            },
    {
        match self.find(k) {
            Some(i) => {
                proof {
                    self.lemma_index(i as int);
                }
                Some(&self.vals[i])
            },
            None => {
                proof {
                    self.lemma_absent(k@);
                }
                None
            },
        }
    }

    /// Whether a value is stored under `k`.
    pub fn contains_key(&self, k: &K) -> (r: bool)
        requires
            self.wf(),
        ensures
            r == self@.contains_key(k@),
    {
        self.get(k).is_some()
    }

    /// Stores `v` under `k`, replacing any value stored there.
    pub fn insert(&mut self, k: K, v: V)
        requires
            old(self).wf(),
        ensures
            final(self).wf(),
            final(self)@ == old(self)@.insert(k@, v@),
    {
        let ghost pre = *self;
        match self.find(&k) {
            Some(i) => {
                self.vals.set(i, v);
                proof {
                    assert(self.keys@ == pre.keys@);
                    assert(self.key_seq() == pre.key_seq());
                    assert forall|kk: K::V| #[trigger] self@.contains_key(kk) == pre@.insert(k@, v@).contains_key(kk) by {
                        if kk == k@ {
                            pre.lemma_index(i as int);
                        }
                    }
                    assert forall|kk: K::V| self@.contains_key(kk) implies #[trigger] self@[kk] == pre@.insert(k@, v@)[kk] by {
                        let j = choose|j: int| 0 <= j < self.key_seq().len() && self.key_seq()[j] == kk;
                        assert(self.keys@[j]@ == kk);
                        self.lemma_index(j);
                        if kk != k@ {
                            assert(j != i);
                            pre.lemma_index(j);
                            assert(pre@.insert(k@, v@)[kk] == pre@[kk]);
                        } else {
                            pre.lemma_index(i as int);
                            assert(self.key_seq()[i as int] == kk);
                            assert(j == i);
                            assert(pre@.insert(k@, v@)[kk] == v@);
                        }
                    }
                    assert(self@ =~= pre@.insert(k@, v@));
                }
            },
            None => {
                self.keys.push(k);
                self.vals.push(v);
                proof {
                    let n = pre.keys@.len() as int;
                    assert(self.key_seq() =~= pre.key_seq().push(k@));
                    assert forall|a: int, b: int| 0 <= a < b < self.key_seq().len() implies self.key_seq()[a] != self.key_seq()[b] by {
                        if b == n {
                            assert(pre.keys@[a]@ == pre.key_seq()[a]);
                        }
                    }
                    assert forall|kk: K::V| #[trigger] self@.contains_key(kk) == pre@.insert(k@, v@).contains_key(kk) by {
                        if kk == k@ {
                            assert(self.key_seq()[n] == kk);
                        } else if pre.key_seq().contains(kk) {
                            let j = choose|j: int| 0 <= j < pre.key_seq().len() && pre.key_seq()[j] == kk;
                            assert(self.key_seq()[j] == kk);
                        } else if self.key_seq().contains(kk) {
                            let j = choose|j: int| 0 <= j < self.key_seq().len() && self.key_seq()[j] == kk;
                            assert(pre.key_seq()[j] == kk);
                        }
                    }
                    assert forall|kk: K::V| self@.contains_key(kk) implies #[trigger] self@[kk] == pre@.insert(k@, v@)[kk] by {
                        let j = choose|j: int| 0 <= j < self.key_seq().len() && self.key_seq()[j] == kk;
                        assert(self.keys@[j]@ == kk);
                        self.lemma_index(j);
                        if kk != k@ {
                            assert(j < n);
                            assert(self.keys@[j] == pre.keys@[j]);
                            assert(self.vals@[j] == pre.vals@[j]);
                            pre.lemma_index(j);
                            assert(self@[kk] == pre@[kk]);
                            assert(pre@.insert(k@, v@)[kk] == pre@[kk]);
                        } else {
                            assert(self.key_seq()[n] == k@);
                            assert(j == n);
                            assert(self.vals@[j] == v);
                            assert(self@[kk] == v@);
                            assert(pre@.insert(k@, v@)[kk] == v@);
                        }
                    }
                    assert(self@ =~= pre@.insert(k@, v@));
                }
            },
        }
    }

    /// Removes what is stored under `k` and hands it back.
    pub fn remove(&mut self, k: &K) -> (r: Option<V>)
        requires
            old(self).wf(),
        ensures
            final(self).wf(),
            final(self)@ == old(self)@.remove(k@),
            match r {
                Some(v) => old(self)@.contains_key(k@) && v@ == old(self)@[k@],
                None => !old(self)@.contains_key(k@),
            },
    {
        let ghost pre = *self;
        match self.find(k) {
            Some(i) => {
                proof {
                    pre.lemma_index(i as int);
                }
                self.keys.remove(i);
                let v = self.vals.remove(i);
                proof {
                    assert(self.key_seq() =~= pre.key_seq().remove(i as int));
                    assert forall|a: int, b: int| 0 <= a < b < self.key_seq().len() implies self.key_seq()[a] != self.key_seq()[b] by {
                        let a2 = if a < i { a } else { a + 1 };
                        let b2 = if b < i { b } else { b + 1 };
                        assert(self.key_seq()[a] == pre.key_seq()[a2]);
                        assert(self.key_seq()[b] == pre.key_seq()[b2]);
                    }
                    assert forall|kk: K::V| #[trigger] self@.contains_key(kk) == pre@.remove(k@).contains_key(kk) by {
                        if self.key_seq().contains(kk) {
                            let j = choose|j: int| 0 <= j < self.key_seq().len() && self.key_seq()[j] == kk;
                            let j2 = if j < i { j } else { j + 1 };
                            assert(pre.key_seq()[j2] == kk);
                            assert(pre.key_seq()[i as int] == k@);
                        } else if kk != k@ && pre.key_seq().contains(kk) {
                            let j = choose|j: int| 0 <= j < pre.key_seq().len() && pre.key_seq()[j] == kk;
                            assert(j != i);
                            let j2 = if j < i { j } else { j - 1 };
                            assert(self.key_seq()[j2] == kk);
                        }
                    }
                    assert forall|kk: K::V| self@.contains_key(kk) implies #[trigger] self@[kk] == pre@.remove(k@)[kk] by {
                        let j = choose|j: int| 0 <= j < self.key_seq().len() && self.key_seq()[j] == kk;
                        assert(self.keys@[j]@ == kk);
                        self.lemma_index(j);
                        let j2 = if j < i { j } else { j + 1 };
                        assert(pre.keys@[j2]@ == kk);
                        pre.lemma_index(j2);
                    }
                    assert(self@ =~= pre@.remove(k@));
                }
                Some(v)
            },
            None => {
                proof {
                    pre.lemma_absent(k@);
                    assert(self@ =~= pre@.remove(k@));
                }
                None
            },
        }
    }
}

} // verus!
