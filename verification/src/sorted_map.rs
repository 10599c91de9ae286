//! A map from `u64` keys kept in key order, for the few tables that are walked in order.

use vstd::prelude::*;

verus! {

/// Entries in strictly ascending key order.
pub struct SortedMap<V> {
    entries: Vec<(u64, V)>,
}

impl<V> View for SortedMap<V> {
    type V = Map<u64, V>;

    closed spec fn view(&self) -> Map<u64, V> {
        Map::new(
            |k: u64| exists|i: int| 0 <= i < self.entries@.len() && #[trigger] self.entries@[i].0 == k,
            |k: u64| self.entries@[self.rank(k)].1,
        )
    }
}

impl<V> SortedMap<V> {
    /// Keys ascend strictly.
    pub closed spec fn wf(&self) -> bool {
        forall|i: int, j: int|
            0 <= i < j < self.entries@.len() ==> (#[trigger] self.entries@[i]).0 < (
            #[trigger] self.entries@[j]).0
    }

    /// Where `k` is, when it is there.
    spec fn rank(&self, k: u64) -> int {
        choose|i: int| 0 <= i < self.entries@.len() && #[trigger] self.entries@[i].0 == k
    }

    /// The keys, ascending.
    pub closed spec fn keys(&self) -> Seq<u64> {
        Seq::new(self.entries@.len(), |i: int| self.entries@[i].0)
    }

    /// The keys ascend strictly, are exactly the domain, and are as many as it holds.
    pub proof fn lemma_keys(&self)
        requires
            self.wf(),
        ensures
            forall|i: int, j: int|
                0 <= i < j < self.keys().len() ==> (#[trigger] self.keys()[i]) < (
                #[trigger] self.keys()[j]),
            forall|i: int|
                0 <= i < self.keys().len() ==> self@.dom().contains(#[trigger] self.keys()[i]),
            forall|k: u64| #[trigger]
                self@.dom().contains(k) ==> exists|i: int|
                    0 <= i < self.keys().len() && #[trigger] self.keys()[i] == k,
            self@.dom().finite(),
            self@.dom().len() == self.keys().len(),
    {
        assert(self.keys().no_duplicates());
        assert forall|i: int| 0 <= i < self.keys().len() implies self@.dom().contains(
            #[trigger] self.keys()[i],
        ) by {
            assert(self.entries@[i].0 == self.keys()[i]);
        }
        assert forall|k: u64| #[trigger] self@.dom().contains(k) implies exists|i: int|
            0 <= i < self.keys().len() && #[trigger] self.keys()[i] == k by {
            let i = choose|i: int| 0 <= i < self.entries@.len() && #[trigger] self.entries@[i].0 == k;
            assert(self.keys()[i] == k);
        }
        assert(self@.dom() =~= self.keys().to_set());
        self.keys().unique_seq_to_set();
    }

    proof fn lemma_at(&self, i: int)
        requires
            self.wf(),
            0 <= i < self.entries@.len(),
        ensures
            self@.dom().contains(self.entries@[i].0),
            self@[self.entries@[i].0] == self.entries@[i].1,
            self.rank(self.entries@[i].0) == i,
    {
        let k = self.entries@[i].0;
        let r = self.rank(k);
        assert(0 <= r < self.entries@.len() && self.entries@[r].0 == k);
        if r < i {
            assert(self.entries@[r].0 < self.entries@[i].0);
        } else if i < r {
            assert(self.entries@[i].0 < self.entries@[r].0);
        }
    }

    /// The empty map.
    pub fn new() -> (m: Self)
        ensures
            m.wf(),
            m@ == Map::<u64, V>::empty(),
            m.keys().len() == 0,
    {
        let m = SortedMap { entries: Vec::new() };
        assert(m@ =~= Map::<u64, V>::empty());
        m
    }

    /// How many entries there are.
    pub fn len(&self) -> (n: usize)
        requires
            self.wf(),
        ensures
            n == self.keys().len(),
            self@.dom().finite(),
            n == self@.dom().len(),
    {
        proof {
            self.lemma_keys();
        }
        self.entries.len()
    }

    /// The key of the `i`th entry.
    pub fn key(&self, i: usize) -> (k: u64)
        requires
            self.wf(),
            i < self.keys().len(),
        ensures
            k == self.keys()[i as int],
            self@.dom().contains(k),
    {
        proof {
            self.lemma_at(i as int);
        }
        self.entries[i].0
    }

    /// The value of the `i`th entry.
    pub fn value(&self, i: usize) -> (v: &V)
        requires
            self.wf(),
            i < self.keys().len(),
        ensures
            *v == self@[self.keys()[i as int]],
            self@.dom().contains(self.keys()[i as int]),
    {
        proof {
            self.lemma_at(i as int);
        }
        &self.entries[i].1
    }

    /// The number of keys below `k`.
    pub fn lower_bound(&self, k: u64) -> (n: usize)
        requires
            self.wf(),
        ensures
            n <= self.keys().len(),
            forall|i: int| 0 <= i < n ==> #[trigger] self.keys()[i] < k,
            forall|i: int| n <= i < self.keys().len() ==> #[trigger] self.keys()[i] >= k,
    {
        let mut lo: usize = 0;
        let mut hi: usize = self.entries.len();
        while lo < hi
            invariant
                self.wf(),
                lo <= hi <= self.entries@.len(),
                forall|i: int| 0 <= i < lo ==> (#[trigger] self.entries@[i]).0 < k,
                forall|i: int| hi <= i < self.entries@.len() ==> (#[trigger] self.entries@[i]).0 >= k,
            decreases hi - lo,
        {
            let mid: usize = lo + (hi - lo) / 2;
            if self.entries[mid].0 < k {
                assert forall|i: int| 0 <= i < mid + 1 implies (#[trigger] self.entries@[i]).0 < k by {
                    if i < mid {
                        assert(self.entries@[i].0 < self.entries@[mid as int].0);
                    }
                }
                lo = mid + 1;
            } else {
                assert forall|i: int| mid <= i < self.entries@.len() implies (
                #[trigger] self.entries@[i]).0 >= k by {
                    if mid < i {
                        assert(self.entries@[mid as int].0 < self.entries@[i].0);
                    }
                }
                hi = mid;
            }
        }
        lo
    }

    /// Where `k` is, if it is a key.
    pub fn find(&self, k: u64) -> (r: Option<usize>)
        requires
            self.wf(),
        ensures
            r matches Some(i) ==> i < self.keys().len() && self.keys()[i as int] == k
                && self@.dom().contains(k),
            r is None <==> !self@.dom().contains(k),
    {
        let i = self.lower_bound(k);
        proof {
            self.lemma_keys();
        }
        if i < self.entries.len() && self.entries[i].0 == k {
            assert(self.keys()[i as int] == k);
            Some(i)
        } else {
            assert(!self@.dom().contains(k)) by {
                if self@.dom().contains(k) {
                    let j = choose|j: int| 0 <= j < self.keys().len() && #[trigger] self.keys()[j] == k;
                    assert(j >= i);
                    if j > i {
                        assert(self.keys()[i as int] < self.keys()[j]);
                    }
                }
            }
            None
        }
    }

    /// Whether `k` is a key.
    pub fn contains(&self, k: u64) -> (r: bool)
        requires
            self.wf(),
        ensures
            r == self@.dom().contains(k),
    {
        match self.find(k) {
            Some(_) => true,
            None => false,
        }
    }

    /// The value of `k`.
    pub fn get(&self, k: u64) -> (r: Option<&V>)
        requires
            self.wf(),
        ensures
            r matches Some(v) ==> self@.dom().contains(k) && *v == self@[k],
            r is None <==> !self@.dom().contains(k),
    {
        match self.find(k) {
            Some(i) => Some(self.value(i)),
            None => None,
        }
    }

    /// Remove `k`, giving its value.
    pub fn remove(&mut self, k: u64) -> (r: Option<V>)
        requires
            old(self).wf(),
        ensures
            final(self).wf(),
            final(self)@ == old(self)@.remove(k),
            r matches Some(v) ==> old(self)@.dom().contains(k) && v == old(self)@[k],
            r is None <==> !old(self)@.dom().contains(k),
    {
        match self.find(k) {
            Some(i) => {
                let ghost before = *self;
                proof {
                    before.lemma_at(i as int);
                }
                let (_, v) = self.entries.remove(i);
                proof {
                    assert(self.entries@ =~= before.entries@.remove(i as int));
                    assert(self.wf());
                    assert forall|q: u64| #[trigger] self@.dom().contains(q) implies before@.remove(
                        k,
                    ).dom().contains(q) && self@[q] == before@[q] by {
                        let j = choose|j: int|
                            0 <= j < self.entries@.len() && #[trigger] self.entries@[j].0 == q;
                        let o = if j < i { j } else { j + 1 };
                        assert(before.entries@[o] == self.entries@[j]);
                        self.lemma_at(j);
                        before.lemma_at(o);
                    }
                    assert forall|q: u64| #[trigger]
                        before@.remove(k).dom().contains(q) implies self@.dom().contains(q) by {
                        let o = choose|o: int|
                            0 <= o < before.entries@.len() && #[trigger] before.entries@[o].0 == q;
                        let j = if o < i { o } else { o - 1 };
                        assert(before.entries@[o] == self.entries@[j]);
                        self.lemma_at(j);
                    }
                    assert(self@ =~= before@.remove(k));
                }
                Some(v)
            },
            None => {
                assert(self@ =~= self@.remove(k));
                None
            },
        }
    }

    /// Set the value of `k`, replacing what was there.
    pub fn insert(&mut self, k: u64, v: V)
        requires
            old(self).wf(),
        ensures
            final(self).wf(),
            final(self)@ == old(self)@.insert(k, v),
    {
        let ghost origin = *self;
        let _ = self.remove(k);
        let i = self.lower_bound(k);
        let ghost before = *self;
        proof {
            before.lemma_keys();
        }
        self.entries.insert(i, (k, v));
        proof {
            assert(self.entries@ =~= before.entries@.insert(i as int, (k, v)));
            assert forall|a: int, b: int| 0 <= a < b < self.entries@.len() implies (
            #[trigger] self.entries@[a]).0 < (#[trigger] self.entries@[b]).0 by {
                let oa = if a < i { a } else { a - 1 };
                let ob = if b < i { b } else { b - 1 };
                if a != i {
                    assert(self.entries@[a] == before.entries@[oa]);
                    assert(before.keys()[oa] == before.entries@[oa].0);
                }
                if b != i {
                    assert(self.entries@[b] == before.entries@[ob]);
                    assert(before.keys()[ob] == before.entries@[ob].0);
                }
                if b == i {
                    assert(before.keys()[oa] < k);
                } else if a == i {
                    assert(before.keys()[ob] >= k);
                    assert(before@.dom().contains(before.keys()[ob]));
                    assert(before.keys()[ob] != k);
                }
            }
            assert(self.wf());
            self.lemma_at(i as int);
            assert forall|q: u64| #[trigger] self@.dom().contains(q) implies origin@.insert(
                k,
                v,
            ).dom().contains(q) && self@[q] == origin@.insert(k, v)[q] by {
                let j = choose|j: int|
                    0 <= j < self.entries@.len() && #[trigger] self.entries@[j].0 == q;
                self.lemma_at(j);
                if j != i {
                    let o = if j < i { j } else { j - 1 };
                    assert(before.entries@[o] == self.entries@[j]);
                    before.lemma_at(o);
                }
            }
            assert forall|q: u64| #[trigger]
                origin@.insert(k, v).dom().contains(q) implies self@.dom().contains(q) by {
                if q != k {
                    assert(before@.dom().contains(q));
                    let o = choose|o: int|
                        0 <= o < before.entries@.len() && #[trigger] before.entries@[o].0 == q;
                    let j = if o < i { o } else { o + 1 };
                    assert(before.entries@[o] == self.entries@[j]);
                    self.lemma_at(j);
                }
            }
            assert(self@ =~= origin@.insert(k, v));
        }
    }
}

} // verus!
