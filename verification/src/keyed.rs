//! A string-keyed table with unique keys, viewed as a `Map`. It holds the
//! per-key state that the services keep in hash maps (rate-limit buckets,
//! consensus latches, reconciliation counters, exchange weights).
use vstd::prelude::*;
use crate::text::{chars_eq, chars_of};

verus! {

pub struct KeyedStore<V> {
    pub entries: Vec<(String, V)>,
}

impl<V> KeyedStore<V> {
    pub open spec fn key_at(&self, i: int) -> Seq<char> {
        self.entries@[i].0@
    }

    pub open spec fn has_key(&self, k: Seq<char>) -> bool {
        exists|i: int| 0 <= i < self.entries@.len() && self.key_at(i) == k
    }

    /// Keys are unique.
    pub open spec fn wf(&self) -> bool {
        forall|i: int, j: int|
            0 <= i < self.entries@.len() && 0 <= j < self.entries@.len() && i != j
                ==> self.key_at(i) != self.key_at(j)
    }

    pub open spec fn index_of(&self, k: Seq<char>) -> int {
        choose|i: int| 0 <= i < self.entries@.len() && self.key_at(i) == k
    }

    pub open spec fn view(&self) -> Map<Seq<char>, V> {
        Map::new(|k: Seq<char>| self.has_key(k), |k: Seq<char>| self.entries@[self.index_of(k)].1)
    }

    pub proof fn lemma_view_at(&self, i: int)
        requires
            self.wf(),
            0 <= i < self.entries@.len(),
        ensures
            self.view().dom().contains(self.key_at(i)),
            self.view()[self.key_at(i)] == self.entries@[i].1,
            self.index_of(self.key_at(i)) == i,
    {
        assert(self.has_key(self.key_at(i)));
    }

    pub fn new() -> (r: Self)
        ensures
            r.wf(),
            r.view() == Map::<Seq<char>, V>::empty(),
    {
        let r = KeyedStore { entries: Vec::new() };
        assert(r.view() =~= Map::<Seq<char>, V>::empty());
        r
    }

    pub fn len(&self) -> (r: usize)
        ensures
            r == self.entries@.len(),
    {
        self.entries.len()
    }

    /// Position of `key`, if present.
    pub fn find(&self, key: &str) -> (r: Option<usize>)
        requires
            self.wf(),
        ensures
            match r {
                Some(i) => i < self.entries@.len() && self.key_at(i as int) == key@,
                None => !self.has_key(key@),
            },
    {
        let k = chars_of(key);
        for i in 0..self.entries.len()
            invariant
                k@ == key@,
                forall|j: int| 0 <= j < i ==> self.key_at(j) != key@,
        {
            let e = chars_of(self.entries[i].0.as_str());
            if chars_eq(&e, &k) {
                return Some(i);
            }
        }
        None
    }

    /// The value stored under `key`.
    pub fn get(&self, key: &str) -> (r: Option<&V>)
        requires
            self.wf(),
        ensures
            match r {
                Some(v) => self.view().dom().contains(key@) && *v == self.view()[key@],
                None => !self.view().dom().contains(key@),
            },
    {
        match self.find(key) {
            Some(i) => {
                proof {
                    self.lemma_view_at(i as int);
                }
                Some(&self.entries[i].1)
            },
            None => None,
        }
    }

    /// Stores `v` under `key`, replacing any previous value.
    pub fn insert(&mut self, key: String, v: V)
        requires
            old(self).wf(),
        ensures
            final(self).wf(),
            final(self).view() == old(self).view().insert(key@, v),
    {
        let ghost pre = *self;
        match self.find(key.as_str()) {
            Some(i) => {
                let ghost k = key@;
                self.entries.set(i, (key, v));
                proof {
                    assert forall|a: int, b: int|
                        0 <= a < self.entries@.len() && 0 <= b < self.entries@.len() && a
                            != b implies self.key_at(a) != self.key_at(b) by {
                        if a != i && b != i {
                            assert(pre.key_at(a) != pre.key_at(b));
                        } else if a == i {
                            assert(pre.key_at(i as int) != pre.key_at(b));
                        } else {
                            assert(pre.key_at(a) != pre.key_at(i as int));
                        }
                    }
                    assert forall|q: Seq<char>| #[trigger]
                        self.view().dom().contains(q) == pre.view().insert(
                            k,
                            v,
                        ).dom().contains(q) by {
                        if pre.has_key(q) {
                            let j = pre.index_of(q);
                            assert(self.key_at(j) == q);
                        }
                        if self.has_key(q) {
                            let j = self.index_of(q);
                            if j != i {
                                assert(pre.key_at(j) == q);
                            }
                        }
                    }
                    assert forall|q: Seq<char>| #[trigger]
                        self.view().dom().contains(q) implies self.view()[q] == pre.view().insert(
                            k,
                            v,
                        )[q] by {
                        let j = self.index_of(q);
                        self.lemma_view_at(j);
                        if j != i {
                            pre.lemma_view_at(j);
                        }
                    }
                    assert(self.view() =~= pre.view().insert(k, v));
                }
            },
            None => {
                let ghost k = key@;
                self.entries.push((key, v));
                proof {
                    let n = pre.entries@.len() as int;
                    assert forall|a: int, b: int|
                        0 <= a < self.entries@.len() && 0 <= b < self.entries@.len() && a
                            != b implies self.key_at(a) != self.key_at(b) by {
                        if a != n && b != n {
                            assert(pre.key_at(a) != pre.key_at(b));
                        } else if a == n {
                            assert(pre.key_at(b) != k);
                        } else {
                            assert(pre.key_at(a) != k);
                        }
                    }
                    assert forall|q: Seq<char>| #[trigger]
                        self.view().dom().contains(q) == pre.view().insert(
                            k,
                            v,
                        ).dom().contains(q) by {
                        if pre.has_key(q) {
                            let j = pre.index_of(q);
                            assert(self.key_at(j) == q);
                        }
                        if self.has_key(q) {
                            let j = self.index_of(q);
                            if j != n {
                                assert(pre.key_at(j) == q);
                            }
                        }
                        if q == k {
                            assert(self.key_at(n) == q);
                        }
                    }
                    assert forall|q: Seq<char>| #[trigger]
                        self.view().dom().contains(q) implies self.view()[q] == pre.view().insert(
                            k,
                            v,
                        )[q] by {
                        let j = self.index_of(q);
                        self.lemma_view_at(j);
                        if j != n {
                            pre.lemma_view_at(j);
                        }
                    }
                    assert(self.view() =~= pre.view().insert(k, v));
                }
            },
        }
    }

    /// Removes and returns the value stored under `key`.
    pub fn remove(&mut self, key: &str) -> (r: Option<V>)
        requires
            old(self).wf(),
        ensures
            final(self).wf(),
            final(self).view() == old(self).view().remove(key@),
            match r {
                Some(v) => old(self).view().dom().contains(key@) && v == old(self).view()[key@],
                None => !old(self).view().dom().contains(key@),
            },
    {
        let ghost pre = *self;
        match self.find(key) {
            Some(i) => {
                let ghost k = key@;
                proof {
                    pre.lemma_view_at(i as int);
                }
                let (_, v) = self.entries.remove(i);
                proof {
                    assert forall|a: int, b: int|
                        0 <= a < self.entries@.len() && 0 <= b < self.entries@.len() && a
                            != b implies self.key_at(a) != self.key_at(b) by {
                        let pa = if a < i {
                            a
                        } else {
                            a + 1
                        };
                        let pb = if b < i {
                            b
                        } else {
                            b + 1
                        };
                        assert(self.key_at(a) == pre.key_at(pa));
                        assert(self.key_at(b) == pre.key_at(pb));
                    }
                    assert forall|q: Seq<char>| #[trigger]
                        self.view().dom().contains(q) == pre.view().remove(k).dom().contains(q) by {
                        if pre.has_key(q) && q != k {
                            let j = pre.index_of(q);
                            assert(j != i);
                            let nj = if j < i {
                                j
                            } else {
                                j - 1
                            };
                            assert(self.key_at(nj) == q);
                        }
                        if self.has_key(q) {
                            let j = self.index_of(q);
                            let pj = if j < i {
                                j
                            } else {
                                j + 1
                            };
                            assert(pre.key_at(pj) == q);
                            assert(pj != i);
                        }
                    }
                    assert forall|q: Seq<char>| #[trigger]
                        self.view().dom().contains(q) implies self.view()[q] == pre.view().remove(
                            k,
                        )[q] by {
                        let j = self.index_of(q);
                        self.lemma_view_at(j);
                        let pj = if j < i {
                            j
                        } else {
                            j + 1
                        };
                        assert(pre.key_at(pj) == q);
                        pre.lemma_view_at(pj);
                    }
                    assert(self.view() =~= pre.view().remove(k));
                }
                Some(v)
            },
            None => {
                proof {
                    assert(self.view() =~= pre.view().remove(key@));
                }
                None
            },
        }
    }
}

} // verus!
