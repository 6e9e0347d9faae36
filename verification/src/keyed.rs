//! Maps that keep their entries in a list.
use vstd::prelude::*;
use vstd::string::*;

use crate::model::{ChapterId, MangaId};

verus! {

/// A key of a map: two keys are the same where their views are.
pub trait Key: View + Sized {
    /// Says whether two keys are the same.
    fn same_key(&self, other: &Self) -> (r: bool)
        ensures
            r == (self@ == other@),
    ;
}

impl Key for String {
    fn same_key(&self, other: &Self) -> (r: bool) {
        *self == *other
    }
}

impl Key for MangaId {
    fn same_key(&self, other: &Self) -> (r: bool) {
        self.same(other)
    }
}

impl Key for ChapterId {
    fn same_key(&self, other: &Self) -> (r: bool) {
        self.same(other)
    }
}

/// A map, as a list of entries of which no two have the same key.
#[derive(Debug)]
pub struct ListMap<K: Key, V> {
    pub entries: Vec<(K, V)>,
}

impl<K: Key, V> View for ListMap<K, V> {
    type V = Map<<K as View>::V, V>;

    open spec fn view(&self) -> Map<<K as View>::V, V> {
        Map::new(
            |k: <K as View>::V| exists|i: int| self.has_at(k, i),
            |k: <K as View>::V| self.entries@[choose|i: int| self.has_at(k, i)].1,
        )
    }
}

impl<K: Key, V> ListMap<K, V> {
    /// Whether the entry for a key stands at a place of the list.
    pub open spec fn has_at(self, k: <K as View>::V, i: int) -> bool {
        0 <= i < self.entries@.len() && self.entries@[i].0@ == k
    }

    /// Whether no two entries have the same key.
    pub open spec fn wf(self) -> bool {
        forall|i: int, j: int|
            0 <= i < j < self.entries@.len() ==> (#[trigger] self.entries@[i]).0@ != (
            #[trigger] self.entries@[j]).0@
    }

    /// An entry of the list is an entry of the map.
    pub proof fn lemma_entry(self, i: int)
        requires
            self.wf(),
            0 <= i < self.entries@.len(),
        ensures
            self@.dom().contains(self.entries@[i].0@),
            self@[self.entries@[i].0@] == self.entries@[i].1,
    {
        let k = self.entries@[i].0@;
        assert(self.has_at(k, i));
        let j = choose|j: int| self.has_at(k, j);
        assert(self.has_at(k, j));
        if i < j {
            assert(self.entries@[i].0@ != self.entries@[j].0@);
        } else if j < i {
            assert(self.entries@[j].0@ != self.entries@[i].0@);
        }
    }

    /// A map without entries.
    pub fn new() -> (r: Self)
        ensures
            r.wf(),
            r@ == Map::<<K as View>::V, V>::empty(),
    {
        let r = ListMap { entries: Vec::new() };
        assert(r@ =~= Map::<<K as View>::V, V>::empty());
        r
    }

    /// Finds the place of a key, or the length of the list where it has none.
    fn place(&self, k: &K) -> (r: usize)
        ensures
            r <= self.entries@.len(),
            r < self.entries@.len() ==> self.has_at(k@, r as int),
            r == self.entries@.len() ==> !self@.dom().contains(k@),
    {
        let mut i: usize = 0;
        while i < self.entries.len()
            invariant
                i <= self.entries.len(),
                forall|j: int| 0 <= j < i ==> !self.has_at(k@, j),
            decreases self.entries.len() - i,
        {
            if self.entries[i].0.same_key(k) {
                return i;
            }
            i += 1;
        }
        i
    }

    /// Sets the value for a key.
    pub fn insert(&mut self, k: K, v: V)
        requires
            old(self).wf(),
        ensures
            final(self).wf(),
            final(self)@ == old(self)@.insert(k@, v),
    {
        let i: usize = self.place(&k);
        let ghost before = *self;
        let ghost key = k@;
        if i < self.entries.len() {
            self.entries.set(i, (k, v));
        } else {
            self.entries.push((k, v));
            assert forall|a: int| 0 <= a < before.entries@.len() implies (
            #[trigger] self.entries@[a]).0@ != key by {
                assert(before.entries@[a].0@ == key ==> before.has_at(key, a));
            }
        }
        proof {
            assert(self.wf());
            assert forall|q: <K as View>::V| #[trigger]
                self@.dom().contains(q) == before@.insert(key, v).dom().contains(q) by {
                if before@.dom().contains(q) {
                    let j = choose|j: int| before.has_at(q, j);
                    assert(before.has_at(q, j));
                    assert(self.has_at(q, j));
                }
                if q == key {
                    assert(self.has_at(q, i as int));
                }
                if self@.dom().contains(q) {
                    let j = choose|j: int| self.has_at(q, j);
                    assert(self.has_at(q, j));
                    if j != i {
                        assert(before.has_at(q, j));
                    }
                }
            }
            assert forall|q: <K as View>::V| self@.dom().contains(q) implies #[trigger] self@[q]
                == before@.insert(key, v)[q] by {
                let j = choose|j: int| self.has_at(q, j);
                assert(self.has_at(q, j));
                self.lemma_entry(j);
                if j == i {
                    assert(self.entries@[j].1 == v);
                    assert(q == key);
                } else {
                    before.lemma_entry(j);
                    assert(q != key) by {
                        assert(self.has_at(key, i as int));
                        self.lemma_entry(i as int);
                        if q == key {
                            if j < i {
                                assert(self.entries@[j].0@ != self.entries@[i as int].0@);
                            } else {
                                assert(self.entries@[i as int].0@ != self.entries@[j].0@);
                            }
                        }
                    }
                }
            }
            assert(self@ =~= before@.insert(key, v));
        }
    }

    /// Sets the value for a key that has none yet.
    pub fn insert_if_absent(&mut self, k: K, v: V)
        requires
            old(self).wf(),
        ensures
            final(self).wf(),
            final(self)@ == (if old(self)@.dom().contains(k@) {
                old(self)@
            } else {
                old(self)@.insert(k@, v)
            }),
    {
        let i: usize = self.place(&k);
        if i == self.entries.len() {
            self.insert(k, v);
        } else {
            assert(self.has_at(k@, i as int));
        }
    }

    /// Finds the value for a key.
    pub fn get(&self, k: &K) -> (r: Option<&V>)
        requires
            self.wf(),
        ensures
            match r {
                Some(v) => self@.dom().contains(k@) && *v == self@[k@],
                None => !self@.dom().contains(k@),
            },
    {
        let i: usize = self.place(k);
        if i < self.entries.len() {
            proof {
                self.lemma_entry(i as int);
            }
            Some(&self.entries[i].1)
        } else {
            None
        }
    }
}

}
