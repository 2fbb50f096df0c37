//! A small map keyed by logical server name.
//!
//! Backed by a vector of pairs with pairwise distinct names; viewed as a
//! `Map<Seq<char>, V>`.  The registry and the log store are built on it.

use vstd::prelude::*;
use crate::text::str_eq;

verus! {

/// A map from logical name to `V`, with at most one entry per name.
pub struct NameMap<V> {
    entries: Vec<(String, V)>,
}

impl<V> NameMap<V> {
    /// Some entry holds `k` as its name.
    pub closed spec fn spec_has_key(&self, k: Seq<char>) -> bool {
        exists|i: int| 0 <= i < self.entries@.len() && self.entries@[i].0@ == k
    }

    /// The index of the entry named `k`.
    pub closed spec fn index_of(&self, k: Seq<char>) -> int {
        choose|i: int| 0 <= i < self.entries@.len() && self.entries@[i].0@ == k
    }

    /// The entries as a map from name to value.
    pub closed spec fn view(&self) -> Map<Seq<char>, V> {
        Map::new(|k: Seq<char>| self.spec_has_key(k), |k: Seq<char>| self.entries@[self.index_of(k)].1)
    }

    /// Names are pairwise distinct, so each name selects one entry.
    pub closed spec fn wf(&self) -> bool {
        forall|i: int, j: int|
            0 <= i < self.entries@.len() && 0 <= j < self.entries@.len() && self.entries@[i].0@
                == self.entries@[j].0@ ==> i == j
    }

    pub fn new() -> (r: NameMap<V>)
        ensures
            r.wf(),
            r@ =~= Map::<Seq<char>, V>::empty(),
    {
        let r = NameMap::<V> { entries: Vec::new() };
        proof {
            assert(forall|k: Seq<char>| !r.spec_has_key(k));
        }
        r
    }

    /// The position of the entry named `name`, if one exists.
    fn find(&self, name: &str) -> (r: Option<usize>)
        requires
            self.wf(),
        ensures
            match r {
                Some(i) => i < self.entries@.len() && self.entries@[i as int].0@ == name@
                    && self@.contains_key(name@) && i == self.index_of(name@),
                None => !self@.contains_key(name@),
            },
    {
        let mut i: usize = 0;
        while i < self.entries.len()
            invariant
                self.wf(),
                i <= self.entries@.len(),
                forall|j: int| 0 <= j < i ==> self.entries@[j].0@ != name@,
            decreases self.entries@.len() - i,
        {
            if str_eq(self.entries[i].0.as_str(), name) {
                return Some(i);
            }
            i = i + 1;
        }
        proof {
            assert(!self.spec_has_key(name@));
        }
        None
    }

    /// Whether an entry is registered under `name`.
    pub fn contains(&self, name: &str) -> (r: bool)
        requires
            self.wf(),
        ensures
            r == self@.contains_key(name@),
    {
        self.find(name).is_some()
    }

    /// The value registered under `name`, if any.
    pub fn get(&self, name: &str) -> (r: Option<&V>)
        requires
            self.wf(),
        ensures
            match r {
                Some(v) => self@.contains_key(name@) && *v == self@[name@],
                None => !self@.contains_key(name@),
            },
    {
        match self.find(name) {
            Some(i) => Some(&self.entries[i].1),
            None => None,
        }
    }

    /// Register `v` under `name`, replacing any earlier value.
    pub fn insert(&mut self, name: String, v: V)
        requires
            old(self).wf(),
        ensures
            final(self).wf(),
            final(self)@ =~= old(self)@.insert(name@, v),
    {
        let found = self.find(name.as_str());
        match found {
            Some(i) => {
                let slot = vstd::std_specs::vec::vec_index_mut(&mut self.entries, i);
                slot.1 = v;
                proof {
                    let oe = old(self).entries@;
                    assert forall|k: Seq<char>|
                        self.spec_has_key(k) == old(self).spec_has_key(k) by {
                        if old(self).spec_has_key(k) {
                            let j = choose|j: int| 0 <= j < oe.len() && oe[j].0@ == k;
                            assert(self.entries@[j].0@ == k);
                        }
                        if self.spec_has_key(k) {
                            let j = choose|j: int|
                                0 <= j < self.entries@.len() && self.entries@[j].0@ == k;
                            assert(oe[j].0@ == k);
                        }
                    }
                    assert(self@ =~= old(self)@.insert(name@, v));
                }
            },
            None => {
                self.entries.push((name, v));
                proof {
                    let oe = old(self).entries@;
                    let n = oe.len() as int;
                    assert forall|k: Seq<char>| old(self).spec_has_key(k) implies self.spec_has_key(
                        k,
                    ) by {
                        let i = choose|i: int| 0 <= i < oe.len() && oe[i].0@ == k;
                        assert(self.entries@[i].0@ == k);
                    }
                    assert(forall|k: Seq<char>| #[trigger] self.spec_has_key(k) ==> (
                        old(self).spec_has_key(k) || k == self.entries@[n].0@));
                    assert(self@ =~= old(self)@.insert(self.entries@[n].0@, v));
                }
            },
        }
    }

    /// Remove and return the value registered under `name`.  Removing an
    /// absent name changes nothing and returns `None`.
    pub fn remove(&mut self, name: &str) -> (r: Option<V>)
        requires
            old(self).wf(),
        ensures
            final(self).wf(),
            final(self)@ =~= old(self)@.remove(name@),
            match r {
                Some(v) => old(self)@.contains_key(name@) && v == old(self)@[name@],
                None => !old(self)@.contains_key(name@),
            },
    {
        let found = self.find(name);
        match found {
            Some(i) => {
                let entry = self.entries.remove(i);
                proof {
                    let oe = old(self).entries@;
                    assert(forall|j: int| 0 <= j < i ==> self.entries@[j] == oe[j]);
                    assert(forall|j: int|
                        i <= j < self.entries@.len() ==> self.entries@[j] == oe[j + 1]);
                    assert(forall|k: Seq<char>| #[trigger] self.spec_has_key(k) ==> (
                        old(self).spec_has_key(k) && k != name@));
                    assert forall|k: Seq<char>|
                        old(self).spec_has_key(k) && k != name@ implies self.spec_has_key(k) by {
                        let j = choose|j: int| 0 <= j < oe.len() && oe[j].0@ == k;
                        if j < i {
                            assert(self.entries@[j].0@ == k);
                        } else {
                            assert(self.entries@[j - 1].0@ == k);
                        }
                    }
                    assert(self@ =~= old(self)@.remove(name@));
                }
                Some(entry.1)
            },
            None => {
                proof {
                    assert(self@ =~= old(self)@.remove(name@));
                }
                None
            },
        }
    }

    /// How many entries are held.
    pub closed spec fn spec_len(&self) -> nat {
        self.entries@.len()
    }

    /// The names of all entries, in insertion order, each exactly once.
    pub fn names(&self) -> (r: Vec<String>)
        requires
            self.wf(),
        ensures
            r@.len() == self.spec_len(),
            forall|i: int, j: int| 0 <= i < j < r@.len() ==> r@[i]@ != r@[j]@,
            forall|i: int| 0 <= i < r@.len() ==> self@.contains_key(#[trigger] r@[i]@),
            forall|k: Seq<char>| #[trigger] self@.contains_key(k) ==> exists|i: int|
                0 <= i < r@.len() && r@[i]@ == k,
    {
        let mut r: Vec<String> = Vec::new();
        let mut i: usize = 0;
        while i < self.entries.len()
            invariant
                self.wf(),
                i <= self.entries@.len(),
                r@.len() == i,
                forall|j: int| 0 <= j < i ==> r@[j]@ == self.entries@[j].0@,
            decreases self.entries@.len() - i,
        {
            r.push(self.entries[i].0.clone());
            i = i + 1;
        }
        proof {
            assert forall|k: Seq<char>| #[trigger] self@.contains_key(k) implies exists|i: int|
                0 <= i < r@.len() && r@[i]@ == k by {
                let j = choose|j: int| 0 <= j < self.entries@.len() && self.entries@[j].0@ == k;
                assert(r@[j]@ == k);
            }
        }
        r
    }
}

} // verus!
