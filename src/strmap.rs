//! A map keyed by strings, kept as a list of entries with distinct keys.
//!
//! vstd models `HashMap` lookups only for key types it knows to hash and
//! compare consistently (integers, `bool`); with `String` keys the calls are
//! accepted but nothing is proved of what they return. String-keyed tables
//! are therefore kept here, where every operation is proved.
use vstd::prelude::*;
use crate::sorting::{SortOrder, insert_sorted};
use crate::sorting;

verus! {

/// A map from strings to values. Each key appears in one entry only; entries
/// stay in the order in which their keys were first inserted.
#[derive(Debug, Clone)]
pub struct StrMap<V> {
    entries: Vec<(String, V)>,
}

impl<V> View for StrMap<V> {
    type V = Map<Seq<char>, V>;

    closed spec fn view(&self) -> Map<Seq<char>, V> {
        Map::new(
            |k: Seq<char>| exists|i: int| 0 <= i < self.entries@.len() && self.entries@[i].0@ == k,
            |k: Seq<char>|
                self.entries@[choose|i: int|
                    0 <= i < self.entries@.len() && self.entries@[i].0@ == k].1,
        )
    }
}

impl<V> StrMap<V> {
    pub closed spec fn spec_entries(&self) -> Seq<(String, V)> {
        self.entries@
    }

    /// No two entries share a key.
    pub closed spec fn wf(&self) -> bool {
        forall|i: int, j: int|
            0 <= i < j < self.entries@.len() ==> self.entries@[i].0@ != self.entries@[j].0@
    }

    /// The entry at `i` is what the map holds under its key.
    pub proof fn lemma_entry(&self, i: int)
        requires
            self.wf(),
            0 <= i < self.spec_entries().len(),
        ensures
            self@.contains_key(self.spec_entries()[i].0@),
            self@[self.spec_entries()[i].0@] == self.spec_entries()[i].1,
    {
        let k = self.entries@[i].0@;
        assert(exists|j: int| 0 <= j < self.entries@.len() && self.entries@[j].0@ == k);
        let j = choose|j: int| 0 <= j < self.entries@.len() && self.entries@[j].0@ == k;
        if j != i {
            if j < i {
                assert(self.entries@[j].0@ != self.entries@[i].0@);
            } else {
                assert(self.entries@[i].0@ != self.entries@[j].0@);
            }
        }
    }

    /// Distinct entries have distinct keys.
    pub proof fn lemma_distinct(&self, i: int, j: int)
        requires
            self.wf(),
            0 <= i < self.spec_entries().len(),
            0 <= j < self.spec_entries().len(),
            i != j,
        ensures
            self.spec_entries()[i].0@ != self.spec_entries()[j].0@,
    {
        if i > j {
            assert(self.entries@[j].0@ != self.entries@[i].0@);
        }
    }

    /// Each key of the map has an entry.
    pub proof fn lemma_key(&self, k: Seq<char>) -> (i: int)
        requires
            self.wf(),
            self@.contains_key(k),
        ensures
            0 <= i < self.spec_entries().len(),
            self.spec_entries()[i].0@ == k,
            self@[k] == self.spec_entries()[i].1,
    {
        let i = choose|i: int| 0 <= i < self.entries@.len() && self.entries@[i].0@ == k;
        self.lemma_entry(i);
        i
    }

    pub fn new() -> (r: Self)
        ensures
            r.wf(),
            r@ == Map::<Seq<char>, V>::empty(),
            r.spec_entries().len() == 0,
    {
        let r = StrMap { entries: Vec::new() };
        assert(r@ =~= Map::<Seq<char>, V>::empty());
        r
    }

    pub fn len(&self) -> (r: usize)
        ensures
            r == self.spec_entries().len(),
    {
        self.entries.len()
    }

    /// The key and value of the entry at `i`.
    pub fn entry(&self, i: usize) -> (r: (&String, &V))
        requires
            i < self.spec_entries().len(),
        ensures
            *r.0 == self.spec_entries()[i as int].0,
            *r.1 == self.spec_entries()[i as int].1,
    {
        let e = &self.entries[i];
        (&e.0, &e.1)
    }

    /// Where the entry for `k` stands, if there is one.
    pub fn find(&self, k: &String) -> (r: Option<usize>)
        requires
            self.wf(),
        ensures
            match r {
                Some(i) => i < self.spec_entries().len() && self.spec_entries()[i as int].0@ == k@
                    && self@.contains_key(k@) && self@[k@] == self.spec_entries()[i as int].1,
                None => !self@.contains_key(k@),
            },
    {
        let n = self.entries.len();
        let mut i: usize = 0;
        while i < n
            invariant
                self.wf(),
                n == self.entries@.len(),
                i <= n,
                forall|j: int| 0 <= j < i ==> self.entries@[j].0@ != k@,
            decreases n - i,
        {
            if self.entries[i].0 == *k {
                proof {
                    self.lemma_entry(i as int);
                }
                return Some(i);
            }
            i = i + 1;
        }
        None
    }

    /// The value stored under `k`.
    pub fn get(&self, k: &String) -> (r: Option<&V>)
        requires
            self.wf(),
        ensures
            match r {
                Some(v) => self@.contains_key(k@) && self@[k@] == *v,
                None => !self@.contains_key(k@),
            },
    {
        match self.find(k) {
            Some(i) => Some(&self.entries[i].1),
            None => None,
        }
    }

    /// The value stored under the key spelled by `k`.
    pub fn get_str(&self, k: &str) -> (r: Option<&V>)
        requires
            self.wf(),
        ensures
            match r {
                Some(v) => self@.contains_key(k@) && self@[k@] == *v,
                None => !self@.contains_key(k@),
            },
    {
        let key = k.to_owned();
        self.get(&key)
    }

    /// Replaces the value of the entry at `i`.
    pub fn set_value(&mut self, i: usize, v: V)
        requires
            old(self).wf(),
            i < old(self).spec_entries().len(),
        ensures
            final(self).wf(),
            final(self)@ == old(self)@.insert(old(self).spec_entries()[i as int].0@, v),
            final(self).spec_entries().len() == old(self).spec_entries().len(),
    {
        let ghost k = self.entries@[i as int].0@;
        let ghost before = self.entries@;
        let (key, _old) = self.entries.remove(i);
        self.entries.insert(i, (key, v));
        assert(self.entries@ =~= before.update(i as int, (before[i as int].0, v)));
        proof {
            assert forall|a: int, b: int|
                0 <= a < b < self.entries@.len() implies self.entries@[a].0@
                != self.entries@[b].0@ by {
                assert(self.entries@[a].0@ == before[a].0@);
                assert(self.entries@[b].0@ == before[b].0@);
            }
            assert forall|kk: Seq<char>| #[trigger] self@.contains_key(kk) == old(self)@.insert(
                k,
                v,
            ).contains_key(kk) by {
                if old(self)@.contains_key(kk) {
                    let j = choose|j: int| 0 <= j < before.len() && before[j].0@ == kk;
                    assert(self.entries@[j].0@ == kk);
                }
                if self@.contains_key(kk) {
                    let j = choose|j: int| 0 <= j < self.entries@.len() && self.entries@[j].0@ == kk;
                    assert(before[j].0@ == kk);
                }
                self.lemma_entry(i as int);
            }
            assert forall|kk: Seq<char>| #[trigger] self@.contains_key(kk) implies self@[kk]
                == old(self)@.insert(k, v)[kk] by {
                let j = choose|j: int| 0 <= j < self.entries@.len() && self.entries@[j].0@ == kk;
                self.lemma_entry(j);
                if j != i {
                    old(self).lemma_entry(j);
                }
            }
            assert(self@ =~= old(self)@.insert(k, v));
        }
    }

    /// Stores `v` under `k`, replacing any earlier value.
    pub fn insert(&mut self, k: String, v: V)
        requires
            old(self).wf(),
        ensures
            final(self).wf(),
            final(self)@ == old(self)@.insert(k@, v),
    {
        match self.find(&k) {
            Some(i) => {
                self.set_value(i, v);
            },
            None => {
                let ghost before = self.entries@;
                let ghost kv = k@;
                self.entries.push((k, v));
                proof {
                    let n = before.len();
                    assert forall|a: int, b: int|
                        0 <= a < b < self.entries@.len() implies self.entries@[a].0@
                        != self.entries@[b].0@ by {
                        assert(self.entries@[a] == before[a]);
                        if b < n {
                            assert(self.entries@[b] == before[b]);
                        } else {
                            assert(old(self)@.contains_key(before[a].0@)) by {
                                old(self).lemma_entry(a);
                            }
                        }
                    }
                    assert forall|kk: Seq<char>| #[trigger] self@.contains_key(kk) == old(
                        self,
                    )@.insert(kv, v).contains_key(kk) by {
                        if old(self)@.contains_key(kk) {
                            let j = choose|j: int| 0 <= j < before.len() && before[j].0@ == kk;
                            assert(self.entries@[j].0@ == kk);
                        }
                        if self@.contains_key(kk) {
                            let j = choose|j: int|
                                0 <= j < self.entries@.len() && self.entries@[j].0@ == kk;
                            if j < n {
                                assert(before[j].0@ == kk);
                            }
                        }
                        assert(self.entries@[n as int].0@ == kv);
                    }
                    assert forall|kk: Seq<char>| #[trigger] self@.contains_key(kk) implies self@[kk]
                        == old(self)@.insert(kv, v)[kk] by {
                        let j = choose|j: int|
                            0 <= j < self.entries@.len() && self.entries@[j].0@ == kk;
                        self.lemma_entry(j);
                        if j < n {
                            assert(self.entries@[j] == before[j]);
                            old(self).lemma_entry(j);
                        }
                    }
                    assert(self@ =~= old(self)@.insert(kv, v));
                }
            },
        }
    }
}

impl<T: SortOrder> StrMap<Vec<T>> {
    /// Places `x` in the sorted list stored under `k` (an absent key counts
    /// as an empty list).
    pub fn insert_into_list(&mut self, k: String, x: T)
        requires
            old(self).wf(),
        ensures
            final(self).wf(),
            final(self)@.dom() == old(self)@.dom().insert(k@),
            forall|kk: Seq<char>|
                #![trigger final(self)@[kk]]
                final(self)@.contains_key(kk) && kk != k@ ==> final(self)@[kk] == old(self)@[kk],
            final(self)@[k@]@ == insert_sorted(
                if old(self)@.contains_key(k@) {
                    old(self)@[k@]@
                } else {
                    Seq::empty()
                },
                x,
            ),
    {
        match self.find(&k) {
            Some(i) => {
                let ghost before = self.entries@;
                let (key, mut list) = self.entries.remove(i);
                sorting::insert_sorted_vec(&mut list, x);
                self.entries.insert(i, (key, list));
                proof {
                    let new_list = self.entries@[i as int].1;
                    assert(self.entries@ =~= before.update(i as int, (before[i as int].0, new_list)));
                    assert forall|a: int, b: int|
                        0 <= a < b < self.entries@.len() implies self.entries@[a].0@
                        != self.entries@[b].0@ by {
                        assert(self.entries@[a].0@ == before[a].0@);
                        assert(self.entries@[b].0@ == before[b].0@);
                    }
                    assert forall|kk: Seq<char>| #[trigger] self@.contains_key(kk) == old(
                        self,
                    )@.contains_key(kk) by {
                        if old(self)@.contains_key(kk) {
                            let j = choose|j: int| 0 <= j < before.len() && before[j].0@ == kk;
                            assert(self.entries@[j].0@ == kk);
                        }
                        if self@.contains_key(kk) {
                            let j = choose|j: int|
                                0 <= j < self.entries@.len() && self.entries@[j].0@ == kk;
                            assert(before[j].0@ == kk);
                        }
                    }
                    assert(self@.dom() =~= old(self)@.dom().insert(k@));
                    self.lemma_entry(i as int);
                    assert forall|kk: Seq<char>|
                        self@.contains_key(kk) && kk != k@ implies #[trigger] self@[kk] == old(
                            self,
                        )@[kk] by {
                        let j = choose|j: int|
                            0 <= j < self.entries@.len() && self.entries@[j].0@ == kk;
                        self.lemma_entry(j);
                        old(self).lemma_entry(j);
                    }
                }
            },
            None => {
                let mut list: Vec<T> = Vec::new();
                sorting::insert_sorted_vec(&mut list, x);
                self.insert(k, list);
                proof {
                    assert(self@.dom() =~= old(self)@.dom().insert(k@));
                }
            },
        }
    }
}

} // verus!
