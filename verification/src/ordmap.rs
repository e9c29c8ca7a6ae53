//! A map with texts as keys, kept in the order of its keys.

use vstd::prelude::*;

use crate::text;
use crate::text::{less, same_text};

verus! {

/// A map from texts to values, in the order of the texts.
pub struct OrdMap<V> {
    entries: Vec<(String, V)>,
}

/// Whether keys stand in strictly rising order.
pub open spec fn rising(keys: Seq<Seq<char>>) -> bool {
    forall|i: int, j: int|
        0 <= i < j < keys.len() ==> text::text_less(#[trigger] keys[i], #[trigger] keys[j])
}

impl<V> OrdMap<V> {
    /// The keys, in order.
    pub closed spec fn keys(self) -> Seq<Seq<char>> {
        Seq::new(self.entries@.len(), |i: int| self.entries@[i].0@)
    }

    /// The values, in the order of their keys.
    pub closed spec fn values(self) -> Seq<V> {
        Seq::new(self.entries@.len(), |i: int| self.entries@[i].1)
    }

    /// The keys rise, so each occurs once; there are as many values as keys.
    pub open spec fn wf(self) -> bool {
        rising(self.keys()) && self.keys().len() == self.values().len()
    }

    /// What the map holds.
    pub open spec fn map(self) -> Map<Seq<char>, V> {
        Map::new(
            |k: Seq<char>| self.keys().contains(k),
            |k: Seq<char>| self.values()[self.keys().index_of(k)],
        )
    }

    /// A map that holds nothing.
    pub fn new() -> (r: OrdMap<V>)
        ensures
            r.wf(),
            r.keys() == Seq::<Seq<char>>::empty(),
            r.map() == Map::<Seq<char>, V>::empty(),
    {
        let r = OrdMap { entries: Vec::new() };
        proof {
            assert(r.keys() =~= Seq::<Seq<char>>::empty());
            assert(r.map() =~= Map::<Seq<char>, V>::empty());
        }
        r
    }

    /// How many entries there are.
    pub fn len(&self) -> (r: usize)
        requires
            self.wf(),
        ensures
            r == self.keys().len(),
    {
        self.entries.len()
    }

    /// The key at a place.
    pub fn key_at(&self, i: usize) -> (r: &str)
        requires
            self.wf(),
            i < self.keys().len(),
        ensures
            r@ == self.keys()[i as int],
    {
        self.entries[i].0.as_str()
    }

    /// The value at a place.
    pub fn value_at(&self, i: usize) -> (r: &V)
        requires
            self.wf(),
            i < self.keys().len(),
        ensures
            *r == self.values()[i as int],
    {
        &self.entries[i].1
    }

    /// The map holds, under the key at a place, the value at that place.
    pub proof fn lemma_at(self, i: int)
        requires
            self.wf(),
            0 <= i < self.keys().len(),
        ensures
            self.keys().contains(self.keys()[i]),
            self.keys().index_of(self.keys()[i]) == i,
            self.map().dom().contains(self.keys()[i]),
            self.map()[self.keys()[i]] == self.values()[i],
    {
        let k = self.keys()[i];
        assert(self.keys().contains(k));
        let j = self.keys().index_of(k);
        assert(self.keys()[j] == k && 0 <= j < self.keys().len());
        text::lemma_less_irreflexive(k);
        if i < j {
            assert(text::text_less(self.keys()[i], self.keys()[j]));
        } else if j < i {
            assert(text::text_less(self.keys()[j], self.keys()[i]));
        }
    }

    /// The first place whose key does not come before `key`.
    fn place(&self, key: &str) -> (r: usize)
        requires
            self.wf(),
        ensures
            r <= self.keys().len(),
            forall|i: int| 0 <= i < r ==> text::text_less(#[trigger] self.keys()[i], key@),
            r < self.keys().len() ==> !text::text_less(self.keys()[r as int], key@),
    {
        let mut i: usize = 0;
        while i < self.entries.len() && less(self.entries[i].0.as_str(), key)
            invariant
                i <= self.entries@.len(),
                forall|k: int| 0 <= k < i ==> text::text_less(#[trigger] self.keys()[k], key@),
            decreases self.entries.len() - i,
        {
            i = i + 1;
        }
        i
    }

    /// The place of `key`, if the map holds it.
    pub fn find(&self, key: &str) -> (r: Option<usize>)
        requires
            self.wf(),
        ensures
            match r {
                Some(i) => i < self.keys().len() && self.keys()[i as int] == key@,
                None => !self.keys().contains(key@),
            },
    {
        let at = self.place(key);
        if at < self.entries.len() && same_text(self.entries[at].0.as_str(), key) {
            return Some(at);
        }
        proof {
            if self.keys().contains(key@) {
                let j = self.keys().index_of(key@);
                assert(0 <= j < self.keys().len() && self.keys()[j] == key@);
                text::lemma_less_irreflexive(key@);
                if j > at {
                    text::lemma_less_total(self.keys()[at as int], key@);
                    assert(text::text_less(self.keys()[at as int], self.keys()[j]));
                }
            }
        }
        None
    }

    /// The value of `key`, if the map holds it.
    pub fn get(&self, key: &str) -> (r: Option<&V>)
        requires
            self.wf(),
        ensures
            match r {
                Some(v) => self.map().dom().contains(key@) && *v == self.map()[key@],
                None => !self.map().dom().contains(key@),
            },
    {
        match self.find(key) {
            Some(i) => {
                proof {
                    self.lemma_at(i as int);
                }
                Some(&self.entries[i].1)
            },
            None => None,
        }
    }

    /// Puts a value under a key, in place of the value that was there.
    pub fn insert(&mut self, key: String, value: V)
        requires
            old(self).wf(),
        ensures
            final(self).wf(),
            final(self).map() == old(self).map().insert(key@, value),
    {
        let ghost before = *self;
        let at = self.place(key.as_str());
        let ghost k = key@;
        let there: bool = at < self.entries.len() && same_text(
            self.entries[at].0.as_str(),
            key.as_str(),
        );
        if there {
            self.entries[at].1 = value;
            proof {
                assert(self.keys() =~= before.keys());
                assert(self.values() =~= before.values().update(at as int, value));
                before.lemma_at(at as int);
                self.lemma_at(at as int);
                assert(self.map() =~= before.map().insert(k, value));
            }
        } else {
            self.entries.insert(at, (key, value));
            proof {
                let keys = before.keys();
                assert(self.keys() =~= keys.insert(at as int, k));
                assert(self.values() =~= before.values().insert(at as int, value));
                assert forall|i: int, j: int| 0 <= i < j < self.keys().len() implies text::text_less(
                    #[trigger] self.keys()[i],
                    #[trigger] self.keys()[j],
                ) by {
                    if at < keys.len() {
                        text::lemma_less_total(keys[at as int], k);
                    }
                    if i == at {
                        if j - 1 > at {
                            assert(text::text_less(keys[at as int], keys[j - 1]));
                            text::lemma_less_transitive(k, keys[at as int], keys[j - 1]);
                        }
                    } else if j == at {
                        assert(text::text_less(keys[i], k));
                    } else {
                        let a = if i < at {
                            i
                        } else {
                            i - 1
                        };
                        let b = if j < at {
                            j
                        } else {
                            j - 1
                        };
                        assert(text::text_less(keys[a], keys[b]));
                    }
                }
                self.lemma_at(at as int);
                assert(self.map() =~= before.map().insert(k, value)) by {
                    assert forall|x: Seq<char>|
                        self.keys().contains(x) == (before.keys().contains(x) || x == k) by {
                        if before.keys().contains(x) {
                            let j = before.keys().index_of(x);
                            let b = if j < at {
                                j
                            } else {
                                j + 1
                            };
                            assert(self.keys()[b] == x);
                        }
                        if self.keys().contains(x) {
                            let j = self.keys().index_of(x);
                            if j != at {
                                let b = if j < at {
                                    j
                                } else {
                                    j - 1
                                };
                                assert(before.keys()[b] == x);
                            }
                        }
                    }
                    assert forall|x: Seq<char>| #[trigger] before.keys().contains(x) && x != k implies self.map()[x]
                        == before.map()[x] by {
                        let j = before.keys().index_of(x);
                        before.lemma_at(j);
                        let b = if j < at {
                            j
                        } else {
                            j + 1
                        };
                        self.lemma_at(b);
                    }
                }
            }
        }
    }
}

} // verus!
