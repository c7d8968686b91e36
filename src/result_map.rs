use vstd::prelude::*;

use crate::response::{DownloadResponse, ResponseView};

verus! {

/// The responses of a batch, keyed by URL: at most one entry per URL.
#[derive(Debug, Clone)]
pub struct ResultMap {
    entries: Vec<(String, DownloadResponse)>,
}

impl ResultMap {
    /// No two entries share a key.
    pub closed spec fn wf(self) -> bool {
        forall|i: int, j: int|
            0 <= i < j < self.entries@.len() ==> #[trigger] self.entries@[i].0@
                != #[trigger] self.entries@[j].0@
    }

    /// Some entry has key `k`.
    pub closed spec fn has_key(self, k: Seq<char>) -> bool {
        exists|i: int| 0 <= i < self.entries@.len() && #[trigger] self.entries@[i].0@ == k
    }

    /// The position of the entry with key `k`.
    pub closed spec fn position(self, k: Seq<char>) -> int {
        choose|i: int| 0 <= i < self.entries@.len() && #[trigger] self.entries@[i].0@ == k
    }
}

impl View for ResultMap {
    type V = Map<Seq<char>, ResponseView>;

    closed spec fn view(&self) -> Map<Seq<char>, ResponseView> {
        Map::new(|k: Seq<char>| self.has_key(k), |k: Seq<char>| self.entries@[self.position(k)].1@)
    }
}

impl ResultMap {
    /// An empty map.
    pub fn new() -> (m: ResultMap)
        ensures
            m.wf(),
            m@ == Map::<Seq<char>, ResponseView>::empty(),
    {
        let m = ResultMap { entries: Vec::new() };
        assert(m@ =~= Map::<Seq<char>, ResponseView>::empty());
        m
    }

    /// The position of the entry with key `key`, if there is one.
    fn find(&self, key: &String) -> (r: Option<usize>)
        ensures
            match r {
                Some(i) => i < self.entries@.len() && self.entries@[i as int].0@ == key@,
                None => !self.has_key(key@),
            },
    {
        let mut i: usize = 0;
        while i < self.entries.len()
            invariant
                i <= self.entries@.len(),
                forall|j: int| 0 <= j < i ==> #[trigger] self.entries@[j].0@ != key@,
            decreases self.entries@.len() - i,
        {
            if self.entries[i].0 == *key {
                return Some(i);
            }
            i = i + 1;
        }
        None
    }

    /// The entry with key `k` is the one at position `i`.
    proof fn lemma_position(self, i: int)
        requires
            self.wf(),
            0 <= i < self.entries@.len(),
        ensures
            self.has_key(self.entries@[i].0@),
            self.position(self.entries@[i].0@) == i,
    {
        let k = self.entries@[i].0@;
        assert(self.has_key(k));
        let p = self.position(k);
        if p != i {
            if p < i {
                assert(self.entries@[p].0@ != self.entries@[i].0@);
            } else {
                assert(self.entries@[i].0@ != self.entries@[p].0@);
            }
        }
    }

    /// Whether the map has an entry for `key`.
    pub fn contains_key(&self, key: &str) -> (r: bool)
        requires
            self.wf(),
        ensures
            r == self@.contains_key(key@),
    {
        let k = key.to_owned();
        match self.find(&k) {
            Some(_) => true,
            None => false,
        }
    }

    /// The entry for `key`, if there is one.
    pub fn get(&self, key: &str) -> (r: Option<&DownloadResponse>)
        requires
            self.wf(),
        ensures
            match r {
                Some(v) => self@.contains_key(key@) && v@ == self@[key@],
                None => !self@.contains_key(key@),
            },
    {
        let k = key.to_owned();
        match self.find(&k) {
            Some(i) => {
                proof {
                    self.lemma_position(i as int);
                }
                Some(&self.entries[i].1)
            },
            None => None,
        }
    }

    /// Sets the entry for `key` to `value`, replacing any earlier one.
    pub fn insert(&mut self, key: String, value: DownloadResponse)
        requires
            old(self).wf(),
        ensures
            final(self).wf(),
            final(self)@ == old(self)@.insert(key@, value@),
    {
        let ghost before = *self;
        match self.find(&key) {
            Some(i) => {
                proof {
                    before.lemma_position(i as int);
                }
                self.entries.set(i, (key, value));
                assert(self.wf()) by {
                    assert forall|a: int, b: int|
                        0 <= a < b < self.entries@.len() implies #[trigger] self.entries@[a].0@
                        != #[trigger] self.entries@[b].0@ by {
                        assert(before.entries@[a].0@ != before.entries@[b].0@);
                    }
                }
                assert forall|k: Seq<char>| #[trigger] self.has_key(k) == before.has_key(k) by {
                    if self.has_key(k) {
                        let j = choose|j: int|
                            0 <= j < self.entries@.len() && #[trigger] self.entries@[j].0@ == k;
                        assert(before.entries@[j].0@ == k);
                    }
                    if before.has_key(k) {
                        let j = choose|j: int|
                            0 <= j < before.entries@.len() && #[trigger] before.entries@[j].0@ == k;
                        assert(self.entries@[j].0@ == k);
                    }
                }
                assert forall|k: Seq<char>| #[trigger] self.has_key(k) implies self.position(k)
                    == before.position(k) by {
                    let j = choose|j: int|
                        0 <= j < self.entries@.len() && #[trigger] self.entries@[j].0@ == k;
                    self.lemma_position(j);
                    before.lemma_position(j);
                }
            },
            None => {
                self.entries.push((key, value));
                let ghost n = before.entries@.len() as int;
                assert(self.wf()) by {
                    assert forall|a: int, b: int|
                        0 <= a < b < self.entries@.len() implies #[trigger] self.entries@[a].0@
                        != #[trigger] self.entries@[b].0@ by {
                        if b < n {
                            assert(before.entries@[a].0@ != before.entries@[b].0@);
                        } else {
                            assert(before.entries@[a].0@ == self.entries@[a].0@);
                        }
                    }
                }
                assert forall|k: Seq<char>| #[trigger] self.has_key(k) == (before.has_key(k) || k
                    == key@) by {
                    if self.has_key(k) && k != key@ {
                        let j = choose|j: int|
                            0 <= j < self.entries@.len() && #[trigger] self.entries@[j].0@ == k;
                        assert(before.entries@[j].0@ == k);
                    }
                    if before.has_key(k) {
                        let j = choose|j: int|
                            0 <= j < before.entries@.len() && #[trigger] before.entries@[j].0@ == k;
                        assert(self.entries@[j].0@ == k);
                    }
                    if k == key@ {
                        assert(self.entries@[n].0@ == k);
                    }
                }
                assert forall|k: Seq<char>| #[trigger] before.has_key(k) implies self.position(k)
                    == before.position(k) by {
                    let j = choose|j: int|
                        0 <= j < before.entries@.len() && #[trigger] before.entries@[j].0@ == k;
                    self.lemma_position(j);
                    before.lemma_position(j);
                }
                proof {
                    self.lemma_position(n);
                }
            },
        }
        assert(self@ =~= before@.insert(key@, value@));
    }

    /// The entries, one per key.
    pub fn into_entries(self) -> (entries: Vec<(String, DownloadResponse)>)
        requires
            self.wf(),
        ensures
            forall|i: int|
                0 <= i < entries@.len() ==> self@.contains_key(#[trigger] entries@[i].0@)
                    && self@[entries@[i].0@] == entries@[i].1@,
            forall|k: Seq<char>|
                #[trigger] self@.contains_key(k) ==> exists|i: int|
                    0 <= i < entries@.len() && #[trigger] entries@[i].0@ == k,
            forall|i: int, j: int|
                0 <= i < j < entries@.len() ==> #[trigger] entries@[i].0@ != #[trigger] entries@[j].0@,
    {
        proof {
            assert forall|i: int| 0 <= i < self.entries@.len() implies self@.contains_key(
                #[trigger] self.entries@[i].0@,
            ) && self@[self.entries@[i].0@] == self.entries@[i].1@ by {
                self.lemma_position(i);
            }
        }
        self.entries
    }
}

} // verus!
