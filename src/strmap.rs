use vstd::prelude::*;

verus! {

/// A string-to-string mapping where a later write to a key replaces the
/// earlier one. Entries are kept in a `Vec` with no key repeated.
pub struct StrMap {
    entries: Vec<(String, String)>,
}

/// Entry `i` of `entries` has key `k`.
pub open spec fn key_at(entries: Seq<(String, String)>, i: int, k: Seq<char>) -> bool {
    0 <= i < entries.len() && entries[i].0@ == k
}

impl StrMap {
    /// No key occurs in two entries.
    pub closed spec fn wf(&self) -> bool {
        forall|i: int, j: int|
            0 <= i < self.entries@.len() && 0 <= j < self.entries@.len() && #[trigger] self.entries@[i].0@
                == #[trigger] self.entries@[j].0@ ==> i == j
    }

    /// An empty mapping.
    pub fn new() -> (m: StrMap)
        ensures
            m.wf(),
            m@ == Map::<Seq<char>, Seq<char>>::empty(),
    {
        let m = StrMap { entries: Vec::new() };
        assert(m@ =~= Map::<Seq<char>, Seq<char>>::empty());
        m
    }

    /// The number of keys.
    pub fn len(&self) -> (n: usize)
        requires
            self.wf(),
        ensures
            n == self@.dom().len(),
    {
        proof {
            self.lemma_dom_len();
        }
        self.entries.len()
    }

    /// The entries, one per key, in the order their keys were first written.
    pub fn entries(&self) -> (r: &[(String, String)])
        requires
            self.wf(),
        ensures
            r@.len() == self@.dom().len(),
            forall|i: int|
                0 <= i < r@.len() ==> self@.contains_key((#[trigger] r@[i]).0@) && self@[r@[i].0@]
                    == r@[i].1@,
            forall|k: Seq<char>| #[trigger]
                self@.contains_key(k) ==> exists|i: int| 0 <= i < r@.len() && r@[i].0@ == k,
    {
        proof {
            self.lemma_dom_len();
            assert forall|i: int| 0 <= i < self.entries@.len() implies self@.contains_key(
                (#[trigger] self.entries@[i]).0@,
            ) && self@[self.entries@[i].0@] == self.entries@[i].1@ by {
                self.lemma_value_at(i);
            }
            assert forall|k: Seq<char>| #[trigger] self@.contains_key(k) implies exists|i: int|
                0 <= i < self.entries@.len() && self.entries@[i].0@ == k by {
                let j = choose|j: int| key_at(self.entries@, j, k);
                assert(key_at(self.entries@, j, k));
            }
        }
        self.entries.as_slice()
    }

    /// The position of `key`, if it is present.
    fn find(&self, key: &String) -> (r: Option<usize>)
        requires
            self.wf(),
        ensures
            r matches Some(i) ==> key_at(self.entries@, i as int, key@),
            r is None ==> !self@.contains_key(key@),
    {
        let mut i: usize = 0;
        while i < self.entries.len()
            invariant
                i <= self.entries@.len(),
                forall|j: int| 0 <= j < i ==> !key_at(self.entries@, j, key@),
            decreases self.entries@.len() - i,
        {
            if self.entries[i].0 == *key {
                return Some(i);
            }
            i = i + 1;
        }
        None
    }

    /// The value stored under `key`.
    pub fn get(&self, key: &str) -> (r: Option<&String>)
        requires
            self.wf(),
        ensures
            r matches Some(v) ==> self@.contains_key(key@) && self@[key@] == v@,
            r is None ==> !self@.contains_key(key@),
    {
        let k = key.to_owned();
        match self.find(&k) {
            Some(i) => {
                proof {
                    self.lemma_value_at(i as int);
                }
                Some(&self.entries[i].1)
            },
            None => None,
        }
    }

    /// Writes `value` under `key`, replacing what was there.
    pub fn insert(&mut self, key: &str, value: &str)
        requires
            old(self).wf(),
        ensures
            final(self).wf(),
            final(self)@ == old(self)@.insert(key@, value@),
    {
        let k = key.to_owned();
        let v = value.to_owned();
        match self.find(&k) {
            Some(i) => {
                let ghost before = self.entries@;
                self.entries.set(i, (k, v));
                proof {
                    let after = self.entries@;
                    assert forall|a: int, b: int|
                        0 <= a < after.len() && 0 <= b < after.len() && #[trigger] after[a].0@
                            == #[trigger] after[b].0@ implies a == b by {
                        assert(before[a].0@ == before[b].0@);
                    }
                    assert forall|kk: Seq<char>| #[trigger]
                        self@.contains_key(kk) == old(self)@.insert(key@, value@).contains_key(kk) by {
                        if old(self)@.contains_key(kk) {
                            let j = choose|j: int| key_at(before, j, kk);
                            assert(key_at(after, j, kk));
                        }
                        if self@.contains_key(kk) && kk != key@ {
                            let j = choose|j: int| key_at(after, j, kk);
                            assert(key_at(before, j, kk));
                        }
                        if kk == key@ {
                            assert(key_at(after, i as int, kk));
                        }
                    }
                    assert forall|kk: Seq<char>| #[trigger] self@.contains_key(kk) implies self@[kk]
                        == old(self)@.insert(key@, value@)[kk] by {
                        self.lemma_value_at(choose|j: int| key_at(after, j, kk));
                        if kk != key@ {
                            let j = choose|j: int| key_at(after, j, kk);
                            assert(key_at(before, j, kk));
                            old(self).lemma_value_at(j);
                        } else {
                            self.lemma_value_at(i as int);
                        }
                    }
                    assert(self@ =~= old(self)@.insert(key@, value@));
                }
            },
            None => {
                let ghost before = self.entries@;
                self.entries.push((k, v));
                proof {
                    let after = self.entries@;
                    let n = before.len() as int;
                    assert forall|a: int, b: int|
                        0 <= a < after.len() && 0 <= b < after.len() && #[trigger] after[a].0@
                            == #[trigger] after[b].0@ implies a == b by {
                        if a < n && b < n {
                            assert(before[a].0@ == before[b].0@);
                        } else if a < n {
                            assert(key_at(before, a, key@));
                        } else if b < n {
                            assert(key_at(before, b, key@));
                        }
                    }
                    assert forall|kk: Seq<char>| #[trigger]
                        self@.contains_key(kk) == old(self)@.insert(key@, value@).contains_key(kk) by {
                        if old(self)@.contains_key(kk) {
                            let j = choose|j: int| key_at(before, j, kk);
                            assert(key_at(after, j, kk));
                        }
                        if self@.contains_key(kk) && kk != key@ {
                            let j = choose|j: int| key_at(after, j, kk);
                            assert(key_at(before, j, kk));
                        }
                        if kk == key@ {
                            assert(key_at(after, n, kk));
                        }
                    }
                    assert forall|kk: Seq<char>| #[trigger] self@.contains_key(kk) implies self@[kk]
                        == old(self)@.insert(key@, value@)[kk] by {
                        if kk != key@ {
                            let j = choose|j: int| key_at(after, j, kk);
                            assert(key_at(before, j, kk));
                            self.lemma_value_at(j);
                            old(self).lemma_value_at(j);
                        } else {
                            self.lemma_value_at(n);
                        }
                    }
                    assert(self@ =~= old(self)@.insert(key@, value@));
                }
            },
        }
    }

    /// In a well-formed mapping, the value of the key of entry `i` is the
    /// value of that entry.
    proof fn lemma_value_at(&self, i: int)
        requires
            self.wf(),
            0 <= i < self.entries@.len(),
        ensures
            self@.contains_key(self.entries@[i].0@),
            self@[self.entries@[i].0@] == self.entries@[i].1@,
    {
        let k = self.entries@[i].0@;
        assert(key_at(self.entries@, i, k));
        let j = choose|j: int| key_at(self.entries@, j, k);
        assert(self.entries@[j].0@ == self.entries@[i].0@);
    }

    /// In a well-formed mapping there is one key per entry.
    proof fn lemma_dom_len(&self)
        requires
            self.wf(),
        ensures
            self@.dom().len() == self.entries@.len(),
    {
        let keys = self.entries@.map_values(|e: (String, String)| e.0@);
        assert forall|a: int, b: int| 0 <= a < keys.len() && 0 <= b < keys.len() && a != b implies keys[a]
            != keys[b] by {
            assert(self.entries@[a].0@ != self.entries@[b].0@);
        }
        assert(keys.no_duplicates());
        keys.unique_seq_to_set();
        assert forall|k: Seq<char>| #[trigger] self@.dom().contains(k) == keys.to_set().contains(k) by {
            if self@.dom().contains(k) {
                let j = choose|j: int| key_at(self.entries@, j, k);
                assert(keys[j] == k);
            }
            if keys.to_set().contains(k) {
                let j = choose|j: int| 0 <= j < keys.len() && keys[j] == k;
                assert(key_at(self.entries@, j, k));
            }
        }
        assert(self@.dom() =~= keys.to_set());
    }
}

impl View for StrMap {
    type V = Map<Seq<char>, Seq<char>>;

    /// Each key that occurs in an entry, mapped to the value of that entry.
    closed spec fn view(&self) -> Map<Seq<char>, Seq<char>> {
        Map::new(
            |k: Seq<char>| exists|i: int| key_at(self.entries@, i, k),
            |k: Seq<char>| self.entries@[choose|i: int| key_at(self.entries@, i, k)].1@,
        )
    }
}

} // verus!
