//! A list of values keyed by strings: a map with unique keys that also keeps
//! the order in which keys were first inserted.

use vstd::prelude::*;

verus! {

#[derive(Debug)]
pub struct KeyedList<V> {
    pub entries: Vec<(String, V)>,
}

impl<V> KeyedList<V> {
    /// The keys, in order of first insertion.
    pub open spec fn keys(&self) -> Seq<Seq<char>> {
        self.entries@.map_values(|e: (String, V)| e.0@)
    }

    /// Keys are unique.
    pub open spec fn wf(&self) -> bool {
        forall|i: int, j: int|
            0 <= i < self.entries@.len() && 0 <= j < self.entries@.len() && i != j
                ==> self.entries@[i].0@ != self.entries@[j].0@
    }

    pub open spec fn has(&self, k: Seq<char>) -> bool {
        exists|i: int| 0 <= i < self.entries@.len() && self.entries@[i].0@ == k
    }

    /// The position of key `k` (meaningful when `has(k)`).
    pub open spec fn pos(&self, k: Seq<char>) -> int {
        choose|i: int| 0 <= i < self.entries@.len() && self.entries@[i].0@ == k
    }

    /// The value under key `k` (meaningful when `has(k)`).
    pub open spec fn lookup(&self, k: Seq<char>) -> V {
        self.entries@[self.pos(k)].1
    }

    /// The contents as a map from key to value.
    pub open spec fn view(&self) -> Map<Seq<char>, V> {
        Map::new(|k: Seq<char>| self.has(k), |k: Seq<char>| self.lookup(k))
    }

    /// Under unique keys, `pos` finds the one entry that holds the key.
    pub proof fn lemma_pos(&self, i: int)
        requires
            self.wf(),
            0 <= i < self.entries@.len(),
        ensures
            self.has(self.entries@[i].0@),
            self.pos(self.entries@[i].0@) == i,
            self.lookup(self.entries@[i].0@) == self.entries@[i].1,
    {
        let k = self.entries@[i].0@;
        assert(self.has(k));
        let j = self.pos(k);
        assert(self.entries@[j].0@ == k);
    }

    /// Two lists with the same entries have the same contents.
    pub proof fn lemma_same_entries(&self, other: &KeyedList<V>)
        requires
            self.entries@ == other.entries@,
        ensures
            self@ == other@,
            self.wf() == other.wf(),
    {
        assert forall|k: Seq<char>| #[trigger] self.has(k) == other.has(k) by {
            if self.has(k) {
                let i = self.pos(k);
                assert(other.entries@[i].0@ == k);
            }
            if other.has(k) {
                let i = other.pos(k);
                assert(self.entries@[i].0@ == k);
            }
        }
        assert forall|k: Seq<char>| #[trigger] self.pos(k) == other.pos(k) by {}
        assert(self@ =~= other@);
    }

    /// An empty list.
    pub fn new() -> (r: KeyedList<V>)
        ensures
            r.wf(),
            r.entries@.len() == 0,
            r@ == Map::<Seq<char>, V>::empty(),
    {
        let r = KeyedList { entries: Vec::new() };
        assert(r@ =~= Map::<Seq<char>, V>::empty());
        r
    }

    /// The position of key `k`, if present.
    pub fn find(&self, k: &str) -> (r: Option<usize>)
        requires
            self.wf(),
        ensures
            match r {
                Some(i) => i < self.entries@.len() && self.entries@[i as int].0@ == k@
                    && self.has(k@) && self.pos(k@) == i,
                None => !self.has(k@),
            },
    {
        let key = k.to_owned();
        let mut i: usize = 0;
        while i < self.entries.len()
            invariant
                self.wf(),
                i <= self.entries@.len(),
                key@ == k@,
                forall|j: int| 0 <= j < i ==> self.entries@[j].0@ != k@,
            decreases self.entries@.len() - i,
        {
            if self.entries[i].0 == key {
                proof {
                    self.lemma_pos(i as int);
                }
                return Some(i);
            }
            i = i + 1;
        }
        None
    }

    /// Whether key `k` is present.
    pub fn contains(&self, k: &str) -> (r: bool)
        requires
            self.wf(),
        ensures
            r == self@.contains_key(k@),
    {
        self.find(k).is_some()
    }

    /// The value under key `k`, if present.
    pub fn get(&self, k: &str) -> (r: Option<&V>)
        requires
            self.wf(),
        ensures
            match r {
                Some(v) => self@.contains_key(k@) && *v == self@[k@],
                None => !self@.contains_key(k@),
            },
    {
        match self.find(k) {
            Some(i) => Some(&self.entries[i].1),
            None => None,
        }
    }

    /// Puts `v` under key `k`: in place when the key is present, at the end
    /// otherwise.
    pub fn insert(&mut self, k: String, v: V)
        requires
            old(self).wf(),
        ensures
            final(self).wf(),
            final(self)@ == old(self)@.insert(k@, v),
            old(self).has(k@) ==> final(self).keys() == old(self).keys() && final(self).entries@
                == old(self).entries@.update(old(self).pos(k@), (k, v)),
            !old(self).has(k@) ==> final(self).keys() == old(self).keys().push(k@) && final(self).entries@
                == old(self).entries@.push((k, v)),
    {
        let ghost kv = k@;
        let ghost kk = k;
        match self.find(k.as_str()) {
            Some(i) => {
                self.entries.set(i, (k, v));
                proof {
                    assert forall|a: int, b: int|
                        0 <= a < self.entries@.len() && 0 <= b < self.entries@.len() && a != b
                        implies self.entries@[a].0@ != self.entries@[b].0@ by {
                        if a != i && b != i {
                            assert(old(self).entries@[a] == self.entries@[a]);
                            assert(old(self).entries@[b] == self.entries@[b]);
                        }
                    }
                    assert forall|q: Seq<char>| #[trigger] self.has(q) == old(self).has(q) by {
                        if old(self).has(q) {
                            let j = old(self).pos(q);
                            if j == i {
                                assert(self.entries@[j].0@ == q);
                            } else {
                                assert(self.entries@[j] == old(self).entries@[j]);
                            }
                        }
                        if self.has(q) {
                            let j = self.pos(q);
                            if j == i {
                                assert(old(self).entries@[j].0@ == q);
                            } else {
                                assert(self.entries@[j] == old(self).entries@[j]);
                            }
                        }
                    }
                    assert forall|q: Seq<char>| self.has(q) implies #[trigger] self.lookup(q) == (
                    if q == kv {
                        v
                    } else {
                        old(self).lookup(q)
                    }) by {
                        let j = self.pos(q);
                        self.lemma_pos(j);
                        if q != kv {
                            old(self).lemma_pos(j);
                        }
                    }
                    assert(self@ =~= old(self)@.insert(kv, v));
                    assert(self.keys() =~= old(self).keys());
                    assert(self.entries@ =~= old(self).entries@.update(i as int, (kk, v)));
                }
            },
            None => {
                self.entries.push((k, v));
                proof {
                    let n = old(self).entries@.len();
                    assert forall|a: int, b: int|
                        0 <= a < self.entries@.len() && 0 <= b < self.entries@.len() && a != b
                        implies self.entries@[a].0@ != self.entries@[b].0@ by {
                        if a < n && b < n {
                            assert(old(self).entries@[a] == self.entries@[a]);
                            assert(old(self).entries@[b] == self.entries@[b]);
                        } else if a < n {
                            assert(old(self).entries@[a] == self.entries@[a]);
                        } else if b < n {
                            assert(old(self).entries@[b] == self.entries@[b]);
                        }
                    }
                    assert forall|q: Seq<char>| #[trigger] self.has(q) == (old(self).has(q) || q == kv) by {
                        if old(self).has(q) {
                            let j = old(self).pos(q);
                            assert(self.entries@[j] == old(self).entries@[j]);
                        }
                        if q == kv {
                            assert(self.entries@[n as int].0@ == q);
                        }
                        if self.has(q) && q != kv {
                            let j = self.pos(q);
                            assert(self.entries@[j] == old(self).entries@[j]);
                        }
                    }
                    assert forall|q: Seq<char>| self.has(q) implies #[trigger] self.lookup(q) == (
                    if q == kv {
                        v
                    } else {
                        old(self).lookup(q)
                    }) by {
                        let j = self.pos(q);
                        self.lemma_pos(j);
                        if q != kv {
                            assert(self.entries@[j] == old(self).entries@[j]);
                            old(self).lemma_pos(j);
                        }
                    }
                    assert(self@ =~= old(self)@.insert(kv, v));
                    assert(self.keys() =~= old(self).keys().push(kv));
                }
            },
        }
    }

    /// Takes out the entry under key `k`, if present; the other entries keep
    /// their order.
    pub fn remove(&mut self, k: &str) -> (r: Option<V>)
        requires
            old(self).wf(),
        ensures
            final(self).wf(),
            final(self)@ == old(self)@.remove(k@),
            match r {
                Some(v) => old(self)@.contains_key(k@) && v == old(self)@[k@]
                    && final(self).keys() == old(self).keys().remove(old(self).pos(k@))
                    && final(self).entries@ == old(self).entries@.remove(old(self).pos(k@)),
                None => !old(self)@.contains_key(k@) && *final(self) == *old(self),
            },
    {
        match self.find(k) {
            Some(i) => {
                let e = self.entries.remove(i);
                proof {
                    let o = old(self).entries@;
                    let s = self.entries@;
                    assert forall|a: int| 0 <= a < s.len() implies #[trigger] s[a] == (if a < i {
                        o[a]
                    } else {
                        o[a + 1]
                    }) by {}
                    assert forall|a: int, b: int|
                        0 <= a < s.len() && 0 <= b < s.len() && a != b
                        implies s[a].0@ != s[b].0@ by {
                        let a2 = if a < i { a } else { a + 1 };
                        let b2 = if b < i { b } else { b + 1 };
                        assert(s[a] == o[a2] && s[b] == o[b2]);
                    }
                    assert forall|q: Seq<char>| #[trigger] self.has(q) == (old(self).has(q) && q != k@) by {
                        if old(self).has(q) && q != k@ {
                            let j = old(self).pos(q);
                            assert(j != i);
                            let j2 = if j < i { j } else { j - 1 };
                            assert(s[j2] == o[j]);
                        }
                        if self.has(q) {
                            let j = self.pos(q);
                            let j2 = if j < i { j } else { j + 1 };
                            assert(s[j] == o[j2]);
                            assert(j2 != i);
                        }
                    }
                    assert forall|q: Seq<char>| self.has(q) implies #[trigger] self.lookup(q)
                        == old(self).lookup(q) by {
                        let j = self.pos(q);
                        self.lemma_pos(j);
                        let j2 = if j < i { j } else { j + 1 };
                        assert(s[j] == o[j2]);
                        old(self).lemma_pos(j2);
                    }
                    assert(self@ =~= old(self)@.remove(k@));
                    assert(self.keys() =~= old(self).keys().remove(i as int));
                    assert(self.entries@ =~= o.remove(i as int));
                    old(self).lemma_pos(i as int);
                }
                Some(e.1)
            },
            None => {
                proof {
                    assert(self@ =~= old(self)@.remove(k@));
                }
                None
            },
        }
    }
}

} // verus!
