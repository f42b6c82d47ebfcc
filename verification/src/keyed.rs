//! A small map from texts to values, kept as a list of distinct keys.
use vstd::prelude::*;

verus! {

/// A map from texts to values. Each key occurs once.
pub struct StringMap<V> {
    entries: Vec<(String, V)>,
}

impl<V> View for StringMap<V> {
    type V = Map<Seq<char>, V>;

    closed spec fn view(&self) -> Map<Seq<char>, V> {
        Map::new(|k: Seq<char>| self.has(k), |k: Seq<char>| self.entries@[self.index_of(k)].1)
    }
}

impl<V> StringMap<V> {
    /// No key occurs twice.
    pub closed spec fn wf(&self) -> bool {
        forall|i: int, j: int|
            0 <= i < j < self.entries@.len() ==> #[trigger] self.entries@[i].0@
                != #[trigger] self.entries@[j].0@
    }

    closed spec fn has(&self, k: Seq<char>) -> bool {
        exists|i: int| 0 <= i < self.entries@.len() && #[trigger] self.entries@[i].0@ == k
    }

    closed spec fn index_of(&self, k: Seq<char>) -> int {
        choose|i: int| 0 <= i < self.entries@.len() && #[trigger] self.entries@[i].0@ == k
    }

    proof fn lemma_index_of(&self, i: int)
        requires
            self.wf(),
            0 <= i < self.entries@.len(),
        ensures
            self.has(self.entries@[i].0@),
            self.index_of(self.entries@[i].0@) == i,
            self@.contains_key(self.entries@[i].0@),
            self@[self.entries@[i].0@] == self.entries@[i].1,
    {
        let k = self.entries@[i].0@;
        assert(self.has(k));
        let j = self.index_of(k);
        if j != i {
            if j < i {
                assert(self.entries@[j].0@ != self.entries@[i].0@);
            } else {
                assert(self.entries@[i].0@ != self.entries@[j].0@);
            }
        }
    }

    /// An empty map.
    pub fn new() -> (r: Self)
        ensures
            r.wf(),
            r@ == Map::<Seq<char>, V>::empty(),
    {
        let r = StringMap { entries: Vec::new() };
        assert(r@ =~= Map::<Seq<char>, V>::empty());
        r
    }

    /// The position of `key`, if it is present.
    fn find(&self, key: &str) -> (r: Option<usize>)
        requires
            self.wf(),
        ensures
            r is None ==> !self@.contains_key(key@),
            r matches Some(i) ==> i < self.entries@.len() && self.entries@[i as int].0@ == key@,
    {
        let owned = key.to_owned();
        let mut i: usize = 0;
        while i < self.entries.len()
            invariant
                i <= self.entries@.len(),
                owned@ == key@,
                forall|j: int| 0 <= j < i ==> self.entries@[j].0@ != key@,
            decreases self.entries@.len() - i,
        {
            if self.entries[i].0 == owned {
                return Some(i);
            }
            i = i + 1;
        }
        None
    }

    /// The value of `key`, if it is present.
    pub fn get(&self, key: &str) -> (r: Option<&V>)
        requires
            self.wf(),
        ensures
            r is Some <==> self@.contains_key(key@),
            r matches Some(v) ==> *v == self@[key@],
    {
        match self.find(key) {
            Some(i) => {
                proof {
                    self.lemma_index_of(i as int);
                }
                Some(&self.entries[i].1)
            },
            None => None,
        }
    }

    /// Sets the value of `key` to `value`.
    pub fn insert(&mut self, key: String, value: V)
        requires
            old(self).wf(),
        ensures
            final(self).wf(),
            final(self)@ == old(self)@.insert(key@, value),
    {
        let ghost k = key@;
        match self.find(key.as_str()) {
            Some(i) => {
                self.entries.set(i, (key, value));
                proof {
                    let ghost o = *old(self);
                    assert forall|a: int, b: int|
                        0 <= a < b < self.entries@.len() implies #[trigger] self.entries@[a].0@
                        != #[trigger] self.entries@[b].0@ by {
                        assert(o.entries@[a].0@ != o.entries@[b].0@);
                    }
                    self.lemma_index_of(i as int);
                    assert forall|q: Seq<char>| #[trigger]
                        self@.contains_key(q) == o@.insert(k, value).contains_key(q) by {
                        if q != k {
                            if self.has(q) {
                                let j = self.index_of(q);
                                assert(o.entries@[j].0@ == q);
                            }
                            if o.has(q) {
                                let j = o.index_of(q);
                                assert(self.entries@[j].0@ == q);
                            }
                        }
                    }
                    assert forall|q: Seq<char>| #[trigger]
                        self@.contains_key(q) implies self@[q] == o@.insert(k, value)[q] by {
                        if q != k {
                            let j = self.index_of(q);
                            assert(o.entries@[j].0@ == q);
                            o.lemma_index_of(j);
                            self.lemma_index_of(j);
                        }
                    }
                    assert(self@ =~= o@.insert(k, value));
                }
            },
            None => {
                self.entries.push((key, value));
                proof {
                    let ghost o = *old(self);
                    let n = o.entries@.len() as int;
                    assert forall|a: int, b: int|
                        0 <= a < b < self.entries@.len() implies #[trigger] self.entries@[a].0@
                        != #[trigger] self.entries@[b].0@ by {
                        if b < n {
                            assert(o.entries@[a].0@ != o.entries@[b].0@);
                        } else {
                            assert(o.entries@[a].0@ == self.entries@[a].0@);
                            if o.entries@[a].0@ == k {
                                o.lemma_index_of(a);
                            }
                        }
                    }
                    self.lemma_index_of(n);
                    assert forall|q: Seq<char>| #[trigger]
                        self@.contains_key(q) == o@.insert(k, value).contains_key(q) by {
                        if q != k {
                            if self.has(q) {
                                let j = self.index_of(q);
                                assert(o.entries@[j].0@ == q);
                            }
                            if o.has(q) {
                                let j = o.index_of(q);
                                assert(self.entries@[j].0@ == q);
                            }
                        }
                    }
                    assert forall|q: Seq<char>| #[trigger]
                        self@.contains_key(q) implies self@[q] == o@.insert(k, value)[q] by {
                        if q != k {
                            let j = self.index_of(q);
                            assert(o.entries@[j].0@ == q);
                            o.lemma_index_of(j);
                            self.lemma_index_of(j);
                        }
                    }
                    assert(self@ =~= o@.insert(k, value));
                }
            },
        }
    }

    /// Takes `key` out of the map.
    pub fn remove(&mut self, key: &str)
        requires
            old(self).wf(),
        ensures
            final(self).wf(),
            final(self)@ == old(self)@.remove(key@),
    {
        let ghost k = key@;
        match self.find(key) {
            Some(i) => {
                let _ = self.entries.remove(i);
                proof {
                    let ghost o = *old(self);
                    let ii = i as int;
                    assert forall|a: int, b: int|
                        0 <= a < b < self.entries@.len() implies #[trigger] self.entries@[a].0@
                        != #[trigger] self.entries@[b].0@ by {
                        let oa = if a < ii { a } else { a + 1 };
                        let ob = if b < ii { b } else { b + 1 };
                        assert(self.entries@[a] == o.entries@[oa]);
                        assert(self.entries@[b] == o.entries@[ob]);
                        assert(o.entries@[oa].0@ != o.entries@[ob].0@);
                    }
                    o.lemma_index_of(ii);
                    assert forall|q: Seq<char>| #[trigger]
                        self@.contains_key(q) == o@.remove(k).contains_key(q) by {
                        if self.has(q) {
                            let j = self.index_of(q);
                            let oj = if j < ii { j } else { j + 1 };
                            assert(o.entries@[oj] == self.entries@[j]);
                            if q == k {
                                o.lemma_index_of(oj);
                            }
                        }
                        if q != k && o.has(q) {
                            let j = o.index_of(q);
                            if j < ii {
                                assert(self.entries@[j] == o.entries@[j]);
                            } else if j > ii {
                                assert(self.entries@[j - 1] == o.entries@[j]);
                            }
                        }
                    }
                    assert forall|q: Seq<char>| #[trigger]
                        self@.contains_key(q) implies self@[q] == o@.remove(k)[q] by {
                        let j = self.index_of(q);
                        let oj = if j < ii { j } else { j + 1 };
                        assert(o.entries@[oj] == self.entries@[j]);
                        o.lemma_index_of(oj);
                        self.lemma_index_of(j);
                    }
                    assert(self@ =~= o@.remove(k));
                }
            },
            None => {
                proof {
                    assert(self@ =~= old(self)@.remove(k));
                }
            },
        }
    }
}

} // verus!
