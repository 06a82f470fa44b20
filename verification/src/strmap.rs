//! A small map keyed by strings, kept as a list of entries with unique keys.

use vstd::prelude::*;

verus! {

/// Entries are kept in insertion order; no key occurs twice.
pub struct StrMap<V> {
    entries: Vec<(String, V)>,
}

impl<V> StrMap<V> {
    /// No key occurs twice among the entries.
    pub closed spec fn wf(&self) -> bool {
        forall|i: int, j: int|
            0 <= i < self.entries@.len() && 0 <= j < self.entries@.len() && i != j
                ==> (#[trigger] self.entries@[i]).0@ != (#[trigger] self.entries@[j]).0@
    }

    pub closed spec fn has_key_at(&self, k: Seq<char>, i: int) -> bool {
        0 <= i < self.entries@.len() && self.entries@[i].0@ == k
    }

    pub closed spec fn key_index(&self, k: Seq<char>) -> int {
        choose|i: int| self.has_key_at(k, i)
    }

    /// The keys, in entry order.
    pub closed spec fn key_seq(&self) -> Seq<Seq<char>> {
        self.entries@.map_values(|e: (String, V)| e.0@)
    }

    /// The map that the entries describe.
    pub closed spec fn view(&self) -> Map<Seq<char>, V> {
        Map::new(
            |k: Seq<char>| exists|i: int| self.has_key_at(k, i),
            |k: Seq<char>| self.entries@[self.key_index(k)].1,
        )
    }

    proof fn lemma_index(&self, k: Seq<char>, i: int)
        requires
            self.wf(),
            self.has_key_at(k, i),
        ensures
            self.key_index(k) == i,
            self.view().contains_key(k),
            self.view()[k] == self.entries@[i].1,
    {
        let j = self.key_index(k);
        assert(self.has_key_at(k, j));
        if j != i {
            assert(self.entries@[i].0@ != self.entries@[j].0@);
        }
    }

    /// An empty map.
    pub fn new() -> (r: Self)
        ensures
            r.wf(),
            r.view() == Map::<Seq<char>, V>::empty(),
            r.key_seq() == Seq::<Seq<char>>::empty(),
    {
        let r = StrMap { entries: Vec::new() };
        assert(r.view() =~= Map::<Seq<char>, V>::empty());
        assert(r.key_seq() =~= Seq::<Seq<char>>::empty());
        r
    }

    /// Number of entries.
    pub fn len(&self) -> (n: usize)
        requires
            self.wf(),
        ensures
            n == self.view().len(),
            n == self.key_seq().len(),
    {
        proof {
            self.lemma_len();
        }
        self.entries.len()
    }

    proof fn lemma_len(&self)
        requires
            self.wf(),
        ensures
            self.view().dom() == self.key_seq().to_set(),
            self.view().len() == self.entries@.len(),
            self.key_seq().len() == self.entries@.len(),
            self.key_seq().no_duplicates(),
    {
        assert forall|k: Seq<char>| #[trigger] self.view().dom().contains(k)
            <==> self.key_seq().to_set().contains(k) by {
            if self.view().dom().contains(k) {
                let i = choose|i: int| self.has_key_at(k, i);
                assert(self.key_seq()[i] == k);
            }
            if self.key_seq().to_set().contains(k) {
                let i = choose|i: int| 0 <= i < self.key_seq().len() && self.key_seq()[i] == k;
                assert(self.has_key_at(k, i));
            }
        }
        assert(self.view().dom() =~= self.key_seq().to_set());
        assert(self.key_seq().no_duplicates()) by {
            assert forall|i: int, j: int|
                0 <= i < self.key_seq().len() && 0 <= j < self.key_seq().len() && i != j
                implies self.key_seq()[i] != self.key_seq()[j] by {
                assert(self.entries@[i].0@ != self.entries@[j].0@);
            }
        }
        self.key_seq().unique_seq_to_set();
    }

    /// Position of the entry with key `k`, if any.
    pub fn find(&self, k: &str) -> (r: Option<usize>)
        requires
            self.wf(),
        ensures
            match r {
                Some(i) => self.has_key_at(k@, i as int),
                None => !self.view().contains_key(k@),
            },
    {
        let key = k.to_owned();
        let mut i: usize = 0;
        while i < self.entries.len()
            invariant
                i <= self.entries@.len(),
                key@ == k@,
                forall|j: int| 0 <= j < i ==> self.entries@[j].0@ != k@,
            decreases self.entries@.len() - i,
        {
            if self.entries[i].0 == key {
                return Some(i);
            }
            i = i + 1;
        }
        None
    }

    /// Whether `k` has an entry.
    pub fn contains_key(&self, k: &str) -> (r: bool)
        requires
            self.wf(),
        ensures
            r == self.view().contains_key(k@),
    {
        match self.find(k) {
            Some(i) => {
                proof {
                    self.lemma_index(k@, i as int);
                }
                true
            },
            None => false,
        }
    }

    /// The value stored under `k`, if any.
    pub fn get(&self, k: &str) -> (r: Option<&V>)
        requires
            self.wf(),
        ensures
            match r {
                Some(v) => self.view().contains_key(k@) && *v == self.view()[k@],
                None => !self.view().contains_key(k@),
            },
    {
        match self.find(k) {
            Some(i) => {
                proof {
                    self.lemma_index(k@, i as int);
                }
                Some(&self.entries[i].1)
            },
            None => None,
        }
    }

    /// Stores `v` under `k`, replacing any earlier value; a new key is appended last.
    pub fn insert(&mut self, k: String, v: V)
        requires
            old(self).wf(),
        ensures
            final(self).wf(),
            final(self).view() == old(self).view().insert(k@, v),
            old(self).view().contains_key(k@) ==> final(self).key_seq() == old(self).key_seq(),
            !old(self).view().contains_key(k@) ==> final(self).key_seq() == old(self).key_seq().push(k@),
    {
        match self.find(k.as_str()) {
            Some(i) => {
                let ghost old_self = *self;
                let ghost kv = k@;
                self.entries.set(i, (k, v));
                proof {
                    assert forall|a: int, b: int|
                        0 <= a < self.entries@.len() && 0 <= b < self.entries@.len() && a != b
                        implies (#[trigger] self.entries@[a]).0@ != (#[trigger] self.entries@[b]).0@ by {
                        assert(old_self.entries@[a].0@ != old_self.entries@[b].0@);
                    }
                    assert forall|q: Seq<char>| #[trigger] self.view().contains_key(q)
                        <==> old_self.view().insert(kv, v).contains_key(q) by {
                        if self.view().contains_key(q) {
                            let j = choose|j: int| self.has_key_at(q, j);
                            if j != i {
                                assert(old_self.has_key_at(q, j));
                            }
                        }
                        if old_self.view().contains_key(q) {
                            let j = choose|j: int| old_self.has_key_at(q, j);
                            assert(self.has_key_at(q, j));
                        }
                        if q == kv {
                            assert(self.has_key_at(q, i as int));
                        }
                    }
                    assert forall|q: Seq<char>| #[trigger] self.view().contains_key(q)
                        implies self.view()[q] == old_self.view().insert(kv, v)[q] by {
                        let j = choose|j: int| self.has_key_at(q, j);
                        self.lemma_index(q, j);
                        if j != i {
                            assert(old_self.has_key_at(q, j));
                            old_self.lemma_index(q, j);
                        }
                    }
                    assert(self.view() =~= old_self.view().insert(kv, v));
                    assert(self.key_seq() =~= old_self.key_seq());
                }
            },
            None => {
                let ghost old_self = *self;
                let ghost kv = k@;
                self.entries.push((k, v));
                proof {
                    let n = old_self.entries@.len() as int;
                    assert forall|a: int, b: int|
                        0 <= a < self.entries@.len() && 0 <= b < self.entries@.len() && a != b
                        implies (#[trigger] self.entries@[a]).0@ != (#[trigger] self.entries@[b]).0@ by {
                        if a < n && b < n {
                            assert(old_self.entries@[a].0@ != old_self.entries@[b].0@);
                        } else if a < n {
                            assert(!old_self.has_key_at(kv, a));
                        } else if b < n {
                            assert(!old_self.has_key_at(kv, b));
                        }
                    }
                    assert forall|q: Seq<char>| #[trigger] self.view().contains_key(q)
                        <==> old_self.view().insert(kv, v).contains_key(q) by {
                        if self.view().contains_key(q) {
                            let j = choose|j: int| self.has_key_at(q, j);
                            if j < n {
                                assert(old_self.has_key_at(q, j));
                            }
                        }
                        if old_self.view().contains_key(q) {
                            let j = choose|j: int| old_self.has_key_at(q, j);
                            assert(self.has_key_at(q, j));
                        }
                        if q == kv {
                            assert(self.has_key_at(q, n));
                        }
                    }
                    assert forall|q: Seq<char>| #[trigger] self.view().contains_key(q)
                        implies self.view()[q] == old_self.view().insert(kv, v)[q] by {
                        let j = choose|j: int| self.has_key_at(q, j);
                        self.lemma_index(q, j);
                        if j < n {
                            assert(old_self.has_key_at(q, j));
                            old_self.lemma_index(q, j);
                        }
                    }
                    assert(self.view() =~= old_self.view().insert(kv, v));
                    assert(self.key_seq() =~= old_self.key_seq().push(kv));
                }
            },
        }
    }

    /// Removes the entry for `k` and hands back its value, if there was one.
    pub fn remove(&mut self, k: &str) -> (r: Option<V>)
        requires
            old(self).wf(),
        ensures
            final(self).wf(),
            final(self).view() == old(self).view().remove(k@),
            match r {
                Some(v) => old(self).view().contains_key(k@) && v == old(self).view()[k@],
                None => !old(self).view().contains_key(k@),
            },
    {
        match self.find(k) {
            Some(i) => {
                let ghost old_self = *self;
                proof {
                    old_self.lemma_index(k@, i as int);
                }
                let (_, v) = self.entries.remove(i);
                proof {
                    let ii = i as int;
                    assert forall|a: int, b: int|
                        0 <= a < self.entries@.len() && 0 <= b < self.entries@.len() && a != b
                        implies (#[trigger] self.entries@[a]).0@ != (#[trigger] self.entries@[b]).0@ by {
                        let oa = if a < ii { a } else { a + 1 };
                        let ob = if b < ii { b } else { b + 1 };
                        assert(old_self.entries@[oa].0@ != old_self.entries@[ob].0@);
                    }
                    assert forall|q: Seq<char>| #[trigger] self.view().contains_key(q)
                        <==> old_self.view().remove(k@).contains_key(q) by {
                        if self.view().contains_key(q) {
                            let j = choose|j: int| self.has_key_at(q, j);
                            let oj = if j < ii { j } else { j + 1 };
                            assert(old_self.has_key_at(q, oj));
                            assert(old_self.entries@[oj].0@ != old_self.entries@[ii].0@);
                        }
                        if old_self.view().remove(k@).contains_key(q) {
                            let j = choose|j: int| old_self.has_key_at(q, j);
                            assert(j != ii);
                            let nj = if j < ii { j } else { j - 1 };
                            assert(self.has_key_at(q, nj));
                        }
                    }
                    assert forall|q: Seq<char>| #[trigger] self.view().contains_key(q)
                        implies self.view()[q] == old_self.view().remove(k@)[q] by {
                        let j = choose|j: int| self.has_key_at(q, j);
                        self.lemma_index(q, j);
                        let oj = if j < ii { j } else { j + 1 };
                        assert(old_self.has_key_at(q, oj));
                        old_self.lemma_index(q, oj);
                    }
                    assert(self.view() =~= old_self.view().remove(k@));
                }
                Some(v)
            },
            None => {
                proof {
                    assert(self.view() =~= self.view().remove(k@));
                }
                None
            },
        }
    }

    /// The key of the `i`-th entry.
    pub fn key_at(&self, i: usize) -> (r: &String)
        requires
            i < self.key_seq().len(),
        ensures
            r@ == self.key_seq()[i as int],
    {
        &self.entries[i].0
    }

    /// The value of the `i`-th entry.
    pub fn value_at(&self, i: usize) -> (r: &V)
        requires
            self.wf(),
            i < self.key_seq().len(),
        ensures
            self.view().contains_key(self.key_seq()[i as int]),
            *r == self.view()[self.key_seq()[i as int]],
    {
        proof {
            self.lemma_index(self.entries@[i as int].0@, i as int);
        }
        &self.entries[i].1
    }

    /// Every key in `key_seq` has an entry, and every entry's key is in `key_seq`.
    pub proof fn lemma_keys(&self)
        requires
            self.wf(),
        ensures
            self.view().dom() == self.key_seq().to_set(),
            self.view().len() == self.key_seq().len(),
            self.key_seq().no_duplicates(),
    {
        self.lemma_len();
    }
}

} // verus!
