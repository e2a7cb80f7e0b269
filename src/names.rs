use vstd::prelude::*;

verus! {

/// An association from exact-match string keys to values; a later binding
/// of a key replaces the earlier one.
pub struct NameMap<V> {
    entries: Vec<(String, V)>,
}

impl<V> NameMap<V> {
    /// No key is bound twice.
    pub closed spec fn wf(&self) -> bool {
        forall|i: int, j: int|
            0 <= i < j < self.entries@.len() ==> self.entries@[i].0@ != self.entries@[j].0@
    }

    pub closed spec fn has(&self, k: Seq<char>) -> bool {
        exists|i: int| 0 <= i < self.entries@.len() && self.entries@[i].0@ == k
    }

    /// The bindings as a map from key text to value.
    pub closed spec fn bindings(&self) -> Map<Seq<char>, V> {
        Map::new(
            |k: Seq<char>| self.has(k),
            |k: Seq<char>|
                self.entries@[choose|i: int|
                    0 <= i < self.entries@.len() && self.entries@[i].0@ == k].1,
        )
    }

    proof fn lemma_at(&self, i: int)
        requires
            self.wf(),
            0 <= i < self.entries@.len(),
        ensures
            self.bindings().contains_key(self.entries@[i].0@),
            self.bindings()[self.entries@[i].0@] == self.entries@[i].1,
    {
        let k = self.entries@[i].0@;
        assert(self.has(k));
        let j = choose|j: int| 0 <= j < self.entries@.len() && self.entries@[j].0@ == k;
        assert(j == i);
    }

    /// A map with no bindings.
    pub fn new() -> (r: NameMap<V>)
        ensures
            r.wf(),
            r.bindings() == Map::<Seq<char>, V>::empty(),
    {
        let r = NameMap { entries: Vec::new() };
        assert(r.bindings() =~= Map::<Seq<char>, V>::empty());
        r
    }

    /// The number of keys bound.
    pub fn len(&self) -> (r: usize)
        requires
            self.wf(),
        ensures
            r == self.bindings().len(),
    {
        proof {
            self.lemma_len();
        }
        self.entries.len()
    }

    proof fn lemma_len(&self)
        requires
            self.wf(),
        ensures
            self.bindings().len() == self.entries@.len(),
    {
        let keys = self.entries@.map_values(|e: (String, V)| e.0@);
        assert(keys.no_duplicates());
        assert(self.bindings().dom() =~= keys.to_set()) by {
            assert forall|k: Seq<char>| self.has(k) <==> keys.contains(k) by {
                if self.has(k) {
                    let i = choose|i: int| 0 <= i < self.entries@.len() && self.entries@[i].0@ == k;
                    assert(keys[i] == k);
                }
            }
        }
        keys.unique_seq_to_set();
    }

    fn find(&self, key: &String) -> (r: Option<usize>)
        requires
            self.wf(),
        ensures
            match r {
                Some(i) => i < self.entries@.len() && self.entries@[i as int].0@ == key@,
                None => !self.bindings().contains_key(key@),
            },
    {
        let mut i: usize = 0;
        while i < self.entries.len()
            invariant
                i <= self.entries@.len(),
                forall|j: int| 0 <= j < i ==> self.entries@[j].0@ != key@,
            decreases self.entries@.len() - i,
        {
            if self.entries[i].0 == *key {
                return Some(i);
            }
            i = i + 1;
        }
        None
    }

    /// The value bound to `key`, if any.
    pub fn get(&self, key: &String) -> (r: Option<&V>)
        requires
            self.wf(),
        ensures
            match r {
                Some(v) => self.bindings().contains_key(key@) && self.bindings()[key@] == *v,
                None => !self.bindings().contains_key(key@),
            },
    {
        match self.find(key) {
            Some(i) => {
                proof {
                    self.lemma_at(i as int);
                }
                Some(&self.entries[i].1)
            },
            None => None,
        }
    }

    /// Binds `key` to `value`, replacing any earlier binding of the same key.
    pub fn insert(&mut self, key: String, value: V)
        requires
            old(self).wf(),
        ensures
            final(self).wf(),
            final(self).bindings() == old(self).bindings().insert(key@, value),
    {
        let ghost k = key@;
        let ghost idx: int;
        match self.find(&key) {
            Some(i) => {
                self.entries.set(i, (key, value));
                proof {
                    idx = i as int;
                }
            },
            None => {
                self.entries.push((key, value));
                proof {
                    idx = old(self).entries@.len() as int;
                }
            },
        }
        proof {
            assert(self.entries@[idx].0@ == k);
            assert forall|j: int| 0 <= j < self.entries@.len() && j != idx implies
                self.entries@[j] == old(self).entries@[j] && j < old(self).entries@.len() by {}
            assert(self.wf());
            let m = self.bindings();
            let e = old(self).bindings().insert(k, value);
            assert(self.has(k));
            assert forall|q: Seq<char>| m.contains_key(q) <==> e.contains_key(q) by {
                if old(self).has(q) && q != k {
                    let j = choose|j: int| 0 <= j < old(self).entries@.len()
                        && old(self).entries@[j].0@ == q;
                    assert(self.entries@[j].0@ == q);
                    assert(self.has(q));
                }
                if self.has(q) && q != k {
                    let j = choose|j: int| 0 <= j < self.entries@.len() && self.entries@[j].0@ == q;
                    assert(old(self).entries@[j].0@ == q);
                    assert(old(self).has(q));
                }
            }
            assert forall|q: Seq<char>| #[trigger] m.contains_key(q) implies m[q] == e[q] by {
                let j = choose|j: int| 0 <= j < self.entries@.len() && self.entries@[j].0@ == q;
                self.lemma_at(j);
                if q != k {
                    assert(old(self).entries@[j] == self.entries@[j]);
                    old(self).lemma_at(j);
                } else {
                    assert(j == idx);
                }
            }
            assert(m =~= e);
        }
    }
}

} // verus!
