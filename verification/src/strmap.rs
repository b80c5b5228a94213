//! A map keyed by strings, each key once.

use vstd::prelude::*;
use crate::text::str_eq;

verus! {

/// Strings mapped to values. Inserting an existing key replaces its value,
/// so each key occurs once.
#[derive(Debug)]
pub struct StrMap<V> {
    entries: Vec<(String, V)>,
}

impl<V> View for StrMap<V> {
    type V = Map<Seq<char>, V>;

    closed spec fn view(&self) -> Map<Seq<char>, V> {
        Map::new(
            |k: Seq<char>| exists|i: int| 0 <= i < self.entries@.len() && #[trigger] self.entries@[i].0@ == k,
            |k: Seq<char>|
                self.entries@[choose|i: int|
                    0 <= i < self.entries@.len() && #[trigger] self.entries@[i].0@ == k].1,
        )
    }
}

impl<V> StrMap<V> {
    /// No key occurs twice.
    #[verifier::type_invariant]
    closed spec fn keys_distinct(self) -> bool {
        forall|i: int, j: int|
            0 <= i < j < self.entries@.len() ==> #[trigger] self.entries@[i].0@
                != #[trigger] self.entries@[j].0@
    }

    proof fn lemma_lookup(self, i: int)
        requires
            self.keys_distinct(),
            0 <= i < self.entries@.len(),
        ensures
            self@.contains_key(self.entries@[i].0@),
            self@[self.entries@[i].0@] == self.entries@[i].1,
    {
        let k = self.entries@[i].0@;
        assert(exists|j: int| 0 <= j < self.entries@.len() && #[trigger] self.entries@[j].0@ == k);
        let c = choose|j: int| 0 <= j < self.entries@.len() && #[trigger] self.entries@[j].0@ == k;
        if c != i {
            if c < i {
                assert(self.entries@[c].0@ != self.entries@[i].0@);
            } else {
                assert(self.entries@[i].0@ != self.entries@[c].0@);
            }
        }
    }

    /// An empty map.
    pub fn new() -> (h: StrMap<V>)
        ensures
            h@ == Map::<Seq<char>, V>::empty(),
    {
        let h = StrMap { entries: Vec::new() };
        assert(h@ =~= Map::<Seq<char>, V>::empty());
        h
    }

    /// The number of names.
    pub fn len(&self) -> (n: usize)
        ensures
            n == self@.dom().len(),
    {
        proof {
            use_type_invariant(self);
            self.lemma_dom_len();
        }
        self.entries.len()
    }

    proof fn lemma_dom_len(self)
        requires
            self.keys_distinct(),
        ensures
            self@.dom().len() == self.entries@.len(),
            self@.dom().finite(),
    {
        let keys = self.entries@.map_values(|e: (String, V)| e.0@);
        assert forall|i: int, j: int| 0 <= i < j < keys.len() implies keys[i] != keys[j] by {
            assert(self.entries@[i].0@ != self.entries@[j].0@);
        }
        keys.unique_seq_to_set();
        assert(keys.to_set() =~= self@.dom()) by {
            assert forall|k: Seq<char>| keys.to_set().contains(k) implies self@.dom().contains(k) by {
                let i = choose|i: int| 0 <= i < keys.len() && keys[i] == k;
                assert(self.entries@[i].0@ == k);
            }
            assert forall|k: Seq<char>| self@.dom().contains(k) implies keys.to_set().contains(k) by {
                let i = choose|i: int| 0 <= i < self.entries@.len() && #[trigger] self.entries@[i].0@ == k;
                assert(keys[i] == k);
            }
        }
    }

    fn find(&self, name: &str) -> (r: Option<usize>)
        ensures
            match r {
                Some(i) => i < self.entries@.len() && self.entries@[i as int].0@ == name@,
                None => forall|i: int| 0 <= i < self.entries@.len() ==> self.entries@[i].0@ != name@,
            },
    {
        let mut i: usize = 0;
        while i < self.entries.len()
            invariant
                i <= self.entries@.len(),
                forall|j: int| 0 <= j < i ==> self.entries@[j].0@ != name@,
            decreases self.entries.len() - i,
        {
            if str_eq(self.entries[i].0.as_str(), name) {
                return Some(i);
            }
            i = i + 1;
        }
        None
    }

    /// The value of `name`, if the map holds it.
    pub fn get(&self, name: &str) -> (r: Option<&V>)
        ensures
            match r {
                Some(v) => self@.contains_key(name@) && self@[name@] == *v,
                None => !self@.contains_key(name@),
            },
    {
        proof {
            use_type_invariant(self);
        }
        match self.find(name) {
            Some(i) => {
                proof {
                    self.lemma_lookup(i as int);
                }
                Some(&self.entries[i].1)
            },
            None => None,
        }
    }

    /// Maps `name` to `value`, replacing any earlier value of `name`.
    pub fn insert(&mut self, name: String, value: V)
        ensures
            final(self)@ == old(self)@.insert(name@, value),
    {
        proof {
            use_type_invariant(&*self);
        }
        let ghost old_self = *self;
        match self.find(name.as_str()) {
            Some(i) => {
                let ghost k = name@;
                let ghost v = value;
                let mut entries: Vec<(String, V)> = Vec::new();
                std::mem::swap(&mut entries, &mut self.entries);
                entries.set(i, (name, value));
                proof {
                    assert forall|a: int, b: int| 0 <= a < b < entries@.len() implies
                        #[trigger] entries@[a].0@ != #[trigger] entries@[b].0@ by {
                        assert(old_self.entries@[a].0@ != old_self.entries@[b].0@);
                    }
                }
                self.entries = entries;
                proof {
                    assert forall|key: Seq<char>| #[trigger] self@.contains_key(key)
                        <==> old_self@.insert(k, v).contains_key(key) by {
                        if self@.contains_key(key) {
                            let j = choose|j: int| 0 <= j < self.entries@.len() && #[trigger] self.entries@[j].0@ == key;
                            if j != i {
                                assert(old_self.entries@[j].0@ == key);
                            }
                        }
                        if old_self@.contains_key(key) && key != k {
                            let j = choose|j: int| 0 <= j < old_self.entries@.len() && #[trigger] old_self.entries@[j].0@ == key;
                            assert(self.entries@[j].0@ == key);
                        }
                        if key == k {
                            assert(self.entries@[i as int].0@ == key);
                        }
                    }
                    assert forall|key: Seq<char>| #[trigger] self@.contains_key(key) implies
                        self@[key] == old_self@.insert(k, v)[key] by {
                        let j = choose|j: int| 0 <= j < self.entries@.len() && #[trigger] self.entries@[j].0@ == key;
                        self.lemma_lookup(j);
                        if j != i {
                            old_self.lemma_lookup(j);
                        }
                    }
                    assert(self@ =~= old_self@.insert(k, v));
                }
            },
            None => {
                let ghost k = name@;
                let ghost v = value;
                let mut entries: Vec<(String, V)> = Vec::new();
                std::mem::swap(&mut entries, &mut self.entries);
                entries.push((name, value));
                proof {
                    let n = old_self.entries@.len() as int;
                    assert forall|a: int, b: int| 0 <= a < b < entries@.len() implies
                        #[trigger] entries@[a].0@ != #[trigger] entries@[b].0@ by {
                        if b < n {
                            assert(old_self.entries@[a].0@ != old_self.entries@[b].0@);
                        }
                    }
                }
                self.entries = entries;
                proof {
                    let n = old_self.entries@.len() as int;
                    assert forall|key: Seq<char>| #[trigger] self@.contains_key(key)
                        <==> old_self@.insert(k, v).contains_key(key) by {
                        if self@.contains_key(key) {
                            let j = choose|j: int| 0 <= j < self.entries@.len() && #[trigger] self.entries@[j].0@ == key;
                            if j != n {
                                assert(old_self.entries@[j].0@ == key);
                            }
                        }
                        if old_self@.contains_key(key) {
                            let j = choose|j: int| 0 <= j < old_self.entries@.len() && #[trigger] old_self.entries@[j].0@ == key;
                            assert(self.entries@[j].0@ == key);
                        }
                        if key == k {
                            assert(self.entries@[n].0@ == key);
                        }
                    }
                    assert forall|key: Seq<char>| #[trigger] self@.contains_key(key) implies
                        self@[key] == old_self@.insert(k, v)[key] by {
                        let j = choose|j: int| 0 <= j < self.entries@.len() && #[trigger] self.entries@[j].0@ == key;
                        self.lemma_lookup(j);
                        if j != n {
                            old_self.lemma_lookup(j);
                        }
                    }
                    assert(self@ =~= old_self@.insert(k, v));
                }
            },
        }
    }

    /// The names and values, each name once.
    pub fn pairs(&self) -> (r: &Vec<(String, V)>)
        ensures
            r@.len() == self@.dom().len(),
            forall|i: int| 0 <= i < r@.len() ==> self@.contains_key(#[trigger] r@[i].0@)
                && self@[r@[i].0@] == r@[i].1,
            forall|k: Seq<char>| #[trigger] self@.contains_key(k) ==> exists|i: int|
                0 <= i < r@.len() && r@[i].0@ == k,
    {
        proof {
            use_type_invariant(self);
            self.lemma_dom_len();
            assert forall|i: int| 0 <= i < self.entries@.len() implies self@.contains_key(
                #[trigger] self.entries@[i].0@,
            ) && self@[self.entries@[i].0@] == self.entries@[i].1 by {
                self.lemma_lookup(i);
            }
        }
        &self.entries
    }
}

impl StrMap<String> {
    /// A copy of the map.
    pub fn duplicate(&self) -> (r: StrMap<String>)
        ensures
            r@ == self@,
    {
        proof {
            use_type_invariant(self);
        }
        let mut entries: Vec<(String, String)> = Vec::new();
        for i in 0..self.entries.len()
            invariant
                entries@.len() == i,
                forall|j: int| 0 <= j < i ==> #[trigger] entries@[j] == self.entries@[j],
        {
            let e = (self.entries[i].0.clone(), self.entries[i].1.clone());
            entries.push(e);
        }
        assert(entries@ =~= self.entries@);
        StrMap { entries }
    }
}

} // verus!
