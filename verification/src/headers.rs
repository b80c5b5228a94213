//! A map of header names to values, as a request or a scripted call holds it.

use vstd::prelude::*;
use crate::strmap::StrMap;

verus! {

/// Header names mapped to their values. Setting an existing name replaces
/// its value, so each name occurs once.
#[derive(Debug)]
pub struct Headers {
    map: StrMap<String>,
}

impl View for Headers {
    type V = Map<Seq<char>, Seq<char>>;

    closed spec fn view(&self) -> Map<Seq<char>, Seq<char>> {
        self.map@.map_values(|v: String| v@)
    }
}

impl Headers {
    /// An empty map.
    pub fn new() -> (h: Headers)
        ensures
            h@ == Map::<Seq<char>, Seq<char>>::empty(),
    {
        let h = Headers { map: StrMap::new() };
        assert(h@ =~= Map::<Seq<char>, Seq<char>>::empty());
        h
    }

    /// The number of names.
    pub fn len(&self) -> (n: usize)
        ensures
            n == self@.dom().len(),
    {
        assert(self@.dom() =~= self.map@.dom());
        self.map.len()
    }

    /// The value of `name`, if the map holds it.
    pub fn get(&self, name: &str) -> (r: Option<&String>)
        ensures
            match r {
                Some(v) => self@.contains_key(name@) && self@[name@] == v@,
                None => !self@.contains_key(name@),
            },
    {
        self.map.get(name)
    }

    /// Maps `name` to `value`, replacing any earlier value of `name`.
    pub fn insert(&mut self, name: String, value: String)
        ensures
            final(self)@ == old(self)@.insert(name@, value@),
    {
        let ghost old_view = self@;
        let ghost k = name@;
        let ghost v = value@;
        self.map.insert(name, value);
        assert(self@ =~= old_view.insert(k, v));
    }

    /// A copy of the map.
    pub fn duplicate(&self) -> (r: Headers)
        ensures
            r@ == self@,
    {
        let r = Headers { map: self.map.duplicate() };
        assert(r@ =~= self@);
        r
    }

    /// The names and values, each name once.
    pub fn pairs(&self) -> (r: &Vec<(String, String)>)
        ensures
            r@.len() == self@.dom().len(),
            forall|i: int| 0 <= i < r@.len() ==> self@.contains_key(#[trigger] r@[i].0@)
                && self@[r@[i].0@] == r@[i].1@,
            forall|k: Seq<char>| #[trigger] self@.contains_key(k) ==> exists|i: int|
                0 <= i < r@.len() && r@[i].0@ == k,
    {
        assert(self@.dom() =~= self.map@.dom());
        self.map.pairs()
    }
}

impl Clone for Headers {
    fn clone(&self) -> (r: Headers)
        ensures
            r@ == self@,
    {
        self.duplicate()
    }
}

} // verus!
