//! A hash index from a pair of strings to a slot number.
//!
//! The index is two levels of string-keyed hash maps: the first component of
//! a key selects a second-level map, the second component selects the slot in
//! it.  A lookup is two hash probes, whatever the number of keys.

use vstd::hash_map::StringHashMap;
use vstd::prelude::*;

verus! {

/// A composite key as the contracts see it: the two strings that make it up.
pub type Key = (Seq<char>, Seq<char>);

/// Maps pairs of strings to slot numbers.
pub struct KeySlots {
    first: StringHashMap<usize>,
    second: Vec<StringHashMap<usize>>,
}

impl KeySlots {
    /// Every first-level entry names a second-level map of its own.
    #[verifier::type_invariant]
    closed spec fn wf(self) -> bool {
        &&& forall|a: Seq<char>|
            self.first@.contains_key(a) ==> (#[trigger] self.first@[a]) < self.second@.len()
        &&& forall|a1: Seq<char>, a2: Seq<char>|
            self.first@.contains_key(a1) && self.first@.contains_key(a2) && #[trigger] self.first@[a1]
                == #[trigger] self.first@[a2] ==> a1 == a2
    }

    /// The slot of every key that has one.
    pub closed spec fn view(&self) -> Map<Key, usize> {
        Map::new(
            |k: Key|
                self.first@.contains_key(k.0) && self.second@[self.first@[k.0] as int]@.contains_key(
                    k.1,
                ),
            |k: Key| self.second@[self.first@[k.0] as int]@[k.1],
        )
    }

    /// An index without keys.
    pub fn new() -> (s: KeySlots)
        ensures
            s@ == (Map::<Key, usize>::empty()),
    {
        let s = KeySlots { first: StringHashMap::new(), second: Vec::new() };
        assert(s@ =~= Map::<Key, usize>::empty());
        s
    }

    /// The slot of the key `(a, b)`, if it has one.
    pub fn find(&self, a: &str, b: &str) -> (r: Option<usize>)
        ensures
            match r {
                Some(slot) => self@.contains_key((a@, b@)) && self@[(a@, b@)] == slot,
                None => !self@.contains_key((a@, b@)),
            },
    {
        proof {
            use_type_invariant(self);
        }
        match self.first.get(a) {
            Some(i) => match self.second[*i].get(b) {
                Some(slot) => Some(*slot),
                None => None,
            },
            None => None,
        }
    }

    /// The index in which the key `(a, b)` has the slot `slot`, whether or not
    /// it had one before, and every other key is as it was.
    pub fn bind(self, a: &str, b: &str, slot: usize) -> (s: KeySlots)
        ensures
            s@ == self@.insert((a@, b@), slot),
    {
        proof {
            use_type_invariant(&self);
        }
        let ghost before = self;
        let KeySlots { mut first, mut second } = self;
        let known = match first.get(a) {
            Some(i) => Some(*i),
            None => None,
        };
        match known {
            Some(i) => {
                second[i].insert(b.to_owned(), slot);
            },
            None => {
                let i: usize = second.len();
                let mut inner: StringHashMap<usize> = StringHashMap::new();
                inner.insert(b.to_owned(), slot);
                second.push(inner);
                first.insert(a.to_owned(), i);
            },
        }
        let s = KeySlots { first, second };
        assert(s@ =~= before@.insert((a@, b@), slot));
        s
    }
}

} // verus!
