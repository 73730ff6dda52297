//! The three shapes of lookup table: a map keyed by one string, a map keyed
//! by a pair of strings, and a multi-map keyed by a pair of strings.
//!
//! A table owns the documents it was given.  Its view is the mathematical map
//! from key to the model of the document (or documents) stored under it.

use crate::document::{all_fields, doc_fields, Fields};
use crate::slots::{Key, KeySlots};
use bson::Document;
use vstd::hash_map::StringHashMap;
use vstd::prelude::*;

verus! {

/// A table with one document per string key.
pub struct SingleKeyMap {
    map: StringHashMap<Document>,
    keys: Ghost<Seq<Seq<char>>>,
}

impl SingleKeyMap {
    /// `keys` names every key of the table.
    #[verifier::type_invariant]
    closed spec fn wf(self) -> bool {
        self.keys@.to_set() =~= self.map@.dom()
    }

    /// The document stored under each key.
    pub closed spec fn view(&self) -> Map<Seq<char>, Fields> {
        Map::new(
            |k: Seq<char>| self.map@.contains_key(k),
            |k: Seq<char>| doc_fields(self.map@[k]),
        )
    }

    /// A table without entries.
    pub fn new() -> (m: SingleKeyMap)
        ensures
            m@ == (Map::<Seq<char>, Fields>::empty()),
    {
        let m = SingleKeyMap { map: StringHashMap::new(), keys: Ghost(Seq::empty()) };
        assert(m@ =~= Map::<Seq<char>, Fields>::empty());
        m
    }

    /// The table with `doc` stored under `key`, in place of what was there.
    pub fn insert(self, key: &str, doc: Document) -> (m: SingleKeyMap)
        ensures
            m@ == self@.insert(key@, doc_fields(doc)),
    {
        proof {
            use_type_invariant(&self);
        }
        let ghost before = self;
        let SingleKeyMap { mut map, keys } = self;
        map.insert(key.to_owned(), doc);
        proof {
            keys@.lemma_push_to_set_commute(key@);
        }
        let m = SingleKeyMap { map, keys: Ghost(keys@.push(key@)) };
        assert(m@ =~= before@.insert(key@, doc_fields(doc)));
        m
    }

    /// The document stored under `key`.
    pub fn get(&self, key: &str) -> (r: Option<&Document>)
        ensures
            match r {
                Some(d) => self@.contains_key(key@) && self@[key@] == doc_fields(*d),
                None => !self@.contains_key(key@),
            },
    {
        self.map.get(key)
    }

    /// The number of keys.
    pub fn len(&self) -> (n: usize)
        ensures
            self@.dom().finite(),
            n == self@.dom().len(),
    {
        proof {
            use_type_invariant(self);
            vstd::seq_lib::seq_to_set_is_finite(self.keys@);
            assert(self@.dom() =~= self.map@.dom());
        }
        self.map.len()
    }
}

/// The slots `0..count` are dealt out one to a key: `keys` names the key of
/// each slot, and `slots` gives each key its slot.
spec fn slots_match(slots: Map<Key, usize>, keys: Seq<Key>, count: nat) -> bool {
    &&& keys.len() == count
    &&& forall|k: Key| slots.contains_key(k) ==> (#[trigger] slots[k]) < count
    &&& forall|k: Key| slots.contains_key(k) ==> keys[(#[trigger] slots[k]) as int] == k
    &&& forall|i: int|
        0 <= i < count ==> slots.contains_key(#[trigger] keys[i]) && slots[keys[i]] == i
}

/// Where slots are dealt out one to a key there are as many keys as slots.
proof fn lemma_slots_count(slots: Map<Key, usize>, keys: Seq<Key>, count: nat)
    requires
        slots_match(slots, keys, count),
    ensures
        slots.dom().finite(),
        slots.dom().len() == count,
{
    assert(keys.no_duplicates());
    assert(keys.to_set() =~= slots.dom()) by {
        assert forall|k: Key| slots.dom().contains(k) implies keys.to_set().contains(k) by {
            assert(keys[slots[k] as int] == k);
        }
    }
    keys.unique_seq_to_set();
}

/// A table with one document per pair of strings.
pub struct PairMap {
    slots: KeySlots,
    values: Vec<Document>,
    keys: Ghost<Seq<Key>>,
}

impl PairMap {
    /// Every key's slot holds a document, no two keys share a slot, and
    /// every slot belongs to the key that `keys` names for it.
    #[verifier::type_invariant]
    closed spec fn wf(self) -> bool {
        slots_match(self.slots@, self.keys@, self.values@.len())
    }

    /// The document stored under each key.
    pub closed spec fn view(&self) -> Map<Key, Fields> {
        Map::new(
            |k: Key| self.slots@.contains_key(k),
            |k: Key| doc_fields(self.values@[self.slots@[k] as int]),
        )
    }

    /// A table without entries.
    pub fn new() -> (m: PairMap)
        ensures
            m@ == (Map::<Key, Fields>::empty()),
    {
        let m = PairMap { slots: KeySlots::new(), values: Vec::new(), keys: Ghost(Seq::empty()) };
        assert(m@ =~= Map::<Key, Fields>::empty());
        m
    }

    /// The table with `doc` stored under `(a, b)`, in place of what was there.
    pub fn insert(self, a: &str, b: &str, doc: Document) -> (m: PairMap)
        ensures
            m@ == self@.insert((a@, b@), doc_fields(doc)),
    {
        proof {
            use_type_invariant(&self);
        }
        let ghost before = self;
        let PairMap { slots, mut values, keys } = self;
        let m = match slots.find(a, b) {
            Some(i) => {
                values[i] = doc;
                PairMap { slots, values, keys }
            },
            None => {
                let i: usize = values.len();
                let slots = slots.bind(a, b, i);
                values.push(doc);
                PairMap { slots, values, keys: Ghost(keys@.push((a@, b@))) }
            },
        };
        assert(m@ =~= before@.insert((a@, b@), doc_fields(doc)));
        m
    }

    /// The document stored under `(a, b)`.
    pub fn get(&self, a: &str, b: &str) -> (r: Option<&Document>)
        ensures
            match r {
                Some(d) => self@.contains_key((a@, b@)) && self@[(a@, b@)] == doc_fields(*d),
                None => !self@.contains_key((a@, b@)),
            },
    {
        proof {
            use_type_invariant(self);
        }
        match self.slots.find(a, b) {
            Some(i) => Some(&self.values[i]),
            None => None,
        }
    }

    /// The number of keys.
    pub fn len(&self) -> (n: usize)
        ensures
            self@.dom().finite(),
            n == self@.dom().len(),
    {
        proof {
            use_type_invariant(self);
            lemma_slots_count(self.slots@, self.keys@, self.values@.len());
            assert(self@.dom() =~= self.slots@.dom());
        }
        self.values.len()
    }
}

/// The documents stored under `k`: none where the key is unknown.
pub open spec fn records_under(m: Map<Key, Seq<Fields>>, k: Key) -> Seq<Fields> {
    if m.contains_key(k) {
        m[k]
    } else {
        Seq::empty()
    }
}

/// A table with a list of documents per pair of strings, each list in the
/// order in which its documents were added.
pub struct MultiMap {
    slots: KeySlots,
    lists: Vec<Vec<Document>>,
    keys: Ghost<Seq<Key>>,
}

impl MultiMap {
    /// Every key's slot holds a list, no two keys share a slot, and every
    /// slot belongs to the key that `keys` names for it.
    #[verifier::type_invariant]
    closed spec fn wf(self) -> bool {
        slots_match(self.slots@, self.keys@, self.lists@.len())
    }

    /// The documents stored under each key, in the order of their arrival.
    pub closed spec fn view(&self) -> Map<Key, Seq<Fields>> {
        Map::new(
            |k: Key| self.slots@.contains_key(k),
            |k: Key| all_fields(self.lists@[self.slots@[k] as int]@),
        )
    }

    /// A table without entries.
    pub fn new() -> (m: MultiMap)
        ensures
            m@ == (Map::<Key, Seq<Fields>>::empty()),
    {
        let m = MultiMap { slots: KeySlots::new(), lists: Vec::new(), keys: Ghost(Seq::empty()) };
        assert(m@ =~= Map::<Key, Seq<Fields>>::empty());
        m
    }

    /// The table with `doc` added after the documents already under `(a, b)`.
    pub fn push(self, a: &str, b: &str, doc: Document) -> (m: MultiMap)
        ensures
            m@ == self@.insert((a@, b@), records_under(self@, (a@, b@)).push(doc_fields(doc))),
    {
        proof {
            use_type_invariant(&self);
        }
        let ghost before = self;
        let MultiMap { slots, mut lists, keys } = self;
        let m = match slots.find(a, b) {
            Some(i) => {
                let ghost list = lists@[i as int]@;
                lists[i].push(doc);
                assert(all_fields(lists@[i as int]@) =~= all_fields(list).push(doc_fields(doc)));
                MultiMap { slots, lists, keys }
            },
            None => {
                let i: usize = lists.len();
                let slots = slots.bind(a, b, i);
                let mut list: Vec<Document> = Vec::new();
                list.push(doc);
                assert(all_fields(list@) =~= Seq::<Fields>::empty().push(doc_fields(doc)));
                lists.push(list);
                MultiMap { slots, lists, keys: Ghost(keys@.push((a@, b@))) }
            },
        };
        assert(m@ =~= before@.insert(
            (a@, b@),
            records_under(before@, (a@, b@)).push(doc_fields(doc)),
        ));
        m
    }

    /// The documents stored under `(a, b)`.
    pub fn get(&self, a: &str, b: &str) -> (r: Option<&Vec<Document>>)
        ensures
            match r {
                Some(list) => self@.contains_key((a@, b@)) && self@[(a@, b@)] == all_fields(list@),
                None => !self@.contains_key((a@, b@)),
            },
    {
        proof {
            use_type_invariant(self);
        }
        match self.slots.find(a, b) {
            Some(i) => Some(&self.lists[i]),
            None => None,
        }
    }

    /// The number of keys.
    pub fn len(&self) -> (n: usize)
        ensures
            self@.dom().finite(),
            n == self@.dom().len(),
    {
        proof {
            use_type_invariant(self);
            lemma_slots_count(self.slots@, self.keys@, self.lists@.len());
            assert(self@.dom() =~= self.slots@.dom());
        }
        self.lists.len()
    }
}

} // verus!
