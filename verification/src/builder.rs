//! Building lookup tables from loaded records.
//!
//! Each builder is one pass over the records in load order.  A record that
//! lacks a key field, or holds something other than a string there, is left
//! out of the table; it is not an error.

use crate::document::{all_fields, doc_fields, get_text, text_of, Fields};
use crate::slots::Key;
use crate::tables::{records_under, MultiMap, PairMap, SingleKeyMap};
use bson::Document;
use vstd::prelude::*;

verus! {

/// The composite key of a record: the strings under `a` and `b`, where both
/// fields are present and hold strings.
pub open spec fn pair_key(record: Fields, a: Seq<char>, b: Seq<char>) -> Option<Key> {
    match (text_of(record, a), text_of(record, b)) {
        (Some(x), Some(y)) => Some((x, y)),
        _ => None,
    }
}

/// The records that hold the string `k` under `key`, in load order.
pub open spec fn records_with_text(records: Seq<Fields>, key: Seq<char>, k: Seq<char>) -> Seq<
    Fields,
> {
    records.filter(|r: Fields| text_of(r, key) == Some(k))
}

/// The table keyed by the string under `key`: under each key that some
/// record carries stands the last record that carries it.
pub open spec fn single_key_map(records: Seq<Fields>, key: Seq<char>) -> Map<Seq<char>, Fields> {
    Map::new(
        |k: Seq<char>| records_with_text(records, key, k).len() > 0,
        |k: Seq<char>| records_with_text(records, key, k).last(),
    )
}

/// The records that carry the key `k`, in load order.
pub open spec fn records_with_key(records: Seq<Fields>, a: Seq<char>, b: Seq<char>, k: Key) -> Seq<
    Fields,
> {
    records.filter(|r: Fields| pair_key(r, a, b) == Some(k))
}

/// The table keyed by the strings under `a` and `b`: under each key that
/// some record carries stands the last record that carries it.
pub open spec fn composite_key_map(records: Seq<Fields>, a: Seq<char>, b: Seq<char>) -> Map<
    Key,
    Fields,
> {
    Map::new(
        |k: Key| records_with_key(records, a, b, k).len() > 0,
        |k: Key| records_with_key(records, a, b, k).last(),
    )
}

/// The multi-map keyed by the strings under `a` and `b`: under each key that
/// some record carries stand the records that carry it, in load order.
pub open spec fn multi_map(records: Seq<Fields>, a: Seq<char>, b: Seq<char>) -> Map<
    Key,
    Seq<Fields>,
> {
    Map::new(
        |k: Key| records_with_key(records, a, b, k).len() > 0,
        |k: Key| records_with_key(records, a, b, k),
    )
}

/// What one more record does to the single-key table: it goes under its key
/// in place of what was there, and a record without a key changes nothing.
pub proof fn lemma_single_key_map_grows(records: Seq<Fields>, key: Seq<char>)
    requires
        records.len() > 0,
    ensures
        single_key_map(records, key) == match text_of(records.last(), key) {
            Some(k) => single_key_map(records.drop_last(), key).insert(k, records.last()),
            None => single_key_map(records.drop_last(), key),
        },
{
    reveal(Seq::filter);
    let earlier = single_key_map(records.drop_last(), key);
    let grown = match text_of(records.last(), key) {
        Some(k) => earlier.insert(k, records.last()),
        None => earlier,
    };
    assert forall|k: Seq<char>| #[trigger]
        single_key_map(records, key).contains_key(k) == grown.contains_key(k) && (
        grown.contains_key(k) ==> single_key_map(records, key)[k] == grown[k]) by {
        let with_k = records_with_text(records, key, k);
        let before = records_with_text(records.drop_last(), key, k);
        assert(with_k == if text_of(records.last(), key) == Some(k) {
            before.push(records.last())
        } else {
            before
        });
    }
    assert(single_key_map(records, key) =~= grown);
}

/// What one more record does to the composite-key table: it goes under its
/// key in place of what was there, and a record without a key changes
/// nothing.
pub proof fn lemma_composite_key_map_grows(records: Seq<Fields>, a: Seq<char>, b: Seq<char>)
    requires
        records.len() > 0,
    ensures
        composite_key_map(records, a, b) == match pair_key(records.last(), a, b) {
            Some(k) => composite_key_map(records.drop_last(), a, b).insert(k, records.last()),
            None => composite_key_map(records.drop_last(), a, b),
        },
{
    reveal(Seq::filter);
    let earlier = composite_key_map(records.drop_last(), a, b);
    let grown = match pair_key(records.last(), a, b) {
        Some(k) => earlier.insert(k, records.last()),
        None => earlier,
    };
    assert forall|k: Key| #[trigger]
        composite_key_map(records, a, b).contains_key(k) == grown.contains_key(k) && (
        grown.contains_key(k) ==> composite_key_map(records, a, b)[k] == grown[k]) by {
        let with_k = records_with_key(records, a, b, k);
        let before = records_with_key(records.drop_last(), a, b, k);
        assert(with_k == if pair_key(records.last(), a, b) == Some(k) {
            before.push(records.last())
        } else {
            before
        });
    }
    assert(composite_key_map(records, a, b) =~= grown);
}

/// What one more record does to the multi-map: it is appended to the list of
/// its key, and a record without a key changes nothing.
pub proof fn lemma_multi_map_grows(records: Seq<Fields>, a: Seq<char>, b: Seq<char>)
    requires
        records.len() > 0,
    ensures
        multi_map(records, a, b) == match pair_key(records.last(), a, b) {
            Some(k) => multi_map(records.drop_last(), a, b).insert(
                k,
                records_under(multi_map(records.drop_last(), a, b), k).push(records.last()),
            ),
            None => multi_map(records.drop_last(), a, b),
        },
{
    reveal(Seq::filter);
    let earlier = multi_map(records.drop_last(), a, b);
    let grown = match pair_key(records.last(), a, b) {
        Some(k) => earlier.insert(k, records_under(earlier, k).push(records.last())),
        None => earlier,
    };
    assert forall|k: Key| #[trigger]
        multi_map(records, a, b).contains_key(k) == grown.contains_key(k) && (grown.contains_key(k)
            ==> multi_map(records, a, b)[k] == grown[k]) by {
        let with_k = records_with_key(records, a, b, k);
        let before = records_with_key(records.drop_last(), a, b, k);
        assert(with_k == if pair_key(records.last(), a, b) == Some(k) {
            before.push(records.last())
        } else {
            before
        });
    }
    assert(multi_map(records, a, b) =~= grown);
}

/// The string under `key` in `doc`, as an owned value.
fn owned_text(doc: &Document, key: &str) -> (r: Option<String>)
    ensures
        match r {
            Some(s) => text_of(doc_fields(*doc), key@) == Some(s@),
            None => text_of(doc_fields(*doc), key@) is None,
        },
{
    match get_text(doc, key) {
        Some(s) => Some(s.to_owned()),
        None => None,
    }
}

/// Builds the table that holds each record under the string in its field
/// `key_field`.
pub fn build_single_key_map(records: Vec<Document>, key_field: &str) -> (m: SingleKeyMap)
    ensures
        m@ == single_key_map(all_fields(records@), key_field@),
{
    let ghost all = all_fields(records@);
    let mut m = SingleKeyMap::new();
    proof {
        lemma_tables_of_nothing(key_field@, key_field@);
        assert(all.take(0) =~= Seq::<Fields>::empty());
    }
    for doc in it: records.into_iter()
        invariant
            all_fields(it.seq()) == all,
            m@ == single_key_map(all.take(it.index() as int), key_field@),
    {
        proof {
            assert(all.take(it.index() + 1).drop_last() =~= all.take(it.index() as int));
            lemma_single_key_map_grows(all.take(it.index() + 1), key_field@);
        }
        match owned_text(&doc, key_field) {
            Some(k) => {
                m = m.insert(k.as_str(), doc);
            },
            None => {},
        }
    }
    proof {
        assert(all.take(all.len() as int) =~= all);
    }
    m
}

/// The composite key of `doc` under the fields `key_a` and `key_b`, as owned
/// strings.
fn owned_pair_key(doc: &Document, key_a: &str, key_b: &str) -> (r: Option<(String, String)>)
    ensures
        match r {
            Some(k) => pair_key(doc_fields(*doc), key_a@, key_b@) == Some((k.0@, k.1@)),
            None => pair_key(doc_fields(*doc), key_a@, key_b@) is None,
        },
{
    match owned_text(doc, key_a) {
        Some(x) => match owned_text(doc, key_b) {
            Some(y) => Some((x, y)),
            None => None,
        },
        None => None,
    }
}

/// Builds the table that holds each record under the pair of strings in its
/// fields `key_a` and `key_b`.
pub fn build_composite_key_map(records: Vec<Document>, key_a: &str, key_b: &str) -> (m: PairMap)
    ensures
        m@ == composite_key_map(all_fields(records@), key_a@, key_b@),
{
    let ghost all = all_fields(records@);
    let mut m = PairMap::new();
    proof {
        lemma_tables_of_nothing(key_a@, key_b@);
        assert(all.take(0) =~= Seq::<Fields>::empty());
    }
    for doc in it: records.into_iter()
        invariant
            all_fields(it.seq()) == all,
            m@ == composite_key_map(all.take(it.index() as int), key_a@, key_b@),
    {
        proof {
            assert(all.take(it.index() + 1).drop_last() =~= all.take(it.index() as int));
            lemma_composite_key_map_grows(all.take(it.index() + 1), key_a@, key_b@);
        }
        match owned_pair_key(&doc, key_a, key_b) {
            Some(k) => {
                m = m.insert(k.0.as_str(), k.1.as_str(), doc);
            },
            None => {},
        }
    }
    proof {
        assert(all.take(all.len() as int) =~= all);
    }
    m
}

/// Builds the multi-map that lists each record under the pair of strings in
/// its fields `key_a` and `key_b`.
pub fn build_multi_map(records: Vec<Document>, key_a: &str, key_b: &str) -> (m: MultiMap)
    ensures
        m@ == multi_map(all_fields(records@), key_a@, key_b@),
{
    let ghost all = all_fields(records@);
    let mut m = MultiMap::new();
    proof {
        lemma_tables_of_nothing(key_a@, key_b@);
        assert(all.take(0) =~= Seq::<Fields>::empty());
    }
    for doc in it: records.into_iter()
        invariant
            all_fields(it.seq()) == all,
            m@ == multi_map(all.take(it.index() as int), key_a@, key_b@),
    {
        proof {
            assert(all.take(it.index() + 1).drop_last() =~= all.take(it.index() as int));
            lemma_multi_map_grows(all.take(it.index() + 1), key_a@, key_b@);
        }
        match owned_pair_key(&doc, key_a, key_b) {
            Some(k) => {
                m = m.push(k.0.as_str(), k.1.as_str(), doc);
            },
            None => {},
        }
    }
    proof {
        assert(all.take(all.len() as int) =~= all);
    }
    m
}

/// No records make empty tables.
pub proof fn lemma_tables_of_nothing(a: Seq<char>, b: Seq<char>)
    ensures
        single_key_map(Seq::empty(), a) == (Map::<Seq<char>, Fields>::empty()),
        composite_key_map(Seq::empty(), a, b) == (Map::<Key, Fields>::empty()),
        multi_map(Seq::empty(), a, b) == (Map::<Key, Seq<Fields>>::empty()),
{
    reveal(Seq::filter);
    assert(single_key_map(Seq::empty(), a) =~= Map::<Seq<char>, Fields>::empty());
    assert(composite_key_map(Seq::empty(), a, b) =~= Map::<Key, Fields>::empty());
    assert(multi_map(Seq::empty(), a, b) =~= Map::<Key, Seq<Fields>>::empty());
}

/// A key is in the single-key table exactly when some record carries it.
pub proof fn lemma_single_key_present(records: Seq<Fields>, key: Seq<char>, k: Seq<char>)
    ensures
        single_key_map(records, key).contains_key(k) <==> exists|i: int|
            0 <= i < records.len() && text_of(#[trigger] records[i], key) == Some(k),
    decreases records.len(),
{
    if records.len() == 0 {
        lemma_tables_of_nothing(key, key);
    } else {
        let earlier = records.drop_last();
        lemma_single_key_present(earlier, key, k);
        lemma_single_key_map_grows(records, key);
        if single_key_map(records, key).contains_key(k) {
            if text_of(records.last(), key) == Some(k) {
                assert(text_of(records[records.len() - 1], key) == Some(k));
            } else {
                let i = choose|i: int|
                    0 <= i < earlier.len() && text_of(#[trigger] earlier[i], key) == Some(k);
                assert(text_of(records[i], key) == Some(k));
            }
        }
        if exists|i: int| 0 <= i < records.len() && text_of(#[trigger] records[i], key) == Some(k) {
            let i = choose|i: int|
                0 <= i < records.len() && text_of(#[trigger] records[i], key) == Some(k);
            if i < records.len() - 1 {
                assert(text_of(earlier[i], key) == Some(k));
            }
        }
    }
}

/// Last write wins in the single-key table: a record that no later record
/// shares its key with is the one that stands under that key.
pub proof fn lemma_single_key_last_wins(records: Seq<Fields>, key: Seq<char>, i: int)
    requires
        0 <= i < records.len(),
        text_of(records[i], key) is Some,
        forall|j: int|
            i < j < records.len() ==> text_of(#[trigger] records[j], key) != text_of(
                records[i],
                key,
            ),
    ensures
        single_key_map(records, key).contains_key(text_of(records[i], key)->0),
        single_key_map(records, key)[text_of(records[i], key)->0] == records[i],
    decreases records.len(),
{
    lemma_single_key_map_grows(records, key);
    if i < records.len() - 1 {
        let earlier = records.drop_last();
        assert(text_of(records[records.len() - 1], key) != text_of(records[i], key));
        assert forall|j: int| i < j < earlier.len() implies text_of(#[trigger] earlier[j], key)
            != text_of(earlier[i], key) by {
            assert(earlier[j] == records[j]);
        }
        lemma_single_key_last_wins(earlier, key, i);
    }
}

/// A key is in the composite-key table exactly when some record carries it.
pub proof fn lemma_composite_key_present(records: Seq<Fields>, a: Seq<char>, b: Seq<char>, k: Key)
    ensures
        composite_key_map(records, a, b).contains_key(k) <==> exists|i: int|
            0 <= i < records.len() && pair_key(#[trigger] records[i], a, b) == Some(k),
    decreases records.len(),
{
    if records.len() == 0 {
        lemma_tables_of_nothing(a, b);
    } else {
        let earlier = records.drop_last();
        lemma_composite_key_present(earlier, a, b, k);
        lemma_composite_key_map_grows(records, a, b);
        if composite_key_map(records, a, b).contains_key(k) {
            if pair_key(records.last(), a, b) == Some(k) {
                assert(pair_key(records[records.len() - 1], a, b) == Some(k));
            } else {
                let i = choose|i: int|
                    0 <= i < earlier.len() && pair_key(#[trigger] earlier[i], a, b) == Some(k);
                assert(pair_key(records[i], a, b) == Some(k));
            }
        }
        if exists|i: int| 0 <= i < records.len() && pair_key(#[trigger] records[i], a, b) == Some(k) {
            let i = choose|i: int|
                0 <= i < records.len() && pair_key(#[trigger] records[i], a, b) == Some(k);
            if i < records.len() - 1 {
                assert(pair_key(earlier[i], a, b) == Some(k));
            }
        }
    }
}

/// Last write wins in the composite-key table: a record that no later
/// record shares its key with is the one that stands under that key.
pub proof fn lemma_composite_key_last_wins(
    records: Seq<Fields>,
    a: Seq<char>,
    b: Seq<char>,
    i: int,
)
    requires
        0 <= i < records.len(),
        pair_key(records[i], a, b) is Some,
        forall|j: int|
            i < j < records.len() ==> pair_key(#[trigger] records[j], a, b) != pair_key(
                records[i],
                a,
                b,
            ),
    ensures
        composite_key_map(records, a, b).contains_key(pair_key(records[i], a, b)->0),
        composite_key_map(records, a, b)[pair_key(records[i], a, b)->0] == records[i],
    decreases records.len(),
{
    lemma_composite_key_map_grows(records, a, b);
    if i < records.len() - 1 {
        let earlier = records.drop_last();
        assert(pair_key(records[records.len() - 1], a, b) != pair_key(records[i], a, b));
        assert forall|j: int| i < j < earlier.len() implies pair_key(#[trigger] earlier[j], a, b)
            != pair_key(earlier[i], a, b) by {
            assert(earlier[j] == records[j]);
        }
        lemma_composite_key_last_wins(earlier, a, b, i);
    }
}

/// Every record that the multi-map lists under a key is one of the records
/// it was built from, and carries that key.
pub proof fn lemma_listed_record_is_loaded(
    records: Seq<Fields>,
    a: Seq<char>,
    b: Seq<char>,
    k: Key,
    i: int,
) -> (j: int)
    requires
        0 <= i < records_under(multi_map(records, a, b), k).len(),
    ensures
        0 <= j < records.len(),
        records[j] == records_under(multi_map(records, a, b), k)[i],
        pair_key(records[j], a, b) == Some(k),
    decreases records.len(),
{
    reveal(Seq::filter);
    let earlier = records.drop_last();
    if i < records_with_key(earlier, a, b, k).len() {
        lemma_listed_record_is_loaded(earlier, a, b, k, i)
    } else {
        records.len() - 1
    }
}

} // verus!
