use bson::{Bson, Document};
use materialize::builder::{build_composite_key_map, build_multi_map, build_single_key_map};
use materialize::schema::{
    biosample_in_collection_table, dcc_table, entity_table, file_in_collection_table,
    reference_table,
};
use materialize::tables::{MultiMap, PairMap, SingleKeyMap};

fn doc(fields: &[(&str, &str)]) -> Document {
    let mut d = Document::new();
    for (key, value) in fields {
        d.insert(*key, *value);
    }
    d
}

#[test]
fn single_key_map_last_record_wins() {
    let first = doc(&[("submission", "S1"), ("name", "first")]);
    let other = doc(&[("submission", "S2"), ("name", "other")]);
    let last = doc(&[("submission", "S1"), ("name", "last")]);

    let m = build_single_key_map(vec![first, other.clone(), last.clone()], "submission");

    assert_eq!(m.get("S1"), Some(&last));
    assert_eq!(m.get("S2"), Some(&other));
    assert_eq!(m.get("S3"), None);
    assert_eq!(m.len(), 2);
}

#[test]
fn single_key_map_leaves_out_records_without_the_key() {
    let mut number = doc(&[("name", "number")]);
    number.insert("submission", 5_i32);
    let keyed = doc(&[("submission", "S1")]);

    let m = build_single_key_map(vec![doc(&[("name", "nokey")]), number, keyed.clone()], "submission");

    assert_eq!(m.len(), 1);
    assert_eq!(m.get("S1"), Some(&keyed));
}

#[test]
fn single_key_map_of_nothing_is_empty() {
    let m = build_single_key_map(Vec::new(), "submission");

    assert_eq!(m.len(), 0);
    assert_eq!(m.get(""), None);
}

#[test]
fn single_key_map_by_hand() {
    let a = doc(&[("v", "a")]);
    let b = doc(&[("v", "b")]);

    let m = SingleKeyMap::new().insert("k", a).insert("k", b.clone());

    assert_eq!(m.get("k"), Some(&b));
    assert_eq!(m.len(), 1);
}

#[test]
fn composite_key_map_last_record_wins() {
    let first = doc(&[("submission", "S1"), ("id", "x"), ("name", "first")]);
    let same_id = doc(&[("submission", "S2"), ("id", "x"), ("name", "elsewhere")]);
    let last = doc(&[("submission", "S1"), ("id", "x"), ("name", "last")]);

    let m = build_composite_key_map(
        vec![first, same_id.clone(), last.clone()],
        "submission",
        "id",
    );

    assert_eq!(m.get("S1", "x"), Some(&last));
    assert_eq!(m.get("S2", "x"), Some(&same_id));
    assert_eq!(m.get("x", "S1"), None);
    assert_eq!(m.len(), 2);
}

#[test]
fn composite_key_map_leaves_out_records_that_lack_either_field() {
    let mut number = doc(&[("submission", "S1")]);
    number.insert("id", 1_i32);
    let keyed = doc(&[("submission", "S1"), ("id", "1")]);

    let m = build_composite_key_map(
        vec![doc(&[("submission", "S1")]), doc(&[("id", "1")]), number, keyed.clone()],
        "submission",
        "id",
    );

    assert_eq!(m.len(), 1);
    assert_eq!(m.get("S1", "1"), Some(&keyed));
}

#[test]
fn composite_key_map_keeps_the_two_parts_of_a_key_apart() {
    let ab_c = doc(&[("a", "ab"), ("b", "c")]);
    let a_bc = doc(&[("a", "a"), ("b", "bc")]);
    let empty_first = doc(&[("a", ""), ("b", "abc")]);

    let m = build_composite_key_map(vec![ab_c.clone(), a_bc.clone(), empty_first.clone()], "a", "b");

    assert_eq!(m.len(), 3);
    assert_eq!(m.get("ab", "c"), Some(&ab_c));
    assert_eq!(m.get("a", "bc"), Some(&a_bc));
    assert_eq!(m.get("", "abc"), Some(&empty_first));
    assert_eq!(m.get("abc", ""), None);
}

#[test]
fn composite_key_map_holds_many_keys() {
    let mut records = Vec::new();
    for i in 0..500 {
        let submission = format!("S{}", i % 7);
        let id = format!("id{}", i);
        records.push(doc(&[("submission", submission.as_str()), ("id", id.as_str())]));
    }

    let m = build_composite_key_map(records.clone(), "submission", "id");

    assert_eq!(m.len(), 500);
    for (i, record) in records.iter().enumerate() {
        let submission = format!("S{}", i % 7);
        let id = format!("id{}", i);
        assert_eq!(m.get(submission.as_str(), id.as_str()), Some(record));
    }
}

#[test]
fn pair_map_by_hand() {
    let a = doc(&[("v", "a")]);
    let b = doc(&[("v", "b")]);
    let c = doc(&[("v", "c")]);

    let m = PairMap::new().insert("x", "y", a).insert("x", "z", b.clone()).insert("x", "y", c.clone());

    assert_eq!(m.get("x", "y"), Some(&c));
    assert_eq!(m.get("x", "z"), Some(&b));
    assert_eq!(m.get("y", "x"), None);
    assert_eq!(m.len(), 2);
    assert_eq!(PairMap::new().len(), 0);
}

#[test]
fn multi_map_lists_records_in_load_order() {
    let edge = |file: &str, collection: &str| {
        doc(&[
            ("file_id_namespace", "ns1"),
            ("file_local_id", file),
            ("collection_local_id", collection),
        ])
    };
    let records = vec![
        edge("f1", "c2"),
        edge("f2", "c1"),
        edge("f1", "c1"),
        edge("f1", "c2"),
        edge("f2", "c3"),
    ];

    let m = build_multi_map(records, "file_id_namespace", "file_local_id");

    assert_eq!(m.len(), 2);
    assert_eq!(
        m.get("ns1", "f1"),
        Some(&vec![edge("f1", "c2"), edge("f1", "c1"), edge("f1", "c2")])
    );
    assert_eq!(m.get("ns1", "f2"), Some(&vec![edge("f2", "c1"), edge("f2", "c3")]));
    assert_eq!(m.get("ns1", "f3"), None);
}

#[test]
fn multi_map_leaves_out_records_that_lack_either_field() {
    let mut number = doc(&[("file_id_namespace", "ns1")]);
    number.insert("file_local_id", Bson::Null);
    let keyed = doc(&[("file_id_namespace", "ns1"), ("file_local_id", "f1")]);

    let m = build_multi_map(
        vec![
            doc(&[("file_id_namespace", "ns1")]),
            doc(&[("file_local_id", "f1")]),
            number,
            keyed.clone(),
        ],
        "file_id_namespace",
        "file_local_id",
    );

    assert_eq!(m.len(), 1);
    assert_eq!(m.get("ns1", "f1"), Some(&vec![keyed]));
}

#[test]
fn multi_map_by_hand() {
    let a = doc(&[("v", "a")]);
    let b = doc(&[("v", "b")]);

    let m = MultiMap::new().push("x", "y", a.clone()).push("x", "y", b.clone());

    assert_eq!(m.get("x", "y"), Some(&vec![a, b]));
    assert_eq!(m.len(), 1);
    assert_eq!(MultiMap::new().get("x", "y"), None);
}

#[test]
fn tables_are_keyed_by_the_fields_of_their_role() {
    let dcc = doc(&[("submission", "S1"), ("id", "dcc1")]);
    assert_eq!(dcc_table(vec![dcc.clone()]).get("S1"), Some(&dcc));

    let term = doc(&[("submission", "S1"), ("id", "t1"), ("id_namespace", "n"), ("local_id", "l")]);
    assert_eq!(reference_table(vec![term.clone()]).get("S1", "t1"), Some(&term));
    assert_eq!(reference_table(vec![term.clone()]).get("n", "l"), None);
    assert_eq!(entity_table(vec![term.clone()]).get("n", "l"), Some(&term));
    assert_eq!(entity_table(vec![term.clone()]).get("S1", "t1"), None);

    let edge = doc(&[
        ("file_id_namespace", "fn"),
        ("file_local_id", "fl"),
        ("collection_id_namespace", "cn"),
        ("collection_local_id", "cl"),
        ("biosample_id_namespace", "bn"),
        ("biosample_local_id", "bl"),
    ]);
    let by_file = file_in_collection_table(vec![edge.clone()]);
    assert_eq!(by_file.get("fn", "fl"), Some(&vec![edge.clone()]));
    assert_eq!(by_file.get("cn", "cl"), None);
    let by_collection = biosample_in_collection_table(vec![edge.clone()]);
    assert_eq!(by_collection.get("cn", "cl"), Some(&vec![edge.clone()]));
    assert_eq!(by_collection.get("bn", "bl"), None);
}
