use bson::{Bson, Document};
use materialize::pipeline::enrich_all;
use materialize::schema::{build_indexes, index_keys, submission_query, Sources};
use materialize::writer::{plan_write, WriteStep, BATCH_SIZE};

fn doc(fields: &[(&str, &str)]) -> Document {
    let mut d = Document::new();
    for (key, value) in fields {
        d.insert(*key, *value);
    }
    d
}

fn batches(plan: &[WriteStep]) -> Vec<(usize, usize)> {
    let mut ranges = Vec::new();
    for step in &plan[1..] {
        match step {
            WriteStep::InsertBatch { start, end } => ranges.push((*start, *end)),
            _ => panic!("only inserts follow the clearing step"),
        }
    }
    ranges
}

fn selects(query: &Document, document: &Document) -> bool {
    query.iter().all(|(key, value)| document.get(key) == Some(value))
}

fn perform(store: &mut Vec<Document>, plan: &[WriteStep], enriched: &[Document]) {
    for step in plan {
        match step {
            WriteStep::DropAll => store.clear(),
            WriteStep::DeleteMatching(query) => store.retain(|d| !selects(query, d)),
            WriteStep::InsertBatch { start, end } => {
                store.extend_from_slice(&enriched[*start..*end])
            }
        }
    }
}

fn stored_files() -> Vec<Document> {
    vec![
        doc(&[("submission", "S1"), ("id_namespace", "ns1"), ("local_id", "f1"), ("file_format", "ff1")]),
        doc(&[("submission", "S2"), ("id_namespace", "ns1"), ("local_id", "f2"), ("file_format", "")]),
        doc(&[("submission", "S1"), ("id_namespace", "ns1"), ("local_id", "f3")]),
        doc(&[("id_namespace", "ns1"), ("local_id", "f4")]),
    ]
}

fn run(store: &mut Vec<Document>, scope: &Option<String>) -> Vec<Document> {
    let query = submission_query(scope);
    let load = |records: Vec<Document>| -> Vec<Document> {
        records.into_iter().filter(|r| selects(&query, r)).collect()
    };
    let idx = build_indexes(Sources {
        dccs: vec![doc(&[("submission", "S1"), ("dcc_name", "Centre")])],
        file_formats: load(vec![doc(&[("submission", "S1"), ("id", "ff1"), ("name", "CSV")])]),
        data_types: Vec::new(),
        assay_types: Vec::new(),
        anatomies: Vec::new(),
        collections: Vec::new(),
        biosamples: Vec::new(),
        file_in_collection: Vec::new(),
        biosample_in_collection: Vec::new(),
    });
    let enriched = enrich_all(load(stored_files()), &idx);
    let plan = plan_write(scope, enriched.len());
    perform(store, &plan, &enriched);
    enriched
}

#[test]
fn batch_size_is_ten_thousand() {
    assert_eq!(BATCH_SIZE, 10000);
}

#[test]
fn unscoped_plan_drops_the_collection_first() {
    let plan = plan_write(&None, 3);

    assert_eq!(plan.len(), 2);
    assert!(matches!(plan[0], WriteStep::DropAll));
    assert_eq!(batches(&plan), vec![(0, 3)]);
}

#[test]
fn scoped_plan_deletes_the_submission_first() {
    let plan = plan_write(&Some("S1".to_string()), 3);

    assert_eq!(plan.len(), 2);
    match &plan[0] {
        WriteStep::DeleteMatching(query) => assert_eq!(query, &doc(&[("submission", "S1")])),
        _ => panic!("a scoped run deletes by query"),
    }
    assert_eq!(batches(&plan), vec![(0, 3)]);
}

#[test]
fn plan_for_nothing_only_clears() {
    let plan = plan_write(&None, 0);
    assert_eq!(plan.len(), 1);
    assert!(matches!(plan[0], WriteStep::DropAll));

    let scoped = plan_write(&Some("S1".to_string()), 0);
    assert_eq!(scoped.len(), 1);
    assert!(matches!(scoped[0], WriteStep::DeleteMatching(_)));
}

#[test]
fn batches_are_full_but_for_the_last() {
    assert_eq!(batches(&plan_write(&None, 1)), vec![(0, 1)]);
    assert_eq!(batches(&plan_write(&None, 9999)), vec![(0, 9999)]);
    assert_eq!(batches(&plan_write(&None, 10000)), vec![(0, 10000)]);
    assert_eq!(batches(&plan_write(&None, 10001)), vec![(0, 10000), (10000, 10001)]);
    assert_eq!(batches(&plan_write(&None, 20000)), vec![(0, 10000), (10000, 20000)]);
    assert_eq!(
        batches(&plan_write(&None, 25000)),
        vec![(0, 10000), (10000, 20000), (20000, 25000)]
    );
}

#[test]
fn batches_cover_every_document_once() {
    for total in [0_usize, 1, 9999, 10000, 10001, 34567, 100000] {
        let ranges = batches(&plan_write(&None, total));
        let mut next = 0;
        for (start, end) in ranges {
            assert_eq!(start, next);
            assert!(start < end);
            assert!(end - start <= BATCH_SIZE);
            next = end;
        }
        assert_eq!(next, total);
    }
}

#[test]
fn query_of_a_submission() {
    let query = submission_query(&Some("S1".to_string()));

    assert_eq!(query.len(), 1);
    assert_eq!(query.get("submission"), Some(&Bson::String("S1".to_string())));
}

#[test]
fn query_without_a_submission_is_empty() {
    let query = submission_query(&None);

    assert!(query.is_empty());
    assert_eq!(query, Document::new());
}

#[test]
fn query_of_the_empty_submission_is_not_the_empty_query() {
    let query = submission_query(&Some(String::new()));

    assert_eq!(query, doc(&[("submission", "")]));
}

#[test]
fn twenty_seven_ascending_indexes() {
    let keys = index_keys();

    assert_eq!(keys.len(), 27);
    for key in &keys {
        assert!(!key.is_empty());
        for (_, direction) in key.iter() {
            assert_eq!(direction, &Bson::Int32(1));
        }
    }
}

#[test]
fn index_paths_in_order() {
    let paths: Vec<Vec<String>> =
        index_keys().iter().map(|key| key.keys().cloned().collect()).collect();

    let expected: Vec<Vec<&str>> = vec![
        vec!["id_namespace"],
        vec!["local_id"],
        vec!["id_namespace", "local_id"],
        vec!["persistent_id"],
        vec!["filename"],
        vec!["size_in_bytes"],
        vec!["sha256"],
        vec!["md5"],
        vec!["mime_type"],
        vec!["dcc.id"],
        vec!["dcc.dcc_name"],
        vec!["dcc.dcc_abbreviation"],
        vec!["file_format.id"],
        vec!["file_format.name"],
        vec!["data_type.id"],
        vec!["data_type.name"],
        vec!["assay_type.id"],
        vec!["assay_type.name"],
        vec!["collections.id_namespace"],
        vec!["collections.local_id"],
        vec!["collections.name"],
        vec!["collections.biosamples.id_namespace"],
        vec!["collections.biosamples.local_id"],
        vec!["collections.biosamples.anatomy.id"],
        vec!["collections.biosamples.anatomy.name"],
        vec!["data_access_level"],
        vec!["submission"],
    ];
    assert_eq!(paths, expected);
}

#[test]
fn index_keys_are_the_same_on_every_call() {
    assert_eq!(index_keys(), index_keys());
}

#[test]
fn full_run_is_idempotent() {
    let mut store = vec![doc(&[("submission", "S9"), ("local_id", "stale")])];

    let enriched = run(&mut store, &None);
    let once = store.clone();
    run(&mut store, &None);

    assert_eq!(once.len(), 4);
    assert_eq!(once, enriched);
    assert_eq!(store, once);
}

#[test]
fn scoped_run_is_idempotent() {
    let scope = Some("S1".to_string());
    let mut store = vec![
        doc(&[("submission", "S1"), ("local_id", "stale")]),
        doc(&[("submission", "S2"), ("local_id", "kept")]),
    ];

    run(&mut store, &scope);
    let once = store.clone();
    run(&mut store, &scope);

    assert_eq!(once.len(), 3);
    assert_eq!(store, once);
}

#[test]
fn scoped_run_touches_only_its_submission() {
    let scope = Some("S1".to_string());
    let other = doc(&[("submission", "S2"), ("local_id", "kept")]);
    let unlabelled = doc(&[("local_id", "no submission")]);
    let mut store = vec![
        other.clone(),
        doc(&[("submission", "S1"), ("local_id", "stale")]),
        unlabelled.clone(),
    ];

    let enriched = run(&mut store, &scope);

    assert_eq!(enriched.len(), 2);
    for document in &enriched {
        assert_eq!(document.get_str("submission").unwrap(), "S1");
    }
    assert_eq!(store.len(), 4);
    assert_eq!(store[0], other);
    assert_eq!(store[1], unlabelled);
    assert_eq!(&store[2..], &enriched[..]);
    let ids: Vec<&str> = enriched.iter().map(|d| d.get_str("local_id").unwrap()).collect();
    assert_eq!(ids, vec!["f1", "f3"]);
    assert_eq!(enriched[0].get_document("file_format").unwrap().get_str("name").unwrap(), "CSV");
}

#[test]
fn unscoped_run_replaces_everything() {
    let mut store = vec![
        doc(&[("submission", "S2"), ("local_id", "stale")]),
        doc(&[("local_id", "stale too")]),
    ];

    let enriched = run(&mut store, &None);

    assert_eq!(enriched.len(), 4);
    assert_eq!(store, enriched);
}
