//! The fixed schema: which fields key which table, how a run is scoped to
//! one submission, and which secondary indexes the output carries.

use crate::builder::{
    build_composite_key_map, build_multi_map, build_single_key_map, composite_key_map, multi_map,
    single_key_map,
};
use crate::document::{
    all_fields, doc_fields, doc_keys, new_document, no_fields, put_int32, put_text, text_of,
    Field, Fields,
};
use crate::enrich::{Indexes, Tables};
use crate::tables::{MultiMap, PairMap, SingleKeyMap};
use bson::Document;
use vstd::prelude::*;

verus! {

/// The submission a run is scoped to, as the contracts see it.
pub open spec fn scope_of(scope: Option<String>) -> Option<Seq<char>> {
    match scope {
        Some(s) => Some(s@),
        None => None,
    }
}

/// Whether a record belongs to the scope: every record does when there is no
/// scope, and with one those whose `submission` is that string.
pub open spec fn in_scope(record: Fields, scope: Option<Seq<char>>) -> bool {
    match scope {
        Some(s) => text_of(record, "submission"@) == Some(s),
        None => true,
    }
}

/// The query that selects the records of a scope: `{submission: s}` for the
/// submission `s`, and the empty query for everything.
pub open spec fn scope_query(scope: Option<Seq<char>>) -> Fields {
    match scope {
        Some(s) => no_fields().insert("submission"@, Field::Text(s)),
        None => no_fields(),
    }
}

/// The field names of the query of a scope, in order.
pub open spec fn scope_query_keys(scope: Option<Seq<char>>) -> Seq<Seq<char>> {
    match scope {
        Some(s) => seq!["submission"@],
        None => Seq::empty(),
    }
}

/// Builds the query that selects the records of `scope`.
pub fn submission_query(scope: &Option<String>) -> (query: Document)
    ensures
        doc_fields(query) == scope_query(scope_of(*scope)),
        doc_keys(query) == scope_query_keys(scope_of(*scope)),
{
    let mut query = new_document();
    match scope {
        Some(s) => {
            put_text(&mut query, "submission", s.as_str());
        },
        None => {},
    }
    query
}

/// The table of organising groups: one per submission.
pub fn dcc_table(records: Vec<Document>) -> (m: SingleKeyMap)
    ensures
        m@ == single_key_map(all_fields(records@), "submission"@),
{
    build_single_key_map(records, "submission")
}

/// A controlled-vocabulary table (file formats, data types, assay types,
/// anatomy terms), keyed by `(submission, id)`.
pub fn reference_table(records: Vec<Document>) -> (m: PairMap)
    ensures
        m@ == composite_key_map(all_fields(records@), "submission"@, "id"@),
{
    build_composite_key_map(records, "submission", "id")
}

/// An entity table (collections, biosamples), keyed by
/// `(id_namespace, local_id)`.
pub fn entity_table(records: Vec<Document>) -> (m: PairMap)
    ensures
        m@ == composite_key_map(all_fields(records@), "id_namespace"@, "local_id"@),
{
    build_composite_key_map(records, "id_namespace", "local_id")
}

/// The junction table from files to collections, keyed by the file.
pub fn file_in_collection_table(records: Vec<Document>) -> (m: MultiMap)
    ensures
        m@ == multi_map(all_fields(records@), "file_id_namespace"@, "file_local_id"@),
{
    build_multi_map(records, "file_id_namespace", "file_local_id")
}

/// The junction table from collections to biosamples, keyed by the
/// collection.
pub fn biosample_in_collection_table(records: Vec<Document>) -> (m: MultiMap)
    ensures
        m@ == multi_map(
            all_fields(records@),
            "collection_id_namespace"@,
            "collection_local_id"@,
        ),
{
    build_multi_map(records, "collection_id_namespace", "collection_local_id")
}

/// The records of the nine source collections that enrichment joins
/// against, each in load order.
pub struct Sources {
    pub dccs: Vec<Document>,
    pub file_formats: Vec<Document>,
    pub data_types: Vec<Document>,
    pub assay_types: Vec<Document>,
    pub anatomies: Vec<Document>,
    pub collections: Vec<Document>,
    pub biosamples: Vec<Document>,
    pub file_in_collection: Vec<Document>,
    pub biosample_in_collection: Vec<Document>,
}

/// The lookup tables that the source records make.
pub open spec fn tables_of(sources: Sources) -> Tables {
    Tables {
        dccs: single_key_map(all_fields(sources.dccs@), "submission"@),
        file_formats: composite_key_map(all_fields(sources.file_formats@), "submission"@, "id"@),
        data_types: composite_key_map(all_fields(sources.data_types@), "submission"@, "id"@),
        assay_types: composite_key_map(all_fields(sources.assay_types@), "submission"@, "id"@),
        anatomies: composite_key_map(all_fields(sources.anatomies@), "submission"@, "id"@),
        collections: composite_key_map(
            all_fields(sources.collections@),
            "id_namespace"@,
            "local_id"@,
        ),
        biosamples: composite_key_map(
            all_fields(sources.biosamples@),
            "id_namespace"@,
            "local_id"@,
        ),
        file_in_collection: multi_map(
            all_fields(sources.file_in_collection@),
            "file_id_namespace"@,
            "file_local_id"@,
        ),
        biosample_in_collection: multi_map(
            all_fields(sources.biosample_in_collection@),
            "collection_id_namespace"@,
            "collection_local_id"@,
        ),
    }
}

/// Builds every lookup table of a run.
pub fn build_indexes(sources: Sources) -> (idx: Indexes)
    ensures
        idx@ == tables_of(sources),
{
    Indexes {
        dccs: dcc_table(sources.dccs),
        file_formats: reference_table(sources.file_formats),
        data_types: reference_table(sources.data_types),
        assay_types: reference_table(sources.assay_types),
        anatomies: reference_table(sources.anatomies),
        collections: entity_table(sources.collections),
        biosamples: entity_table(sources.biosamples),
        file_in_collection: file_in_collection_table(sources.file_in_collection),
        biosample_in_collection: biosample_in_collection_table(sources.biosample_in_collection),
    }
}

/// The secondary indexes of the output, each as the list of field paths it
/// covers.  All are ascending.
pub open spec fn index_paths() -> Seq<Seq<Seq<char>>> {
    seq![
        seq!["id_namespace"@],
        seq!["local_id"@],
        seq!["id_namespace"@, "local_id"@],
        seq!["persistent_id"@],
        seq!["filename"@],
        seq!["size_in_bytes"@],
        seq!["sha256"@],
        seq!["md5"@],
        seq!["mime_type"@],
        seq!["dcc.id"@],
        seq!["dcc.dcc_name"@],
        seq!["dcc.dcc_abbreviation"@],
        seq!["file_format.id"@],
        seq!["file_format.name"@],
        seq!["data_type.id"@],
        seq!["data_type.name"@],
        seq!["assay_type.id"@],
        seq!["assay_type.name"@],
        seq!["collections.id_namespace"@],
        seq!["collections.local_id"@],
        seq!["collections.name"@],
        seq!["collections.biosamples.id_namespace"@],
        seq!["collections.biosamples.local_id"@],
        seq!["collections.biosamples.anatomy.id"@],
        seq!["collections.biosamples.anatomy.name"@],
        seq!["data_access_level"@],
        seq!["submission"@],
    ]
}

/// The key document of an ascending index over `paths`: every path set to 1.
pub open spec fn ascending(paths: Seq<Seq<char>>) -> Fields {
    Map::new(|path: Seq<char>| paths.contains(path), |path: Seq<char>| Field::Int32(1))
}

/// Whether `key` is the key document of the ascending index over `paths`:
/// it holds exactly those paths, in that order, each set to 1.
pub open spec fn is_index_key(key: Document, paths: Seq<Seq<char>>) -> bool {
    doc_keys(key) == paths && doc_fields(key) == ascending(paths)
}

/// The key document of the ascending index over one path.
fn single_index(path: &str) -> (key: Document)
    ensures
        is_index_key(key, seq![path@]),
{
    let mut key = new_document();
    put_int32(&mut key, path, 1);
    assert(doc_keys(key) =~= seq![path@]);
    assert(seq![path@].contains(path@)) by {
        assert(seq![path@][0] == path@);
    }
    assert(doc_fields(key) =~= ascending(seq![path@]));
    key
}

/// The key document of the ascending index over two different paths.
fn compound_index(first: &str, second: &str) -> (key: Document)
    requires
        first@ != second@,
    ensures
        is_index_key(key, seq![first@, second@]),
{
    let mut key = new_document();
    put_int32(&mut key, first, 1);
    put_int32(&mut key, second, 1);
    assert(doc_keys(key) =~= seq![first@, second@]);
    assert(seq![first@, second@].contains(first@)) by {
        assert(seq![first@, second@][0] == first@);
    }
    assert(seq![first@, second@].contains(second@)) by {
        assert(seq![first@, second@][1] == second@);
    }
    assert(doc_fields(key) =~= ascending(seq![first@, second@]));
    key
}

/// The key documents of the secondary indexes to declare on the output, in
/// the order of [`index_paths`].
pub fn index_keys() -> (keys: Vec<Document>)
    ensures
        keys@.len() == index_paths().len(),
        forall|i: int| 0 <= i < keys@.len() ==> is_index_key(#[trigger] keys@[i], index_paths()[i]),
{
    proof {
        reveal_strlit("id_namespace");
        reveal_strlit("local_id");
        assert("id_namespace"@.len() == 12);
        assert("local_id"@.len() == 8);
    }
    let mut keys: Vec<Document> = Vec::new();
    keys.push(single_index("id_namespace"));
    keys.push(single_index("local_id"));
    keys.push(compound_index("id_namespace", "local_id"));
    keys.push(single_index("persistent_id"));
    keys.push(single_index("filename"));
    keys.push(single_index("size_in_bytes"));
    keys.push(single_index("sha256"));
    keys.push(single_index("md5"));
    keys.push(single_index("mime_type"));
    keys.push(single_index("dcc.id"));
    keys.push(single_index("dcc.dcc_name"));
    keys.push(single_index("dcc.dcc_abbreviation"));
    keys.push(single_index("file_format.id"));
    keys.push(single_index("file_format.name"));
    keys.push(single_index("data_type.id"));
    keys.push(single_index("data_type.name"));
    keys.push(single_index("assay_type.id"));
    keys.push(single_index("assay_type.name"));
    keys.push(single_index("collections.id_namespace"));
    keys.push(single_index("collections.local_id"));
    keys.push(single_index("collections.name"));
    keys.push(single_index("collections.biosamples.id_namespace"));
    keys.push(single_index("collections.biosamples.local_id"));
    keys.push(single_index("collections.biosamples.anatomy.id"));
    keys.push(single_index("collections.biosamples.anatomy.name"));
    keys.push(single_index("data_access_level"));
    keys.push(single_index("submission"));
    keys
}

} // verus!
