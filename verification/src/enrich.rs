//! The enrichment engine: one file record and the lookup tables in, one
//! denormalised document out.
//!
//! What the engine computes is written down once, as the function
//! [`enriched`] on document models; [`enrich`] is proved to compute it.

use crate::document::{
    all_fields, as_list, clone_document, doc_fields, get_text, put_document, put_documents,
    remove_field, text_of, text_or_empty, Field, Fields,
};
use crate::builder::{lemma_listed_record_is_loaded, multi_map, pair_key};
use crate::slots::Key;
use crate::tables::{records_under, MultiMap, PairMap, SingleKeyMap};
use bson::Document;
use vstd::prelude::*;

verus! {

/// The lookup tables of one run, as the engine's contract sees them.
pub struct Tables {
    pub dccs: Map<Seq<char>, Fields>,
    pub file_formats: Map<Key, Fields>,
    pub data_types: Map<Key, Fields>,
    pub assay_types: Map<Key, Fields>,
    pub anatomies: Map<Key, Fields>,
    pub collections: Map<Key, Fields>,
    pub biosamples: Map<Key, Fields>,
    pub file_in_collection: Map<Key, Seq<Fields>>,
    pub biosample_in_collection: Map<Key, Seq<Fields>>,
}

/// The lookup tables of one run.  They are built once and only read
/// afterwards, so any number of files can be enriched against them at once.
pub struct Indexes {
    /// The organising group of each submission, by submission.
    pub dccs: SingleKeyMap,
    /// File formats by `(submission, id)`.
    pub file_formats: PairMap,
    /// Data types by `(submission, id)`.
    pub data_types: PairMap,
    /// Assay types by `(submission, id)`.
    pub assay_types: PairMap,
    /// Anatomy terms by `(submission, id)`.
    pub anatomies: PairMap,
    /// Collections by `(id_namespace, local_id)`.
    pub collections: PairMap,
    /// Biosamples by `(id_namespace, local_id)`.
    pub biosamples: PairMap,
    /// The collections each file is in, by the file's `(id_namespace, local_id)`.
    pub file_in_collection: MultiMap,
    /// The biosamples of each collection, by the collection's
    /// `(id_namespace, local_id)`.
    pub biosample_in_collection: MultiMap,
}

impl Indexes {
    pub open spec fn view(&self) -> Tables {
        Tables {
            dccs: self.dccs@,
            file_formats: self.file_formats@,
            data_types: self.data_types@,
            assay_types: self.assay_types@,
            anatomies: self.anatomies@,
            collections: self.collections@,
            biosamples: self.biosamples@,
            file_in_collection: self.file_in_collection@,
            biosample_in_collection: self.biosample_in_collection@,
        }
    }
}

/// A record without the identity field that the store gave it.
pub open spec fn stripped(record: Fields) -> Fields {
    record.remove("_id"@)
}

/// The file with its organising group attached under `dcc`, where the file's
/// submission has one.
pub open spec fn with_dcc(file: Fields, dccs: Map<Seq<char>, Fields>) -> Fields {
    let submission = text_or_empty(file, "submission"@);
    if dccs.contains_key(submission) {
        file.insert("dcc"@, Field::Doc(stripped(dccs[submission])))
    } else {
        file
    }
}

/// What a file holds in a scalar reference field.
pub enum Reference {
    /// The field is missing, or holds something other than a string.
    Absent,
    /// The field holds the empty string, which stands for "no value".
    Empty,
    /// The field holds the id of a reference record.
    Id(Seq<char>),
}

/// What `file` holds in the scalar reference field `field`.
pub open spec fn reference_in(file: Fields, field: Seq<char>) -> Reference {
    match text_of(file, field) {
        None => Reference::Absent,
        Some(id) => if id.len() == 0 {
            Reference::Empty
        } else {
            Reference::Id(id)
        },
    }
}

/// The file with the scalar reference `field` resolved against `table`.
///
/// An absent reference is left alone and an empty one is removed.  An id is
/// looked up as `(submission, id)`: where the table knows it the field
/// becomes the referenced record, and where it does not the id stays.
pub open spec fn with_reference(
    file: Fields,
    field: Seq<char>,
    submission: Seq<char>,
    table: Map<Key, Fields>,
) -> Fields {
    match reference_in(file, field) {
        Reference::Absent => file,
        Reference::Empty => file.remove(field),
        Reference::Id(id) => if table.contains_key((submission, id)) {
            file.insert(field, Field::Doc(stripped(table[(submission, id)])))
        } else {
            file
        },
    }
}

/// The key a junction record points at: the strings under its two target
/// fields, each taken as empty where it is missing.
pub open spec fn target_key(edge: Fields, namespace_field: Seq<char>, id_field: Seq<char>) -> Key {
    (text_or_empty(edge, namespace_field), text_or_empty(edge, id_field))
}

/// A biosample as it appears in the output: without its identity field, and
/// with its anatomy term resolved where the anatomy table knows the term.
///
/// The term is looked up under the submission of the file that is being
/// enriched.  A submission that the biosample record may carry itself is not
/// consulted, so a biosample that several submissions share resolves
/// against the vocabulary of whichever file reaches it.
pub open spec fn joined_biosample(
    biosample: Fields,
    submission: Seq<char>,
    anatomies: Map<Key, Fields>,
) -> Fields {
    match text_of(biosample, "anatomy"@) {
        Some(id) => if anatomies.contains_key((submission, id)) {
            stripped(biosample).insert("anatomy"@, Field::Doc(stripped(anatomies[(submission, id)])))
        } else {
            stripped(biosample)
        },
        None => stripped(biosample),
    }
}

/// The biosample that a junction record resolves to, in its output form:
/// none where the record's target is unknown.
pub open spec fn resolved_biosample(edge: Fields, submission: Seq<char>, tables: Tables) -> Option<
    Fields,
> {
    let key = target_key(edge, "biosample_id_namespace"@, "biosample_local_id"@);
    if tables.biosamples.contains_key(key) {
        Some(joined_biosample(tables.biosamples[key], submission, tables.anatomies))
    } else {
        None
    }
}

/// The biosamples that the junction records `edges` resolve to, in the order
/// of the records.  A record whose target is unknown contributes nothing.
pub open spec fn joined_biosamples(edges: Seq<Fields>, submission: Seq<char>, tables: Tables) -> Seq<
    Fields,
> {
    edges.filter_map(|edge: Fields| resolved_biosample(edge, submission, tables))
}

/// A collection as it appears in the output: without its identity field, and
/// with the biosamples listed for its key under `biosamples`.
pub open spec fn joined_collection(
    collection: Fields,
    key: Key,
    submission: Seq<char>,
    tables: Tables,
) -> Fields {
    stripped(collection).insert(
        "biosamples"@,
        as_list(
            joined_biosamples(records_under(tables.biosample_in_collection, key), submission, tables),
        ),
    )
}

/// The collection that a junction record resolves to, in its output form:
/// none where the record's target is unknown.
pub open spec fn resolved_collection(edge: Fields, submission: Seq<char>, tables: Tables) -> Option<
    Fields,
> {
    let key = target_key(edge, "collection_id_namespace"@, "collection_local_id"@);
    if tables.collections.contains_key(key) {
        Some(joined_collection(tables.collections[key], key, submission, tables))
    } else {
        None
    }
}

/// The collections that the junction records `edges` resolve to, in the
/// order of the records.  A record whose target is unknown contributes
/// nothing.
pub open spec fn joined_collections(edges: Seq<Fields>, submission: Seq<char>, tables: Tables) -> Seq<
    Fields,
> {
    edges.filter_map(|edge: Fields| resolved_collection(edge, submission, tables))
}

/// The key under which a file's junction records are filed.
pub open spec fn file_key(file: Fields) -> Key {
    (text_or_empty(file, "id_namespace"@), text_or_empty(file, "local_id"@))
}

/// The file with its three scalar references resolved, after its organising
/// group has been attached.
pub open spec fn with_references(file: Fields, tables: Tables) -> Fields {
    let submission = text_or_empty(file, "submission"@);
    let file = with_dcc(file, tables.dccs);
    let file = with_reference(file, "file_format"@, submission, tables.file_formats);
    let file = with_reference(file, "data_type"@, submission, tables.data_types);
    with_reference(file, "assay_type"@, submission, tables.assay_types)
}

/// The denormalised document of a file.
pub open spec fn enriched(file: Fields, tables: Tables) -> Fields {
    let submission = text_or_empty(file, "submission"@);
    with_references(file, tables).insert(
        "collections"@,
        as_list(
            joined_collections(
                records_under(tables.file_in_collection, file_key(file)),
                submission,
                tables,
            ),
        ),
    )
}

/// The string under `key`, or the empty string.
fn text_or_default(doc: &Document, key: &str) -> (s: String)
    ensures
        s@ == text_or_empty(doc_fields(*doc), key@),
{
    match get_text(doc, key) {
        Some(s) => s.to_owned(),
        None => String::new(),
    }
}

/// A copy of `record` without its identity field.
fn stripped_copy(record: &Document) -> (copy: Document)
    ensures
        doc_fields(copy) == stripped(doc_fields(*record)),
{
    let mut copy = clone_document(record);
    remove_field(&mut copy, "_id");
    copy
}

/// Attaches the organising group of the file's submission.
fn attach_dcc(file: &mut Document, submission: &str, dccs: &SingleKeyMap)
    requires
        submission@ == text_or_empty(doc_fields(*old(file)), "submission"@),
    ensures
        doc_fields(*final(file)) == with_dcc(doc_fields(*old(file)), dccs@),
{
    match dccs.get(submission) {
        Some(dcc) => {
            let copy = stripped_copy(dcc);
            put_document(file, "dcc", copy);
        },
        None => {},
    }
}

/// What is to become of a scalar reference field.
enum Resolution {
    /// The field stays as it is.
    Keep,
    /// The field is removed.
    Remove,
    /// The field is replaced by this record.
    Replace(Document),
}

/// Decides what is to become of the scalar reference `field` of `file`.
fn resolution(file: &Document, field: &str, submission: &str, table: &PairMap) -> (r: Resolution)
    ensures
        match r {
            Resolution::Keep => with_reference(doc_fields(*file), field@, submission@, table@)
                == doc_fields(*file),
            Resolution::Remove => with_reference(doc_fields(*file), field@, submission@, table@)
                == doc_fields(*file).remove(field@),
            Resolution::Replace(record) => with_reference(
                doc_fields(*file),
                field@,
                submission@,
                table@,
            ) == doc_fields(*file).insert(field@, Field::Doc(doc_fields(record))),
        },
{
    match get_text(file, field) {
        None => Resolution::Keep,
        Some(id) => if id.is_empty() {
            Resolution::Remove
        } else {
            match table.get(submission, id) {
                Some(record) => Resolution::Replace(stripped_copy(record)),
                None => Resolution::Keep,
            }
        },
    }
}

/// Resolves one scalar reference of the file.
fn resolve_reference(file: &mut Document, field: &str, submission: &str, table: &PairMap)
    ensures
        doc_fields(*final(file)) == with_reference(
            doc_fields(*old(file)),
            field@,
            submission@,
            table@,
        ),
{
    match resolution(file, field, submission, table) {
        Resolution::Keep => {},
        Resolution::Remove => {
            remove_field(file, field);
        },
        Resolution::Replace(record) => {
            put_document(file, field, record);
        },
    }
}

/// Builds the output form of one biosample.
fn join_biosample(biosample: &Document, submission: &str, anatomies: &PairMap) -> (out: Document)
    ensures
        doc_fields(out) == joined_biosample(doc_fields(*biosample), submission@, anatomies@),
{
    let mut out = stripped_copy(biosample);
    match get_text(biosample, "anatomy") {
        Some(id) => match anatomies.get(submission, id) {
            Some(anatomy) => {
                let copy = stripped_copy(anatomy);
                put_document(&mut out, "anatomy", copy);
            },
            None => {},
        },
        None => {},
    }
    out
}

/// Resolves the biosamples of one collection.
fn join_biosamples(edges: &Vec<Document>, submission: &str, idx: &Indexes) -> (out: Vec<Document>)
    ensures
        all_fields(out@) == joined_biosamples(all_fields(edges@), submission@, idx@),
{
    let ghost all = all_fields(edges@);
    let mut out: Vec<Document> = Vec::new();
    let mut i: usize = 0;
    while i < edges.len()
        invariant
            i <= edges.len(),
            all == all_fields(edges@),
            all_fields(out@) == joined_biosamples(all.take(i as int), submission@, idx@),
        decreases edges.len() - i,
    {
        let edge = &edges[i];
        let namespace = text_or_default(edge, "biosample_id_namespace");
        let id = text_or_default(edge, "biosample_local_id");
        proof {
            assert(all.take(i + 1).drop_last() =~= all.take(i as int));
            assert(all.take(i + 1).last() == doc_fields(*edge));
        }
        match idx.biosamples.get(namespace.as_str(), id.as_str()) {
            Some(biosample) => {
                let ghost before = all_fields(out@);
                let joined = join_biosample(biosample, submission, &idx.anatomies);
                out.push(joined);
                assert(all_fields(out@) =~= before + seq![doc_fields(joined)]);
            },
            None => {},
        }
        i = i + 1;
    }
    proof {
        assert(all.take(edges.len() as int) =~= all);
    }
    out
}

/// Builds the output form of one collection.
fn join_collection(
    collection: &Document,
    namespace: &str,
    id: &str,
    submission: &str,
    idx: &Indexes,
) -> (out: Document)
    ensures
        doc_fields(out) == joined_collection(
            doc_fields(*collection),
            (namespace@, id@),
            submission@,
            idx@,
        ),
{
    let mut out = stripped_copy(collection);
    let biosamples = match idx.biosample_in_collection.get(namespace, id) {
        Some(edges) => join_biosamples(edges, submission, idx),
        None => {
            let none: Vec<Document> = Vec::new();
            assert(all_fields(none@) =~= Seq::<Fields>::empty());
            none
        },
    };
    put_documents(&mut out, "biosamples", biosamples);
    out
}

/// Resolves the collections of one file.
fn join_collections(edges: &Vec<Document>, submission: &str, idx: &Indexes) -> (out: Vec<Document>)
    ensures
        all_fields(out@) == joined_collections(all_fields(edges@), submission@, idx@),
{
    let ghost all = all_fields(edges@);
    let mut out: Vec<Document> = Vec::new();
    let mut i: usize = 0;
    while i < edges.len()
        invariant
            i <= edges.len(),
            all == all_fields(edges@),
            all_fields(out@) == joined_collections(all.take(i as int), submission@, idx@),
        decreases edges.len() - i,
    {
        let edge = &edges[i];
        let namespace = text_or_default(edge, "collection_id_namespace");
        let id = text_or_default(edge, "collection_local_id");
        proof {
            assert(all.take(i + 1).drop_last() =~= all.take(i as int));
            assert(all.take(i + 1).last() == doc_fields(*edge));
        }
        match idx.collections.get(namespace.as_str(), id.as_str()) {
            Some(collection) => {
                let ghost before = all_fields(out@);
                let joined = join_collection(
                    collection,
                    namespace.as_str(),
                    id.as_str(),
                    submission,
                    idx,
                );
                out.push(joined);
                assert(all_fields(out@) =~= before + seq![doc_fields(joined)]);
            },
            None => {},
        }
        i = i + 1;
    }
    proof {
        assert(all.take(edges.len() as int) =~= all);
    }
    out
}

/// Enriches one file: attaches its organising group, resolves its format,
/// data type and assay type, and attaches its collections, each with its
/// biosamples and their anatomy terms.
///
/// Nothing is validated beyond the presence of keys: a file that lacks
/// `submission`, `id_namespace` or `local_id` is joined under the empty
/// string, and a reference that cannot be resolved is left as it was.
pub fn enrich(file: Document, idx: &Indexes) -> (out: Document)
    ensures
        doc_fields(out) == enriched(doc_fields(file), idx@),
{
    let mut out = file;
    let submission = text_or_default(&out, "submission");
    let namespace = text_or_default(&out, "id_namespace");
    let id = text_or_default(&out, "local_id");

    attach_dcc(&mut out, submission.as_str(), &idx.dccs);
    resolve_reference(&mut out, "file_format", submission.as_str(), &idx.file_formats);
    resolve_reference(&mut out, "data_type", submission.as_str(), &idx.data_types);
    resolve_reference(&mut out, "assay_type", submission.as_str(), &idx.assay_types);

    let collections = match idx.file_in_collection.get(namespace.as_str(), id.as_str()) {
        Some(edges) => join_collections(edges, submission.as_str(), idx),
        None => {
            let none: Vec<Document> = Vec::new();
            assert(all_fields(none@) =~= Seq::<Fields>::empty());
            none
        },
    };
    put_documents(&mut out, "collections", collections);
    out
}

/// The field names that enrichment reads and writes are pairwise different.
proof fn lemma_field_names_differ()
    ensures
        "dcc"@ != "file_format"@,
        "dcc"@ != "data_type"@,
        "dcc"@ != "assay_type"@,
        "dcc"@ != "submission"@,
        "file_format"@ != "data_type"@,
        "file_format"@ != "assay_type"@,
        "file_format"@ != "collections"@,
        "file_format"@ != "submission"@,
        "data_type"@ != "assay_type"@,
        "data_type"@ != "collections"@,
        "data_type"@ != "submission"@,
        "assay_type"@ != "collections"@,
        "assay_type"@ != "submission"@,
        "collections"@ != "submission"@,
{
    reveal_strlit("dcc");
    reveal_strlit("file_format");
    reveal_strlit("data_type");
    reveal_strlit("assay_type");
    reveal_strlit("collections");
    reveal_strlit("submission");
    assert("dcc"@.len() == 3);
    assert("data_type"@.len() == 9);
    assert("assay_type"@.len() == 10);
    assert("file_format"@.len() == 11);
    assert("file_format"@[0] != "collections"@[0]);
    assert("assay_type"@[0] != "submission"@[0]);
}

/// What enrichment owes for one scalar reference field: `out` is right about
/// `field`, given what `file` held there.
///
/// An empty reference leaves no field behind.  An id that the table does not
/// know is kept as it was.  An id that the table knows becomes the
/// referenced record, which no longer has an `_id`.  Where the reference was
/// absent the field is as it was.
pub open spec fn reference_settled(
    file: Fields,
    out: Fields,
    field: Seq<char>,
    submission: Seq<char>,
    table: Map<Key, Fields>,
) -> bool {
    match reference_in(file, field) {
        Reference::Empty => !out.contains_key(field),
        Reference::Id(id) => if table.contains_key((submission, id)) {
            &&& out.contains_key(field)
            &&& out[field] == Field::Doc(table[(submission, id)].remove("_id"@))
            &&& !table[(submission, id)].remove("_id"@).contains_key("_id"@)
        } else {
            out.contains_key(field) && out[field] == Field::Text(id)
        },
        Reference::Absent => {
            &&& out.contains_key(field) == file.contains_key(field)
            &&& file.contains_key(field) ==> out[field] == file[field]
        },
    }
}

/// Sentinel handling: in the enriched document each of `file_format`,
/// `data_type` and `assay_type` is absent where the file held the empty
/// string, is the file's own string where the table does not know it, and is
/// the referenced record without `_id` where the table does.
pub proof fn lemma_references_settled(file: Fields, tables: Tables)
    ensures
        reference_settled(
            file,
            enriched(file, tables),
            "file_format"@,
            text_or_empty(file, "submission"@),
            tables.file_formats,
        ),
        reference_settled(
            file,
            enriched(file, tables),
            "data_type"@,
            text_or_empty(file, "submission"@),
            tables.data_types,
        ),
        reference_settled(
            file,
            enriched(file, tables),
            "assay_type"@,
            text_or_empty(file, "submission"@),
            tables.assay_types,
        ),
{
    lemma_field_names_differ();
}

/// Enrichment leaves the file's `submission` field as it was.
pub proof fn lemma_submission_kept(file: Fields, tables: Tables)
    ensures
        text_of(enriched(file, tables), "submission"@) == text_of(file, "submission"@),
{
    lemma_field_names_differ();
}

/// The collections listed in the enriched document of `file`.
pub open spec fn collections_of(file: Fields, tables: Tables) -> Seq<Fields> {
    joined_collections(
        records_under(tables.file_in_collection, file_key(file)),
        text_or_empty(file, "submission"@),
        tables,
    )
}

/// The biosamples listed under the collection with key `key` in the enriched
/// document of a file of submission `submission`.
pub open spec fn biosamples_of(key: Key, submission: Seq<char>, tables: Tables) -> Seq<Fields> {
    joined_biosamples(records_under(tables.biosample_in_collection, key), submission, tables)
}

/// The enriched document lists its collections under `collections`.
pub proof fn lemma_collections_field(file: Fields, tables: Tables)
    ensures
        enriched(file, tables).contains_key("collections"@),
        enriched(file, tables)["collections"@] == as_list(collections_of(file, tables)),
{
}

/// Every resolved collection comes from one of the junction records it was
/// resolved from: the entry is what that record resolves to.
pub proof fn lemma_collection_has_edge(
    edges: Seq<Fields>,
    submission: Seq<char>,
    tables: Tables,
    i: int,
) -> (j: int)
    requires
        0 <= i < joined_collections(edges, submission, tables).len(),
    ensures
        0 <= j < edges.len(),
        resolved_collection(edges[j], submission, tables) == Some(
            joined_collections(edges, submission, tables)[i],
        ),
    decreases edges.len(),
{
    let earlier = joined_collections(edges.drop_last(), submission, tables);
    if i < earlier.len() {
        lemma_collection_has_edge(edges.drop_last(), submission, tables, i)
    } else {
        edges.len() - 1
    }
}

/// Every resolved biosample comes from one of the junction records it was
/// resolved from: the entry is what that record resolves to.
pub proof fn lemma_biosample_has_edge(
    edges: Seq<Fields>,
    submission: Seq<char>,
    tables: Tables,
    i: int,
) -> (j: int)
    requires
        0 <= i < joined_biosamples(edges, submission, tables).len(),
    ensures
        0 <= j < edges.len(),
        resolved_biosample(edges[j], submission, tables) == Some(
            joined_biosamples(edges, submission, tables)[i],
        ),
    decreases edges.len(),
{
    let earlier = joined_biosamples(edges.drop_last(), submission, tables);
    if i < earlier.len() {
        lemma_biosample_has_edge(edges.drop_last(), submission, tables, i)
    } else {
        edges.len() - 1
    }
}

/// Join correctness, first level: every entry of the file's `collections`
/// corresponds to a loaded `file_in_collection` record whose file key is the
/// file's own key, and is what that record resolves to.
pub proof fn lemma_collections_joined(file: Fields, tables: Tables, junctions: Seq<Fields>, i: int) -> (j:
    int)
    requires
        tables.file_in_collection == multi_map(
            junctions,
            "file_id_namespace"@,
            "file_local_id"@,
        ),
        0 <= i < collections_of(file, tables).len(),
    ensures
        0 <= j < junctions.len(),
        pair_key(junctions[j], "file_id_namespace"@, "file_local_id"@) == Some(file_key(file)),
        resolved_collection(junctions[j], text_or_empty(file, "submission"@), tables) == Some(
            collections_of(file, tables)[i],
        ),
{
    let edges = records_under(tables.file_in_collection, file_key(file));
    let e = lemma_collection_has_edge(edges, text_or_empty(file, "submission"@), tables, i);
    lemma_listed_record_is_loaded(
        junctions,
        "file_id_namespace"@,
        "file_local_id"@,
        file_key(file),
        e,
    )
}

/// Join correctness, second level: every entry of a collection's
/// `biosamples` corresponds to a loaded `biosample_in_collection` record
/// whose collection key is the key of that collection, and is what that
/// record resolves to.
pub proof fn lemma_biosamples_joined(
    key: Key,
    submission: Seq<char>,
    tables: Tables,
    junctions: Seq<Fields>,
    i: int,
) -> (j: int)
    requires
        tables.biosample_in_collection == multi_map(
            junctions,
            "collection_id_namespace"@,
            "collection_local_id"@,
        ),
        0 <= i < biosamples_of(key, submission, tables).len(),
    ensures
        0 <= j < junctions.len(),
        pair_key(junctions[j], "collection_id_namespace"@, "collection_local_id"@) == Some(key),
        resolved_biosample(junctions[j], submission, tables) == Some(
            biosamples_of(key, submission, tables)[i],
        ),
{
    let edges = records_under(tables.biosample_in_collection, key);
    let e = lemma_biosample_has_edge(edges, submission, tables, i);
    lemma_listed_record_is_loaded(
        junctions,
        "collection_id_namespace"@,
        "collection_local_id"@,
        key,
        e,
    )
}

} // verus!
