//! The mathematical model of a BSON document and the small set of `bson`
//! calls the library makes on one.
//!
//! A document is modelled by two things: the map from field name to value
//! ([`doc_fields`]) and the order in which its field names appear
//! ([`doc_keys`]).  Everything the library proves about documents is stated
//! over these two.  The functions at the end of this file are the only places
//! where the `bson` crate is called; their contracts are taken on trust.

use bson::Bson;
use bson::Document;
use vstd::prelude::*;

verus! {

/// `bson::Document`, an ordered map from field name to value.  The verifier
/// sees nothing inside one; what it holds is told by [`doc_fields`] and
/// [`doc_keys`].
#[verifier::external_type_specification]
#[verifier::external_body]
pub struct ExDocument(bson::Document);

/// `bson::Bson`, a BSON value of any kind.  It only appears in the model,
/// for the values that [`Field`] does not take apart.
#[verifier::external_type_specification]
#[verifier::external_body]
pub struct ExBson(bson::Bson);

/// What a field of a document holds.
///
/// Strings, 32-bit integers, embedded documents and arrays are modelled
/// structurally.  Every other BSON value (object ids, dates, doubles, ...) is
/// carried as `Other` with the value itself, so that the model never forgets
/// what a field held.
pub enum Field {
    Text(Seq<char>),
    Int32(i32),
    Doc(Map<Seq<char>, Field>),
    List(Seq<Field>),
    Other(Bson),
}

/// The fields of a document: a map from field name to value.
pub type Fields = Map<Seq<char>, Field>;

/// The fields of `d`, by name: a string field as `Text`, a 32-bit integer as
/// `Int32`, an embedded document as `Doc` of its own fields, an array as
/// `List` of its elements, and any other value as `Other`.
pub uninterp spec fn doc_fields(d: Document) -> Map<Seq<char>, Field>;

/// The field names of `d` in the order in which the document holds them.
pub uninterp spec fn doc_keys(d: Document) -> Seq<Seq<char>>;

/// The string held under `key`, if the field is present and holds a string.
pub open spec fn text_of(fields: Fields, key: Seq<char>) -> Option<Seq<char>> {
    if fields.contains_key(key) {
        match fields[key] {
            Field::Text(s) => Some(s),
            _ => None,
        }
    } else {
        None
    }
}

/// The string held under `key`, or the empty string where there is none.
pub open spec fn text_or_empty(fields: Fields, key: Seq<char>) -> Seq<char> {
    match text_of(fields, key) {
        Some(s) => s,
        None => Seq::empty(),
    }
}

/// The field names after `key` has been set: unchanged where the field was
/// already there, else with `key` appended.
pub open spec fn keys_with(keys: Seq<Seq<char>>, fields: Fields, key: Seq<char>) -> Seq<Seq<char>> {
    if fields.contains_key(key) {
        keys
    } else {
        keys.push(key)
    }
}

/// The model of a document without fields.
pub open spec fn no_fields() -> Fields {
    Map::empty()
}

/// The models of a sequence of documents.
pub open spec fn all_fields(docs: Seq<Document>) -> Seq<Fields> {
    docs.map_values(|d: Document| doc_fields(d))
}

/// A sequence of documents as the array value that holds them.
pub open spec fn as_list(docs: Seq<Fields>) -> Field {
    Field::List(docs.map_values(|f: Fields| Field::Doc(f)))
}

/// `Document::new`: a document without fields.
#[verifier::external_body]
pub(crate) fn new_document() -> (d: Document)
    ensures
        doc_fields(d) == no_fields(),
        doc_keys(d).len() == 0,
{
    Document::new()
}

/// `Document::get_str`: the string under `key`.  `bson` answers with the
/// string exactly when the field is present and holds a string; both of its
/// errors (field missing, field of another type) become `None`.
#[verifier::external_body]
pub(crate) fn get_text<'a>(d: &'a Document, key: &str) -> (r: Option<&'a str>)
    ensures
        match r {
            Some(s) => text_of(doc_fields(*d), key@) == Some(s@),
            None => text_of(doc_fields(*d), key@) is None,
        },
{
    d.get_str(key).ok()
}

/// `Document::remove`: takes the field `key` out, if it is there, and keeps
/// the other fields in their order.
#[verifier::external_body]
pub(crate) fn remove_field(d: &mut Document, key: &str)
    ensures
        doc_fields(*final(d)) == doc_fields(*old(d)).remove(key@),
        doc_keys(*final(d)) == doc_keys(*old(d)).filter(|k: Seq<char>| k != key@),
{
    d.remove(key);
}

/// `Document::insert` with a string: sets `key` to that string.  A field that
/// was there keeps its place; a new one goes last.
#[verifier::external_body]
pub(crate) fn put_text(d: &mut Document, key: &str, text: &str)
    ensures
        doc_fields(*final(d)) == doc_fields(*old(d)).insert(key@, Field::Text(text@)),
        doc_keys(*final(d)) == keys_with(doc_keys(*old(d)), doc_fields(*old(d)), key@),
{
    d.insert(key, text);
}

/// `Document::insert` with an `i32`: sets `key` to that 32-bit integer.
#[verifier::external_body]
pub(crate) fn put_int32(d: &mut Document, key: &str, value: i32)
    ensures
        doc_fields(*final(d)) == doc_fields(*old(d)).insert(key@, Field::Int32(value)),
        doc_keys(*final(d)) == keys_with(doc_keys(*old(d)), doc_fields(*old(d)), key@),
{
    d.insert(key, value);
}

/// `Document::insert` with a document: sets `key` to `value` as an embedded
/// document.
#[verifier::external_body]
pub(crate) fn put_document(d: &mut Document, key: &str, value: Document)
    ensures
        doc_fields(*final(d)) == doc_fields(*old(d)).insert(key@, Field::Doc(doc_fields(value))),
        doc_keys(*final(d)) == keys_with(doc_keys(*old(d)), doc_fields(*old(d)), key@),
{
    d.insert(key, value);
}

/// `Document::insert` with a vector of documents: sets `key` to the array of
/// those documents, in the vector's order.
#[verifier::external_body]
pub(crate) fn put_documents(d: &mut Document, key: &str, values: Vec<Document>)
    ensures
        doc_fields(*final(d)) == doc_fields(*old(d)).insert(key@, as_list(all_fields(values@))),
        doc_keys(*final(d)) == keys_with(doc_keys(*old(d)), doc_fields(*old(d)), key@),
{
    d.insert(key, values);
}

/// `Document::clone`: a document with the same fields in the same order.
#[verifier::external_body]
pub(crate) fn clone_document(d: &Document) -> (r: Document)
    ensures
        doc_fields(r) == doc_fields(*d),
        doc_keys(r) == doc_keys(*d),
{
    d.clone()
}

} // verus!
