//! A whole run: the files of a scope are enriched, and the writer's plan
//! puts them in place of what an earlier run left for that scope.

use crate::document::{all_fields, doc_fields, Fields};
use crate::enrich::{enrich, enriched, lemma_submission_kept, Indexes, Tables};
use crate::schema::in_scope;
use crate::writer::{
    after_steps, lemma_filter_all, lemma_filter_none, lemma_write_replaces_scope, outside_scope,
    write_plan,
};
use bson::Document;
use rayon::iter::{IntoParallelIterator, ParallelIterator};
use vstd::prelude::*;

verus! {

/// The enriched documents of a sequence of files, in the order of the files.
pub open spec fn enriched_all(files: Seq<Fields>, tables: Tables) -> Seq<Fields> {
    files.map_values(|f: Fields| enriched(f, tables))
}

/// `rayon`'s `into_par_iter().map(..).collect()` on a vector: every file is
/// handed to [`enrich`] on some thread of the global pool, and the results
/// stand in the collected vector in the order of the files they came from,
/// as they would after a sequential `map` and `collect`.
#[verifier::external_body]
fn par_enrich(files: Vec<Document>, idx: &Indexes) -> (out: Vec<Document>)
    ensures
        out@.len() == files@.len(),
        forall|i: int|
            0 <= i < out@.len() ==> doc_fields(#[trigger] out@[i]) == enriched(
                doc_fields(files@[i]),
                idx@,
            ),
{
    files.into_par_iter().map(|file| enrich(file, idx)).collect()
}

/// Enriches every file against the same tables, in parallel.
pub fn enrich_all(files: Vec<Document>, idx: &Indexes) -> (out: Vec<Document>)
    ensures
        all_fields(out@) == enriched_all(all_fields(files@), idx@),
{
    let out = par_enrich(files, idx);
    assert(all_fields(out@) =~= enriched_all(all_fields(files@), idx@));
    out
}

/// The records that a scoped load selects.
pub open spec fn selected(records: Seq<Fields>, scope: Option<Seq<char>>) -> Seq<Fields> {
    records.filter(|r: Fields| in_scope(r, scope))
}

/// The documents that a run over the stored `files` produces.
pub open spec fn run_output(files: Seq<Fields>, tables: Tables, scope: Option<Seq<char>>) -> Seq<
    Fields,
> {
    enriched_all(selected(files, scope), tables)
}

/// The output collection after a run that found `store` in it.
pub open spec fn store_after_run(
    store: Seq<Fields>,
    files: Seq<Fields>,
    tables: Tables,
    scope: Option<Seq<char>>,
) -> Seq<Fields> {
    let docs = run_output(files, tables, scope);
    after_steps(store, write_plan(scope, docs.len()), docs)
}

/// Scope correctness, what is written: every document that a run produces
/// belongs to the run's scope.
pub proof fn lemma_output_in_scope(
    files: Seq<Fields>,
    tables: Tables,
    scope: Option<Seq<char>>,
    i: int,
)
    requires
        0 <= i < run_output(files, tables, scope).len(),
    ensures
        in_scope(run_output(files, tables, scope)[i], scope),
{
    let chosen = selected(files, scope);
    files.lemma_filter_pred(|r: Fields| in_scope(r, scope), i);
    lemma_submission_kept(chosen[i], tables);
}

/// A run leaves behind the documents that were outside its scope, followed
/// by the documents it produced: one per selected file, and nothing stale.
pub proof fn lemma_run_replaces_scope(
    store: Seq<Fields>,
    files: Seq<Fields>,
    tables: Tables,
    scope: Option<Seq<char>>,
)
    ensures
        store_after_run(store, files, tables, scope) == outside_scope(store, scope) + run_output(
            files,
            tables,
            scope,
        ),
        run_output(files, tables, scope).len() == selected(files, scope).len(),
{
    lemma_write_replaces_scope(store, scope, run_output(files, tables, scope));
}

/// Scope correctness, what is kept: a run neither deletes nor adds a
/// document of another submission.
pub proof fn lemma_run_keeps_other_scopes(
    store: Seq<Fields>,
    files: Seq<Fields>,
    tables: Tables,
    scope: Option<Seq<char>>,
)
    ensures
        outside_scope(store_after_run(store, files, tables, scope), scope) == outside_scope(
            store,
            scope,
        ),
{
    let outside = |d: Fields| !in_scope(d, scope);
    let kept = outside_scope(store, scope);
    let docs = run_output(files, tables, scope);
    lemma_run_replaces_scope(store, files, tables, scope);
    Seq::filter_distributes_over_add(kept, docs, outside);
    assert forall|i: int| 0 <= i < kept.len() implies outside(#[trigger] kept[i]) by {
        store.lemma_filter_pred(outside, i);
    }
    lemma_filter_all(kept, outside);
    assert forall|i: int| 0 <= i < docs.len() implies !outside(#[trigger] docs[i]) by {
        lemma_output_in_scope(files, tables, scope, i);
    }
    lemma_filter_none(docs, outside);
    assert(kept + Seq::<Fields>::empty() =~= kept);
}

/// Idempotence: a second run over the same stored records and the same scope
/// leaves the output collection exactly as the first run left it.
pub proof fn lemma_run_idempotent(
    store: Seq<Fields>,
    files: Seq<Fields>,
    tables: Tables,
    scope: Option<Seq<char>>,
)
    ensures
        store_after_run(store_after_run(store, files, tables, scope), files, tables, scope)
            == store_after_run(store, files, tables, scope),
{
    let once = store_after_run(store, files, tables, scope);
    lemma_run_replaces_scope(store, files, tables, scope);
    lemma_run_replaces_scope(once, files, tables, scope);
    lemma_run_keeps_other_scopes(store, files, tables, scope);
}

} // verus!
