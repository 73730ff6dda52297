//! The materialisation writer: what to do to the output collection, in which
//! order, and what that leaves in it.
//!
//! The library decides the steps; carrying them out against the store is the
//! caller's part.  The steps are to be performed in order, each only after
//! the one before it has succeeded.  A step that fails ends the run: what
//! earlier steps wrote stays written.
//!
//! What the steps leave behind is stated over a model of the output
//! collection: a sequence of documents, from which a query deletes the
//! documents that hold each of its fields with the same value, and to which
//! an insert appends.

use crate::document::{doc_fields, Fields};
use crate::schema::{in_scope, scope_of, scope_query, submission_query};
use bson::Document;
use vstd::prelude::*;

verus! {

/// The number of documents in one insert.
pub const BATCH_SIZE: usize = 10000;

/// One step of writing the output.
pub enum WriteStep {
    /// Drop the whole output collection.
    DropAll,
    /// Delete the output documents that the query selects.
    DeleteMatching(Document),
    /// Insert the enriched documents with positions `start..end`.
    InsertBatch { start: usize, end: usize },
}

/// A step of writing the output, as the contracts see it.
pub enum Step {
    DropAll,
    DeleteMatching(Fields),
    InsertBatch { start: int, end: int },
}

impl WriteStep {
    pub open spec fn view(&self) -> Step {
        match *self {
            WriteStep::DropAll => Step::DropAll,
            WriteStep::DeleteMatching(query) => Step::DeleteMatching(doc_fields(query)),
            WriteStep::InsertBatch { start, end } => Step::InsertBatch {
                start: start as int,
                end: end as int,
            },
        }
    }
}

/// The steps of a plan, as the contracts see them.
pub open spec fn steps_of(plan: Seq<WriteStep>) -> Seq<Step> {
    plan.map_values(|s: WriteStep| s@)
}

/// The step that clears what an earlier run left: with a scope, only the
/// documents of that submission are deleted; without one the collection is
/// dropped.
pub open spec fn clear_step(scope: Option<Seq<char>>) -> Step {
    match scope {
        Some(s) => Step::DeleteMatching(scope_query(scope)),
        None => Step::DropAll,
    }
}

/// The number of batches that `total` documents are written in.
pub open spec fn batch_count(total: nat) -> nat {
    ((total + BATCH_SIZE - 1) / (BATCH_SIZE as int)) as nat
}

/// The `k`-th insert of `total` documents: a full batch, but for the last
/// one, which takes what is left.
pub open spec fn batch_step(total: nat, k: int) -> Step {
    Step::InsertBatch {
        start: k * BATCH_SIZE,
        end: if (k + 1) * BATCH_SIZE < total {
            (k + 1) * BATCH_SIZE
        } else {
            total as int
        },
    }
}

/// The clearing step followed by the first `batches` inserts.
pub open spec fn write_plan_prefix(scope: Option<Seq<char>>, total: nat, batches: nat) -> Seq<Step> {
    seq![clear_step(scope)] + Seq::new(batches, |k: int| batch_step(total, k))
}

/// The steps that replace the output of a scope by `total` enriched
/// documents: clear first, then insert batch after batch.
pub open spec fn write_plan(scope: Option<Seq<char>>, total: nat) -> Seq<Step> {
    write_plan_prefix(scope, total, batch_count(total))
}

/// Plans the replacement of the output of `scope` by `total` enriched
/// documents.
pub fn plan_write(scope: &Option<String>, total: usize) -> (plan: Vec<WriteStep>)
    ensures
        steps_of(plan@) == write_plan(scope_of(*scope), total as nat),
{
    let mut plan: Vec<WriteStep> = Vec::new();
    match scope {
        Some(_) => {
            plan.push(WriteStep::DeleteMatching(submission_query(scope)));
        },
        None => {
            plan.push(WriteStep::DropAll);
        },
    }
    assert(steps_of(plan@) =~= write_plan_prefix(scope_of(*scope), total as nat, 0));
    let mut start: usize = 0;
    let ghost mut k: nat = 0;
    while start < total
        invariant
            start <= total,
            start == k * BATCH_SIZE || (start == total && (k - 1) * BATCH_SIZE < total < k
                * BATCH_SIZE),
            steps_of(plan@) == write_plan_prefix(scope_of(*scope), total as nat, k),
        decreases total - start,
    {
        let end: usize = if total - start > BATCH_SIZE {
            start + BATCH_SIZE
        } else {
            total
        };
        let ghost before = steps_of(plan@);
        plan.push(WriteStep::InsertBatch { start, end });
        proof {
            assert(steps_of(plan@) =~= before.push(batch_step(total as nat, k as int)));
            assert(write_plan_prefix(scope_of(*scope), total as nat, k + 1)
                =~= write_plan_prefix(scope_of(*scope), total as nat, k).push(
                batch_step(total as nat, k as int),
            ));
            k = k + 1;
        }
        start = end;
    }
    plan
}

/// Whether the store's query selects a document: every field of the query
/// stands in the document with the same value.
pub open spec fn selects(query: Fields, doc: Fields) -> bool {
    forall|k: Seq<char>| #[trigger]
        query.contains_key(k) ==> doc.contains_key(k) && doc[k] == query[k]
}

/// The documents that a query leaves behind when those it selects are
/// deleted.
pub open spec fn without_selected(store: Seq<Fields>, query: Fields) -> Seq<Fields> {
    store.filter(|d: Fields| !selects(query, d))
}

/// The output collection after one step, where `docs` are the enriched
/// documents that the inserts take their batches from.
pub open spec fn after_step(store: Seq<Fields>, step: Step, docs: Seq<Fields>) -> Seq<Fields> {
    match step {
        Step::DropAll => Seq::empty(),
        Step::DeleteMatching(query) => without_selected(store, query),
        Step::InsertBatch { start, end } => store + docs.subrange(start, end),
    }
}

/// The output collection after the steps of a plan, performed in order.
pub open spec fn after_steps(store: Seq<Fields>, steps: Seq<Step>, docs: Seq<Fields>) -> Seq<Fields>
    decreases steps.len(),
{
    if steps.len() == 0 {
        store
    } else {
        after_step(after_steps(store, steps.drop_last(), docs), steps.last(), docs)
    }
}

/// The documents of the store that are outside the scope.
pub open spec fn outside_scope(store: Seq<Fields>, scope: Option<Seq<char>>) -> Seq<Fields> {
    store.filter(|d: Fields| !in_scope(d, scope))
}

/// The query of a scope selects exactly the documents in the scope.
pub proof fn lemma_scope_query_selects(scope: Option<Seq<char>>, doc: Fields)
    ensures
        selects(scope_query(scope), doc) <==> in_scope(doc, scope),
{
    match scope {
        Some(s) => {
            assert(scope_query(scope).contains_key("submission"@));
            if in_scope(doc, scope) {
                assert forall|k: Seq<char>| #[trigger]
                    scope_query(scope).contains_key(k) implies doc.contains_key(k) && doc[k]
                    == scope_query(scope)[k] by {
                    assert(k == "submission"@);
                }
            }
        },
        None => {},
    }
}

/// Clearing leaves exactly the documents outside the scope.
pub proof fn lemma_clear_step(store: Seq<Fields>, scope: Option<Seq<char>>, docs: Seq<Fields>)
    ensures
        after_step(store, clear_step(scope), docs) == outside_scope(store, scope),
{
    match scope {
        Some(s) => {
            let kept = |d: Fields| !selects(scope_query(scope), d);
            let outside = |d: Fields| !in_scope(d, scope);
            assert forall|i: int| 0 <= i < store.len() implies kept(#[trigger] store[i]) == outside(
                store[i],
            ) by {
                lemma_scope_query_selects(scope, store[i]);
            }
            lemma_filter_agrees(store, kept, outside);
        },
        None => {
            lemma_filter_none(store, |d: Fields| !in_scope(d, scope));
        },
    }
}

/// Two filters that agree on every element leave the same.
pub proof fn lemma_filter_agrees<A>(s: Seq<A>, p: spec_fn(A) -> bool, q: spec_fn(A) -> bool)
    requires
        forall|i: int| 0 <= i < s.len() ==> p(#[trigger] s[i]) == q(s[i]),
    ensures
        s.filter(p) == s.filter(q),
    decreases s.len(),
{
    reveal(Seq::filter);
    if s.len() > 0 {
        lemma_filter_agrees(s.drop_last(), p, q);
    }
}

/// A filter that no element passes leaves nothing.
pub proof fn lemma_filter_none<A>(s: Seq<A>, pred: spec_fn(A) -> bool)
    requires
        forall|i: int| 0 <= i < s.len() ==> !pred(#[trigger] s[i]),
    ensures
        s.filter(pred) == Seq::<A>::empty(),
    decreases s.len(),
{
    reveal(Seq::filter);
    if s.len() > 0 {
        lemma_filter_none(s.drop_last(), pred);
    }
}

/// A filter that every element passes leaves everything.
pub proof fn lemma_filter_all<A>(s: Seq<A>, pred: spec_fn(A) -> bool)
    requires
        forall|i: int| 0 <= i < s.len() ==> pred(#[trigger] s[i]),
    ensures
        s.filter(pred) == s,
    decreases s.len(),
{
    reveal(Seq::filter);
    if s.len() > 0 {
        lemma_filter_all(s.drop_last(), pred);
        assert(s.drop_last().push(s.last()) =~= s);
    }
}

/// After the clearing step and the first `batches` inserts the collection
/// holds what was outside the scope, followed by the documents of those
/// batches.
pub proof fn lemma_after_batches(
    store: Seq<Fields>,
    scope: Option<Seq<char>>,
    docs: Seq<Fields>,
    batches: nat,
)
    requires
        batches <= batch_count(docs.len()),
    ensures
        after_steps(store, write_plan_prefix(scope, docs.len(), batches), docs) == outside_scope(
            store,
            scope,
        ) + docs.subrange(
            0,
            if batches * BATCH_SIZE < docs.len() {
                batches * BATCH_SIZE
            } else {
                docs.len() as int
            },
        ),
    decreases batches,
{
    let total = docs.len();
    let plan = write_plan_prefix(scope, total, batches);
    if batches == 0 {
        assert(plan =~= seq![clear_step(scope)]);
        assert(plan.drop_last() =~= Seq::<Step>::empty());
        assert(after_steps(store, plan.drop_last(), docs) == store);
        lemma_clear_step(store, scope, docs);
        assert(docs.subrange(0, 0) =~= Seq::<Fields>::empty());
        assert(outside_scope(store, scope) + Seq::<Fields>::empty() =~= outside_scope(
            store,
            scope,
        ));
    } else {
        let k = (batches - 1) as nat;
        lemma_after_batches(store, scope, docs, k);
        assert(plan.drop_last() =~= write_plan_prefix(scope, total, k));
        assert(plan.last() == batch_step(total, k as int));
        let start = k * BATCH_SIZE;
        let end = if (k + 1) * BATCH_SIZE < total {
            (k + 1) * BATCH_SIZE
        } else {
            total as int
        };
        assert(start < total);
        assert(docs.subrange(0, start) + docs.subrange(start, end) =~= docs.subrange(0, end));
        assert((outside_scope(store, scope) + docs.subrange(0, start)) + docs.subrange(start, end)
            =~= outside_scope(store, scope) + docs.subrange(0, end));
    }
}

/// What the writer leaves behind: the documents that were outside the scope,
/// followed by the enriched documents, each once.
pub proof fn lemma_write_replaces_scope(
    store: Seq<Fields>,
    scope: Option<Seq<char>>,
    docs: Seq<Fields>,
)
    ensures
        after_steps(store, write_plan(scope, docs.len()), docs) == outside_scope(store, scope)
            + docs,
{
    lemma_after_batches(store, scope, docs, batch_count(docs.len()));
    assert(docs.subrange(0, docs.len() as int) =~= docs);
}

} // verus!
