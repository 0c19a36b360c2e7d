//! A copy of the store on which a mutation is tried before anything of it is published.

use vstd::prelude::*;
use vstd::string::*;

use crate::data::StoreData;
use crate::model::operation::OperationRecord;
use crate::record::{copy_all, Record};
use crate::table::{Table, TableKey};

verus! {

/// Whether two tables have the same rows.
pub open spec fn same_rows<K: View, V>(a: Table<K, V>, b: Table<K, V>) -> bool {
    a.rows() == b.rows()
}

/// Whether two tables of lists have the same keys in the same places, with the same lists.
pub open spec fn same_lists<K: View, V>(a: Table<K, Vec<V>>, b: Table<K, Vec<V>>) -> bool {
    &&& a.rows().len() == b.rows().len()
    &&& forall|i: int|
        0 <= i < a.rows().len() ==> (#[trigger] a.rows()[i]).0 == b.rows()[i].0 && a.rows()[i].1@
            == b.rows()[i].1@
}

/// Whether two stores hold the same.
pub open spec fn same_content(a: StoreData, b: StoreData) -> bool {
    &&& a.hydration_report == b.hydration_report
    &&& same_rows(a.audit_records, b.audit_records)
    &&& same_rows(a.operations, b.operations)
    &&& same_rows(a.user_indexes, b.user_indexes)
    &&& same_lists(a.events_by_index, b.events_by_index)
    &&& same_rows(a.event_by_id, b.event_by_id)
    &&& same_rows(a.event_idempotency, b.event_idempotency)
    &&& same_lists(a.personal_context, b.personal_context)
    &&& same_rows(a.personal_context_loaded, b.personal_context_loaded)
    &&& a.company_context@ == b.company_context@
    &&& same_rows(a.state_items, b.state_items)
    &&& same_rows(a.insights, b.insights)
    &&& same_rows(a.insight_idempotency, b.insight_idempotency)
    &&& same_rows(a.sources, b.sources)
    &&& same_lists(a.source_revisions, b.source_revisions)
    &&& same_rows(a.source_documents, b.source_documents)
    &&& same_rows(a.parse_artifacts, b.parse_artifacts)
    &&& same_lists(a.parsed_blocks, b.parsed_blocks)
    &&& same_rows(a.ingest_tasks, b.ingest_tasks)
    &&& same_rows(a.ingest_results, b.ingest_results)
    &&& same_rows(a.preflight_decisions, b.preflight_decisions)
    &&& same_rows(a.datasets, b.datasets)
    &&& same_rows(a.snapshots, b.snapshots)
    &&& same_rows(a.snapshot_idempotency, b.snapshot_idempotency)
    &&& same_lists(a.rows_by_snapshot, b.rows_by_snapshot)
    &&& same_rows(a.row_idempotency, b.row_idempotency)
    &&& same_rows(a.structured_summaries, b.structured_summaries)
    &&& same_rows(a.sessions, b.sessions)
    &&& same_rows(a.traces, b.traces)
    &&& same_rows(a.links, b.links)
    &&& same_rows(a.link_idempotency, b.link_idempotency)
    &&& same_rows(a.harness_components, b.harness_components)
    &&& same_lists(a.harness_revisions, b.harness_revisions)
    &&& same_rows(a.harness_changes, b.harness_changes)
    &&& same_rows(a.harness_verdicts, b.harness_verdicts)
    &&& same_rows(a.eval_cases, b.eval_cases)
    &&& same_rows(a.eval_runs, b.eval_runs)
    &&& same_rows(a.eval_case_results, b.eval_case_results)
    &&& same_rows(a.eval_overviews, b.eval_overviews)
}

fn copy_rows<K: TableKey, V: Record>(t: &Table<K, V>) -> (r: Table<K, V>)
    ensures
        same_rows(*t, r),
{
    let ghost rel = |v: V, w: V| w == v;
    let copy = |v: &V| -> (w: V)
        ensures
            rel(*v, w),
        { v.copy() };
    let r: Table<K, V> = t.copy_with(copy, Ghost(rel));
    assert(r.rows() =~= t.rows());
    r
}

fn copy_lists<K: TableKey, V: Record>(t: &Table<K, Vec<V>>) -> (r: Table<K, Vec<V>>)
    ensures
        same_lists(*t, r),
{
    let ghost rel = |v: Vec<V>, w: Vec<V>| w@ == v@;
    let copy = |v: &Vec<V>| -> (w: Vec<V>)
        ensures
            rel(*v, w),
        { copy_all(v) };
    let r: Table<K, Vec<V>> = t.copy_with(copy, Ghost(rel));
    assert forall|i: int| 0 <= i < t.rows().len() implies (#[trigger] t.rows()[i]).0 == r.rows()[i].0
        && t.rows()[i].1@ == r.rows()[i].1@ by {
        assert(rel(t.rows()[i].1, r.rows()[i].1));
    }
    r
}

fn copy_texts<K: TableKey>(t: &Table<K, String>) -> (r: Table<K, String>)
    ensures
        same_rows(*t, r),
{
    let ghost rel = |v: String, w: String| w == v;
    let copy = |v: &String| -> (w: String)
        ensures
            rel(*v, w),
        { v.clone() };
    let r: Table<K, String> = t.copy_with(copy, Ghost(rel));
    assert(r.rows() =~= t.rows());
    r
}

fn copy_marks<K: TableKey>(t: &Table<K, ()>) -> (r: Table<K, ()>)
    ensures
        same_rows(*t, r),
{
    let ghost rel = |v: (), w: ()| w == v;
    let copy = |v: &()| -> (w: ())
        ensures
            rel(*v, w),
        { };
    let r: Table<K, ()> = t.copy_with(copy, Ghost(rel));
    assert(r.rows() =~= t.rows());
    r
}

fn copy_operations(t: &Table<String, OperationRecord>) -> (r: Table<String, OperationRecord>)
    ensures
        same_rows(*t, r),
{
    let ghost rel = |v: OperationRecord, w: OperationRecord| w == v;
    let copy = |v: &OperationRecord| -> (w: OperationRecord)
        ensures
            rel(*v, w),
        { v.clone() };
    let r: Table<String, OperationRecord> = t.copy_with(copy, Ghost(rel));
    assert(r.rows() =~= t.rows());
    r
}

/// A copy of the store, on which a mutation is tried.
pub fn staged_copy(data: &StoreData) -> (r: StoreData)
    ensures
        same_content(*data, r),
{
    StoreData {
        hydration_report: data.hydration_report.clone(),
        audit_records: copy_rows(&data.audit_records),
        operations: copy_operations(&data.operations),
        user_indexes: copy_rows(&data.user_indexes),
        events_by_index: copy_lists(&data.events_by_index),
        event_by_id: copy_rows(&data.event_by_id),
        event_idempotency: copy_texts(&data.event_idempotency),
        personal_context: copy_lists(&data.personal_context),
        personal_context_loaded: copy_marks(&data.personal_context_loaded),
        company_context: copy_all(&data.company_context),
        state_items: copy_rows(&data.state_items),
        insights: copy_rows(&data.insights),
        insight_idempotency: copy_texts(&data.insight_idempotency),
        sources: copy_rows(&data.sources),
        source_revisions: copy_lists(&data.source_revisions),
        source_documents: copy_rows(&data.source_documents),
        parse_artifacts: copy_rows(&data.parse_artifacts),
        parsed_blocks: copy_lists(&data.parsed_blocks),
        ingest_tasks: copy_rows(&data.ingest_tasks),
        ingest_results: copy_rows(&data.ingest_results),
        preflight_decisions: copy_rows(&data.preflight_decisions),
        datasets: copy_rows(&data.datasets),
        snapshots: copy_rows(&data.snapshots),
        snapshot_idempotency: copy_texts(&data.snapshot_idempotency),
        rows_by_snapshot: copy_lists(&data.rows_by_snapshot),
        row_idempotency: copy_marks(&data.row_idempotency),
        structured_summaries: copy_rows(&data.structured_summaries),
        sessions: copy_rows(&data.sessions),
        traces: copy_rows(&data.traces),
        links: copy_rows(&data.links),
        link_idempotency: copy_texts(&data.link_idempotency),
        harness_components: copy_rows(&data.harness_components),
        harness_revisions: copy_lists(&data.harness_revisions),
        harness_changes: copy_rows(&data.harness_changes),
        harness_verdicts: copy_rows(&data.harness_verdicts),
        eval_cases: copy_rows(&data.eval_cases),
        eval_runs: copy_rows(&data.eval_runs),
        eval_case_results: copy_rows(&data.eval_case_results),
        eval_overviews: copy_rows(&data.eval_overviews),
    }
}

/// What is read of a copy is what is read of the store.
pub proof fn copies_read_alike<K: View, V>(a: Table<K, V>, b: Table<K, V>)
    requires
        same_rows(a, b),
    ensures
        a@ == b@,
        a.values() == b.values(),
{
    assert(a@ =~= b@);
    assert(a.values() =~= b.values());
}

} // verus!
