//! A mutation that leaves the store as it was has nothing to make durable.

use vstd::prelude::*;

use crate::data::StoreData;
use crate::model::knowledge::ContextNode;
use crate::model::operation::ResourceView;
use crate::plan::{
    component_resources, differs_from, document_resources, eval_resources, event_resources,
    flattened, gone_sources, gone_task_ids, knowledge_resources, last_with_identity, last_with_key,
    list_changes, mutation_delta, node_differs_from, node_resource, nodes_of_tenant,
    operational_resources, owned_by, personal_resources, personal_uids, row_resources, rows_changed,
    same_identity, session_and_link_resources, structured_resources, summary_changes,
    summary_resources, tenant_snapshot_ids,
};
use crate::publish::COMPANY_CONTEXT_INDEX;
use crate::record::{all_itself, changed_of, changes, Record, Row};
use crate::staging::{copies_read_alike, same_content, same_lists, same_rows};
use crate::table::{lemma_row_is, lemma_row_of, list_at, lists, row_of, Table, TableKey};

verus! {

/// Whether every row of a table is kept under its own key.
pub open spec fn kept<K: TableKey, R: Row<K>>(t: Table<K, R>) -> bool {
    &&& t.wf()
    &&& forall|i: int|
        0 <= i < t.rows().len() ==> (#[trigger] t.rows()[i]).0@ == t.rows()[i].1.key()
}

/// Whether no two rows of a tenant have the same key.
pub open spec fn no_twins<R: Row<String>>(rows: Seq<R>) -> bool {
    forall|i: int, j: int|
        0 <= i < j < rows.len() && (#[trigger] rows[i]).tenant() == (#[trigger] rows[j]).tenant()
            ==> rows[i].key() != rows[j].key()
}

/// Whether no two nodes of a tenant have the same identity.
pub open spec fn nodes_apart(nodes: Seq<ContextNode>) -> bool {
    forall|i: int, j: int|
        0 <= i < j < nodes.len() && (#[trigger] nodes[i]).tenant_id@ == (
        #[trigger] nodes[j]).tenant_id@ ==> !same_identity(nodes[i], nodes[j])
}

/// Whether everything in a store is kept once, under its own key.
pub open spec fn well_kept(d: StoreData) -> bool {
    &&& kept(d.user_indexes)
    &&& kept(d.event_by_id)
    &&& kept(d.state_items)
    &&& kept(d.insights)
    &&& kept(d.sources)
    &&& kept(d.source_documents)
    &&& kept(d.parse_artifacts)
    &&& kept(d.datasets)
    &&& kept(d.snapshots)
    &&& kept(d.sessions)
    &&& kept(d.traces)
    &&& kept(d.links)
    &&& kept(d.harness_components)
    &&& kept(d.harness_changes)
    &&& kept(d.harness_verdicts)
    &&& kept(d.ingest_tasks)
    &&& kept(d.ingest_results)
    &&& kept(d.eval_cases)
    &&& kept(d.eval_runs)
    &&& kept(d.eval_case_results)
    &&& kept(d.eval_overviews)
    &&& d.structured_summaries.wf()
    &&& no_twins(flattened(d.source_revisions.values()))
    &&& no_twins(flattened(d.harness_revisions.values()))
    &&& nodes_apart(d.company_context@)
    &&& forall|uid: Seq<char>| nodes_apart(#[trigger] list_at(lists(d.personal_context@), uid))
}

broadcast proof fn nothing_is_picked<A>(s: Seq<A>, p: spec_fn(A) -> bool)
    requires
        forall|i: int| 0 <= i < s.len() ==> !p(#[trigger] s[i]),
    ensures
        (#[trigger] s.filter(p)).len() == 0,
    decreases s.len(),
{
    reveal(Seq::filter);
    if s.len() > 0 {
        assert forall|i: int| 0 <= i < s.drop_last().len() implies !p(
            #[trigger] s.drop_last()[i],
        ) by {
            assert(s.drop_last()[i] == s[i]);
        }
        nothing_is_picked(s.drop_last(), p);
        assert(!p(s[s.len() - 1]));
    }
}

proof fn lemma_rows_alike<K: TableKey, R: Row<K>>(before: Table<K, R>, after: Table<K, R>, i: int)
    requires
        same_rows(before, after),
        kept(after),
        0 <= i < after.rows().len(),
    ensures
        before@.dom().contains(after.values()[i].key()),
        before@[after.values()[i].key()] == after.values()[i],
        after@.dom().contains(after.values()[i].key()),
        after.values()[i].same_as(&after.values()[i]),
{
    copies_read_alike(before, after);
    after.row_facts(i);
    after.rows()[i].1.itself();
}

proof fn lemma_no_changes<K: TableKey, R: Row<K>>(
    before: Table<K, R>,
    after: Table<K, R>,
    tenant_id: Seq<char>,
)
    requires
        same_rows(before, after),
        kept(after),
    ensures
        changes::<K, R>(before@, after.values(), tenant_id).len() == 0,
{
    let p = changed_of::<K, R>(before@, tenant_id);
    assert forall|i: int| 0 <= i < after.values().len() implies !p(
        #[trigger] after.values()[i],
    ) by {
        lemma_rows_alike(before, after, i);
    }
    nothing_is_picked(after.values(), p);
}

proof fn lemma_found_by_key<R: Row<String>>(s: Seq<R>, x: R)
    requires
        s.contains(x),
        forall|j: int| 0 <= j < s.len() && (#[trigger] s[j]).key() == x.key() ==> s[j] == x,
    ensures
        last_with_key(s, x.key()) == Some(x),
    decreases s.len(),
{
    let i = choose|i: int| 0 <= i < s.len() && s[i] == x;
    if s.last().key() != x.key() {
        let front = s.drop_last();
        assert(front[i] == x);
        assert forall|j: int| 0 <= j < front.len() && (#[trigger] front[j]).key()
            == x.key() implies front[j] == x by {
            assert(front[j] == s[j]);
        }
        lemma_found_by_key(front, x);
    } else {
        assert(s[s.len() - 1] == s.last());
    }
}

proof fn lemma_no_list_changes<R: Row<String>>(rows: Seq<R>, tenant_id: Seq<char>)
    requires
        no_twins(rows),
    ensures
        list_changes(rows, rows, tenant_id).len() == 0,
{
    let own = owned_by::<R>(tenant_id);
    let known = rows.filter(own);
    let p = differs_from::<R>(known, tenant_id);
    assert forall|i: int| 0 <= i < rows.len() implies !p(#[trigger] rows[i]) by {
        let x = rows[i];
        if x.tenant() == tenant_id {
            x.itself();
            assert(own(x));
            rows.lemma_filter_contains(own, i);
            assert forall|j: int| 0 <= j < known.len() && (#[trigger] known[j]).key()
                == x.key() implies known[j] == x by {
                assert(known.contains(known[j]));
                rows.lemma_filter_contains_rev(own, known[j]);
                rows.lemma_filter_pred(own, j);
                let k = choose|k: int| 0 <= k < rows.len() && rows[k] == known[j];
                if k < i {
                    assert(rows[k].tenant() == rows[i].tenant());
                } else if i < k {
                    assert(rows[i].tenant() == rows[k].tenant());
                }
            }
            lemma_found_by_key(known, x);
        }
    }
    nothing_is_picked(rows, p);
}

proof fn lemma_found_by_identity(s: Seq<ContextNode>, x: ContextNode)
    requires
        s.contains(x),
        forall|j: int| 0 <= j < s.len() && same_identity(#[trigger] s[j], x) ==> s[j] == x,
    ensures
        last_with_identity(s, x) == Some(x),
    decreases s.len(),
{
    let i = choose|i: int| 0 <= i < s.len() && s[i] == x;
    if !same_identity(s.last(), x) {
        let front = s.drop_last();
        assert(front[i] == x);
        assert forall|j: int| 0 <= j < front.len() && same_identity(
            #[trigger] front[j],
            x,
        ) implies front[j] == x by {
            assert(front[j] == s[j]);
        }
        lemma_found_by_identity(front, x);
    } else {
        assert(s[s.len() - 1] == s.last());
    }
}

proof fn lemma_node_of_tenant(nodes: Seq<ContextNode>, tenant_id: Seq<char>, j: int) -> (k: int)
    requires
        0 <= j < nodes_of_tenant(nodes, tenant_id).len(),
    ensures
        0 <= k < nodes.len(),
        nodes[k] == nodes_of_tenant(nodes, tenant_id)[j],
        nodes[k].tenant_id@ == tenant_id,
{
    broadcast use vstd::seq_lib::group_filter_ensures, Seq::lemma_filter_contains_rev;

    let own = nodes_of_tenant(nodes, tenant_id);
    assert(own.contains(own[j]));
    assert(nodes.contains(own[j]));
    choose|k: int| 0 <= k < nodes.len() && nodes[k] == own[j]
}

proof fn lemma_no_node_changes(
    index_uid: Seq<char>,
    nodes: Seq<ContextNode>,
    tenant_id: Seq<char>,
)
    requires
        nodes_apart(nodes),
    ensures
        node_resource(index_uid, nodes, nodes, tenant_id).len() == 0,
{
    let own = nodes_of_tenant(nodes, tenant_id);
    let p = node_differs_from(own);
    assert forall|i: int| 0 <= i < own.len() implies !p(#[trigger] own[i]) by {
        let x = own[i];
        let k = lemma_node_of_tenant(nodes, tenant_id, i);
        x.itself();
        assert(own.contains(x));
        assert forall|j: int| 0 <= j < own.len() && same_identity(
            #[trigger] own[j],
            x,
        ) implies own[j] == x by {
            let m = lemma_node_of_tenant(nodes, tenant_id, j);
            if m < k {
                assert(nodes[m].tenant_id@ == nodes[k].tenant_id@);
            } else if k < m {
                assert(nodes[k].tenant_id@ == nodes[m].tenant_id@);
            }
        }
        lemma_found_by_identity(own, x);
    }
    nothing_is_picked(own, p);
}

proof fn lemma_lists_alike<V>(a: Table<String, Vec<V>>, b: Table<String, Vec<V>>)
    requires
        same_lists(a, b),
    ensures
        lists(a@) == lists(b@),
        flattened(a.values()) == flattened(b.values()),
{
    assert(a.rows().len() == b.rows().len());
    lemma_flattened_alike(a.values(), b.values());
    assert forall|k: Seq<char>| row_of(a.rows(), k) == #[trigger] row_of(b.rows(), k) by {
        lemma_row_of(a.rows(), k);
        let at = row_of(a.rows(), k);
        assert forall|j: int| 0 <= j < at implies (#[trigger] b.rows()[j]).0@ != k by {
            assert(a.rows()[j].0@ != k);
        }
        lemma_row_is(b.rows(), k, at);
    }
    assert(lists(a@) =~= lists(b@)) by {
        assert forall|k: Seq<char>| a@.dom().contains(k) == #[trigger] b@.dom().contains(k) by {
            assert(row_of(a.rows(), k) == row_of(b.rows(), k));
        }
        assert forall|k: Seq<char>| #[trigger] b@.dom().contains(k) implies a@[k]@ == b@[k]@ by {
            lemma_row_of(a.rows(), k);
            assert(row_of(a.rows(), k) == row_of(b.rows(), k));
            assert(a.rows()[row_of(a.rows(), k)].1@ == b.rows()[row_of(a.rows(), k)].1@);
        }
    }
}

proof fn lemma_flattened_alike<V>(a: Seq<Vec<V>>, b: Seq<Vec<V>>)
    requires
        a.len() == b.len(),
        forall|i: int| 0 <= i < a.len() ==> (#[trigger] a[i])@ == b[i]@,
    ensures
        flattened(a) == flattened(b),
    decreases a.len(),
{
    if a.len() > 0 {
        assert(a[a.len() - 1]@ == b[a.len() - 1]@);
        assert forall|i: int| 0 <= i < a.drop_last().len() implies (#[trigger] a.drop_last()[i])@
            == b.drop_last()[i]@ by {
            assert(a[i]@ == b[i]@);
        }
        lemma_flattened_alike(a.drop_last(), b.drop_last());
    }
}

proof fn lemma_knowledge_idle(before: StoreData, after: StoreData, tenant_id: Seq<char>)
    requires
        same_content(before, after),
        well_kept(after),
    ensures
        knowledge_resources(before, after, tenant_id).len() == 0,
{
    broadcast use nothing_is_picked;

    lemma_no_changes(before.user_indexes, after.user_indexes, tenant_id);
    lemma_no_changes(before.state_items, after.state_items, tenant_id);
    lemma_no_changes(before.insights, after.insights, tenant_id);
    assert forall|i: int| 0 <= i < after.event_by_id.values().len() implies {
        let event = #[trigger] after.event_by_id.values()[i];
        before.event_by_id@.dom().contains(event.key()) && before.event_by_id@[event.key()]
            == event && event.same_as(&event)
    } by {
        lemma_rows_alike(before.event_by_id, after.event_by_id, i);
    }
    assert(event_resources(before, after, tenant_id).len() == 0);
    lemma_no_node_changes(COMPANY_CONTEXT_INDEX@, after.company_context@, tenant_id);
    lemma_personal_idle(before, after, tenant_id, personal_uids(before, after).len() as int);
}

proof fn lemma_personal_idle(
    before: StoreData,
    after: StoreData,
    tenant_id: Seq<char>,
    n: int,
)
    requires
        same_content(before, after),
        well_kept(after),
    ensures
        personal_resources(before, after, tenant_id, n).len() == 0,
    decreases n,
{
    if n > 0 {
        let uid = personal_uids(before, after)[n - 1];
        lemma_personal_idle(before, after, tenant_id, n - 1);
        lemma_lists_alike(before.personal_context, after.personal_context);
        lemma_no_node_changes(uid, list_at(lists(after.personal_context@), uid), tenant_id);
    }
}

proof fn lemma_documents_idle(before: StoreData, after: StoreData, tenant_id: Seq<char>)
    requires
        same_content(before, after),
        well_kept(after),
    ensures
        document_resources(before, after, tenant_id).len() == 0,
{
    broadcast use nothing_is_picked;

    lemma_no_changes(before.sources, after.sources, tenant_id);
    lemma_no_changes(before.source_documents, after.source_documents, tenant_id);
    lemma_no_changes(before.parse_artifacts, after.parse_artifacts, tenant_id);
    lemma_lists_alike(before.source_revisions, after.source_revisions);
    lemma_no_list_changes(flattened(after.source_revisions.values()), tenant_id);
    copies_read_alike(before.sources, after.sources);
    assert forall|i: int| 0 <= i < before.sources.values().len() implies after.sources@.dom().contains(
        (#[trigger] before.sources.values()[i]).id@,
    ) by {
        lemma_rows_alike(before.sources, after.sources, i);
    }
    assert(gone_sources(before, after, tenant_id).len() == 0);
}

proof fn lemma_structured_idle(before: StoreData, after: StoreData, tenant_id: Seq<char>)
    requires
        same_content(before, after),
        well_kept(after),
    ensures
        structured_resources(before, after, tenant_id).len() == 0,
{
    broadcast use nothing_is_picked;

    lemma_no_changes(before.datasets, after.datasets, tenant_id);
    lemma_no_changes(before.snapshots, after.snapshots, tenant_id);
    lemma_rows_idle(
        before,
        after,
        tenant_id,
        tenant_snapshot_ids(after, tenant_id).len() as int,
    );
    copies_read_alike(before.structured_summaries, after.structured_summaries);
    assert forall|i: int| 0 <= i < after.structured_summaries.rows().len() implies {
        let row = #[trigger] after.structured_summaries.rows()[i];
        before.structured_summaries@.dom().contains(row.0@)
            && before.structured_summaries@[row.0@].same_as(&row.1)
    } by {
        after.structured_summaries.row_facts(i);
        after.structured_summaries.rows()[i].1.itself();
    }
    assert(summary_changes(before, after, tenant_id).len() == 0);
    assert(summary_resources(before, after, tenant_id).len() == 0);
}

proof fn lemma_rows_idle(before: StoreData, after: StoreData, tenant_id: Seq<char>, n: int)
    requires
        same_content(before, after),
    ensures
        row_resources(before, after, tenant_id, n).len() == 0,
    decreases n,
{
    if n > 0 {
        let id = tenant_snapshot_ids(after, tenant_id)[n - 1];
        lemma_rows_idle(before, after, tenant_id, n - 1);
        lemma_lists_alike(before.rows_by_snapshot, after.rows_by_snapshot);
        let a = lists(before.rows_by_snapshot@);
        let b = lists(after.rows_by_snapshot@);
        assert(a.dom().contains(id) == b.dom().contains(id));
        assert(a[id] == b[id]);
        all_itself(after.rows_by_snapshot@[id]@);
        assert(!rows_changed(before, after, id));
    }
}

proof fn lemma_sessions_idle(before: StoreData, after: StoreData, tenant_id: Seq<char>)
    requires
        same_content(before, after),
        well_kept(after),
    ensures
        session_and_link_resources(before, after, tenant_id).len() == 0,
{
    lemma_no_changes(before.sessions, after.sessions, tenant_id);
    lemma_no_changes(before.traces, after.traces, tenant_id);
    lemma_no_changes(before.links, after.links, tenant_id);
}

proof fn lemma_operations_idle(before: StoreData, after: StoreData, tenant_id: Seq<char>)
    requires
        same_content(before, after),
        well_kept(after),
    ensures
        operational_resources(before, after, tenant_id).len() == 0,
{
    broadcast use nothing_is_picked;

    lemma_no_changes(before.harness_components, after.harness_components, tenant_id);
    lemma_lists_alike(before.harness_revisions, after.harness_revisions);
    lemma_no_list_changes(flattened(after.harness_revisions.values()), tenant_id);
    assert(component_resources(before, after, tenant_id).len() == 0);
    lemma_no_changes(before.harness_changes, after.harness_changes, tenant_id);
    lemma_no_changes(before.harness_verdicts, after.harness_verdicts, tenant_id);
    lemma_no_changes(before.ingest_tasks, after.ingest_tasks, tenant_id);
    lemma_no_changes(before.ingest_results, after.ingest_results, tenant_id);
    lemma_no_changes(before.eval_cases, after.eval_cases, tenant_id);
    lemma_no_changes(before.eval_runs, after.eval_runs, tenant_id);
    lemma_no_changes(before.eval_case_results, after.eval_case_results, tenant_id);
    lemma_no_changes(before.eval_overviews, after.eval_overviews, tenant_id);
    assert(eval_resources(before, after, tenant_id).len() == 0);
    copies_read_alike(before.ingest_tasks, after.ingest_tasks);
    assert forall|i: int| 0 <= i < before.ingest_tasks.values().len() implies after.ingest_tasks@.dom().contains(
        (#[trigger] before.ingest_tasks.values()[i]).task_id@,
    ) by {
        lemma_rows_alike(before.ingest_tasks, after.ingest_tasks, i);
    }
    assert(gone_task_ids(before, after, tenant_id).len() == 0);
}

/// A mutation that leaves the store as it was asks for nothing: where the store before it and
/// the store after it hold the same, each thing once and under its own key, no tenant has a
/// resource to make durable.
pub proof fn what_changes_nothing_asks_for_nothing(
    before: StoreData,
    after: StoreData,
    tenant_id: Seq<char>,
)
    requires
        same_content(before, after),
        well_kept(after),
    ensures
        mutation_delta(before, after, tenant_id) == Seq::<ResourceView>::empty(),
{
    lemma_knowledge_idle(before, after, tenant_id);
    lemma_documents_idle(before, after, tenant_id);
    lemma_structured_idle(before, after, tenant_id);
    lemma_sessions_idle(before, after, tenant_id);
    lemma_operations_idle(before, after, tenant_id);
    assert(mutation_delta(before, after, tenant_id).len() == 0);
    assert(mutation_delta(before, after, tenant_id) =~= Seq::<ResourceView>::empty());
}

} // verus!
