//! Projecting durably accepted operation resources into the live state.
//!
//! A staged state is a planning snapshot and may be stale by the time a write is accepted.
//! Publishing a resource therefore touches only the keys that the resource stands for.

use vstd::prelude::*;

use crate::data::{DocumentKeyView, ParseArtifactKey, SourceDocumentKey, StoreData};
use crate::json::{json_same, text_member, Json};
use crate::merge::{
    copy_idempotency_entries, has_newer, insert_rows, inserted_all, merge_row, merge_rows, merged,
    merged_all, upsert_context_nodes, with_accepted, with_nodes,
};
use crate::model::harness::HarnessComponentRevision;
use crate::model::ingest::{
    IngestTask, IngestTaskResult, ParseArtifact, ParsedBlock, SourceDocument, SourceRevision,
};
use crate::model::knowledge::{ContextNode, HistoryEvent, KnowledgeLink};
use crate::model::operation::{
    CompanySourceDeleteTarget, DeleteTargetView, OperationResource, ResourceView,
};
use crate::order::{any_where, find_where, put_first, put_where, sort_by, sorted_by};
use crate::record::{any_value, copy_all, Record, Row};
use crate::table::{ensure_list, kept, list_at, lists, lists_replaced, take_list, Table};
use crate::text::{opt_is, opt_text, text_eq, texts, texts_contain};

verus! {

/// The name of the context index of the company.
pub const COMPANY_CONTEXT_INDEX: &'static str = "rag_company_context";

/// The keys under which events are found again, with those of `events` added.
pub open spec fn with_event_keys(
    m: Map<(Seq<char>, Seq<char>), String>,
    events: Seq<HistoryEvent>,
) -> Map<(Seq<char>, Seq<char>), String>
    decreases events.len(),
{
    if events.len() == 0 {
        m
    } else {
        let event = events.last();
        let rest = with_event_keys(m, events.drop_last());
        match event.idempotency_key_hash {
            Some(hash) => rest.insert((event.event_index_uid@, hash@), event.id),
            None => rest,
        }
    }
}

/// The event lists of the indexes, with `events` put in by id.
pub open spec fn with_events(
    m: Map<Seq<char>, Seq<HistoryEvent>>,
    events: Seq<HistoryEvent>,
) -> Map<Seq<char>, Seq<HistoryEvent>>
    decreases events.len(),
{
    if events.len() == 0 {
        m
    } else {
        let event = events.last();
        let rest = with_events(m, events.drop_last());
        rest.insert(
            event.event_index_uid@,
            put_first(
                list_at(rest, event.event_index_uid@),
                event,
                |existing: HistoryEvent| existing.id@ == event.id@,
            ),
        )
    }
}

fn publish_events(current: &mut StoreData, events: &Vec<HistoryEvent>)
    ensures
        *final(current) == (StoreData {
            event_idempotency: final(current).event_idempotency,
            events_by_index: final(current).events_by_index,
            event_by_id: final(current).event_by_id,
            ..*old(current)
        }),
        final(current).event_idempotency@ == with_event_keys(
            old(current).event_idempotency@,
            events@,
        ),
        lists(final(current).events_by_index@) == with_events(
            lists(old(current).events_by_index@),
            events@,
        ),
        final(current).event_by_id@ == inserted_all::<String, HistoryEvent>(
            old(current).event_by_id@,
            events@,
        ),
{
    let mut i: usize = 0;
    while i < events.len()
        invariant
            i <= events.len(),
            *current == (StoreData {
                event_idempotency: current.event_idempotency,
                events_by_index: current.events_by_index,
                event_by_id: current.event_by_id,
                ..*old(current)
            }),
            current.event_idempotency@ == with_event_keys(
                old(current).event_idempotency@,
                events@.take(i as int),
            ),
            lists(current.events_by_index@) == with_events(
                lists(old(current).events_by_index@),
                events@.take(i as int),
            ),
            current.event_by_id@ == inserted_all::<String, HistoryEvent>(
                old(current).event_by_id@,
                events@.take(i as int),
            ),
        decreases events.len() - i,
    {
        let event: &HistoryEvent = &events[i];
        assert(events@.take(i + 1).drop_last() =~= events@.take(i as int));
        if let Some(hash) = &event.idempotency_key_hash {
            current.event_idempotency.insert(
                (event.event_index_uid.clone(), hash.clone()),
                event.id.clone(),
            );
        }
        let ghost before = current.events_by_index@;
        let mut list: Vec<HistoryEvent> = take_list(
            &mut current.events_by_index,
            &event.event_index_uid,
        );
        let ghost p = |existing: HistoryEvent| existing.id@ == event.id@;
        let accept = |existing: &HistoryEvent| -> (b: bool)
            ensures
                b == p(*existing),
            { text_eq(existing.id.as_str(), event.id.as_str()) };
        put_where(&mut list, event.clone(), accept, Ghost(p));
        proof {
            lists_replaced(before, event.event_index_uid@, list);
        }
        current.events_by_index.insert(event.event_index_uid.clone(), list);
        current.event_by_id.insert(event.id.clone(), event.clone());
        i += 1;
    }
    assert(events@.take(i as int) =~= events@);
}

/// The revisions of a source by age, with `revision` put in by id.
pub open spec fn with_revision(revisions: Seq<SourceRevision>, revision: SourceRevision) -> Seq<
    SourceRevision,
> {
    sorted_by(
        put_first(revisions, revision, |existing: SourceRevision| existing.id@ == revision.id@),
        |a: SourceRevision, b: SourceRevision| a.created_at < b.created_at,
    )
}

fn publish_revision(current: &mut StoreData, revision: &SourceRevision)
    ensures
        *final(current) == (StoreData {
            source_revisions: final(current).source_revisions,
            ..*old(current)
        }),
        lists(final(current).source_revisions@) == lists(old(current).source_revisions@).insert(
            revision.source_id@,
            with_revision(
                list_at(lists(old(current).source_revisions@), revision.source_id@),
                *revision,
            ),
        ),
{
    let ghost before = current.source_revisions@;
    let mut list: Vec<SourceRevision> = take_list(
        &mut current.source_revisions,
        &revision.source_id,
    );
    let ghost p = |existing: SourceRevision| existing.id@ == revision.id@;
    let accept = |existing: &SourceRevision| -> (b: bool)
        ensures
            b == p(*existing),
        { text_eq(existing.id.as_str(), revision.id.as_str()) };
    put_where(&mut list, revision.clone(), accept, Ghost(p));
    let ghost lt = |a: SourceRevision, b: SourceRevision| a.created_at < b.created_at;
    let earlier = |a: &SourceRevision, b: &SourceRevision| -> (c: bool)
        ensures
            c == lt(*a, *b),
        { a.created_at < b.created_at };
    let sorted: Vec<SourceRevision> = sort_by(list, earlier, Ghost(lt));
    proof {
        lists_replaced(before, revision.source_id@, sorted);
    }
    current.source_revisions.insert(revision.source_id.clone(), sorted);
}

/// The revision lists of the harness components, with `revisions` put in by id and iteration.
pub open spec fn with_component_revisions(
    m: Map<Seq<char>, Seq<HarnessComponentRevision>>,
    revisions: Seq<HarnessComponentRevision>,
) -> Map<Seq<char>, Seq<HarnessComponentRevision>>
    decreases revisions.len(),
{
    if revisions.len() == 0 {
        m
    } else {
        let revision = revisions.last();
        let rest = with_component_revisions(m, revisions.drop_last());
        rest.insert(
            revision.component_id@,
            sorted_by(
                put_first(
                    list_at(rest, revision.component_id@),
                    revision,
                    |existing: HarnessComponentRevision| existing.id@ == revision.id@,
                ),
                |a: HarnessComponentRevision, b: HarnessComponentRevision|
                    a.iteration < b.iteration,
            ),
        )
    }
}

fn publish_component_revisions(
    current: &mut StoreData,
    revisions: &Vec<HarnessComponentRevision>,
)
    ensures
        *final(current) == (StoreData {
            harness_revisions: final(current).harness_revisions,
            ..*old(current)
        }),
        lists(final(current).harness_revisions@) == with_component_revisions(
            lists(old(current).harness_revisions@),
            revisions@,
        ),
{
    let mut i: usize = 0;
    while i < revisions.len()
        invariant
            i <= revisions.len(),
            *current == (StoreData {
                harness_revisions: current.harness_revisions,
                ..*old(current)
            }),
            lists(current.harness_revisions@) == with_component_revisions(
                lists(old(current).harness_revisions@),
                revisions@.take(i as int),
            ),
        decreases revisions.len() - i,
    {
        let revision: &HarnessComponentRevision = &revisions[i];
        assert(revisions@.take(i + 1).drop_last() =~= revisions@.take(i as int));
        let ghost before = current.harness_revisions@;
        let mut list: Vec<HarnessComponentRevision> = take_list(
            &mut current.harness_revisions,
            &revision.component_id,
        );
        let ghost p = |existing: HarnessComponentRevision| existing.id@ == revision.id@;
        let accept = |existing: &HarnessComponentRevision| -> (b: bool)
            ensures
                b == p(*existing),
            { text_eq(existing.id.as_str(), revision.id.as_str()) };
        put_where(&mut list, revision.clone(), accept, Ghost(p));
        let ghost lt = |a: HarnessComponentRevision, b: HarnessComponentRevision|
            a.iteration < b.iteration;
        let earlier = |a: &HarnessComponentRevision, b: &HarnessComponentRevision| -> (c: bool)
            ensures
                c == lt(*a, *b),
            { a.iteration < b.iteration };
        let sorted: Vec<HarnessComponentRevision> = sort_by(list, earlier, Ghost(lt));
        proof {
            lists_replaced(before, revision.component_id@, sorted);
        }
        current.harness_revisions.insert(revision.component_id.clone(), sorted);
        i += 1;
    }
    assert(revisions@.take(i as int) =~= revisions@);
}

/// The rows of a snapshot with `row` put in: by its id where it has one, else once.
pub open spec fn with_row(rows: Seq<Json>, row: Json) -> Seq<Json> {
    match text_member(row, "id"@) {
        Some(id) => put_first(rows, row, |existing: Json| text_member(existing, "id"@) == Some(id)),
        None => if any_where(rows, |existing: Json| json_same(existing, row)) {
            rows
        } else {
            rows.push(row)
        },
    }
}

/// The rows of the snapshots, with `rows` put in; a row that names no snapshot is left out.
pub open spec fn with_rows(m: Map<Seq<char>, Seq<Json>>, rows: Seq<Json>) -> Map<
    Seq<char>,
    Seq<Json>,
>
    decreases rows.len(),
{
    if rows.len() == 0 {
        m
    } else {
        let rest = with_rows(m, rows.drop_last());
        match text_member(rows.last(), "snapshot_id"@) {
            Some(snapshot_id) => rest.insert(
                snapshot_id,
                with_row(list_at(rest, snapshot_id), rows.last()),
            ),
            None => rest,
        }
    }
}

/// The row ids that are known, with those of `rows` added.
pub open spec fn with_row_ids(m: Map<(Seq<char>, Seq<char>), ()>, rows: Seq<Json>) -> Map<
    (Seq<char>, Seq<char>),
    (),
>
    decreases rows.len(),
{
    if rows.len() == 0 {
        m
    } else {
        let rest = with_row_ids(m, rows.drop_last());
        match (text_member(rows.last(), "snapshot_id"@), text_member(rows.last(), "id"@)) {
            (Some(snapshot_id), Some(id)) => rest.insert((snapshot_id, id), ()),
            _ => rest,
        }
    }
}

fn put_row(list: &mut Vec<Json>, row: &Json)
    ensures
        final(list)@ == with_row(old(list)@, *row),
{
    match row.text_of("id") {
        Some(id) => {
            let ghost wanted = id@;
            let ghost p = |existing: Json| text_member(existing, "id"@) == Some(wanted);
            let accept = |existing: &Json| -> (b: bool)
                ensures
                    b == p(*existing),
                {
                    match existing.text_of("id") {
                        Some(other) => text_eq(other, id),
                        None => false,
                    }
                };
            put_where(list, row.clone(), accept, Ghost(p));
        },
        None => {
            let ghost p = |existing: Json| json_same(existing, *row);
            let accept = |existing: &Json| -> (b: bool)
                ensures
                    b == p(*existing),
                { existing.equals(row) };
            let at: usize = find_where(list, accept, Ghost(p));
            if at >= list.len() {
                list.push(row.clone());
            }
        },
    }
}

fn publish_rows(current: &mut StoreData, rows: &Vec<Json>)
    ensures
        *final(current) == (StoreData {
            rows_by_snapshot: final(current).rows_by_snapshot,
            row_idempotency: final(current).row_idempotency,
            ..*old(current)
        }),
        lists(final(current).rows_by_snapshot@) == with_rows(
            lists(old(current).rows_by_snapshot@),
            rows@,
        ),
        final(current).row_idempotency@ == with_row_ids(old(current).row_idempotency@, rows@),
{
    let mut i: usize = 0;
    while i < rows.len()
        invariant
            i <= rows.len(),
            *current == (StoreData {
                rows_by_snapshot: current.rows_by_snapshot,
                row_idempotency: current.row_idempotency,
                ..*old(current)
            }),
            lists(current.rows_by_snapshot@) == with_rows(
                lists(old(current).rows_by_snapshot@),
                rows@.take(i as int),
            ),
            current.row_idempotency@ == with_row_ids(
                old(current).row_idempotency@,
                rows@.take(i as int),
            ),
        decreases rows.len() - i,
    {
        let row: &Json = &rows[i];
        assert(rows@.take(i + 1).drop_last() =~= rows@.take(i as int));
        if let Some(snapshot_id) = row.text_of("snapshot_id") {
            let ghost before = current.rows_by_snapshot@;
            let key: String = snapshot_id.to_owned();
            let mut list: Vec<Json> = take_list(&mut current.rows_by_snapshot, &key);
            put_row(&mut list, row);
            proof {
                lists_replaced(before, key@, list);
            }
            current.rows_by_snapshot.insert(key, list);
            if let Some(id) = row.text_of("id") {
                current.row_idempotency.insert((snapshot_id.to_owned(), id.to_owned()), ());
            }
        }
        i += 1;
    }
    assert(rows@.take(i as int) =~= rows@);
}

/// The key under which the parsed blocks of an ingest result are kept.
pub open spec fn result_document_key(result: IngestTaskResult) -> DocumentKeyView {
    DocumentKeyView {
        tenant_id: result.task.tenant_id@,
        owner_user_id: opt_text(result.task.owner_user_id),
        uri: result.source_document_uri@,
    }
}

/// The key under which the parsed blocks of an ingest result are kept.
pub fn document_key_of_result(result: &IngestTaskResult) -> (r: SourceDocumentKey)
    ensures
        r@ == result_document_key(*result),
{
    SourceDocumentKey {
        tenant_id: result.task.tenant_id.clone(),
        owner_user_id: result.task.owner_user_id.clone(),
        uri: result.source_document_uri.clone(),
    }
}

/// The parsed blocks without those of the results of `task_ids`.
pub open spec fn without_task_blocks(
    blocks: Map<DocumentKeyView, Vec<ParsedBlock>>,
    results: Map<Seq<char>, IngestTaskResult>,
    task_ids: Seq<Seq<char>>,
) -> Map<DocumentKeyView, Vec<ParsedBlock>> {
    Map::new(
        |k: DocumentKeyView|
            blocks.dom().contains(k) && !exists|t: Seq<char>| #[trigger]
                task_ids.contains(t) && results.dom().contains(t) && result_document_key(results[t])
                    == k,
        |k: DocumentKeyView| blocks[k],
    )
}

proof fn lemma_without_one_more(
    blocks: Map<DocumentKeyView, Vec<ParsedBlock>>,
    results: Map<Seq<char>, IngestTaskResult>,
    done: Seq<Seq<char>>,
    t0: Seq<char>,
)
    ensures
        without_task_blocks(blocks, results, done.push(t0)) == (if results.dom().contains(t0) {
            without_task_blocks(blocks, results, done).remove(result_document_key(results[t0]))
        } else {
            without_task_blocks(blocks, results, done)
        }),
{
    let next = done.push(t0);
    let one = without_task_blocks(blocks, results, next);
    let other = if results.dom().contains(t0) {
        without_task_blocks(blocks, results, done).remove(result_document_key(results[t0]))
    } else {
        without_task_blocks(blocks, results, done)
    };
    assert forall|t: Seq<char>| #[trigger] next.contains(t) == (done.contains(t) || t == t0) by {
        if done.contains(t) {
            let j = choose|j: int| 0 <= j < done.len() && done[j] == t;
            assert(next[j] == t);
        }
        assert(next[done.len() as int] == t0);
    }
    assert forall|k: DocumentKeyView| one.dom().contains(k) == other.dom().contains(k) by {
        if exists|t: Seq<char>| #[trigger]
            done.contains(t) && results.dom().contains(t) && result_document_key(results[t]) == k {
            let t = choose|t: Seq<char>| #[trigger]
                done.contains(t) && results.dom().contains(t) && result_document_key(results[t])
                    == k;
            assert(next.contains(t));
        }
        if exists|t: Seq<char>| #[trigger]
            next.contains(t) && results.dom().contains(t) && result_document_key(results[t]) == k {
            let t = choose|t: Seq<char>| #[trigger]
                next.contains(t) && results.dom().contains(t) && result_document_key(results[t])
                    == k;
            assert(done.contains(t) || t == t0);
        }
        assert(next.contains(t0));
    }
    assert(one =~= other);
}

proof fn lemma_without_same(
    blocks: Map<DocumentKeyView, Vec<ParsedBlock>>,
    results: Map<Seq<char>, IngestTaskResult>,
    done: Seq<Seq<char>>,
    t0: Seq<char>,
)
    requires
        done.contains(t0),
    ensures
        without_task_blocks(blocks, results, done.push(t0)) == without_task_blocks(
            blocks,
            results,
            done,
        ),
{
    lemma_without_one_more(blocks, results, done, t0);
    let m = without_task_blocks(blocks, results, done);
    if results.dom().contains(t0) {
        assert(!m.dom().contains(result_document_key(results[t0])));
        assert(m.remove(result_document_key(results[t0])) =~= m);
    }
}

/// Removes ingest tasks with their results and the parsed blocks of these.
pub fn delete_ingest_tasks(current: &mut StoreData, task_ids: &Vec<String>)
    ensures
        *final(current) == (StoreData {
            ingest_tasks: final(current).ingest_tasks,
            ingest_results: final(current).ingest_results,
            parsed_blocks: final(current).parsed_blocks,
            ..*old(current)
        }),
        final(current).ingest_tasks@ == old(current).ingest_tasks@.remove_keys(
            texts(task_ids@).to_set(),
        ),
        final(current).ingest_results@ == old(current).ingest_results@.remove_keys(
            texts(task_ids@).to_set(),
        ),
        final(current).parsed_blocks@ == without_task_blocks(
            old(current).parsed_blocks@,
            old(current).ingest_results@,
            texts(task_ids@),
        ),
{
    let ghost results = current.ingest_results@;
    let ghost blocks = current.parsed_blocks@;
    let ghost tasks = current.ingest_tasks@;
    let ghost ids = texts(task_ids@);
    let mut i: usize = 0;
    assert(tasks.remove_keys(ids.take(0).to_set()) =~= tasks);
    assert(results.remove_keys(ids.take(0).to_set()) =~= results);
    assert(without_task_blocks(blocks, results, ids.take(0)) =~= blocks);
    while i < task_ids.len()
        invariant
            i <= task_ids.len(),
            ids == texts(task_ids@),
            results == old(current).ingest_results@,
            blocks == old(current).parsed_blocks@,
            tasks == old(current).ingest_tasks@,
            *current == (StoreData {
                ingest_tasks: current.ingest_tasks,
                ingest_results: current.ingest_results,
                parsed_blocks: current.parsed_blocks,
                ..*old(current)
            }),
            current.ingest_tasks@ == tasks.remove_keys(ids.take(i as int).to_set()),
            current.ingest_results@ == results.remove_keys(ids.take(i as int).to_set()),
            current.parsed_blocks@ == without_task_blocks(blocks, results, ids.take(i as int)),
        decreases task_ids.len() - i,
    {
        let task_id: &String = &task_ids[i];
        let ghost t0 = task_id@;
        let ghost done = ids.take(i as int);
        let ghost next = ids.take(i + 1);
        proof {
            assert(next =~= done.push(t0));
            assert forall|t: Seq<char>| #[trigger] next.contains(t) == (done.contains(t) || t
                == t0) by {
                if done.contains(t) {
                    let j = choose|j: int| 0 <= j < done.len() && done[j] == t;
                    assert(next[j] == t);
                }
                assert(next[i as int] == t0);
            }
        }
        let _removed_task: Option<IngestTask> = current.ingest_tasks.remove(task_id);
        proof {
            lemma_without_one_more(blocks, results, done, t0);
            if done.contains(t0) {
                lemma_without_same(blocks, results, done, t0);
            }
        }
        if let Some(result) = current.ingest_results.remove(task_id) {
            let _removed_blocks: Option<Vec<ParsedBlock>> = current.parsed_blocks.remove(
                &document_key_of_result(&result),
            );
        }
        assert(current.ingest_tasks@ =~= tasks.remove_keys(next.to_set()));
        assert(current.ingest_results@ =~= results.remove_keys(next.to_set()));
        i += 1;
    }
    assert(ids.take(i as int) =~= ids);
}

/// Whether a record belongs to a company source: to the tenant, to no owner, to the source.
pub open spec fn of_company_source(
    tenant: Seq<char>,
    owner: Option<Seq<char>>,
    source: Seq<char>,
    tenant_id: Seq<char>,
    source_id: Seq<char>,
) -> bool {
    tenant == tenant_id && owner is None && source == source_id
}

/// Whether the parsed blocks under `k` are those of a document of a company source.
pub open spec fn blocks_of_source(
    documents: Seq<SourceDocument>,
    k: DocumentKeyView,
    tenant_id: Seq<char>,
    source_id: Seq<char>,
) -> bool {
    k.tenant_id == tenant_id && k.owner_user_id is None && any_where(
        documents,
        |d: SourceDocument|
            of_company_source(
                d.tenant_id@,
                opt_text(d.owner_user_id),
                d.source_id@,
                tenant_id,
                source_id,
            ) && d.uri@ == k.uri,
    )
}

/// Whether a revision is of another tenant.
pub open spec fn of_another_tenant(tenant_id: Seq<char>) -> spec_fn(SourceRevision) -> bool {
    |r: SourceRevision| r.tenant_id@ != tenant_id
}

/// The revision lists without those of `tenant_id` under `source_id`.
pub open spec fn without_revisions(
    m: Map<Seq<char>, Seq<SourceRevision>>,
    tenant_id: Seq<char>,
    source_id: Seq<char>,
) -> Map<Seq<char>, Seq<SourceRevision>> {
    let left = list_at(m, source_id).filter(of_another_tenant(tenant_id));
    if !m.dom().contains(source_id) {
        m
    } else if left.len() == 0 {
        m.remove(source_id)
    } else {
        m.insert(source_id, left)
    }
}

/// Removes the revisions of `tenant_id` under `source_id`.
pub fn remove_revisions(current: &mut StoreData, tenant_id: &str, source_id: &String)
    ensures
        *final(current) == (StoreData {
            source_revisions: final(current).source_revisions,
            ..*old(current)
        }),
        lists(final(current).source_revisions@) == without_revisions(
            lists(old(current).source_revisions@),
            tenant_id@,
            source_id@,
        ),
{
    let ghost before = current.source_revisions@;
    if current.source_revisions.contains_key(source_id) {
        let mut list: Vec<SourceRevision> = take_list(&mut current.source_revisions, source_id);
        let ghost p = of_another_tenant(tenant_id@);
        let keep = |r: &SourceRevision| -> (b: bool)
            ensures
                b == p(*r),
            { !text_eq(r.tenant_id.as_str(), tenant_id) };
        crate::order::retain(&mut list, keep, Ghost(p));
        if list.len() > 0 {
            proof {
                lists_replaced(before, source_id@, list);
            }
            current.source_revisions.insert(source_id.clone(), list);
        } else {
            assert(lists(before.remove(source_id@)) =~= lists(before).remove(source_id@));
        }
    }
}

/// Whether a node is of another tenant or does not come from a source.
pub open spec fn not_from_source(tenant_id: Seq<char>, source_id: Seq<char>) -> spec_fn(
    ContextNode,
) -> bool {
    |node: ContextNode|
        node.tenant_id@ != tenant_id || opt_text(node.source_id) != Some(source_id)
}

/// The context nodes without those of `tenant_id` that come from `source_id`.
pub open spec fn without_source_nodes(
    nodes: Seq<ContextNode>,
    tenant_id: Seq<char>,
    source_id: Seq<char>,
) -> Seq<ContextNode> {
    nodes.filter(not_from_source(tenant_id, source_id))
}

/// Removes the context nodes of `tenant_id` that come from `source_id`.
pub fn remove_source_nodes(current: &mut StoreData, tenant_id: &str, source_id: &str)
    ensures
        *final(current) == (StoreData {
            company_context: final(current).company_context,
            ..*old(current)
        }),
        final(current).company_context@ == without_source_nodes(
            old(current).company_context@,
            tenant_id@,
            source_id@,
        ),
{
    let ghost p = not_from_source(tenant_id@, source_id@);
    let keep = |node: &ContextNode| -> (b: bool)
        ensures
            b == p(*node),
        { !text_eq(node.tenant_id.as_str(), tenant_id) || !opt_is(&node.source_id, source_id) };
    crate::order::retain(&mut current.company_context, keep, Ghost(p));
}

/// Removes the parse artifacts of a company source.
pub fn remove_source_artifacts(current: &mut StoreData, tenant_id: &str, source_id: &str)
    ensures
        *final(current) == (StoreData {
            parse_artifacts: final(current).parse_artifacts,
            ..*old(current)
        }),
        final(current).parse_artifacts@ == kept(
            old(current).parse_artifacts@,
            |k: crate::data::ArtifactKeyView, a: ParseArtifact|
                !of_company_source(
                    a.tenant_id@,
                    opt_text(a.owner_user_id),
                    a.source_id@,
                    tenant_id@,
                    source_id@,
                ),
        ),
{
    let ghost p = |k: crate::data::ArtifactKeyView, a: ParseArtifact|
        !of_company_source(
            a.tenant_id@,
            opt_text(a.owner_user_id),
            a.source_id@,
            tenant_id@,
            source_id@,
        );
    let keep = |k: &ParseArtifactKey, a: &ParseArtifact| -> (b: bool)
        ensures
            b == p(k@, *a),
        {
            !text_eq(a.tenant_id.as_str(), tenant_id) || a.owner_user_id.is_some() || !text_eq(
                a.source_id.as_str(),
                source_id,
            )
        };
    current.parse_artifacts.retain(keep, Ghost(p));
}

/// What publishing the deletion of one index of a company source changes.
pub open spec fn deletion_published(
    before: StoreData,
    after: StoreData,
    tenant_id: Seq<char>,
    source_id: Seq<char>,
    target: DeleteTargetView,
) -> bool {
    match target {
        DeleteTargetView::Fragments => {
            &&& after == (StoreData { company_context: after.company_context, ..before })
            &&& after.company_context@ == without_source_nodes(
                before.company_context@,
                tenant_id,
                source_id,
            )
        },
        DeleteTargetView::Revisions => {
            &&& after == (StoreData { source_revisions: after.source_revisions, ..before })
            &&& lists(after.source_revisions@) == without_revisions(
                lists(before.source_revisions@),
                tenant_id,
                source_id,
            )
        },
        DeleteTargetView::Source => {
            &&& after == (StoreData { sources: after.sources, ..before })
            &&& after.sources@ == (if before.sources@.dom().contains(source_id)
                && before.sources@[source_id].tenant_id@ == tenant_id {
                before.sources@.remove(source_id)
            } else {
                before.sources@
            })
        },
        DeleteTargetView::SourceDocuments => {
            &&& after == (StoreData {
                source_documents: after.source_documents,
                parsed_blocks: after.parsed_blocks,
                ..before
            })
            &&& after.source_documents@ == kept(
                before.source_documents@,
                |k: DocumentKeyView, d: SourceDocument|
                    !of_company_source(
                        d.tenant_id@,
                        opt_text(d.owner_user_id),
                        d.source_id@,
                        tenant_id,
                        source_id,
                    ),
            )
            &&& after.parsed_blocks@ == kept(
                before.parsed_blocks@,
                |k: DocumentKeyView, b: Vec<ParsedBlock>|
                    !blocks_of_source(before.source_documents.values(), k, tenant_id, source_id),
            )
        },
        DeleteTargetView::ParseArtifacts => {
            &&& after == (StoreData { parse_artifacts: after.parse_artifacts, ..before })
            &&& after.parse_artifacts@ == kept(
                before.parse_artifacts@,
                |k: crate::data::ArtifactKeyView, a: ParseArtifact|
                    !of_company_source(
                        a.tenant_id@,
                        opt_text(a.owner_user_id),
                        a.source_id@,
                        tenant_id,
                        source_id,
                    ),
            )
        },
        DeleteTargetView::IngestTasks => {
            &&& after == (StoreData { ingest_tasks: after.ingest_tasks, ..before })
            &&& after.ingest_tasks@ == kept(
                before.ingest_tasks@,
                |k: Seq<char>, t: IngestTask|
                    !of_company_source(
                        t.tenant_id@,
                        opt_text(t.owner_user_id),
                        t.source_id@,
                        tenant_id,
                        source_id,
                    ),
            )
        },
        DeleteTargetView::IngestResults => {
            &&& after == (StoreData { ingest_results: after.ingest_results, ..before })
            &&& after.ingest_results@ == kept(
                before.ingest_results@,
                |k: Seq<char>, r: IngestTaskResult|
                    !of_company_source(
                        r.task.tenant_id@,
                        opt_text(r.task.owner_user_id),
                        r.source_id@,
                        tenant_id,
                        source_id,
                    ),
            )
        },
        DeleteTargetView::Links { link_ids, related_uris } => {
            &&& after == (StoreData {
                links: after.links,
                link_idempotency: after.link_idempotency,
                ..before
            })
            &&& after.links@ == kept(
                before.links@,
                |k: Seq<char>, l: KnowledgeLink|
                    l.tenant_id@ != tenant_id || !link_ids.contains(k),
            )
            &&& after.link_idempotency@ == kept(
                before.link_idempotency@,
                |k: (Seq<char>, Seq<char>, Seq<char>), id: String| !link_ids.contains(id@),
            )
        },
    }
}

fn publish_deletion(
    current: &mut StoreData,
    tenant_id: &str,
    source_id: &String,
    target: &CompanySourceDeleteTarget,
)
    ensures
        deletion_published(*old(current), *final(current), tenant_id@, source_id@, target@),
{
    match target {
        CompanySourceDeleteTarget::Fragments => {
            remove_source_nodes(current, tenant_id, source_id.as_str());
        },
        CompanySourceDeleteTarget::Revisions => {
            remove_revisions(current, tenant_id, source_id);
        },
        CompanySourceDeleteTarget::Source => {
            let owned: bool = match current.sources.get(source_id) {
                Some(source) => text_eq(source.tenant_id.as_str(), tenant_id),
                None => false,
            };
            if owned {
                current.sources.remove(source_id);
            }
        },
        CompanySourceDeleteTarget::SourceDocuments => {
            let ghost documents = current.source_documents.values();
            let ghost pb = |k: DocumentKeyView, b: Vec<ParsedBlock>|
                !blocks_of_source(documents, k, tenant_id@, source_id@);
            let table: &Table<SourceDocumentKey, SourceDocument> = &current.source_documents;
            let keep_blocks = |k: &SourceDocumentKey, b: &Vec<ParsedBlock>| -> (r: bool)
                ensures
                    r == pb(k@, *b),
                {
                    let ghost q = |d: SourceDocument|
                        of_company_source(
                            d.tenant_id@,
                            opt_text(d.owner_user_id),
                            d.source_id@,
                            tenant_id@,
                            source_id@,
                        ) && d.uri@ == k@.uri;
                    let accept = |d: &SourceDocument| -> (c: bool)
                        ensures
                            c == q(*d),
                        {
                            text_eq(d.tenant_id.as_str(), tenant_id) && d.owner_user_id.is_none()
                                && text_eq(d.source_id.as_str(), source_id.as_str()) && text_eq(
                                d.uri.as_str(),
                                k.uri.as_str(),
                            )
                        };
                    !text_eq(k.tenant_id.as_str(), tenant_id) || k.owner_user_id.is_some()
                        || !any_value(table, accept, Ghost(q))
                };
            current.parsed_blocks.retain(keep_blocks, Ghost(pb));
            let ghost pd = |k: DocumentKeyView, d: SourceDocument|
                !of_company_source(
                    d.tenant_id@,
                    opt_text(d.owner_user_id),
                    d.source_id@,
                    tenant_id@,
                    source_id@,
                );
            let keep = |k: &SourceDocumentKey, d: &SourceDocument| -> (b: bool)
                ensures
                    b == pd(k@, *d),
                {
                    !text_eq(d.tenant_id.as_str(), tenant_id) || d.owner_user_id.is_some()
                        || !text_eq(d.source_id.as_str(), source_id.as_str())
                };
            current.source_documents.retain(keep, Ghost(pd));
        },
        CompanySourceDeleteTarget::ParseArtifacts => {
            remove_source_artifacts(current, tenant_id, source_id.as_str());
        },
        CompanySourceDeleteTarget::IngestTasks => {
            let ghost p = |k: Seq<char>, t: IngestTask|
                !of_company_source(
                    t.tenant_id@,
                    opt_text(t.owner_user_id),
                    t.source_id@,
                    tenant_id@,
                    source_id@,
                );
            let keep = |k: &String, t: &IngestTask| -> (b: bool)
                ensures
                    b == p(k@, *t),
                {
                    !text_eq(t.tenant_id.as_str(), tenant_id) || t.owner_user_id.is_some()
                        || !text_eq(t.source_id.as_str(), source_id.as_str())
                };
            current.ingest_tasks.retain(keep, Ghost(p));
        },
        CompanySourceDeleteTarget::IngestResults => {
            let ghost p = |k: Seq<char>, r: IngestTaskResult|
                !of_company_source(
                    r.task.tenant_id@,
                    opt_text(r.task.owner_user_id),
                    r.source_id@,
                    tenant_id@,
                    source_id@,
                );
            let keep = |k: &String, r: &IngestTaskResult| -> (b: bool)
                ensures
                    b == p(k@, *r),
                {
                    !text_eq(r.task.tenant_id.as_str(), tenant_id) || r.task.owner_user_id.is_some()
                        || !text_eq(r.source_id.as_str(), source_id.as_str())
                };
            current.ingest_results.retain(keep, Ghost(p));
        },
        CompanySourceDeleteTarget::Links { link_ids, related_uris } => {
            let ids: &Vec<String> = link_ids;
            let ghost p = |k: Seq<char>, l: KnowledgeLink|
                l.tenant_id@ != tenant_id@ || !texts(ids@).contains(k);
            let keep = |k: &String, l: &KnowledgeLink| -> (b: bool)
                ensures
                    b == p(k@, *l),
                {
                    !text_eq(l.tenant_id.as_str(), tenant_id) || !texts_contain(ids, k.as_str())
                };
            current.links.retain(keep, Ghost(p));
            let ghost q = |k: (Seq<char>, Seq<char>, Seq<char>), id: String|
                !texts(ids@).contains(id@);
            let keep_key = |k: &(String, String, String), id: &String| -> (b: bool)
                ensures
                    b == q(k@, *id),
                { !texts_contain(ids, id.as_str()) };
            current.link_idempotency.retain(keep_key, Ghost(q));
        },
    }
}

/// What publishing one accepted resource changes: nothing but the keys that it stands for.
pub open spec fn published(
    before: StoreData,
    after: StoreData,
    staged: StoreData,
    tenant_id: Seq<char>,
    resource: ResourceView,
) -> bool {
    match resource {
        ResourceView::EnsureUserEventIndex { index } => {
            &&& after == (StoreData {
                user_indexes: after.user_indexes,
                events_by_index: after.events_by_index,
                personal_context: after.personal_context,
                ..before
            })
            &&& after.user_indexes@ == before.user_indexes@.insert(
                (index.tenant_id@, index.owner_user_id_hash@),
                index,
            )
            &&& lists(after.events_by_index@) == lists(before.events_by_index@).insert(
                index.event_index_uid@,
                list_at(lists(before.events_by_index@), index.event_index_uid@),
            )
            &&& lists(after.personal_context@) == lists(before.personal_context@).insert(
                index.personal_context_index_uid@,
                list_at(lists(before.personal_context@), index.personal_context_index_uid@),
            )
        },
        ResourceView::HistoryEvents { events } => {
            &&& after == (StoreData {
                event_idempotency: after.event_idempotency,
                events_by_index: after.events_by_index,
                event_by_id: after.event_by_id,
                ..before
            })
            &&& after.event_idempotency@ == with_event_keys(
                with_accepted(
                    before.event_idempotency@,
                    staged.event_idempotency@,
                    event_ids(events),
                ),
                events,
            )
            &&& lists(after.events_by_index@) == with_events(
                lists(before.events_by_index@),
                events,
            )
            &&& after.event_by_id@ == inserted_all::<String, HistoryEvent>(
                before.event_by_id@,
                events,
            )
        },
        ResourceView::ContextNodes { index_uid, nodes } => {
            if index_uid == COMPANY_CONTEXT_INDEX@ {
                &&& after == (StoreData { company_context: after.company_context, ..before })
                &&& after.company_context@ == with_nodes(before.company_context@, nodes)
            } else {
                &&& after == (StoreData { personal_context: after.personal_context, ..before })
                &&& lists(after.personal_context@) == lists(before.personal_context@).insert(
                    index_uid,
                    with_nodes(list_at(lists(before.personal_context@), index_uid), nodes),
                )
            }
        },
        ResourceView::StateItem { item } => {
            &&& after == (StoreData { state_items: after.state_items, ..before })
            &&& after.state_items@ == merged::<(String, String, String), _>(
                before.state_items@,
                item,
            )
        },
        ResourceView::Insight { insight } => {
            &&& after == (StoreData {
                insights: after.insights,
                insight_idempotency: after.insight_idempotency,
                ..before
            })
            &&& after.insight_idempotency@ == with_accepted(
                before.insight_idempotency@,
                staged.insight_idempotency@,
                seq![insight.id@],
            )
            &&& after.insights@ == merged::<String, _>(before.insights@, insight)
        },
        ResourceView::CompanySource { source } => {
            &&& after == (StoreData { sources: after.sources, ..before })
            &&& after.sources@ == before.sources@.insert(source.id@, source)
        },
        ResourceView::SourceRevision { revision } => {
            &&& after == (StoreData { source_revisions: after.source_revisions, ..before })
            &&& lists(after.source_revisions@) == lists(before.source_revisions@).insert(
                revision.source_id@,
                with_revision(
                    list_at(lists(before.source_revisions@), revision.source_id@),
                    revision,
                ),
            )
        },
        ResourceView::DeleteCompanySourceIndex { source_id, target } => {
            deletion_published(before, after, tenant_id, source_id, target)
        },
        ResourceView::SourceDocuments { documents } => {
            &&& after == (StoreData { source_documents: after.source_documents, ..before })
            &&& after.source_documents@ == merged_all::<SourceDocumentKey, SourceDocument>(
                before.source_documents@,
                documents,
            )
        },
        ResourceView::ParseArtifacts { artifacts } => {
            &&& after == (StoreData { parse_artifacts: after.parse_artifacts, ..before })
            &&& after.parse_artifacts@ == inserted_all::<ParseArtifactKey, ParseArtifact>(
                before.parse_artifacts@,
                artifacts,
            )
        },
        ResourceView::StructuredSnapshot { snapshot } => {
            &&& after == (StoreData {
                snapshots: after.snapshots,
                snapshot_idempotency: after.snapshot_idempotency,
                ..before
            })
            &&& after.snapshot_idempotency@ == with_accepted(
                before.snapshot_idempotency@,
                staged.snapshot_idempotency@,
                seq![snapshot.id@],
            )
            &&& after.snapshots@ == before.snapshots@.insert(snapshot.id@, snapshot)
        },
        ResourceView::Dataset { dataset } => {
            &&& after == (StoreData { datasets: after.datasets, ..before })
            &&& after.datasets@ == before.datasets@.insert(dataset.dataset_key@, dataset)
        },
        ResourceView::StructuredRows { rows } => {
            &&& after == (StoreData {
                rows_by_snapshot: after.rows_by_snapshot,
                row_idempotency: after.row_idempotency,
                ..before
            })
            &&& lists(after.rows_by_snapshot@) == with_rows(lists(before.rows_by_snapshot@), rows)
            &&& after.row_idempotency@ == with_row_ids(before.row_idempotency@, rows)
        },
        ResourceView::StructuredSummary { summary } => {
            &&& after == (StoreData { structured_summaries: after.structured_summaries, ..before })
            &&& after.structured_summaries@ == (match text_member(summary, "id"@) {
                Some(id) => before.structured_summaries@.insert(id, summary),
                None => before.structured_summaries@,
            })
        },
        ResourceView::Session { session } => {
            &&& after == (StoreData { sessions: after.sessions, ..before })
            &&& after.sessions@ == before.sessions@.insert(session.id@, session)
        },
        ResourceView::Trace { trace } => {
            &&& after == (StoreData { traces: after.traces, ..before })
            &&& after.traces@ == (if before.traces@.dom().contains(trace.id@) {
                before.traces@
            } else {
                before.traces@.insert(trace.id@, trace)
            })
        },
        ResourceView::Links { links } => {
            &&& after == (StoreData {
                links: after.links,
                link_idempotency: after.link_idempotency,
                ..before
            })
            &&& after.link_idempotency@ == with_accepted(
                before.link_idempotency@,
                staged.link_idempotency@,
                link_ids_of(links),
            )
            &&& after.links@ == merged_all::<String, KnowledgeLink>(before.links@, links)
        },
        ResourceView::HarnessComponents { components, revisions } => {
            &&& after == (StoreData {
                harness_components: after.harness_components,
                harness_revisions: after.harness_revisions,
                ..before
            })
            &&& after.harness_components@ == inserted_all::<String, _>(
                before.harness_components@,
                components,
            )
            &&& lists(after.harness_revisions@) == with_component_revisions(
                lists(before.harness_revisions@),
                revisions,
            )
        },
        ResourceView::HarnessChanges { changes } => {
            &&& after == (StoreData { harness_changes: after.harness_changes, ..before })
            &&& after.harness_changes@ == inserted_all::<String, _>(
                before.harness_changes@,
                changes,
            )
        },
        ResourceView::HarnessVerdicts { verdicts } => {
            &&& after == (StoreData { harness_verdicts: after.harness_verdicts, ..before })
            &&& after.harness_verdicts@ == inserted_all::<String, _>(
                before.harness_verdicts@,
                verdicts,
            )
        },
        ResourceView::IngestTask { task } => {
            &&& after == (StoreData { ingest_tasks: after.ingest_tasks, ..before })
            &&& after.ingest_tasks@ == merged::<String, _>(before.ingest_tasks@, task)
        },
        ResourceView::IngestTasks { tasks } => {
            &&& after == (StoreData { ingest_tasks: after.ingest_tasks, ..before })
            &&& after.ingest_tasks@ == merged_all::<String, _>(before.ingest_tasks@, tasks)
        },
        ResourceView::DeleteIngestTasks { task_ids } => {
            &&& after == (StoreData {
                ingest_tasks: after.ingest_tasks,
                ingest_results: after.ingest_results,
                parsed_blocks: after.parsed_blocks,
                ..before
            })
            &&& after.ingest_tasks@ == before.ingest_tasks@.remove_keys(task_ids.to_set())
            &&& after.ingest_results@ == before.ingest_results@.remove_keys(task_ids.to_set())
            &&& after.parsed_blocks@ == without_task_blocks(
                before.parsed_blocks@,
                before.ingest_results@,
                task_ids,
            )
        },
        ResourceView::IngestResult { result } => {
            &&& after == (StoreData {
                ingest_results: after.ingest_results,
                parsed_blocks: after.parsed_blocks,
                ..before
            })
            &&& after.ingest_results@ == merged::<String, _>(before.ingest_results@, result)
            &&& lists(after.parsed_blocks@) == (if has_newer::<String, _>(
                before.ingest_results@,
                result,
            ) {
                lists(before.parsed_blocks@)
            } else {
                lists(before.parsed_blocks@).insert(
                    result_document_key(result),
                    result.parsed_blocks@,
                )
            })
        },
        ResourceView::EvalCase { case } => {
            &&& after == (StoreData { eval_cases: after.eval_cases, ..before })
            &&& after.eval_cases@ == before.eval_cases@.insert(case.id@, case)
        },
        ResourceView::EvalRun { run } => {
            &&& after == (StoreData { eval_runs: after.eval_runs, ..before })
            &&& after.eval_runs@ == before.eval_runs@.insert(run.id@, run)
        },
        ResourceView::EvalCaseResults { results } => {
            &&& after == (StoreData { eval_case_results: after.eval_case_results, ..before })
            &&& after.eval_case_results@ == inserted_all::<String, _>(
                before.eval_case_results@,
                results,
            )
        },
        ResourceView::EvalOverview { overview } => {
            &&& after == (StoreData { eval_overviews: after.eval_overviews, ..before })
            &&& after.eval_overviews@ == before.eval_overviews@.insert(overview.run_id@, overview)
        },
    }
}

/// The ids of events.
pub open spec fn event_ids(events: Seq<HistoryEvent>) -> Seq<Seq<char>> {
    Seq::new(events.len(), |i: int| events[i].id@)
}

/// The ids of links.
pub open spec fn link_ids_of(links: Seq<KnowledgeLink>) -> Seq<Seq<char>> {
    Seq::new(links.len(), |i: int| links[i].id@)
}

fn ids_of_events(events: &Vec<HistoryEvent>) -> (r: Vec<String>)
    ensures
        texts(r@) == event_ids(events@),
{
    let mut ids: Vec<String> = Vec::new();
    let mut i: usize = 0;
    while i < events.len()
        invariant
            i <= events.len(),
            ids@.len() == i,
            forall|j: int| 0 <= j < i ==> ids@[j] == events@[j].id,
        decreases events.len() - i,
    {
        ids.push(events[i].id.clone());
        i += 1;
    }
    assert(texts(ids@) =~= event_ids(events@));
    ids
}

fn ids_of_links(links: &Vec<KnowledgeLink>) -> (r: Vec<String>)
    ensures
        texts(r@) == link_ids_of(links@),
{
    let mut ids: Vec<String> = Vec::new();
    let mut i: usize = 0;
    while i < links.len()
        invariant
            i <= links.len(),
            ids@.len() == i,
            forall|j: int| 0 <= j < i ==> ids@[j] == links@[j].id,
        decreases links.len() - i,
    {
        ids.push(links[i].id.clone());
        i += 1;
    }
    assert(texts(ids@) =~= link_ids_of(links@));
    ids
}

fn one_id(id: &String) -> (r: Vec<String>)
    ensures
        texts(r@) == seq![id@],
{
    let mut ids: Vec<String> = Vec::new();
    ids.push(id.clone());
    assert(texts(ids@) =~= seq![id@]);
    ids
}

/// Projects one durably accepted operation resource into the live state.
pub fn publish_resource_cache(
    current: &mut StoreData,
    staged: &StoreData,
    tenant_id: &str,
    resource: &OperationResource,
)
    ensures
        published(*old(current), *final(current), *staged, tenant_id@, resource@),
{
    match resource {
        OperationResource::EnsureUserEventIndex { index } => {
            current.user_indexes.insert(
                (index.tenant_id.clone(), index.owner_user_id_hash.clone()),
                index.clone(),
            );
            ensure_list(&mut current.events_by_index, index.event_index_uid.clone());
            ensure_list(&mut current.personal_context, index.personal_context_index_uid.clone());
        },
        OperationResource::HistoryEvents { events } => {
            copy_idempotency_entries(
                &mut current.event_idempotency,
                &staged.event_idempotency,
                &ids_of_events(events),
            );
            publish_events(current, events);
        },
        OperationResource::ContextNodes { index_uid, nodes } => {
            if text_eq(index_uid.as_str(), COMPANY_CONTEXT_INDEX) {
                upsert_context_nodes(&mut current.company_context, nodes);
            } else {
                let ghost before = current.personal_context@;
                let mut list: Vec<ContextNode> = take_list(
                    &mut current.personal_context,
                    index_uid,
                );
                upsert_context_nodes(&mut list, nodes);
                proof {
                    lists_replaced(before, index_uid@, list);
                }
                current.personal_context.insert(index_uid.clone(), list);
            }
        },
        OperationResource::StateItem { item } => {
            merge_row(&mut current.state_items, item.clone());
        },
        OperationResource::Insight { insight } => {
            copy_idempotency_entries(
                &mut current.insight_idempotency,
                &staged.insight_idempotency,
                &one_id(&insight.id),
            );
            merge_row(&mut current.insights, insight.clone());
        },
        OperationResource::CompanySource { source } => {
            current.sources.insert(source.id.clone(), source.clone());
        },
        OperationResource::SourceRevision { revision } => {
            publish_revision(current, revision);
        },
        OperationResource::DeleteCompanySourceIndex { source_id, target } => {
            publish_deletion(current, tenant_id, source_id, target);
        },
        OperationResource::SourceDocuments { documents } => {
            merge_rows(&mut current.source_documents, documents);
        },
        OperationResource::ParseArtifacts { artifacts } => {
            insert_rows(&mut current.parse_artifacts, artifacts);
        },
        OperationResource::StructuredSnapshot { snapshot } => {
            copy_idempotency_entries(
                &mut current.snapshot_idempotency,
                &staged.snapshot_idempotency,
                &one_id(&snapshot.id),
            );
            current.snapshots.insert(snapshot.id.clone(), snapshot.clone());
        },
        OperationResource::Dataset { dataset } => {
            current.datasets.insert(dataset.dataset_key.clone(), dataset.clone());
        },
        OperationResource::StructuredRows { rows } => {
            publish_rows(current, rows);
        },
        OperationResource::StructuredSummary { summary } => {
            if let Some(id) = summary.text_of("id") {
                current.structured_summaries.insert(id.to_owned(), summary.clone());
            }
        },
        OperationResource::Session { session } => {
            current.sessions.insert(session.id.clone(), session.clone());
        },
        OperationResource::Trace { trace } => {
            if !current.traces.contains_key(&trace.id) {
                current.traces.insert(trace.id.clone(), trace.clone());
            }
        },
        OperationResource::Links { links } => {
            copy_idempotency_entries(
                &mut current.link_idempotency,
                &staged.link_idempotency,
                &ids_of_links(links),
            );
            merge_rows(&mut current.links, links);
        },
        OperationResource::HarnessComponents { components, revisions } => {
            insert_rows(&mut current.harness_components, components);
            publish_component_revisions(current, revisions);
        },
        OperationResource::HarnessChanges { changes } => {
            insert_rows(&mut current.harness_changes, changes);
        },
        OperationResource::HarnessVerdicts { verdicts } => {
            insert_rows(&mut current.harness_verdicts, verdicts);
        },
        OperationResource::IngestTask { task } => {
            merge_row(&mut current.ingest_tasks, task.clone());
        },
        OperationResource::IngestTasks { tasks } => {
            merge_rows(&mut current.ingest_tasks, tasks);
        },
        OperationResource::DeleteIngestTasks { task_ids } => {
            delete_ingest_tasks(current, task_ids);
        },
        OperationResource::IngestResult { result } => {
            let put: bool = merge_row(&mut current.ingest_results, result.clone());
            if put {
                let ghost before = current.parsed_blocks@;
                let blocks: Vec<ParsedBlock> = copy_all(&result.parsed_blocks);
                current.parsed_blocks.insert(document_key_of_result(result), blocks);
                assert(lists(current.parsed_blocks@) =~= lists(before).insert(
                    result_document_key(*result),
                    blocks@,
                ));
            }
        },
        OperationResource::EvalCase { case } => {
            current.eval_cases.insert(case.id.clone(), case.clone());
        },
        OperationResource::EvalRun { run } => {
            current.eval_runs.insert(run.id.clone(), run.clone());
        },
        OperationResource::EvalCaseResults { results } => {
            insert_rows(&mut current.eval_case_results, results);
        },
        OperationResource::EvalOverview { overview } => {
            current.eval_overviews.insert(overview.run_id.clone(), overview.clone());
        },
    }
}

} // verus!
