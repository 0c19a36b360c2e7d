//! What a mutation asks to be made durable: all that it changed for its tenant, and nothing that
//! it left alone.

use vstd::prelude::*;

use crate::data::{ArtifactKeyView, DocumentKeyView, ParseArtifactKey, SourceDocumentKey, StoreData};
use crate::laws::choosing::{
    a_filter_keeps_what_it_accepts, a_sum_holds_what_either_holds, sorting_keeps_members,
};
use crate::model::harness::{
    HarnessChangeManifest, HarnessChangeVerdict, RagEvalCase, RagEvalCaseResult, RagEvalOverview,
    RagEvalRun,
};
use crate::model::ingest::{
    CompanySource, IngestTask, IngestTaskResult, ParseArtifact, SourceDocument, SourceRevision,
};
use crate::model::knowledge::{
    ContextNode, DatasetRecord, HistoryEvent, InsightRecord, KnowledgeLink, SessionRecord,
    StateItem, StructuredSnapshot, TraceRecord, UserEventIndex,
};
use crate::model::operation::{DeleteTargetView, ResourceView};
use crate::order::{deduped_keeps_contents, sorted_by};
use crate::plan::{
    all_deletion_resources, component_resources, deletion_resources, differs_from,
    document_resources, eval_resources, event_of_index, event_resources, events_of_index, flattened,
    gone_sources, gone_task_ids, identity_lt, index_uids, knowledge_resources, last_with_identity,
    last_with_key, list_changes, mutation_delta, node_changes, node_differs_from, node_of_tenant,
    node_resource, nodes_of_tenant, operational_resources, owned_by, personal_resources,
    personal_uids, row_resources, session_and_link_resources, some_resource, source_is_gone,
    source_uris, structured_resources, summary_resources, task_is_gone, tenant_snapshot_ids,
    touches_any, touching_link_ids,
};
use crate::publish::COMPANY_CONTEXT_INDEX;
use crate::record::{by_rank, changed_of, changes, Record, Row};
use crate::table::TableKey;
use crate::text::{opt_text, sorted_texts, text_lt};

verus! {

/// A list that is made item by item holds what is made of each item.
proof fn lemma_in_made<A, B>(s: Seq<A>, f: spec_fn(A) -> B, x: A)
    requires
        s.contains(x),
    ensures
        s.map_values(f).contains(f(x)),
{
    let i = choose|i: int| 0 <= i < s.len() && s[i] == x;
    assert(s.map_values(f)[i] == f(x));
}

/// A row that is new or has changed is among the changes.
proof fn lemma_among_changes<K: TableKey, R: Row<K>>(
    before: Map<K::V, R>,
    after: Seq<R>,
    tenant_id: Seq<char>,
    row: R,
)
    ensures
        changes::<K, R>(before, after, tenant_id).contains(row) <==> after.contains(row)
            && row.tenant() == tenant_id && !(before.dom().contains(row.key())
            && before[row.key()].same_as(&row)),
{
    let p = changed_of::<K, R>(before, tenant_id);
    sorting_keeps_members(after.filter(p), by_rank::<K, R>(), row);
    a_filter_keeps_what_it_accepts(after, p, row);
}

/// The part on events, nodes, facts and insights holds what its pieces hold.
proof fn lemma_knowledge_resources(
    before: StoreData,
    after: StoreData,
    tenant_id: Seq<char>,
    x: ResourceView,
)
    ensures
        knowledge_resources(before, after, tenant_id).contains(x) <==> {
            ||| changes::<(String, String), UserEventIndex>(before.user_indexes@, after.user_indexes.values(), tenant_id).map_values(
                |index: UserEventIndex| ResourceView::EnsureUserEventIndex { index },
            ).contains(x)
            ||| event_resources(before, after, tenant_id).contains(x)
            ||| node_resource(
                COMPANY_CONTEXT_INDEX@,
                before.company_context@,
                after.company_context@,
                tenant_id,
            ).contains(x)
            ||| personal_resources(
                before,
                after,
                tenant_id,
                personal_uids(before, after).len() as int,
            ).contains(x)
            ||| changes::<(String, String, String), StateItem>(before.state_items@, after.state_items.values(), tenant_id).map_values(
                |item: StateItem| ResourceView::StateItem { item },
            ).contains(x)
            ||| changes::<String, InsightRecord>(before.insights@, after.insights.values(), tenant_id).map_values(
                |insight: InsightRecord| ResourceView::Insight { insight },
            ).contains(x)
        },
{
    let a = changes::<(String, String), UserEventIndex>(before.user_indexes@, after.user_indexes.values(), tenant_id).map_values(
        |index: UserEventIndex| ResourceView::EnsureUserEventIndex { index },
    );
    let b = event_resources(before, after, tenant_id);
    let c = node_resource(
        COMPANY_CONTEXT_INDEX@,
        before.company_context@,
        after.company_context@,
        tenant_id,
    );
    let d = personal_resources(
        before,
        after,
        tenant_id,
        personal_uids(before, after).len() as int,
    );
    let e = changes::<(String, String, String), StateItem>(before.state_items@, after.state_items.values(), tenant_id).map_values(
        |item: StateItem| ResourceView::StateItem { item },
    );
    let f = changes::<String, InsightRecord>(before.insights@, after.insights.values(), tenant_id).map_values(
        |insight: InsightRecord| ResourceView::Insight { insight },
    );
    a_sum_holds_what_either_holds(a, b, x);
    a_sum_holds_what_either_holds(a + b, c, x);
    a_sum_holds_what_either_holds(a + b + c, d, x);
    a_sum_holds_what_either_holds(a + b + c + d, e, x);
    a_sum_holds_what_either_holds(a + b + c + d + e, f, x);
    assert(knowledge_resources(before, after, tenant_id) == a + b + c + d + e + f);
}

/// The part on sources and documents holds what its pieces hold.
proof fn lemma_document_resources(
    before: StoreData,
    after: StoreData,
    tenant_id: Seq<char>,
    x: ResourceView,
)
    ensures
        document_resources(before, after, tenant_id).contains(x) <==> {
            ||| changes::<String, CompanySource>(before.sources@, after.sources.values(), tenant_id).map_values(
                |source: CompanySource| ResourceView::CompanySource { source },
            ).contains(x)
            ||| all_deletion_resources(
                before,
                tenant_id,
                gone_sources(before, after, tenant_id),
            ).contains(x)
            ||| list_changes::<SourceRevision>(
                flattened(before.source_revisions.values()),
                flattened(after.source_revisions.values()),
                tenant_id,
            ).map_values(|revision: SourceRevision| ResourceView::SourceRevision { revision }).contains(x)
            ||| some_resource(
                changes::<SourceDocumentKey, SourceDocument>(before.source_documents@, after.source_documents.values(), tenant_id),
                |documents: Seq<SourceDocument>| ResourceView::SourceDocuments { documents },
            ).contains(x)
            ||| some_resource(
                changes::<ParseArtifactKey, ParseArtifact>(before.parse_artifacts@, after.parse_artifacts.values(), tenant_id),
                |artifacts: Seq<ParseArtifact>| ResourceView::ParseArtifacts { artifacts },
            ).contains(x)
        },
{
    let a = changes::<String, CompanySource>(before.sources@, after.sources.values(), tenant_id).map_values(
        |source: CompanySource| ResourceView::CompanySource { source },
    );
    let b = all_deletion_resources(
        before,
        tenant_id,
        gone_sources(before, after, tenant_id),
    );
    let c = list_changes::<SourceRevision>(
        flattened(before.source_revisions.values()),
        flattened(after.source_revisions.values()),
        tenant_id,
    ).map_values(|revision: SourceRevision| ResourceView::SourceRevision { revision });
    let d = some_resource(
        changes::<SourceDocumentKey, SourceDocument>(before.source_documents@, after.source_documents.values(), tenant_id),
        |documents: Seq<SourceDocument>| ResourceView::SourceDocuments { documents },
    );
    let e = some_resource(
        changes::<ParseArtifactKey, ParseArtifact>(before.parse_artifacts@, after.parse_artifacts.values(), tenant_id),
        |artifacts: Seq<ParseArtifact>| ResourceView::ParseArtifacts { artifacts },
    );
    a_sum_holds_what_either_holds(a, b, x);
    a_sum_holds_what_either_holds(a + b, c, x);
    a_sum_holds_what_either_holds(a + b + c, d, x);
    a_sum_holds_what_either_holds(a + b + c + d, e, x);
    assert(document_resources(before, after, tenant_id) == a + b + c + d + e);
}

/// The part on datasets holds what its pieces hold.
proof fn lemma_structured_resources(
    before: StoreData,
    after: StoreData,
    tenant_id: Seq<char>,
    x: ResourceView,
)
    ensures
        structured_resources(before, after, tenant_id).contains(x) <==> {
            ||| changes::<String, DatasetRecord>(before.datasets@, after.datasets.values(), tenant_id).map_values(
                |dataset: DatasetRecord| ResourceView::Dataset { dataset },
            ).contains(x)
            ||| changes::<String, StructuredSnapshot>(before.snapshots@, after.snapshots.values(), tenant_id).map_values(
                |snapshot: StructuredSnapshot| ResourceView::StructuredSnapshot { snapshot },
            ).contains(x)
            ||| row_resources(
                before,
                after,
                tenant_id,
                tenant_snapshot_ids(after, tenant_id).len() as int,
            ).contains(x)
            ||| summary_resources(before, after, tenant_id).contains(x)
        },
{
    let a = changes::<String, DatasetRecord>(before.datasets@, after.datasets.values(), tenant_id).map_values(
        |dataset: DatasetRecord| ResourceView::Dataset { dataset },
    );
    let b = changes::<String, StructuredSnapshot>(before.snapshots@, after.snapshots.values(), tenant_id).map_values(
        |snapshot: StructuredSnapshot| ResourceView::StructuredSnapshot { snapshot },
    );
    let c = row_resources(
        before,
        after,
        tenant_id,
        tenant_snapshot_ids(after, tenant_id).len() as int,
    );
    let d = summary_resources(before, after, tenant_id);
    a_sum_holds_what_either_holds(a, b, x);
    a_sum_holds_what_either_holds(a + b, c, x);
    a_sum_holds_what_either_holds(a + b + c, d, x);
    assert(structured_resources(before, after, tenant_id) == a + b + c + d);
}

/// The part on sessions, traces and links holds what its pieces hold.
proof fn lemma_session_and_link_resources(
    before: StoreData,
    after: StoreData,
    tenant_id: Seq<char>,
    x: ResourceView,
)
    ensures
        session_and_link_resources(before, after, tenant_id).contains(x) <==> {
            ||| changes::<String, SessionRecord>(before.sessions@, after.sessions.values(), tenant_id).map_values(
                |session: SessionRecord| ResourceView::Session { session },
            ).contains(x)
            ||| changes::<String, TraceRecord>(before.traces@, after.traces.values(), tenant_id).map_values(
                |trace: TraceRecord| ResourceView::Trace { trace },
            ).contains(x)
            ||| some_resource(
                changes::<String, KnowledgeLink>(before.links@, after.links.values(), tenant_id),
                |links: Seq<KnowledgeLink>| ResourceView::Links { links },
            ).contains(x)
        },
{
    let a = changes::<String, SessionRecord>(before.sessions@, after.sessions.values(), tenant_id).map_values(
        |session: SessionRecord| ResourceView::Session { session },
    );
    let b = changes::<String, TraceRecord>(before.traces@, after.traces.values(), tenant_id).map_values(
        |trace: TraceRecord| ResourceView::Trace { trace },
    );
    let c = some_resource(
        changes::<String, KnowledgeLink>(before.links@, after.links.values(), tenant_id),
        |links: Seq<KnowledgeLink>| ResourceView::Links { links },
    );
    a_sum_holds_what_either_holds(a, b, x);
    a_sum_holds_what_either_holds(a + b, c, x);
    assert(session_and_link_resources(before, after, tenant_id) == a + b + c);
}

/// The part on components, tasks and evaluations holds what its pieces hold.
proof fn lemma_operational_resources(
    before: StoreData,
    after: StoreData,
    tenant_id: Seq<char>,
    x: ResourceView,
)
    ensures
        operational_resources(before, after, tenant_id).contains(x) <==> {
            ||| component_resources(before, after, tenant_id).contains(x)
            ||| some_resource(
                changes::<String, HarnessChangeManifest>(before.harness_changes@, after.harness_changes.values(), tenant_id),
                |changed: Seq<HarnessChangeManifest>| ResourceView::HarnessChanges { changes: changed },
            ).contains(x)
            ||| some_resource(
                changes::<String, HarnessChangeVerdict>(before.harness_verdicts@, after.harness_verdicts.values(), tenant_id),
                |verdicts: Seq<HarnessChangeVerdict>| ResourceView::HarnessVerdicts { verdicts },
            ).contains(x)
            ||| some_resource(
                changes::<String, IngestTask>(before.ingest_tasks@, after.ingest_tasks.values(), tenant_id),
                |tasks: Seq<IngestTask>| ResourceView::IngestTasks { tasks },
            ).contains(x)
            ||| some_resource(
                gone_task_ids(before, after, tenant_id),
                |task_ids: Seq<Seq<char>>| ResourceView::DeleteIngestTasks { task_ids },
            ).contains(x)
            ||| changes::<String, IngestTaskResult>(before.ingest_results@, after.ingest_results.values(), tenant_id).map_values(
                |result: IngestTaskResult| ResourceView::IngestResult { result },
            ).contains(x)
            ||| eval_resources(before, after, tenant_id).contains(x)
        },
{
    let a = component_resources(before, after, tenant_id);
    let b = some_resource(
        changes::<String, HarnessChangeManifest>(before.harness_changes@, after.harness_changes.values(), tenant_id),
        |changed: Seq<HarnessChangeManifest>| ResourceView::HarnessChanges { changes: changed },
    );
    let c = some_resource(
        changes::<String, HarnessChangeVerdict>(before.harness_verdicts@, after.harness_verdicts.values(), tenant_id),
        |verdicts: Seq<HarnessChangeVerdict>| ResourceView::HarnessVerdicts { verdicts },
    );
    let d = some_resource(
        changes::<String, IngestTask>(before.ingest_tasks@, after.ingest_tasks.values(), tenant_id),
        |tasks: Seq<IngestTask>| ResourceView::IngestTasks { tasks },
    );
    let e = some_resource(
        gone_task_ids(before, after, tenant_id),
        |task_ids: Seq<Seq<char>>| ResourceView::DeleteIngestTasks { task_ids },
    );
    let f = changes::<String, IngestTaskResult>(before.ingest_results@, after.ingest_results.values(), tenant_id).map_values(
        |result: IngestTaskResult| ResourceView::IngestResult { result },
    );
    let g = eval_resources(before, after, tenant_id);
    a_sum_holds_what_either_holds(a, b, x);
    a_sum_holds_what_either_holds(a + b, c, x);
    a_sum_holds_what_either_holds(a + b + c, d, x);
    a_sum_holds_what_either_holds(a + b + c + d, e, x);
    a_sum_holds_what_either_holds(a + b + c + d + e, f, x);
    a_sum_holds_what_either_holds(a + b + c + d + e + f, g, x);
    assert(operational_resources(before, after, tenant_id) == a + b + c + d + e + f + g);
}

/// The part on evaluations holds what its pieces hold.
proof fn lemma_eval_resources(
    before: StoreData,
    after: StoreData,
    tenant_id: Seq<char>,
    x: ResourceView,
)
    ensures
        eval_resources(before, after, tenant_id).contains(x) <==> {
            ||| changes::<String, RagEvalCase>(before.eval_cases@, after.eval_cases.values(), tenant_id).map_values(
                |case: RagEvalCase| ResourceView::EvalCase { case },
            ).contains(x)
            ||| changes::<String, RagEvalRun>(before.eval_runs@, after.eval_runs.values(), tenant_id).map_values(
                |run: RagEvalRun| ResourceView::EvalRun { run },
            ).contains(x)
            ||| some_resource(
                changes::<String, RagEvalCaseResult>(before.eval_case_results@, after.eval_case_results.values(), tenant_id),
                |results: Seq<RagEvalCaseResult>| ResourceView::EvalCaseResults { results },
            ).contains(x)
            ||| changes::<String, RagEvalOverview>(before.eval_overviews@, after.eval_overviews.values(), tenant_id).map_values(
                |overview: RagEvalOverview| ResourceView::EvalOverview { overview },
            ).contains(x)
        },
{
    let a = changes::<String, RagEvalCase>(before.eval_cases@, after.eval_cases.values(), tenant_id).map_values(
        |case: RagEvalCase| ResourceView::EvalCase { case },
    );
    let b = changes::<String, RagEvalRun>(before.eval_runs@, after.eval_runs.values(), tenant_id).map_values(
        |run: RagEvalRun| ResourceView::EvalRun { run },
    );
    let c = some_resource(
        changes::<String, RagEvalCaseResult>(before.eval_case_results@, after.eval_case_results.values(), tenant_id),
        |results: Seq<RagEvalCaseResult>| ResourceView::EvalCaseResults { results },
    );
    let d = changes::<String, RagEvalOverview>(before.eval_overviews@, after.eval_overviews.values(), tenant_id).map_values(
        |overview: RagEvalOverview| ResourceView::EvalOverview { overview },
    );
    a_sum_holds_what_either_holds(a, b, x);
    a_sum_holds_what_either_holds(a + b, c, x);
    a_sum_holds_what_either_holds(a + b + c, d, x);
    assert(eval_resources(before, after, tenant_id) == a + b + c + d);
}

/// What is asked for holds what its parts hold.
proof fn lemma_parts(
    before: StoreData,
    after: StoreData,
    tenant_id: Seq<char>,
    x: ResourceView,
)
    ensures
        mutation_delta(before, after, tenant_id).contains(x) <==> {
            ||| knowledge_resources(before, after, tenant_id).contains(x)
            ||| document_resources(before, after, tenant_id).contains(x)
            ||| structured_resources(before, after, tenant_id).contains(x)
            ||| session_and_link_resources(before, after, tenant_id).contains(x)
            ||| operational_resources(before, after, tenant_id).contains(x)
        },
{
    let a = knowledge_resources(before, after, tenant_id);
    let b = document_resources(before, after, tenant_id);
    let c = structured_resources(before, after, tenant_id);
    let d = session_and_link_resources(before, after, tenant_id);
    let e = operational_resources(before, after, tenant_id);
    a_sum_holds_what_either_holds(a, b, x);
    a_sum_holds_what_either_holds(a + b, c, x);
    a_sum_holds_what_either_holds(a + b + c, d, x);
    a_sum_holds_what_either_holds(a + b + c + d, e, x);
}

/// An index of events of the tenant that is new or is not what it was is asked to be made durable.
pub proof fn an_index_that_changed_is_asked_for(
    before: StoreData,
    after: StoreData,
    tenant_id: Seq<char>,
    row: UserEventIndex,
)
    requires
        after.user_indexes.values().contains(row),
        row.tenant_id@ == tenant_id,
        before.user_indexes@.dom().contains(
            (row.tenant_id@, row.owner_user_id_hash@),
        ) ==> !before.user_indexes@[(row.tenant_id@, row.owner_user_id_hash@)].same_as(&row),
    ensures
        mutation_delta(before, after, tenant_id).contains(ResourceView::EnsureUserEventIndex { index: row }),
{
    let x = ResourceView::EnsureUserEventIndex { index: row };
    lemma_among_changes::<(String, String), UserEventIndex>(before.user_indexes@, after.user_indexes.values(), tenant_id, row);
    lemma_in_made(
        changes::<(String, String), UserEventIndex>(before.user_indexes@, after.user_indexes.values(), tenant_id),
        |index: UserEventIndex| ResourceView::EnsureUserEventIndex { index },
        row,
    );
    lemma_knowledge_resources(before, after, tenant_id, x);
    lemma_parts(before, after, tenant_id, x);
}

/// A fact of the tenant that is new or is not what it was is asked to be made durable.
pub proof fn a_fact_that_changed_is_asked_for(
    before: StoreData,
    after: StoreData,
    tenant_id: Seq<char>,
    row: StateItem,
)
    requires
        after.state_items.values().contains(row),
        row.tenant_id@ == tenant_id,
        before.state_items@.dom().contains(
            (row.tenant_id@, row.owner_user_id@, row.natural_key@),
        ) ==> !before.state_items@[(row.tenant_id@, row.owner_user_id@, row.natural_key@)].same_as(&row),
    ensures
        mutation_delta(before, after, tenant_id).contains(ResourceView::StateItem { item: row }),
{
    let x = ResourceView::StateItem { item: row };
    lemma_among_changes::<(String, String, String), StateItem>(before.state_items@, after.state_items.values(), tenant_id, row);
    lemma_in_made(
        changes::<(String, String, String), StateItem>(before.state_items@, after.state_items.values(), tenant_id),
        |item: StateItem| ResourceView::StateItem { item },
        row,
    );
    lemma_knowledge_resources(before, after, tenant_id, x);
    lemma_parts(before, after, tenant_id, x);
}

/// An insight of the tenant that is new or is not what it was is asked to be made durable.
pub proof fn an_insight_that_changed_is_asked_for(
    before: StoreData,
    after: StoreData,
    tenant_id: Seq<char>,
    row: InsightRecord,
)
    requires
        after.insights.values().contains(row),
        row.tenant_id@ == tenant_id,
        before.insights@.dom().contains(
            row.id@,
        ) ==> !before.insights@[row.id@].same_as(&row),
    ensures
        mutation_delta(before, after, tenant_id).contains(ResourceView::Insight { insight: row }),
{
    let x = ResourceView::Insight { insight: row };
    lemma_among_changes::<String, InsightRecord>(before.insights@, after.insights.values(), tenant_id, row);
    lemma_in_made(
        changes::<String, InsightRecord>(before.insights@, after.insights.values(), tenant_id),
        |insight: InsightRecord| ResourceView::Insight { insight },
        row,
    );
    lemma_knowledge_resources(before, after, tenant_id, x);
    lemma_parts(before, after, tenant_id, x);
}

/// A source of the tenant that is new or is not what it was is asked to be made durable.
pub proof fn a_source_that_changed_is_asked_for(
    before: StoreData,
    after: StoreData,
    tenant_id: Seq<char>,
    row: CompanySource,
)
    requires
        after.sources.values().contains(row),
        row.tenant_id@ == tenant_id,
        before.sources@.dom().contains(
            row.id@,
        ) ==> !before.sources@[row.id@].same_as(&row),
    ensures
        mutation_delta(before, after, tenant_id).contains(ResourceView::CompanySource { source: row }),
{
    let x = ResourceView::CompanySource { source: row };
    lemma_among_changes::<String, CompanySource>(before.sources@, after.sources.values(), tenant_id, row);
    lemma_in_made(
        changes::<String, CompanySource>(before.sources@, after.sources.values(), tenant_id),
        |source: CompanySource| ResourceView::CompanySource { source },
        row,
    );
    lemma_document_resources(before, after, tenant_id, x);
    lemma_parts(before, after, tenant_id, x);
}

/// A dataset of the tenant that is new or is not what it was is asked to be made durable.
pub proof fn a_dataset_that_changed_is_asked_for(
    before: StoreData,
    after: StoreData,
    tenant_id: Seq<char>,
    row: DatasetRecord,
)
    requires
        after.datasets.values().contains(row),
        row.tenant_id@ == tenant_id,
        before.datasets@.dom().contains(
            row.dataset_key@,
        ) ==> !before.datasets@[row.dataset_key@].same_as(&row),
    ensures
        mutation_delta(before, after, tenant_id).contains(ResourceView::Dataset { dataset: row }),
{
    let x = ResourceView::Dataset { dataset: row };
    lemma_among_changes::<String, DatasetRecord>(before.datasets@, after.datasets.values(), tenant_id, row);
    lemma_in_made(
        changes::<String, DatasetRecord>(before.datasets@, after.datasets.values(), tenant_id),
        |dataset: DatasetRecord| ResourceView::Dataset { dataset },
        row,
    );
    lemma_structured_resources(before, after, tenant_id, x);
    lemma_parts(before, after, tenant_id, x);
}

/// A snapshot of the tenant that is new or is not what it was is asked to be made durable.
pub proof fn a_snapshot_that_changed_is_asked_for(
    before: StoreData,
    after: StoreData,
    tenant_id: Seq<char>,
    row: StructuredSnapshot,
)
    requires
        after.snapshots.values().contains(row),
        row.tenant_id@ == tenant_id,
        before.snapshots@.dom().contains(
            row.id@,
        ) ==> !before.snapshots@[row.id@].same_as(&row),
    ensures
        mutation_delta(before, after, tenant_id).contains(ResourceView::StructuredSnapshot { snapshot: row }),
{
    let x = ResourceView::StructuredSnapshot { snapshot: row };
    lemma_among_changes::<String, StructuredSnapshot>(before.snapshots@, after.snapshots.values(), tenant_id, row);
    lemma_in_made(
        changes::<String, StructuredSnapshot>(before.snapshots@, after.snapshots.values(), tenant_id),
        |snapshot: StructuredSnapshot| ResourceView::StructuredSnapshot { snapshot },
        row,
    );
    lemma_structured_resources(before, after, tenant_id, x);
    lemma_parts(before, after, tenant_id, x);
}

/// A session of the tenant that is new or is not what it was is asked to be made durable.
pub proof fn a_session_that_changed_is_asked_for(
    before: StoreData,
    after: StoreData,
    tenant_id: Seq<char>,
    row: SessionRecord,
)
    requires
        after.sessions.values().contains(row),
        row.tenant_id@ == tenant_id,
        before.sessions@.dom().contains(
            row.id@,
        ) ==> !before.sessions@[row.id@].same_as(&row),
    ensures
        mutation_delta(before, after, tenant_id).contains(ResourceView::Session { session: row }),
{
    let x = ResourceView::Session { session: row };
    lemma_among_changes::<String, SessionRecord>(before.sessions@, after.sessions.values(), tenant_id, row);
    lemma_in_made(
        changes::<String, SessionRecord>(before.sessions@, after.sessions.values(), tenant_id),
        |session: SessionRecord| ResourceView::Session { session },
        row,
    );
    lemma_session_and_link_resources(before, after, tenant_id, x);
    lemma_parts(before, after, tenant_id, x);
}

/// A trace of the tenant that is new or is not what it was is asked to be made durable.
pub proof fn a_trace_that_changed_is_asked_for(
    before: StoreData,
    after: StoreData,
    tenant_id: Seq<char>,
    row: TraceRecord,
)
    requires
        after.traces.values().contains(row),
        row.tenant_id@ == tenant_id,
        before.traces@.dom().contains(
            row.id@,
        ) ==> !before.traces@[row.id@].same_as(&row),
    ensures
        mutation_delta(before, after, tenant_id).contains(ResourceView::Trace { trace: row }),
{
    let x = ResourceView::Trace { trace: row };
    lemma_among_changes::<String, TraceRecord>(before.traces@, after.traces.values(), tenant_id, row);
    lemma_in_made(
        changes::<String, TraceRecord>(before.traces@, after.traces.values(), tenant_id),
        |trace: TraceRecord| ResourceView::Trace { trace },
        row,
    );
    lemma_session_and_link_resources(before, after, tenant_id, x);
    lemma_parts(before, after, tenant_id, x);
}

/// A case of the tenant that is new or is not what it was is asked to be made durable.
pub proof fn a_case_that_changed_is_asked_for(
    before: StoreData,
    after: StoreData,
    tenant_id: Seq<char>,
    row: RagEvalCase,
)
    requires
        after.eval_cases.values().contains(row),
        row.tenant_id@ == tenant_id,
        before.eval_cases@.dom().contains(
            row.id@,
        ) ==> !before.eval_cases@[row.id@].same_as(&row),
    ensures
        mutation_delta(before, after, tenant_id).contains(ResourceView::EvalCase { case: row }),
{
    let x = ResourceView::EvalCase { case: row };
    lemma_among_changes::<String, RagEvalCase>(before.eval_cases@, after.eval_cases.values(), tenant_id, row);
    lemma_in_made(
        changes::<String, RagEvalCase>(before.eval_cases@, after.eval_cases.values(), tenant_id),
        |case: RagEvalCase| ResourceView::EvalCase { case },
        row,
    );
    lemma_eval_resources(before, after, tenant_id, x);
    lemma_operational_resources(before, after, tenant_id, x);
    lemma_parts(before, after, tenant_id, x);
}

/// A run of the tenant that is new or is not what it was is asked to be made durable.
pub proof fn a_run_that_changed_is_asked_for(
    before: StoreData,
    after: StoreData,
    tenant_id: Seq<char>,
    row: RagEvalRun,
)
    requires
        after.eval_runs.values().contains(row),
        row.tenant_id@ == tenant_id,
        before.eval_runs@.dom().contains(
            row.id@,
        ) ==> !before.eval_runs@[row.id@].same_as(&row),
    ensures
        mutation_delta(before, after, tenant_id).contains(ResourceView::EvalRun { run: row }),
{
    let x = ResourceView::EvalRun { run: row };
    lemma_among_changes::<String, RagEvalRun>(before.eval_runs@, after.eval_runs.values(), tenant_id, row);
    lemma_in_made(
        changes::<String, RagEvalRun>(before.eval_runs@, after.eval_runs.values(), tenant_id),
        |run: RagEvalRun| ResourceView::EvalRun { run },
        row,
    );
    lemma_eval_resources(before, after, tenant_id, x);
    lemma_operational_resources(before, after, tenant_id, x);
    lemma_parts(before, after, tenant_id, x);
}

/// An overview of the tenant that is new or is not what it was is asked to be made durable.
pub proof fn an_overview_that_changed_is_asked_for(
    before: StoreData,
    after: StoreData,
    tenant_id: Seq<char>,
    row: RagEvalOverview,
)
    requires
        after.eval_overviews.values().contains(row),
        row.tenant_id@ == tenant_id,
        before.eval_overviews@.dom().contains(
            row.run_id@,
        ) ==> !before.eval_overviews@[row.run_id@].same_as(&row),
    ensures
        mutation_delta(before, after, tenant_id).contains(ResourceView::EvalOverview { overview: row }),
{
    let x = ResourceView::EvalOverview { overview: row };
    lemma_among_changes::<String, RagEvalOverview>(before.eval_overviews@, after.eval_overviews.values(), tenant_id, row);
    lemma_in_made(
        changes::<String, RagEvalOverview>(before.eval_overviews@, after.eval_overviews.values(), tenant_id),
        |overview: RagEvalOverview| ResourceView::EvalOverview { overview },
        row,
    );
    lemma_eval_resources(before, after, tenant_id, x);
    lemma_operational_resources(before, after, tenant_id, x);
    lemma_parts(before, after, tenant_id, x);
}

/// A result of a task of the tenant that is new or is not what it was is asked to be made durable.
pub proof fn a_task_result_that_changed_is_asked_for(
    before: StoreData,
    after: StoreData,
    tenant_id: Seq<char>,
    row: IngestTaskResult,
)
    requires
        after.ingest_results.values().contains(row),
        row.task.tenant_id@ == tenant_id,
        before.ingest_results@.dom().contains(
            row.task.task_id@,
        ) ==> !before.ingest_results@[row.task.task_id@].same_as(&row),
    ensures
        mutation_delta(before, after, tenant_id).contains(ResourceView::IngestResult { result: row }),
{
    let x = ResourceView::IngestResult { result: row };
    lemma_among_changes::<String, IngestTaskResult>(before.ingest_results@, after.ingest_results.values(), tenant_id, row);
    lemma_in_made(
        changes::<String, IngestTaskResult>(before.ingest_results@, after.ingest_results.values(), tenant_id),
        |result: IngestTaskResult| ResourceView::IngestResult { result },
        row,
    );
    lemma_operational_resources(before, after, tenant_id, x);
    lemma_parts(before, after, tenant_id, x);
}

/// A document of the tenant that is new or is not what it was is asked to be made durable.
pub proof fn a_document_that_changed_is_asked_for(
    before: StoreData,
    after: StoreData,
    tenant_id: Seq<char>,
    row: SourceDocument,
)
    requires
        after.source_documents.values().contains(row),
        row.tenant_id@ == tenant_id,
        before.source_documents@.dom().contains(
            (DocumentKeyView {
                tenant_id: row.tenant_id@,
                owner_user_id: opt_text(row.owner_user_id),
                uri: row.uri@,
            }),
        ) ==> !before.source_documents@[(DocumentKeyView {
                tenant_id: row.tenant_id@,
                owner_user_id: opt_text(row.owner_user_id),
                uri: row.uri@,
            })].same_as(&row),
    ensures
        exists|rows: Seq<SourceDocument>| #[trigger]
            rows.contains(row) && mutation_delta(before, after, tenant_id).contains(
                ResourceView::SourceDocuments { documents: rows },
            ),
{
    let rows = changes::<SourceDocumentKey, SourceDocument>(before.source_documents@, after.source_documents.values(), tenant_id);
    let x = ResourceView::SourceDocuments { documents: rows };
    lemma_among_changes::<SourceDocumentKey, SourceDocument>(before.source_documents@, after.source_documents.values(), tenant_id, row);
    let made = some_resource(
        rows,
        |documents: Seq<SourceDocument>| ResourceView::SourceDocuments { documents },
    );
    assert(made[0] == x);
    assert(made.contains(x));
    lemma_document_resources(before, after, tenant_id, x);
    lemma_parts(before, after, tenant_id, x);
    assert(rows.contains(row));
}

/// An artifact of the tenant that is new or is not what it was is asked to be made durable.
pub proof fn an_artifact_that_changed_is_asked_for(
    before: StoreData,
    after: StoreData,
    tenant_id: Seq<char>,
    row: ParseArtifact,
)
    requires
        after.parse_artifacts.values().contains(row),
        row.tenant_id@ == tenant_id,
        before.parse_artifacts@.dom().contains(
            (ArtifactKeyView {
                tenant_id: row.tenant_id@,
                owner_user_id: opt_text(row.owner_user_id),
                artifact_id: row.id@,
            }),
        ) ==> !before.parse_artifacts@[(ArtifactKeyView {
                tenant_id: row.tenant_id@,
                owner_user_id: opt_text(row.owner_user_id),
                artifact_id: row.id@,
            })].same_as(&row),
    ensures
        exists|rows: Seq<ParseArtifact>| #[trigger]
            rows.contains(row) && mutation_delta(before, after, tenant_id).contains(
                ResourceView::ParseArtifacts { artifacts: rows },
            ),
{
    let rows = changes::<ParseArtifactKey, ParseArtifact>(before.parse_artifacts@, after.parse_artifacts.values(), tenant_id);
    let x = ResourceView::ParseArtifacts { artifacts: rows };
    lemma_among_changes::<ParseArtifactKey, ParseArtifact>(before.parse_artifacts@, after.parse_artifacts.values(), tenant_id, row);
    let made = some_resource(
        rows,
        |artifacts: Seq<ParseArtifact>| ResourceView::ParseArtifacts { artifacts },
    );
    assert(made[0] == x);
    assert(made.contains(x));
    lemma_document_resources(before, after, tenant_id, x);
    lemma_parts(before, after, tenant_id, x);
    assert(rows.contains(row));
}

/// A link of the tenant that is new or is not what it was is asked to be made durable.
pub proof fn a_link_that_changed_is_asked_for(
    before: StoreData,
    after: StoreData,
    tenant_id: Seq<char>,
    row: KnowledgeLink,
)
    requires
        after.links.values().contains(row),
        row.tenant_id@ == tenant_id,
        before.links@.dom().contains(
            row.id@,
        ) ==> !before.links@[row.id@].same_as(&row),
    ensures
        exists|rows: Seq<KnowledgeLink>| #[trigger]
            rows.contains(row) && mutation_delta(before, after, tenant_id).contains(
                ResourceView::Links { links: rows },
            ),
{
    let rows = changes::<String, KnowledgeLink>(before.links@, after.links.values(), tenant_id);
    let x = ResourceView::Links { links: rows };
    lemma_among_changes::<String, KnowledgeLink>(before.links@, after.links.values(), tenant_id, row);
    let made = some_resource(
        rows,
        |links: Seq<KnowledgeLink>| ResourceView::Links { links },
    );
    assert(made[0] == x);
    assert(made.contains(x));
    lemma_session_and_link_resources(before, after, tenant_id, x);
    lemma_parts(before, after, tenant_id, x);
    assert(rows.contains(row));
}

/// A change of the tenant that is new or is not what it was is asked to be made durable.
pub proof fn a_change_that_changed_is_asked_for(
    before: StoreData,
    after: StoreData,
    tenant_id: Seq<char>,
    row: HarnessChangeManifest,
)
    requires
        after.harness_changes.values().contains(row),
        row.tenant_id@ == tenant_id,
        before.harness_changes@.dom().contains(
            row.id@,
        ) ==> !before.harness_changes@[row.id@].same_as(&row),
    ensures
        exists|rows: Seq<HarnessChangeManifest>| #[trigger]
            rows.contains(row) && mutation_delta(before, after, tenant_id).contains(
                ResourceView::HarnessChanges { changes: rows },
            ),
{
    let rows = changes::<String, HarnessChangeManifest>(before.harness_changes@, after.harness_changes.values(), tenant_id);
    let x = ResourceView::HarnessChanges { changes: rows };
    lemma_among_changes::<String, HarnessChangeManifest>(before.harness_changes@, after.harness_changes.values(), tenant_id, row);
    let made = some_resource(
        rows,
        |changed: Seq<HarnessChangeManifest>| ResourceView::HarnessChanges { changes: changed },
    );
    assert(made[0] == x);
    assert(made.contains(x));
    lemma_operational_resources(before, after, tenant_id, x);
    lemma_parts(before, after, tenant_id, x);
    assert(rows.contains(row));
}

/// A verdict of the tenant that is new or is not what it was is asked to be made durable.
pub proof fn a_verdict_that_changed_is_asked_for(
    before: StoreData,
    after: StoreData,
    tenant_id: Seq<char>,
    row: HarnessChangeVerdict,
)
    requires
        after.harness_verdicts.values().contains(row),
        row.tenant_id@ == tenant_id,
        before.harness_verdicts@.dom().contains(
            row.id@,
        ) ==> !before.harness_verdicts@[row.id@].same_as(&row),
    ensures
        exists|rows: Seq<HarnessChangeVerdict>| #[trigger]
            rows.contains(row) && mutation_delta(before, after, tenant_id).contains(
                ResourceView::HarnessVerdicts { verdicts: rows },
            ),
{
    let rows = changes::<String, HarnessChangeVerdict>(before.harness_verdicts@, after.harness_verdicts.values(), tenant_id);
    let x = ResourceView::HarnessVerdicts { verdicts: rows };
    lemma_among_changes::<String, HarnessChangeVerdict>(before.harness_verdicts@, after.harness_verdicts.values(), tenant_id, row);
    let made = some_resource(
        rows,
        |verdicts: Seq<HarnessChangeVerdict>| ResourceView::HarnessVerdicts { verdicts },
    );
    assert(made[0] == x);
    assert(made.contains(x));
    lemma_operational_resources(before, after, tenant_id, x);
    lemma_parts(before, after, tenant_id, x);
    assert(rows.contains(row));
}

/// A task of the tenant that is new or is not what it was is asked to be made durable.
pub proof fn a_task_that_changed_is_asked_for(
    before: StoreData,
    after: StoreData,
    tenant_id: Seq<char>,
    row: IngestTask,
)
    requires
        after.ingest_tasks.values().contains(row),
        row.tenant_id@ == tenant_id,
        before.ingest_tasks@.dom().contains(
            row.task_id@,
        ) ==> !before.ingest_tasks@[row.task_id@].same_as(&row),
    ensures
        exists|rows: Seq<IngestTask>| #[trigger]
            rows.contains(row) && mutation_delta(before, after, tenant_id).contains(
                ResourceView::IngestTasks { tasks: rows },
            ),
{
    let rows = changes::<String, IngestTask>(before.ingest_tasks@, after.ingest_tasks.values(), tenant_id);
    let x = ResourceView::IngestTasks { tasks: rows };
    lemma_among_changes::<String, IngestTask>(before.ingest_tasks@, after.ingest_tasks.values(), tenant_id, row);
    let made = some_resource(
        rows,
        |tasks: Seq<IngestTask>| ResourceView::IngestTasks { tasks },
    );
    assert(made[0] == x);
    assert(made.contains(x));
    lemma_operational_resources(before, after, tenant_id, x);
    lemma_parts(before, after, tenant_id, x);
    assert(rows.contains(row));
}

/// A result of a case of the tenant that is new or is not what it was is asked to be made durable.
pub proof fn a_case_result_that_changed_is_asked_for(
    before: StoreData,
    after: StoreData,
    tenant_id: Seq<char>,
    row: RagEvalCaseResult,
)
    requires
        after.eval_case_results.values().contains(row),
        row.tenant_id@ == tenant_id,
        before.eval_case_results@.dom().contains(
            row.id@,
        ) ==> !before.eval_case_results@[row.id@].same_as(&row),
    ensures
        exists|rows: Seq<RagEvalCaseResult>| #[trigger]
            rows.contains(row) && mutation_delta(before, after, tenant_id).contains(
                ResourceView::EvalCaseResults { results: rows },
            ),
{
    let rows = changes::<String, RagEvalCaseResult>(before.eval_case_results@, after.eval_case_results.values(), tenant_id);
    let x = ResourceView::EvalCaseResults { results: rows };
    lemma_among_changes::<String, RagEvalCaseResult>(before.eval_case_results@, after.eval_case_results.values(), tenant_id, row);
    let made = some_resource(
        rows,
        |results: Seq<RagEvalCaseResult>| ResourceView::EvalCaseResults { results },
    );
    assert(made[0] == x);
    assert(made.contains(x));
    lemma_eval_resources(before, after, tenant_id, x);
    lemma_operational_resources(before, after, tenant_id, x);
    lemma_parts(before, after, tenant_id, x);
    assert(rows.contains(row));
}

/// A revision of the tenant under an id that no revision had is asked to be made durable.
pub proof fn a_new_revision_is_asked_for(
    before: StoreData,
    after: StoreData,
    tenant_id: Seq<char>,
    row: SourceRevision,
)
    requires
        flattened(after.source_revisions.values()).contains(row),
        row.tenant_id@ == tenant_id,
        forall|known: SourceRevision|
            #[trigger] flattened(before.source_revisions.values()).contains(known) ==> known.id@
                != row.id@ || (known.tenant_id@ == tenant_id ==> !known.same_as(&row)),
    ensures
        mutation_delta(before, after, tenant_id).contains(
            ResourceView::SourceRevision { revision: row },
        ),
{
    let x = ResourceView::SourceRevision { revision: row };
    let old_rows = flattened(before.source_revisions.values());
    let rows = flattened(after.source_revisions.values());
    let known = old_rows.filter(owned_by::<SourceRevision>(tenant_id));
    lemma_last_with_key(known, row.id@);
    if let Some(old_row) = last_with_key(known, row.id@) {
        a_filter_keeps_what_it_accepts(old_rows, owned_by::<SourceRevision>(tenant_id), old_row);
    }
    let p = differs_from::<SourceRevision>(known, tenant_id);
    sorting_keeps_members(rows.filter(p), by_rank::<String, SourceRevision>(), row);
    a_filter_keeps_what_it_accepts(rows, p, row);
    lemma_in_made(
        list_changes::<SourceRevision>(old_rows, rows, tenant_id),
        |revision: SourceRevision| ResourceView::SourceRevision { revision },
        row,
    );
    lemma_document_resources(before, after, tenant_id, x);
    lemma_parts(before, after, tenant_id, x);
}

/// The last row under a key is a row under that key.
proof fn lemma_last_with_key<R: Row<String>>(rows: Seq<R>, k: Seq<char>)
    ensures
        match last_with_key(rows, k) {
            Some(row) => rows.contains(row) && row.key() == k,
            None => forall|row: R| #[trigger] rows.contains(row) ==> row.key() != k,
        },
    decreases rows.len(),
{
    if rows.len() > 0 {
        lemma_last_with_key(rows.drop_last(), k);
        assert(rows.contains(rows.last()));
        assert forall|row: R| #[trigger] rows.contains(row) implies row == rows.last()
            || rows.drop_last().contains(row) by {
            let i = choose|i: int| 0 <= i < rows.len() && rows[i] == row;
            if i < rows.len() - 1 {
                assert(rows.drop_last()[i] == row);
            }
        }
        if let Some(row) = last_with_key(rows.drop_last(), k) {
            if rows.last().key() != k {
                let i = choose|i: int|
                    0 <= i < rows.drop_last().len() && rows.drop_last()[i] == row;
                assert(rows[i] == row);
            }
        }
    }
}

/// A task of the tenant that is gone is asked to be deleted.
pub proof fn a_gone_task_is_asked_for(
    before: StoreData,
    after: StoreData,
    tenant_id: Seq<char>,
    task: IngestTask,
)
    requires
        before.ingest_tasks.values().contains(task),
        task.tenant_id@ == tenant_id,
        !after.ingest_tasks@.dom().contains(task.task_id@),
    ensures
        exists|task_ids: Seq<Seq<char>>| #[trigger]
            task_ids.contains(task.task_id@) && mutation_delta(before, after, tenant_id).contains(
                ResourceView::DeleteIngestTasks { task_ids },
            ),
{
    let task_ids = gone_task_ids(before, after, tenant_id);
    let x = ResourceView::DeleteIngestTasks { task_ids };
    let p = task_is_gone(after, tenant_id);
    let gone = before.ingest_tasks.values().filter(p);
    let ids = Seq::new(gone.len(), |i: int| gone[i].task_id@);
    a_filter_keeps_what_it_accepts(before.ingest_tasks.values(), p, task);
    let j = choose|j: int| 0 <= j < gone.len() && gone[j] == task;
    assert(ids[j] == task.task_id@);
    assert(task_ids == sorted_texts(ids));
    sorting_keeps_members(ids, |a: Seq<char>, b: Seq<char>| text_lt(a, b), task.task_id@);
    assert(task_ids.contains(task.task_id@));
    let made = some_resource(
        task_ids,
        |task_ids: Seq<Seq<char>>| ResourceView::DeleteIngestTasks { task_ids },
    );
    assert(made[0] == x);
    assert(made.contains(x));
    lemma_operational_resources(before, after, tenant_id, x);
    lemma_parts(before, after, tenant_id, x);
}

/// A source that is gone is among the sources for which deletions are asked for.
proof fn lemma_gone_source(
    before: StoreData,
    tenant_id: Seq<char>,
    gone: Seq<CompanySource>,
    source: CompanySource,
    x: ResourceView,
)
    requires
        gone.contains(source),
        deletion_resources(before, tenant_id, source.id@).contains(x),
    ensures
        all_deletion_resources(before, tenant_id, gone).contains(x),
    decreases gone.len(),
{
    let rest = all_deletion_resources(before, tenant_id, gone.drop_last());
    let last = deletion_resources(before, tenant_id, gone.last().id@);
    a_sum_holds_what_either_holds(rest, last, x);
    let i = choose|i: int| 0 <= i < gone.len() && gone[i] == source;
    if i < gone.len() - 1 {
        assert(gone.drop_last()[i] == source);
        lemma_gone_source(before, tenant_id, gone.drop_last(), source, x);
    }
}

/// A source of the tenant that is gone is asked to be deleted from every index that may tell of
/// it, with the links that touch what it brought in.
pub proof fn a_gone_source_is_asked_for(
    before: StoreData,
    after: StoreData,
    tenant_id: Seq<char>,
    source: CompanySource,
    target: DeleteTargetView,
)
    requires
        before.sources.values().contains(source),
        source.tenant_id@ == tenant_id,
        !after.sources@.dom().contains(source.id@),
        target is Links ==> ({
            &&& target == (DeleteTargetView::Links {
                link_ids: touching_link_ids(
                    before.links.values(),
                    tenant_id,
                    source_uris(before, tenant_id, source.id@),
                ),
                related_uris: source_uris(before, tenant_id, source.id@),
            })
        }),
    ensures
        mutation_delta(before, after, tenant_id).contains(
            ResourceView::DeleteCompanySourceIndex { source_id: source.id@, target },
        ),
{
    let x = ResourceView::DeleteCompanySourceIndex { source_id: source.id@, target };
    let p = source_is_gone(after, tenant_id);
    let lt = by_rank::<String, CompanySource>();
    let kept = before.sources.values().filter(p);
    a_filter_keeps_what_it_accepts(before.sources.values(), p, source);
    sorting_keeps_members(kept, lt, source);
    let gone = gone_sources(before, after, tenant_id);
    assert(gone == sorted_by(kept, lt));
    let made = deletion_resources(before, tenant_id, source.id@);
    assert(made[0] == x || made[1] == x || made[2] == x || made[3] == x || made[4] == x || made[5]
        == x || made[6] == x || made[7] == x);
    assert(made.contains(x));
    lemma_gone_source(before, tenant_id, gone, source, x);
    lemma_document_resources(before, after, tenant_id, x);
    lemma_parts(before, after, tenant_id, x);
}

/// The links that go with a source are those of the tenant with an end among what it brought in.
pub proof fn the_links_of_a_gone_source_touch_it(
    links: Seq<KnowledgeLink>,
    tenant_id: Seq<char>,
    uris: Seq<Seq<char>>,
    link: KnowledgeLink,
)
    requires
        links.contains(link),
        link.tenant_id@ == tenant_id,
        uris.contains(link.source_uri@) || uris.contains(link.target_uri@),
    ensures
        touching_link_ids(links, tenant_id, uris).contains(link.id@),
{
    let p = touches_any(tenant_id, uris);
    let touching = links.filter(p);
    a_filter_keeps_what_it_accepts(links, p, link);
    let ids = Seq::new(touching.len(), |i: int| touching[i].id@);
    let j = choose|j: int| 0 <= j < touching.len() && touching[j] == link;
    assert(ids[j] == link.id@);
    sorting_keeps_members(ids, |a: Seq<char>, b: Seq<char>| text_lt(a, b), link.id@);
    deduped_keeps_contents(sorted_texts(ids));
}

/// An event of the tenant that is new or is not what it was is asked to be made durable, together
/// with events of its own index only.
pub proof fn an_event_that_changed_is_asked_for(
    before: StoreData,
    after: StoreData,
    tenant_id: Seq<char>,
    event: HistoryEvent,
)
    requires
        after.event_by_id.values().contains(event),
        event.tenant_id@ == tenant_id,
        before.event_by_id@.dom().contains(event.id@) ==> !before.event_by_id@[event.id@].same_as(
            &event,
        ),
    ensures
        exists|events: Seq<HistoryEvent>| #[trigger]
            events.contains(event) && mutation_delta(before, after, tenant_id).contains(
                ResourceView::HistoryEvents { events },
            ) && forall|i: int|
                0 <= i < events.len() ==> (#[trigger] events[i]).event_index_uid@
                    == event.event_index_uid@ && events[i].tenant_id@ == tenant_id,
{
    let p = changed_of::<String, HistoryEvent>(before.event_by_id@, tenant_id);
    let changed = after.event_by_id.values().filter(p);
    a_filter_keeps_what_it_accepts(after.event_by_id.values(), p, event);
    let uid = event.event_index_uid@;
    let uids = Seq::new(changed.len(), |i: int| changed[i].event_index_uid@);
    let j = choose|j: int| 0 <= j < changed.len() && changed[j] == event;
    assert(uids[j] == uid);
    sorting_keeps_members(uids, |a: Seq<char>, b: Seq<char>| text_lt(a, b), uid);
    deduped_keeps_contents(sorted_texts(uids));
    assert(index_uids(changed).contains(uid));
    let q = event_of_index(uid);
    let lt = by_rank::<String, HistoryEvent>();
    let events = events_of_index(changed, uid);
    assert(events == sorted_by(changed.filter(q), lt));
    a_filter_keeps_what_it_accepts(changed, q, event);
    sorting_keeps_members(changed.filter(q), lt, event);
    assert forall|i: int| 0 <= i < events.len() implies (#[trigger] events[i]).event_index_uid@
        == uid && events[i].tenant_id@ == tenant_id by {
        sorting_keeps_members(changed.filter(q), lt, events[i]);
        a_filter_keeps_what_it_accepts(changed, q, events[i]);
        a_filter_keeps_what_it_accepts(after.event_by_id.values(), p, events[i]);
    }
    let x = ResourceView::HistoryEvents { events };
    let view = |uid: Seq<char>|
        ResourceView::HistoryEvents { events: events_of_index(changed, uid) };
    lemma_in_made(index_uids(changed), view, uid);
    assert(event_resources(before, after, tenant_id) == index_uids(changed).map_values(view));
    lemma_knowledge_resources(before, after, tenant_id, x);
    lemma_parts(before, after, tenant_id, x);
    assert(events.contains(event));
}

/// The last node under an identity is a node under that identity.
proof fn lemma_last_with_identity(nodes: Seq<ContextNode>, node: ContextNode)
    ensures
        match last_with_identity(nodes, node) {
            Some(found) => nodes.contains(found) && found.uri@ == node.uri@ && found.layer
                == node.layer,
            None => true,
        },
    decreases nodes.len(),
{
    if nodes.len() > 0 {
        lemma_last_with_identity(nodes.drop_last(), node);
        assert(nodes.contains(nodes.last()));
        if let Some(found) = last_with_identity(nodes.drop_last(), node) {
            if !(nodes.last().uri@ == node.uri@ && nodes.last().layer == node.layer) {
                let i = choose|i: int|
                    0 <= i < nodes.drop_last().len() && nodes.drop_last()[i] == found;
                assert(nodes[i] == found);
            }
        }
    }
}

/// A node of the tenant in the company index that no node of the tenant in that index was before
/// is asked to be made durable in that index.
pub proof fn a_node_that_changed_is_asked_for(
    before: StoreData,
    after: StoreData,
    tenant_id: Seq<char>,
    node: ContextNode,
)
    requires
        after.company_context@.contains(node),
        node.tenant_id@ == tenant_id,
        forall|known: ContextNode| #[trigger]
            before.company_context@.contains(known) && known.tenant_id@ == tenant_id
                && known.uri@ == node.uri@ && known.layer == node.layer ==> !known.same_as(&node),
    ensures
        exists|nodes: Seq<ContextNode>| #[trigger]
            nodes.contains(node) && mutation_delta(before, after, tenant_id).contains(
                ResourceView::ContextNodes { index_uid: COMPANY_CONTEXT_INDEX@, nodes },
            ),
{
    let own = node_of_tenant(tenant_id);
    let old_nodes = nodes_of_tenant(before.company_context@, tenant_id);
    let new_nodes = nodes_of_tenant(after.company_context@, tenant_id);
    assert(old_nodes == before.company_context@.filter(own));
    assert(new_nodes == after.company_context@.filter(own));
    a_filter_keeps_what_it_accepts(after.company_context@, own, node);
    lemma_last_with_identity(old_nodes, node);
    if let Some(found) = last_with_identity(old_nodes, node) {
        a_filter_keeps_what_it_accepts(before.company_context@, own, found);
    }
    let p = node_differs_from(old_nodes);
    let lt = |a: ContextNode, b: ContextNode| identity_lt(a, b);
    a_filter_keeps_what_it_accepts(new_nodes, p, node);
    sorting_keeps_members(new_nodes.filter(p), lt, node);
    let nodes = node_changes(old_nodes, new_nodes);
    assert(nodes.contains(node));
    let x = ResourceView::ContextNodes { index_uid: COMPANY_CONTEXT_INDEX@, nodes };
    let made = node_resource(
        COMPANY_CONTEXT_INDEX@,
        before.company_context@,
        after.company_context@,
        tenant_id,
    );
    assert(made[0] == x);
    assert(made.contains(x));
    lemma_knowledge_resources(before, after, tenant_id, x);
    lemma_parts(before, after, tenant_id, x);
}

} // verus!
