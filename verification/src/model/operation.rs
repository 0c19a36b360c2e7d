//! Durable operations: plans, steps, resources and progress.

use vstd::prelude::*;

use crate::json::Json;
use crate::model::harness::{HarnessChangeManifest, HarnessChangeVerdict, HarnessComponent, HarnessComponentRevision, RagEvalCase, RagEvalCaseResult, RagEvalOverview, RagEvalRun};
use crate::model::ingest::{CompanySource, IngestTask, IngestTaskResult, ParseArtifact, SourceDocument, SourceRevision};
use crate::model::knowledge::{ContextNode, DatasetRecord, HistoryEvent, InsightRecord, KnowledgeLink, SessionRecord, StateItem, StructuredSnapshot, TraceRecord, UserEventIndex};
use crate::record::{List, Record};
use crate::text::{opt_eq, opt_text, texts, texts_eq};

verus! {

/// How far an operation has come.
#[derive(Debug, Clone, Copy, PartialEq, Eq, Structural)]
pub enum OperationStatus {
    Pending,
    PrimaryCommitted,
    EffectsSubmitted,
    PartiallyFailed,
    Completed,
    Failed,
}

/// How far the indexing of an operation has come.
#[derive(Debug, Clone, Copy, PartialEq, Eq, Structural)]
pub enum OperationIndexingState {
    Pending,
    Submitted,
    Completed,
    Failed,
}

/// How far a step has come.
#[derive(Debug, Clone, Copy, PartialEq, Eq, Structural)]
pub enum OperationStepStatus {
    Pending,
    Submitted,
    Completed,
    Failed,
}

/// The part that a step plays.
#[derive(Debug, Clone, Copy, PartialEq, Eq, Structural)]
pub enum OperationStepRole {
    Primary,
    SideEffect,
}

/// On whose behalf an operation runs.
#[derive(Debug, Clone, Copy, PartialEq, Eq, Structural)]
pub enum OperationActorScope {
    Owner,
    TenantService,
    Admin,
    System,
}

/// Who asked for an operation.
#[derive(Debug, PartialEq, Eq)]
pub struct OperationActor {
    pub scope: OperationActorScope,
    pub owner_user_id_hash: Option<String>,
    pub roles: List<String>,
    pub request_id: Option<String>,
}

impl Clone for OperationActor {
    fn clone(&self) -> (r: Self)
        ensures
            r == *self,
    {
        OperationActor {
            scope: self.scope,
            owner_user_id_hash: self.owner_user_id_hash.clone(),
            roles: self.roles.clone(),
            request_id: self.request_id.clone(),
        }
    }
}

impl Record for OperationActor {
    open spec fn same_as(&self, other: &Self) -> bool {
        &&& self.scope == other.scope
        &&& opt_text(self.owner_user_id_hash) == opt_text(other.owner_user_id_hash)
        &&& texts(self.roles@) == texts(other.roles@)
        &&& opt_text(self.request_id) == opt_text(other.request_id)
    }

    proof fn itself(&self) {
    }

    fn same(&self, other: &Self) -> (r: bool) {
        self.scope == other.scope
            && opt_eq(&self.owner_user_id_hash, &other.owner_user_id_hash)
            && texts_eq(&self.roles, &other.roles)
            && opt_eq(&self.request_id, &other.request_id)
    }

    fn copy(&self) -> (r: Self) {
        self.clone()
    }
}

/// Which index of a company source a deletion is for.
#[derive(Debug, PartialEq, Eq)]
pub enum CompanySourceDeleteTarget {
    Fragments,
    Revisions,
    Source,
    SourceDocuments,
    ParseArtifacts,
    IngestTasks,
    IngestResults,
    Links { link_ids: List<String>, related_uris: List<String> },
}

impl Clone for CompanySourceDeleteTarget {
    fn clone(&self) -> (r: Self)
        ensures
            r == *self,
    {
        match self {
            CompanySourceDeleteTarget::Fragments => CompanySourceDeleteTarget::Fragments,
            CompanySourceDeleteTarget::Revisions => CompanySourceDeleteTarget::Revisions,
            CompanySourceDeleteTarget::Source => CompanySourceDeleteTarget::Source,
            CompanySourceDeleteTarget::SourceDocuments => CompanySourceDeleteTarget::SourceDocuments,
            CompanySourceDeleteTarget::ParseArtifacts => CompanySourceDeleteTarget::ParseArtifacts,
            CompanySourceDeleteTarget::IngestTasks => CompanySourceDeleteTarget::IngestTasks,
            CompanySourceDeleteTarget::IngestResults => CompanySourceDeleteTarget::IngestResults,
            CompanySourceDeleteTarget::Links { link_ids, related_uris } => CompanySourceDeleteTarget::Links {
                link_ids: link_ids.clone(),
                related_uris: related_uris.clone(),
            },
        }
    }
}

/// What one step of an operation writes.
#[derive(Debug, PartialEq, Eq)]
pub enum OperationResource {
    EnsureUserEventIndex { index: UserEventIndex },
    HistoryEvents { events: List<HistoryEvent> },
    ContextNodes { index_uid: String, nodes: List<ContextNode> },
    StateItem { item: StateItem },
    Insight { insight: InsightRecord },
    CompanySource { source: CompanySource },
    SourceRevision { revision: SourceRevision },
    DeleteCompanySourceIndex { source_id: String, target: CompanySourceDeleteTarget },
    SourceDocuments { documents: List<SourceDocument> },
    ParseArtifacts { artifacts: List<ParseArtifact> },
    StructuredSnapshot { snapshot: StructuredSnapshot },
    Dataset { dataset: DatasetRecord },
    StructuredRows { rows: List<Json> },
    StructuredSummary { summary: Json },
    Session { session: SessionRecord },
    Trace { trace: TraceRecord },
    Links { links: List<KnowledgeLink> },
    HarnessComponents { components: List<HarnessComponent>, revisions: List<HarnessComponentRevision> },
    HarnessChanges { changes: List<HarnessChangeManifest> },
    HarnessVerdicts { verdicts: List<HarnessChangeVerdict> },
    IngestTask { task: IngestTask },
    IngestTasks { tasks: List<IngestTask> },
    DeleteIngestTasks { task_ids: List<String> },
    IngestResult { result: IngestTaskResult },
    EvalCase { case: RagEvalCase },
    EvalRun { run: RagEvalRun },
    EvalCaseResults { results: List<RagEvalCaseResult> },
    EvalOverview { overview: RagEvalOverview },
}

impl Clone for OperationResource {
    fn clone(&self) -> (r: Self)
        ensures
            r == *self,
    {
        match self {
            OperationResource::EnsureUserEventIndex { index } => OperationResource::EnsureUserEventIndex {
                index: index.clone(),
            },
            OperationResource::HistoryEvents { events } => OperationResource::HistoryEvents {
                events: events.clone(),
            },
            OperationResource::ContextNodes { index_uid, nodes } => OperationResource::ContextNodes {
                index_uid: index_uid.clone(),
                nodes: nodes.clone(),
            },
            OperationResource::StateItem { item } => OperationResource::StateItem {
                item: item.clone(),
            },
            OperationResource::Insight { insight } => OperationResource::Insight {
                insight: insight.clone(),
            },
            OperationResource::CompanySource { source } => OperationResource::CompanySource {
                source: source.clone(),
            },
            OperationResource::SourceRevision { revision } => OperationResource::SourceRevision {
                revision: revision.clone(),
            },
            OperationResource::DeleteCompanySourceIndex { source_id, target } => OperationResource::DeleteCompanySourceIndex {
                source_id: source_id.clone(),
                target: target.clone(),
            },
            OperationResource::SourceDocuments { documents } => OperationResource::SourceDocuments {
                documents: documents.clone(),
            },
            OperationResource::ParseArtifacts { artifacts } => OperationResource::ParseArtifacts {
                artifacts: artifacts.clone(),
            },
            OperationResource::StructuredSnapshot { snapshot } => OperationResource::StructuredSnapshot {
                snapshot: snapshot.clone(),
            },
            OperationResource::Dataset { dataset } => OperationResource::Dataset {
                dataset: dataset.clone(),
            },
            OperationResource::StructuredRows { rows } => OperationResource::StructuredRows {
                rows: rows.clone(),
            },
            OperationResource::StructuredSummary { summary } => OperationResource::StructuredSummary {
                summary: summary.clone(),
            },
            OperationResource::Session { session } => OperationResource::Session {
                session: session.clone(),
            },
            OperationResource::Trace { trace } => OperationResource::Trace {
                trace: trace.clone(),
            },
            OperationResource::Links { links } => OperationResource::Links {
                links: links.clone(),
            },
            OperationResource::HarnessComponents { components, revisions } => OperationResource::HarnessComponents {
                components: components.clone(),
                revisions: revisions.clone(),
            },
            OperationResource::HarnessChanges { changes } => OperationResource::HarnessChanges {
                changes: changes.clone(),
            },
            OperationResource::HarnessVerdicts { verdicts } => OperationResource::HarnessVerdicts {
                verdicts: verdicts.clone(),
            },
            OperationResource::IngestTask { task } => OperationResource::IngestTask {
                task: task.clone(),
            },
            OperationResource::IngestTasks { tasks } => OperationResource::IngestTasks {
                tasks: tasks.clone(),
            },
            OperationResource::DeleteIngestTasks { task_ids } => OperationResource::DeleteIngestTasks {
                task_ids: task_ids.clone(),
            },
            OperationResource::IngestResult { result } => OperationResource::IngestResult {
                result: result.clone(),
            },
            OperationResource::EvalCase { case } => OperationResource::EvalCase {
                case: case.clone(),
            },
            OperationResource::EvalRun { run } => OperationResource::EvalRun {
                run: run.clone(),
            },
            OperationResource::EvalCaseResults { results } => OperationResource::EvalCaseResults {
                results: results.clone(),
            },
            OperationResource::EvalOverview { overview } => OperationResource::EvalOverview {
                overview: overview.clone(),
            },
        }
    }
}

/// One write of an operation.
#[derive(Debug, PartialEq, Eq)]
pub struct OperationStep {
    pub id: String,
    pub role: OperationStepRole,
    pub resource: OperationResource,
}

impl Clone for OperationStep {
    fn clone(&self) -> (r: Self)
        ensures
            r == *self,
    {
        OperationStep { id: self.id.clone(), role: self.role, resource: self.resource.clone() }
    }
}

/// What is kept of the request that an operation serves.
#[derive(Debug, PartialEq, Eq)]
pub struct PlanMetadata {
    pub resource_count: usize,
    pub write_consistency: String,
    pub wait_for_index: Option<bool>,
    pub request_fingerprint: Option<String>,
    pub target_owner_user_id_hash: Option<String>,
}

impl Clone for PlanMetadata {
    fn clone(&self) -> (r: Self)
        ensures
            r == *self,
    {
        PlanMetadata {
            resource_count: self.resource_count,
            write_consistency: self.write_consistency.clone(),
            wait_for_index: self.wait_for_index,
            request_fingerprint: self.request_fingerprint.clone(),
            target_owner_user_id_hash: self.target_owner_user_id_hash.clone(),
        }
    }
}

/// Everything that an operation will write, fixed before the first write.
#[derive(Debug, PartialEq, Eq)]
pub struct OperationPlan {
    pub schema_version: u32,
    pub id: String,
    pub tenant_id: String,
    pub operation_kind: String,
    pub actor: OperationActor,
    pub idempotency_key_hash: Option<String>,
    pub primary: OperationStep,
    pub side_effects: List<OperationStep>,
    pub redacted_metadata: PlanMetadata,
    pub response_snapshot: Json,
    pub created_at: i64,
}

impl Clone for OperationPlan {
    fn clone(&self) -> (r: Self)
        ensures
            r == *self,
    {
        OperationPlan {
            schema_version: self.schema_version,
            id: self.id.clone(),
            tenant_id: self.tenant_id.clone(),
            operation_kind: self.operation_kind.clone(),
            actor: self.actor.clone(),
            idempotency_key_hash: self.idempotency_key_hash.clone(),
            primary: self.primary.clone(),
            side_effects: self.side_effects.clone(),
            redacted_metadata: self.redacted_metadata.clone(),
            response_snapshot: self.response_snapshot.clone(),
            created_at: self.created_at,
        }
    }
}

/// How far one step has come, and the index tasks that it waits for.
#[derive(Debug, PartialEq, Eq)]
pub struct StepProgress {
    pub step_id: String,
    pub status: OperationStepStatus,
    pub task_uids: List<String>,
}

impl Clone for StepProgress {
    fn clone(&self) -> (r: Self)
        ensures
            r == *self,
    {
        StepProgress {
            step_id: self.step_id.clone(),
            status: self.status,
            task_uids: self.task_uids.clone(),
        }
    }
}

/// An operation and how far it has come.
#[derive(Debug, PartialEq, Eq)]
pub struct OperationRecord {
    pub id: String,
    pub tenant_id: String,
    pub operation_kind: String,
    pub status: OperationStatus,
    pub indexing_state: OperationIndexingState,
    pub plan: OperationPlan,
    pub progress: List<StepProgress>,
    pub created_at: i64,
    pub updated_at: i64,
}

impl Clone for OperationRecord {
    fn clone(&self) -> (r: Self)
        ensures
            r == *self,
    {
        OperationRecord {
            id: self.id.clone(),
            tenant_id: self.tenant_id.clone(),
            operation_kind: self.operation_kind.clone(),
            status: self.status,
            indexing_state: self.indexing_state,
            plan: self.plan.clone(),
            progress: self.progress.clone(),
            created_at: self.created_at,
            updated_at: self.updated_at,
        }
    }
}

/// Which index of a company source a deletion is for, by content.
#[verifier::ext_equal]
pub enum DeleteTargetView {
    Fragments,
    Revisions,
    Source,
    SourceDocuments,
    ParseArtifacts,
    IngestTasks,
    IngestResults,
    Links { link_ids: Seq<Seq<char>>, related_uris: Seq<Seq<char>> },
}

impl View for CompanySourceDeleteTarget {
    type V = DeleteTargetView;

    open spec fn view(&self) -> DeleteTargetView {
        match *self {
            CompanySourceDeleteTarget::Fragments => DeleteTargetView::Fragments,
            CompanySourceDeleteTarget::Revisions => DeleteTargetView::Revisions,
            CompanySourceDeleteTarget::Source => DeleteTargetView::Source,
            CompanySourceDeleteTarget::SourceDocuments => DeleteTargetView::SourceDocuments,
            CompanySourceDeleteTarget::ParseArtifacts => DeleteTargetView::ParseArtifacts,
            CompanySourceDeleteTarget::IngestTasks => DeleteTargetView::IngestTasks,
            CompanySourceDeleteTarget::IngestResults => DeleteTargetView::IngestResults,
            CompanySourceDeleteTarget::Links { link_ids, related_uris } => DeleteTargetView::Links {
                link_ids: texts(link_ids@),
                related_uris: texts(related_uris@),
            },
        }
    }
}

/// What one step of an operation writes, by content.
#[verifier::ext_equal]
pub enum ResourceView {
    EnsureUserEventIndex { index: UserEventIndex },
    HistoryEvents { events: Seq<HistoryEvent> },
    ContextNodes { index_uid: Seq<char>, nodes: Seq<ContextNode> },
    StateItem { item: StateItem },
    Insight { insight: InsightRecord },
    CompanySource { source: CompanySource },
    SourceRevision { revision: SourceRevision },
    DeleteCompanySourceIndex { source_id: Seq<char>, target: DeleteTargetView },
    SourceDocuments { documents: Seq<SourceDocument> },
    ParseArtifacts { artifacts: Seq<ParseArtifact> },
    StructuredSnapshot { snapshot: StructuredSnapshot },
    Dataset { dataset: DatasetRecord },
    StructuredRows { rows: Seq<Json> },
    StructuredSummary { summary: Json },
    Session { session: SessionRecord },
    Trace { trace: TraceRecord },
    Links { links: Seq<KnowledgeLink> },
    HarnessComponents { components: Seq<HarnessComponent>, revisions: Seq<HarnessComponentRevision> },
    HarnessChanges { changes: Seq<HarnessChangeManifest> },
    HarnessVerdicts { verdicts: Seq<HarnessChangeVerdict> },
    IngestTask { task: IngestTask },
    IngestTasks { tasks: Seq<IngestTask> },
    DeleteIngestTasks { task_ids: Seq<Seq<char>> },
    IngestResult { result: IngestTaskResult },
    EvalCase { case: RagEvalCase },
    EvalRun { run: RagEvalRun },
    EvalCaseResults { results: Seq<RagEvalCaseResult> },
    EvalOverview { overview: RagEvalOverview },
}

impl View for OperationResource {
    type V = ResourceView;

    open spec fn view(&self) -> ResourceView {
        match *self {
            OperationResource::EnsureUserEventIndex { index } => ResourceView::EnsureUserEventIndex {
                index,
            },
            OperationResource::HistoryEvents { events } => ResourceView::HistoryEvents {
                events: events@,
            },
            OperationResource::ContextNodes { index_uid, nodes } => ResourceView::ContextNodes {
                index_uid: index_uid@,
                nodes: nodes@,
            },
            OperationResource::StateItem { item } => ResourceView::StateItem {
                item,
            },
            OperationResource::Insight { insight } => ResourceView::Insight {
                insight,
            },
            OperationResource::CompanySource { source } => ResourceView::CompanySource {
                source,
            },
            OperationResource::SourceRevision { revision } => ResourceView::SourceRevision {
                revision,
            },
            OperationResource::DeleteCompanySourceIndex { source_id, target } => ResourceView::DeleteCompanySourceIndex {
                source_id: source_id@,
                target: target@,
            },
            OperationResource::SourceDocuments { documents } => ResourceView::SourceDocuments {
                documents: documents@,
            },
            OperationResource::ParseArtifacts { artifacts } => ResourceView::ParseArtifacts {
                artifacts: artifacts@,
            },
            OperationResource::StructuredSnapshot { snapshot } => ResourceView::StructuredSnapshot {
                snapshot,
            },
            OperationResource::Dataset { dataset } => ResourceView::Dataset {
                dataset,
            },
            OperationResource::StructuredRows { rows } => ResourceView::StructuredRows {
                rows: rows@,
            },
            OperationResource::StructuredSummary { summary } => ResourceView::StructuredSummary {
                summary,
            },
            OperationResource::Session { session } => ResourceView::Session {
                session,
            },
            OperationResource::Trace { trace } => ResourceView::Trace {
                trace,
            },
            OperationResource::Links { links } => ResourceView::Links {
                links: links@,
            },
            OperationResource::HarnessComponents { components, revisions } => ResourceView::HarnessComponents {
                components: components@,
                revisions: revisions@,
            },
            OperationResource::HarnessChanges { changes } => ResourceView::HarnessChanges {
                changes: changes@,
            },
            OperationResource::HarnessVerdicts { verdicts } => ResourceView::HarnessVerdicts {
                verdicts: verdicts@,
            },
            OperationResource::IngestTask { task } => ResourceView::IngestTask {
                task,
            },
            OperationResource::IngestTasks { tasks } => ResourceView::IngestTasks {
                tasks: tasks@,
            },
            OperationResource::DeleteIngestTasks { task_ids } => ResourceView::DeleteIngestTasks {
                task_ids: texts(task_ids@),
            },
            OperationResource::IngestResult { result } => ResourceView::IngestResult {
                result,
            },
            OperationResource::EvalCase { case } => ResourceView::EvalCase {
                case,
            },
            OperationResource::EvalRun { run } => ResourceView::EvalRun {
                run,
            },
            OperationResource::EvalCaseResults { results } => ResourceView::EvalCaseResults {
                results: results@,
            },
            OperationResource::EvalOverview { overview } => ResourceView::EvalOverview {
                overview,
            },
        }
    }
}

/// The contents of a list of resources.
pub open spec fn resource_views(s: Seq<OperationResource>) -> Seq<ResourceView> {
    Seq::new(s.len(), |i: int| s[i]@)
}

} // verus!
