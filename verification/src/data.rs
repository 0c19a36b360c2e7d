//! Everything that the store keeps in memory.

use vstd::prelude::*;

use crate::hydration::HydrationReport;
use crate::json::Json;
use crate::model::harness::{
    HarnessChangeManifest, HarnessChangeVerdict, HarnessComponent, HarnessComponentRevision,
    RagEvalCase, RagEvalCaseResult, RagEvalOverview, RagEvalRun,
};
use crate::model::ingest::{
    CompanyDocPreflightResponse, CompanySource, IngestTask, IngestTaskResult, ParseArtifact,
    ParsedBlock, SourceDocument, SourceRevision,
};
use crate::model::knowledge::{
    AuditRecord, ContextNode, DatasetRecord, HistoryEvent, InsightRecord, KnowledgeLink,
    SessionRecord, StateItem, StructuredSnapshot, TraceRecord, UserEventIndex,
};
use crate::model::operation::OperationRecord;
use crate::record::Row;
use crate::table::{Table, TableKey};
use crate::text::{opt_eq, opt_owned, opt_str, opt_text, text_eq};

verus! {

/// What identifies a source document: the same URI may be stored for several owners.
#[derive(Debug, PartialEq, Eq)]
pub struct SourceDocumentKey {
    pub tenant_id: String,
    pub owner_user_id: Option<String>,
    pub uri: String,
}

/// A source document key by content.
#[verifier::ext_equal]
pub struct DocumentKeyView {
    pub tenant_id: Seq<char>,
    pub owner_user_id: Option<Seq<char>>,
    pub uri: Seq<char>,
}

impl View for SourceDocumentKey {
    type V = DocumentKeyView;

    open spec fn view(&self) -> DocumentKeyView {
        DocumentKeyView {
            tenant_id: self.tenant_id@,
            owner_user_id: opt_text(self.owner_user_id),
            uri: self.uri@,
        }
    }
}

impl TableKey for SourceDocumentKey {
    fn same_key(&self, other: &Self) -> (r: bool) {
        text_eq(self.tenant_id.as_str(), other.tenant_id.as_str()) && opt_eq(
            &self.owner_user_id,
            &other.owner_user_id,
        ) && text_eq(self.uri.as_str(), other.uri.as_str())
    }

    fn copy_key(&self) -> (r: Self) {
        self.clone()
    }
}

impl SourceDocumentKey {
    pub fn new(tenant_id: &str, owner_user_id: Option<&str>, uri: &str) -> (r: Self)
        ensures
            r@ == (DocumentKeyView {
                tenant_id: tenant_id@,
                owner_user_id: opt_str(owner_user_id),
                uri: uri@,
            }),
    {
        SourceDocumentKey {
            tenant_id: tenant_id.to_owned(),
            owner_user_id: opt_owned(owner_user_id),
            uri: uri.to_owned(),
        }
    }

    pub fn from_document(document: &SourceDocument) -> (r: Self)
        ensures
            r@ == document_key(*document),
    {
        SourceDocumentKey {
            tenant_id: document.tenant_id.clone(),
            owner_user_id: document.owner_user_id.clone(),
            uri: document.uri.clone(),
        }
    }
}

/// The key under which a source document is stored.
pub open spec fn document_key(document: SourceDocument) -> DocumentKeyView {
    DocumentKeyView {
        tenant_id: document.tenant_id@,
        owner_user_id: opt_text(document.owner_user_id),
        uri: document.uri@,
    }
}

impl Clone for SourceDocumentKey {
    fn clone(&self) -> (r: Self)
        ensures
            r == *self,
    {
        SourceDocumentKey {
            tenant_id: self.tenant_id.clone(),
            owner_user_id: self.owner_user_id.clone(),
            uri: self.uri.clone(),
        }
    }
}

impl Row<SourceDocumentKey> for SourceDocument {
    open spec fn key(&self) -> DocumentKeyView {
        document_key(*self)
    }

    open spec fn tenant(&self) -> Seq<char> {
        self.tenant_id@
    }

    open spec fn rank(&self) -> Seq<char> {
        self.uri@
    }

    fn key_of(&self) -> (k: SourceDocumentKey) {
        SourceDocumentKey::from_document(self)
    }

    fn tenant_of(&self) -> (t: &str) {
        self.tenant_id.as_str()
    }

    fn rank_of(&self) -> (t: &str) {
        self.uri.as_str()
    }
}

/// What identifies a parse artifact: the same id may be stored for several owners.
#[derive(Debug, PartialEq, Eq)]
pub struct ParseArtifactKey {
    pub tenant_id: String,
    pub owner_user_id: Option<String>,
    pub artifact_id: String,
}

/// A parse artifact key by content.
#[verifier::ext_equal]
pub struct ArtifactKeyView {
    pub tenant_id: Seq<char>,
    pub owner_user_id: Option<Seq<char>>,
    pub artifact_id: Seq<char>,
}

impl View for ParseArtifactKey {
    type V = ArtifactKeyView;

    open spec fn view(&self) -> ArtifactKeyView {
        ArtifactKeyView {
            tenant_id: self.tenant_id@,
            owner_user_id: opt_text(self.owner_user_id),
            artifact_id: self.artifact_id@,
        }
    }
}

impl TableKey for ParseArtifactKey {
    fn same_key(&self, other: &Self) -> (r: bool) {
        text_eq(self.tenant_id.as_str(), other.tenant_id.as_str()) && opt_eq(
            &self.owner_user_id,
            &other.owner_user_id,
        ) && text_eq(self.artifact_id.as_str(), other.artifact_id.as_str())
    }

    fn copy_key(&self) -> (r: Self) {
        ParseArtifactKey {
            tenant_id: self.tenant_id.clone(),
            owner_user_id: self.owner_user_id.clone(),
            artifact_id: self.artifact_id.clone(),
        }
    }
}

/// The key under which a parse artifact is stored.
pub open spec fn artifact_key(artifact: ParseArtifact) -> ArtifactKeyView {
    ArtifactKeyView {
        tenant_id: artifact.tenant_id@,
        owner_user_id: opt_text(artifact.owner_user_id),
        artifact_id: artifact.id@,
    }
}

impl ParseArtifactKey {
    pub fn from_artifact(artifact: &ParseArtifact) -> (r: Self)
        ensures
            r@ == artifact_key(*artifact),
    {
        ParseArtifactKey {
            tenant_id: artifact.tenant_id.clone(),
            owner_user_id: artifact.owner_user_id.clone(),
            artifact_id: artifact.id.clone(),
        }
    }
}

impl Row<ParseArtifactKey> for ParseArtifact {
    open spec fn key(&self) -> ArtifactKeyView {
        artifact_key(*self)
    }

    open spec fn tenant(&self) -> Seq<char> {
        self.tenant_id@
    }

    open spec fn rank(&self) -> Seq<char> {
        self.id@
    }

    fn key_of(&self) -> (k: ParseArtifactKey) {
        ParseArtifactKey::from_artifact(self)
    }

    fn tenant_of(&self) -> (t: &str) {
        self.tenant_id.as_str()
    }

    fn rank_of(&self) -> (t: &str) {
        self.id.as_str()
    }
}

/// The state of the store.
pub struct StoreData {
    pub hydration_report: Option<HydrationReport>,
    pub audit_records: Table<String, AuditRecord>,
    pub operations: Table<String, OperationRecord>,
    pub user_indexes: Table<(String, String), UserEventIndex>,
    pub events_by_index: Table<String, Vec<HistoryEvent>>,
    pub event_by_id: Table<String, HistoryEvent>,
    pub event_idempotency: Table<(String, String), String>,
    pub personal_context: Table<String, Vec<ContextNode>>,
    pub personal_context_loaded: Table<String, ()>,
    pub company_context: Vec<ContextNode>,
    pub state_items: Table<(String, String, String), StateItem>,
    pub insights: Table<String, InsightRecord>,
    pub insight_idempotency: Table<(String, String, String), String>,
    pub sources: Table<String, CompanySource>,
    pub source_revisions: Table<String, Vec<SourceRevision>>,
    pub source_documents: Table<SourceDocumentKey, SourceDocument>,
    pub parse_artifacts: Table<ParseArtifactKey, ParseArtifact>,
    pub parsed_blocks: Table<SourceDocumentKey, Vec<ParsedBlock>>,
    pub ingest_tasks: Table<String, IngestTask>,
    pub ingest_results: Table<String, IngestTaskResult>,
    pub preflight_decisions: Table<String, CompanyDocPreflightResponse>,
    pub datasets: Table<String, DatasetRecord>,
    pub snapshots: Table<String, StructuredSnapshot>,
    pub snapshot_idempotency: Table<(String, String), String>,
    pub rows_by_snapshot: Table<String, Vec<Json>>,
    pub row_idempotency: Table<(String, String), ()>,
    pub structured_summaries: Table<String, Json>,
    pub sessions: Table<String, SessionRecord>,
    pub traces: Table<String, TraceRecord>,
    pub links: Table<String, KnowledgeLink>,
    pub link_idempotency: Table<(String, String, String), String>,
    pub harness_components: Table<String, HarnessComponent>,
    pub harness_revisions: Table<String, Vec<HarnessComponentRevision>>,
    pub harness_changes: Table<String, HarnessChangeManifest>,
    pub harness_verdicts: Table<String, HarnessChangeVerdict>,
    pub eval_cases: Table<String, RagEvalCase>,
    pub eval_runs: Table<String, RagEvalRun>,
    pub eval_case_results: Table<String, RagEvalCaseResult>,
    pub eval_overviews: Table<String, RagEvalOverview>,
}

impl StoreData {
    /// A store that holds nothing.
    pub fn empty() -> (r: StoreData)
        ensures
            r.is_empty(),
    {
        StoreData {
            hydration_report: None,
            audit_records: Table::new(),
            operations: Table::new(),
            user_indexes: Table::new(),
            events_by_index: Table::new(),
            event_by_id: Table::new(),
            event_idempotency: Table::new(),
            personal_context: Table::new(),
            personal_context_loaded: Table::new(),
            company_context: Vec::new(),
            state_items: Table::new(),
            insights: Table::new(),
            insight_idempotency: Table::new(),
            sources: Table::new(),
            source_revisions: Table::new(),
            source_documents: Table::new(),
            parse_artifacts: Table::new(),
            parsed_blocks: Table::new(),
            ingest_tasks: Table::new(),
            ingest_results: Table::new(),
            preflight_decisions: Table::new(),
            datasets: Table::new(),
            snapshots: Table::new(),
            snapshot_idempotency: Table::new(),
            rows_by_snapshot: Table::new(),
            row_idempotency: Table::new(),
            structured_summaries: Table::new(),
            sessions: Table::new(),
            traces: Table::new(),
            links: Table::new(),
            link_idempotency: Table::new(),
            harness_components: Table::new(),
            harness_revisions: Table::new(),
            harness_changes: Table::new(),
            harness_verdicts: Table::new(),
            eval_cases: Table::new(),
            eval_runs: Table::new(),
            eval_case_results: Table::new(),
            eval_overviews: Table::new(),
        }
    }

    /// Whether the store holds nothing.
    pub open spec fn is_empty(&self) -> bool {
        &&& self.hydration_report is None
        &&& self.audit_records.rows().len() == 0
        &&& self.operations.rows().len() == 0
        &&& self.user_indexes.rows().len() == 0
        &&& self.events_by_index.rows().len() == 0
        &&& self.event_by_id.rows().len() == 0
        &&& self.event_idempotency.rows().len() == 0
        &&& self.personal_context.rows().len() == 0
        &&& self.personal_context_loaded.rows().len() == 0
        &&& self.company_context@.len() == 0
        &&& self.state_items.rows().len() == 0
        &&& self.insights.rows().len() == 0
        &&& self.insight_idempotency.rows().len() == 0
        &&& self.sources.rows().len() == 0
        &&& self.source_revisions.rows().len() == 0
        &&& self.source_documents.rows().len() == 0
        &&& self.parse_artifacts.rows().len() == 0
        &&& self.parsed_blocks.rows().len() == 0
        &&& self.ingest_tasks.rows().len() == 0
        &&& self.ingest_results.rows().len() == 0
        &&& self.preflight_decisions.rows().len() == 0
        &&& self.datasets.rows().len() == 0
        &&& self.snapshots.rows().len() == 0
        &&& self.snapshot_idempotency.rows().len() == 0
        &&& self.rows_by_snapshot.rows().len() == 0
        &&& self.row_idempotency.rows().len() == 0
        &&& self.structured_summaries.rows().len() == 0
        &&& self.sessions.rows().len() == 0
        &&& self.traces.rows().len() == 0
        &&& self.links.rows().len() == 0
        &&& self.link_idempotency.rows().len() == 0
        &&& self.harness_components.rows().len() == 0
        &&& self.harness_revisions.rows().len() == 0
        &&& self.harness_changes.rows().len() == 0
        &&& self.harness_verdicts.rows().len() == 0
        &&& self.eval_cases.rows().len() == 0
        &&& self.eval_runs.rows().len() == 0
        &&& self.eval_case_results.rows().len() == 0
        &&& self.eval_overviews.rows().len() == 0
    }
}

} // verus!
