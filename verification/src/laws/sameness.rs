//! What it means for two records to be the same: they agree in everything that they hold, so that
//! whatever is changed in one is a change.

use vstd::prelude::*;

use crate::data::{ArtifactKeyView, DocumentKeyView};
use crate::float::float_same;
use crate::model::harness::{
    CaseMetrics, Citation, FailurePatternCluster, HarnessChangeManifest, HarnessChangeVerdict,
    HarnessComponent, HarnessComponentRevision, RagEvalCase, RagEvalCaseResult, RagEvalMetrics,
    RagEvalOverview, RagEvalRun, RegressionGuardResult,
};
use crate::model::ingest::{
    CompanySource, IngestTask, IngestTaskResult, ParseArtifact, ParsedBlock, SourceDocument,
    SourceRevision,
};
use crate::model::knowledge::{
    ContextNode, DatasetRecord, HistoryEvent, InsightRecord, KnowledgeLink, ParseArtifactRef,
    SessionRecord, SourceRef, StateItem, StructuredSnapshot, TraceRecord, UserEventIndex,
};
use crate::record::{all_same, opt_same, Record, Row};
use crate::text::{opt_text, texts};

verus! {

/// Two references to sources that are the same agree in all that they hold.
pub proof fn alike_references_agree(a: SourceRef, b: SourceRef)
    requires
        a.same_as(&b),
    ensures
        a.kind@ == b.kind@,
        a.id@ == b.id@,
        opt_text(a.uri) == opt_text(b.uri),
        opt_same(a.meta, b.meta),
{
}

/// Two entries of event indexes that are the same agree in all that they hold.
pub proof fn alike_indexes_agree(a: UserEventIndex, b: UserEventIndex)
    requires
        a.same_as(&b),
    ensures
        a.id@ == b.id@,
        a.tenant_id@ == b.tenant_id@,
        a.tenant_hash@ == b.tenant_hash@,
        a.owner_user_id_hash@ == b.owner_user_id_hash@,
        a.event_index_uid@ == b.event_index_uid@,
        a.personal_context_index_uid@ == b.personal_context_index_uid@,
        a.schema_version == b.schema_version,
        a.settings_hash@ == b.settings_hash@,
        a.status@ == b.status@,
        a.created_at == b.created_at,
        a.last_event_at == b.last_event_at,
        a.event_count_estimate == b.event_count_estimate,
{
}

/// Two events that are the same agree in all that they hold.
pub proof fn alike_events_agree(a: HistoryEvent, b: HistoryEvent)
    requires
        a.same_as(&b),
    ensures
        a.id@ == b.id@,
        a.event_type@ == b.event_type@,
        a.entity_type@ == b.entity_type@,
        a.entity_id@ == b.entity_id@,
        a.occurred_at == b.occurred_at,
        a.observed_at == b.observed_at,
        a.source_kind@ == b.source_kind@,
        a.text@ == b.text@,
        texts(a.tags@) == texts(b.tags@),
        a.privacy@ == b.privacy@,
        a.tenant_id@ == b.tenant_id@,
        a.owner_user_id@ == b.owner_user_id@,
        a.owner_user_id_hash@ == b.owner_user_id_hash@,
        a.event_index_uid@ == b.event_index_uid@,
        a.event_index_schema_version == b.event_index_schema_version,
        opt_text(a.idempotency_key_hash) == opt_text(b.idempotency_key_hash),
        a.source_ref.same_as(&b.source_ref),
        a.payload.same_as(&b.payload),
{
}

/// Two references to artifacts that are the same agree in all that they hold.
pub proof fn alike_artifact_references_agree(a: ParseArtifactRef, b: ParseArtifactRef)
    requires
        a.same_as(&b),
    ensures
        a.id@ == b.id@,
        a.artifact_kind@ == b.artifact_kind@,
        a.uri@ == b.uri@,
        opt_text(a.checksum) == opt_text(b.checksum),
{
}

/// Two nodes that are the same agree in all that they hold.
pub proof fn alike_nodes_agree(a: ContextNode, b: ContextNode)
    requires
        a.same_as(&b),
    ensures
        a.uri@ == b.uri@,
        a.title@ == b.title@,
        a.layer == b.layer,
        a.body@ == b.body@,
        a.tenant_id@ == b.tenant_id@,
        opt_text(a.owner_user_id) == opt_text(b.owner_user_id),
        a.index_uid@ == b.index_uid@,
        a.index_kind@ == b.index_kind@,
        texts(a.ancestor_uris@) == texts(b.ancestor_uris@),
        a.node_kind@ == b.node_kind@,
        a.retrieval_role@ == b.retrieval_role@,
        a.retrieval_enabled == b.retrieval_enabled,
        opt_text(a.parent_uri) == opt_text(b.parent_uri),
        opt_text(a.source_document_uri) == opt_text(b.source_document_uri),
        a.fragment_index == b.fragment_index,
        a.char_start == b.char_start,
        a.char_end == b.char_end,
        a.token_estimate == b.token_estimate,
        opt_text(a.checksum) == opt_text(b.checksum),
        opt_text(a.source_id) == opt_text(b.source_id),
        opt_text(a.revision_id) == opt_text(b.revision_id),
        opt_text(a.block_type) == opt_text(b.block_type),
        a.page_idx == b.page_idx,
        texts(a.section_path@) == texts(b.section_path@),
        a.heading_level == b.heading_level,
        texts(a.asset_refs@) == texts(b.asset_refs@),
        a.status@ == b.status@,
        a.privacy@ == b.privacy@,
        a.updated_at == b.updated_at,
        opt_same(a.bbox, b.bbox),
        all_same(a.artifact_refs@, b.artifact_refs@),
{
}

/// Two facts that are the same agree in all that they hold.
pub proof fn alike_facts_agree(a: StateItem, b: StateItem)
    requires
        a.same_as(&b),
    ensures
        a.id@ == b.id@,
        a.tenant_id@ == b.tenant_id@,
        a.owner_user_id@ == b.owner_user_id@,
        a.state_type@ == b.state_type@,
        a.natural_key@ == b.natural_key@,
        a.title@ == b.title@,
        a.statement@ == b.statement@,
        a.status@ == b.status@,
        a.valid_from == b.valid_from,
        a.valid_to == b.valid_to,
        a.context_uri@ == b.context_uri@,
        a.current_version == b.current_version,
        texts(a.supersedes@) == texts(b.supersedes@),
        a.created_at == b.created_at,
        a.updated_at == b.updated_at,
        a.value.same_as(&b.value),
        float_same(a.confidence, b.confidence),
        float_same(a.salience, b.salience),
        all_same(a.source_refs@, b.source_refs@),
{
}

/// Two insights that are the same agree in all that they hold.
pub proof fn alike_insights_agree(a: InsightRecord, b: InsightRecord)
    requires
        a.same_as(&b),
    ensures
        a.id@ == b.id@,
        a.tenant_id@ == b.tenant_id@,
        a.insight_type@ == b.insight_type@,
        a.title@ == b.title@,
        a.statement@ == b.statement@,
        a.status@ == b.status@,
        a.context_uri@ == b.context_uri@,
        a.owner_user_id@ == b.owner_user_id@,
        a.privacy@ == b.privacy@,
        a.created_at == b.created_at,
        a.updated_at == b.updated_at,
        float_same(a.confidence, b.confidence),
        float_same(a.salience, b.salience),
        all_same(a.source_refs@, b.source_refs@),
{
}

/// Two links that are the same agree in all that they hold.
pub proof fn alike_links_agree(a: KnowledgeLink, b: KnowledgeLink)
    requires
        a.same_as(&b),
    ensures
        a.id@ == b.id@,
        a.tenant_id@ == b.tenant_id@,
        opt_text(a.owner_user_id) == opt_text(b.owner_user_id),
        a.source_uri@ == b.source_uri@,
        a.target_uri@ == b.target_uri@,
        opt_text(a.source_title) == opt_text(b.source_title),
        opt_text(a.target_title) == opt_text(b.target_title),
        a.relation@ == b.relation@,
        opt_text(a.rationale) == opt_text(b.rationale),
        opt_text(a.evidence_text) == opt_text(b.evidence_text),
        a.created_by@ == b.created_by@,
        a.status@ == b.status@,
        texts(a.tags@) == texts(b.tags@),
        a.created_at == b.created_at,
        a.updated_at == b.updated_at,
        float_same(a.confidence, b.confidence),
{
}

/// Two sessions that are the same agree in all that they hold.
pub proof fn alike_sessions_agree(a: SessionRecord, b: SessionRecord)
    requires
        a.same_as(&b),
    ensures
        a.id@ == b.id@,
        a.tenant_id@ == b.tenant_id@,
        a.owner_user_id@ == b.owner_user_id@,
        a.title@ == b.title@,
        a.status@ == b.status@,
        a.created_at == b.created_at,
        all_same(a.messages@, b.messages@),
{
}

/// Two traces that are the same agree in all that they hold.
pub proof fn alike_traces_agree(a: TraceRecord, b: TraceRecord)
    requires
        a.same_as(&b),
    ensures
        a.id@ == b.id@,
        a.tenant_id@ == b.tenant_id@,
        opt_text(a.owner_user_id) == opt_text(b.owner_user_id),
        a.query@ == b.query@,
        a.mode@ == b.mode@,
        texts(a.context_uris@) == texts(b.context_uris@),
        a.created_at == b.created_at,
        all_same(a.stages@, b.stages@),
{
}

/// Two datasets that are the same agree in all that they hold.
pub proof fn alike_datasets_agree(a: DatasetRecord, b: DatasetRecord)
    requires
        a.same_as(&b),
    ensures
        a.id@ == b.id@,
        a.tenant_id@ == b.tenant_id@,
        a.dataset_key@ == b.dataset_key@,
        a.title@ == b.title@,
        a.schema_version == b.schema_version,
        a.status@ == b.status@,
        all_same(a.columns@, b.columns@),
{
}

/// Two snapshots that are the same agree in all that they hold.
pub proof fn alike_snapshots_agree(a: StructuredSnapshot, b: StructuredSnapshot)
    requires
        a.same_as(&b),
    ensures
        a.id@ == b.id@,
        a.tenant_id@ == b.tenant_id@,
        a.dataset_key@ == b.dataset_key@,
        a.owner_user_id@ == b.owner_user_id@,
        a.period_key@ == b.period_key@,
        a.period_start == b.period_start,
        a.period_end == b.period_end,
        a.row_count == b.row_count,
        a.status@ == b.status@,
{
}

/// Two components that are the same agree in all that they hold.
pub proof fn alike_components_agree(a: HarnessComponent, b: HarnessComponent)
    requires
        a.same_as(&b),
    ensures
        a.id@ == b.id@,
        a.tenant_id@ == b.tenant_id@,
        a.display_name@ == b.display_name@,
        a.component_kind@ == b.component_kind@,
        a.description@ == b.description@,
        a.status@ == b.status@,
        opt_text(a.current_revision_id) == opt_text(b.current_revision_id),
        a.created_at == b.created_at,
        a.updated_at == b.updated_at,
{
}

/// Two revisions of components that are the same agree in all that they hold.
pub proof fn alike_component_revisions_agree(a: HarnessComponentRevision, b: HarnessComponentRevision)
    requires
        a.same_as(&b),
    ensures
        a.id@ == b.id@,
        a.tenant_id@ == b.tenant_id@,
        a.component_id@ == b.component_id@,
        a.iteration == b.iteration,
        a.manifest_id@ == b.manifest_id@,
        texts(a.files@) == texts(b.files@),
        a.status@ == b.status@,
        a.created_by@ == b.created_by@,
        a.created_at == b.created_at,
        a.content.same_as(&b.content),
{
}

/// Two changes that are the same agree in all that they hold.
pub proof fn alike_changes_agree(a: HarnessChangeManifest, b: HarnessChangeManifest)
    requires
        a.same_as(&b),
    ensures
        a.id@ == b.id@,
        a.tenant_id@ == b.tenant_id@,
        a.iteration == b.iteration,
        a.change_type@ == b.change_type@,
        a.component_id@ == b.component_id@,
        texts(a.files@) == texts(b.files@),
        a.failure_pattern@ == b.failure_pattern@,
        a.root_cause@ == b.root_cause@,
        a.targeted_fix@ == b.targeted_fix@,
        texts(a.predicted_fixes@) == texts(b.predicted_fixes@),
        texts(a.risk_cases@) == texts(b.risk_cases@),
        opt_text(a.baseline_eval_run_id) == opt_text(b.baseline_eval_run_id),
        opt_text(a.candidate_eval_run_id) == opt_text(b.candidate_eval_run_id),
        a.why_this_component@ == b.why_this_component@,
        a.created_by@ == b.created_by@,
        a.created_at == b.created_at,
        a.status@ == b.status@,
        a.expected_metric_deltas.same_as(&b.expected_metric_deltas),
{
}

/// Two verdicts that are the same agree in all that they hold.
pub proof fn alike_verdicts_agree(a: HarnessChangeVerdict, b: HarnessChangeVerdict)
    requires
        a.same_as(&b),
    ensures
        a.id@ == b.id@,
        a.tenant_id@ == b.tenant_id@,
        a.change_id@ == b.change_id@,
        opt_text(a.eval_run_id) == opt_text(b.eval_run_id),
        a.verdict@ == b.verdict@,
        texts(a.predicted_fixes_confirmed@) == texts(b.predicted_fixes_confirmed@),
        texts(a.risk_cases_regressed@) == texts(b.risk_cases_regressed@),
        a.created_by@ == b.created_by@,
        a.created_at == b.created_at,
        a.observed_metric_deltas.same_as(&b.observed_metric_deltas),
        a.evidence.same_as(&b.evidence),
{
}

/// Two cases that are the same agree in all that they hold.
pub proof fn alike_cases_agree(a: RagEvalCase, b: RagEvalCase)
    requires
        a.same_as(&b),
    ensures
        a.id@ == b.id@,
        a.tenant_id@ == b.tenant_id@,
        opt_text(a.owner_user_id) == opt_text(b.owner_user_id),
        a.question@ == b.question@,
        texts(a.expected_context_uris@) == texts(b.expected_context_uris@),
        texts(a.expected_source_document_uris@) == texts(b.expected_source_document_uris@),
        texts(a.expected_answer_contains@) == texts(b.expected_answer_contains@),
        texts(a.tags@) == texts(b.tags@),
        a.created_at == b.created_at,
        a.metadata.same_as(&b.metadata),
{
}

/// Two measurements that are the same agree in all that they hold.
pub proof fn alike_measurements_agree(a: CaseMetrics, b: CaseMetrics)
    requires
        a.same_as(&b),
    ensures
        a.source_doc_leak == b.source_doc_leak,
        a.acl_violation == b.acl_violation,
        a.stale_fragment == b.stale_fragment,
        a.tokens == b.tokens,
        opt_same(a.retrieval_recall_at_5, b.retrieval_recall_at_5),
        opt_same(a.citation_precision, b.citation_precision),
        opt_same(a.traceback_success_rate, b.traceback_success_rate),
{
}

/// Two metrics that are the same agree in all that they hold.
pub proof fn alike_metrics_agree(a: RagEvalMetrics, b: RagEvalMetrics)
    requires
        a.same_as(&b),
    ensures
        a.latency_p95 == b.latency_p95,
        a.pass_rate.same_as(&b.pass_rate),
        all_same(a.retrieval_recall_at_5@, b.retrieval_recall_at_5@),
        all_same(a.citation_precision@, b.citation_precision@),
        all_same(a.traceback_success_rate@, b.traceback_success_rate@),
        a.source_doc_leak_rate.same_as(&b.source_doc_leak_rate),
        a.acl_violation_rate.same_as(&b.acl_violation_rate),
        a.stale_fragment_rate.same_as(&b.stale_fragment_rate),
        a.state_history_consistency_rate.same_as(&b.state_history_consistency_rate),
        a.llm_health_false_ready_rate.same_as(&b.llm_health_false_ready_rate),
        all_same(a.tokens_per_answer@, b.tokens_per_answer@),
{
}

/// Two citations that are the same agree in all that they hold.
pub proof fn alike_citations_agree(a: Citation, b: Citation)
    requires
        a.same_as(&b),
    ensures
        a.uri@ == b.uri@,
        opt_text(a.node_kind) == opt_text(b.node_kind),
        opt_text(a.retrieval_role) == opt_text(b.retrieval_role),
        opt_text(a.source_id) == opt_text(b.source_id),
        opt_text(a.revision_id) == opt_text(b.revision_id),
        opt_text(a.source_document_uri) == opt_text(b.source_document_uri),
        opt_text(a.source_title) == opt_text(b.source_title),
        opt_text(a.block_type) == opt_text(b.block_type),
        a.page_idx == b.page_idx,
        texts(a.section_path@) == texts(b.section_path@),
        a.heading_level == b.heading_level,
        texts(a.asset_refs@) == texts(b.asset_refs@),
        a.fragment_index == b.fragment_index,
        a.char_start == b.char_start,
        a.char_end == b.char_end,
        opt_text(a.checksum) == opt_text(b.checksum),
        a.title@ == b.title@,
        a.quote@ == b.quote@,
        opt_same(a.bbox, b.bbox),
        all_same(a.artifact_refs@, b.artifact_refs@),
        float_same(a.score, b.score),
{
}

/// Two results of cases that are the same agree in all that they hold.
pub proof fn alike_case_results_agree(a: RagEvalCaseResult, b: RagEvalCaseResult)
    requires
        a.same_as(&b),
    ensures
        a.id@ == b.id@,
        a.tenant_id@ == b.tenant_id@,
        a.run_id@ == b.run_id@,
        a.case_id@ == b.case_id@,
        opt_text(a.owner_user_id) == opt_text(b.owner_user_id),
        a.status@ == b.status@,
        a.question@ == b.question@,
        a.trace_id@ == b.trace_id@,
        a.answer@ == b.answer@,
        texts(a.retrieved_uris@) == texts(b.retrieved_uris@),
        texts(a.source_document_uris@) == texts(b.source_document_uris@),
        texts(a.failures@) == texts(b.failures@),
        texts(a.guard_failures@) == texts(b.guard_failures@),
        a.latency_ms == b.latency_ms,
        a.created_at == b.created_at,
        all_same(a.citations@, b.citations@),
        a.metrics.same_as(&b.metrics),
{
}

/// Two results of guards that are the same agree in all that they hold.
pub proof fn alike_guard_results_agree(a: RegressionGuardResult, b: RegressionGuardResult)
    requires
        a.same_as(&b),
    ensures
        a.name@ == b.name@,
        a.passed == b.passed,
        a.evidence.same_as(&b.evidence),
{
}

/// Two runs that are the same agree in all that they hold.
pub proof fn alike_runs_agree(a: RagEvalRun, b: RagEvalRun)
    requires
        a.same_as(&b),
    ensures
        a.id@ == b.id@,
        a.tenant_id@ == b.tenant_id@,
        opt_text(a.change_id) == opt_text(b.change_id),
        texts(a.case_ids@) == texts(b.case_ids@),
        texts(a.result_ids@) == texts(b.result_ids@),
        texts(a.trace_ids@) == texts(b.trace_ids@),
        a.status@ == b.status@,
        opt_text(a.overview_source_document_uri) == opt_text(b.overview_source_document_uri),
        texts(a.report_source_document_uris@) == texts(b.report_source_document_uris@),
        a.created_by@ == b.created_by@,
        a.created_at == b.created_at,
        a.completed_at == b.completed_at,
        a.metrics.same_as(&b.metrics),
        all_same(a.guard_results@, b.guard_results@),
{
}

/// Two clusters that are the same agree in all that they hold.
pub proof fn alike_clusters_agree(a: FailurePatternCluster, b: FailurePatternCluster)
    requires
        a.same_as(&b),
    ensures
        a.pattern@ == b.pattern@,
        a.count == b.count,
        texts(a.case_ids@) == texts(b.case_ids@),
        a.suggested_target_component@ == b.suggested_target_component@,
        texts(a.root_cause_notes@) == texts(b.root_cause_notes@),
{
}

/// Two overviews that are the same agree in all that they hold.
pub proof fn alike_overviews_agree(a: RagEvalOverview, b: RagEvalOverview)
    requires
        a.same_as(&b),
    ensures
        a.tenant_id@ == b.tenant_id@,
        a.run_id@ == b.run_id@,
        a.status@ == b.status@,
        a.suggested_target_component@ == b.suggested_target_component@,
        texts(a.root_cause_notes@) == texts(b.root_cause_notes@),
        a.overview_markdown@ == b.overview_markdown@,
        texts(a.case_report_uris@) == texts(b.case_report_uris@),
        opt_text(a.overview_source_document_uri) == opt_text(b.overview_source_document_uri),
        a.generated_at == b.generated_at,
        a.metrics.same_as(&b.metrics),
        all_same(a.failure_patterns@, b.failure_patterns@),
{
}

/// Two sources that are the same agree in all that they hold.
pub proof fn alike_sources_agree(a: CompanySource, b: CompanySource)
    requires
        a.same_as(&b),
    ensures
        a.id@ == b.id@,
        a.tenant_id@ == b.tenant_id@,
        a.title@ == b.title@,
        a.canonical_key@ == b.canonical_key@,
        a.source_uri@ == b.source_uri@,
        opt_text(a.active_revision_id) == opt_text(b.active_revision_id),
{
}

/// Two revisions that are the same agree in all that they hold.
pub proof fn alike_revisions_agree(a: SourceRevision, b: SourceRevision)
    requires
        a.same_as(&b),
    ensures
        a.id@ == b.id@,
        a.tenant_id@ == b.tenant_id@,
        a.source_id@ == b.source_id@,
        a.title@ == b.title@,
        a.source_uri@ == b.source_uri@,
        a.checksum@ == b.checksum@,
        a.content@ == b.content@,
        a.status@ == b.status@,
        a.created_at == b.created_at,
{
}

/// Two documents that are the same agree in all that they hold.
pub proof fn alike_documents_agree(a: SourceDocument, b: SourceDocument)
    requires
        a.same_as(&b),
    ensures
        a.id@ == b.id@,
        a.tenant_id@ == b.tenant_id@,
        opt_text(a.owner_user_id) == opt_text(b.owner_user_id),
        a.source_kind@ == b.source_kind@,
        a.source_id@ == b.source_id@,
        a.revision_id@ == b.revision_id@,
        a.uri@ == b.uri@,
        a.title@ == b.title@,
        a.content@ == b.content@,
        a.checksum@ == b.checksum@,
        a.status@ == b.status@,
        a.retrieval_enabled == b.retrieval_enabled,
        a.created_at == b.created_at,
        a.updated_at == b.updated_at,
{
}

/// Two artifacts that are the same agree in all that they hold.
pub proof fn alike_artifacts_agree(a: ParseArtifact, b: ParseArtifact)
    requires
        a.same_as(&b),
    ensures
        a.id@ == b.id@,
        a.tenant_id@ == b.tenant_id@,
        opt_text(a.owner_user_id) == opt_text(b.owner_user_id),
        a.source_document_uri@ == b.source_document_uri@,
        a.source_id@ == b.source_id@,
        a.revision_id@ == b.revision_id@,
        a.parser_provider@ == b.parser_provider@,
        a.parser_backend@ == b.parser_backend@,
        opt_text(a.parser_version) == opt_text(b.parser_version),
        a.artifact_kind@ == b.artifact_kind@,
        a.uri@ == b.uri@,
        a.checksum@ == b.checksum@,
        a.byte_size == b.byte_size,
        a.created_at == b.created_at,
{
}

/// Two blocks that are the same agree in all that they hold.
pub proof fn alike_blocks_agree(a: ParsedBlock, b: ParsedBlock)
    requires
        a.same_as(&b),
    ensures
        a.block_id@ == b.block_id@,
        a.block_type@ == b.block_type@,
        opt_text(a.text) == opt_text(b.text),
        opt_text(a.html) == opt_text(b.html),
        opt_text(a.latex) == opt_text(b.latex),
        opt_text(a.image_ref) == opt_text(b.image_ref),
        opt_text(a.caption) == opt_text(b.caption),
        opt_text(a.footnote) == opt_text(b.footnote),
        texts(a.section_path@) == texts(b.section_path@),
        a.page_idx == b.page_idx,
        a.heading_level == b.heading_level,
        a.reading_order == b.reading_order,
        opt_same(a.bbox, b.bbox),
{
}

/// Two tasks that are the same agree in all that they hold.
pub proof fn alike_tasks_agree(a: IngestTask, b: IngestTask)
    requires
        a.same_as(&b),
    ensures
        a.task_id@ == b.task_id@,
        a.tenant_id@ == b.tenant_id@,
        opt_text(a.owner_user_id) == opt_text(b.owner_user_id),
        a.source_id@ == b.source_id@,
        a.revision_id@ == b.revision_id@,
        opt_text(a.source_document_uri) == opt_text(b.source_document_uri),
        a.parser_provider@ == b.parser_provider@,
        a.parser_backend@ == b.parser_backend@,
        a.state@ == b.state@,
        opt_text(a.error) == opt_text(b.error),
        a.created_at == b.created_at,
        a.updated_at == b.updated_at,
        a.completed_at == b.completed_at,
        opt_text(a.status_url) == opt_text(b.status_url),
        opt_text(a.result_url) == opt_text(b.result_url),
        a.queued_ahead == b.queued_ahead,
{
}

/// Two results of tasks that are the same agree in all that they hold.
pub proof fn alike_task_results_agree(a: IngestTaskResult, b: IngestTaskResult)
    requires
        a.same_as(&b),
    ensures
        a.source_document_uri@ == b.source_document_uri@,
        a.source_id@ == b.source_id@,
        a.revision_id@ == b.revision_id@,
        texts(a.fragment_uris@) == texts(b.fragment_uris@),
        texts(a.context_uris@) == texts(b.context_uris@),
        a.task.same_as(&b.task),
        all_same(a.parse_artifacts@, b.parse_artifacts@),
        all_same(a.parsed_blocks@, b.parsed_blocks@),
{
}

/// Where entries of event indexes are kept, and for which tenant.
pub proof fn indexes_have_their_place(a: UserEventIndex)
    ensures
        a.key() == (a.tenant_id@, a.owner_user_id_hash@),
        a.tenant() == a.tenant_id@,
{
}

/// Where events are kept, and for which tenant.
pub proof fn events_have_their_place(a: HistoryEvent)
    ensures
        a.key() == a.id@,
        a.tenant() == a.tenant_id@,
{
}

/// Where facts are kept, and for which tenant.
pub proof fn facts_have_their_place(a: StateItem)
    ensures
        a.key() == (a.tenant_id@, a.owner_user_id@, a.natural_key@),
        a.tenant() == a.tenant_id@,
{
}

/// Where insights are kept, and for which tenant.
pub proof fn insights_have_their_place(a: InsightRecord)
    ensures
        a.key() == a.id@,
        a.tenant() == a.tenant_id@,
{
}

/// Where links are kept, and for which tenant.
pub proof fn links_have_their_place(a: KnowledgeLink)
    ensures
        a.key() == a.id@,
        a.tenant() == a.tenant_id@,
{
}

/// Where sessions are kept, and for which tenant.
pub proof fn sessions_have_their_place(a: SessionRecord)
    ensures
        a.key() == a.id@,
        a.tenant() == a.tenant_id@,
{
}

/// Where traces are kept, and for which tenant.
pub proof fn traces_have_their_place(a: TraceRecord)
    ensures
        a.key() == a.id@,
        a.tenant() == a.tenant_id@,
{
}

/// Where datasets are kept, and for which tenant.
pub proof fn datasets_have_their_place(a: DatasetRecord)
    ensures
        a.key() == a.dataset_key@,
        a.tenant() == a.tenant_id@,
{
}

/// Where snapshots are kept, and for which tenant.
pub proof fn snapshots_have_their_place(a: StructuredSnapshot)
    ensures
        a.key() == a.id@,
        a.tenant() == a.tenant_id@,
{
}

/// Where components are kept, and for which tenant.
pub proof fn components_have_their_place(a: HarnessComponent)
    ensures
        a.key() == a.id@,
        a.tenant() == a.tenant_id@,
{
}

/// Where revisions of components are kept, and for which tenant.
pub proof fn component_revisions_have_their_place(a: HarnessComponentRevision)
    ensures
        a.key() == a.id@,
        a.tenant() == a.tenant_id@,
{
}

/// Where changes are kept, and for which tenant.
pub proof fn changes_have_their_place(a: HarnessChangeManifest)
    ensures
        a.key() == a.id@,
        a.tenant() == a.tenant_id@,
{
}

/// Where verdicts are kept, and for which tenant.
pub proof fn verdicts_have_their_place(a: HarnessChangeVerdict)
    ensures
        a.key() == a.id@,
        a.tenant() == a.tenant_id@,
{
}

/// Where cases are kept, and for which tenant.
pub proof fn cases_have_their_place(a: RagEvalCase)
    ensures
        a.key() == a.id@,
        a.tenant() == a.tenant_id@,
{
}

/// Where results of cases are kept, and for which tenant.
pub proof fn case_results_have_their_place(a: RagEvalCaseResult)
    ensures
        a.key() == a.id@,
        a.tenant() == a.tenant_id@,
{
}

/// Where runs are kept, and for which tenant.
pub proof fn runs_have_their_place(a: RagEvalRun)
    ensures
        a.key() == a.id@,
        a.tenant() == a.tenant_id@,
{
}

/// Where overviews are kept, and for which tenant.
pub proof fn overviews_have_their_place(a: RagEvalOverview)
    ensures
        a.key() == a.run_id@,
        a.tenant() == a.tenant_id@,
{
}

/// Where sources are kept, and for which tenant.
pub proof fn sources_have_their_place(a: CompanySource)
    ensures
        a.key() == a.id@,
        a.tenant() == a.tenant_id@,
{
}

/// Where revisions are kept, and for which tenant.
pub proof fn revisions_have_their_place(a: SourceRevision)
    ensures
        a.key() == a.id@,
        a.tenant() == a.tenant_id@,
{
}

/// Where tasks are kept, and for which tenant.
pub proof fn tasks_have_their_place(a: IngestTask)
    ensures
        a.key() == a.task_id@,
        a.tenant() == a.tenant_id@,
{
}

/// Where results of tasks are kept, and for which tenant.
pub proof fn task_results_have_their_place(a: IngestTaskResult)
    ensures
        a.key() == a.task.task_id@,
        a.tenant() == a.task.tenant_id@,
{
}

/// Where documents are kept, and for which tenant.
pub proof fn documents_have_their_place(a: SourceDocument)
    ensures
        a.key() == (DocumentKeyView { tenant_id: a.tenant_id@, owner_user_id: opt_text(a.owner_user_id), uri: a.uri@ }),
        a.tenant() == a.tenant_id@,
{
}

/// Where artifacts are kept, and for which tenant.
pub proof fn artifacts_have_their_place(a: ParseArtifact)
    ensures
        a.key() == (ArtifactKeyView { tenant_id: a.tenant_id@, owner_user_id: opt_text(a.owner_user_id), artifact_id: a.id@ }),
        a.tenant() == a.tenant_id@,
{
}

} // verus!
