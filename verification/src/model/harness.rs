//! Harness components, changes and verdicts; evaluation cases, runs and reports.

use vstd::prelude::*;

use crate::float::{float_same, same_float};
use crate::json::Json;
use crate::model::knowledge::ParseArtifactRef;
use crate::record::{
    all_itself, all_same, lists_same, opt_itself, opt_same, options_same, List, Record, Row,
};
use crate::text::{opt_eq, opt_text, text_eq, texts, texts_eq};

verus! {

/// A part of the retrieval harness.
#[derive(Debug, PartialEq, Eq)]
pub struct HarnessComponent {
    pub id: String,
    pub tenant_id: String,
    pub display_name: String,
    pub component_kind: String,
    pub description: String,
    pub status: String,
    pub current_revision_id: Option<String>,
    pub created_at: i64,
    pub updated_at: i64,
}

impl Clone for HarnessComponent {
    fn clone(&self) -> (r: Self)
        ensures
            r == *self,
    {
        HarnessComponent {
            id: self.id.clone(),
            tenant_id: self.tenant_id.clone(),
            display_name: self.display_name.clone(),
            component_kind: self.component_kind.clone(),
            description: self.description.clone(),
            status: self.status.clone(),
            current_revision_id: self.current_revision_id.clone(),
            created_at: self.created_at,
            updated_at: self.updated_at,
        }
    }
}

impl Record for HarnessComponent {
    open spec fn same_as(&self, other: &Self) -> bool {
        &&& self.id@ == other.id@
        &&& self.tenant_id@ == other.tenant_id@
        &&& self.display_name@ == other.display_name@
        &&& self.component_kind@ == other.component_kind@
        &&& self.description@ == other.description@
        &&& self.status@ == other.status@
        &&& opt_text(self.current_revision_id) == opt_text(other.current_revision_id)
        &&& self.created_at == other.created_at
        &&& self.updated_at == other.updated_at
    }

    proof fn itself(&self) {
    }

    fn same(&self, other: &Self) -> (r: bool) {
        text_eq(self.id.as_str(), other.id.as_str())
            && text_eq(self.tenant_id.as_str(), other.tenant_id.as_str())
            && text_eq(self.display_name.as_str(), other.display_name.as_str())
            && text_eq(self.component_kind.as_str(), other.component_kind.as_str())
            && text_eq(self.description.as_str(), other.description.as_str())
            && text_eq(self.status.as_str(), other.status.as_str())
            && opt_eq(&self.current_revision_id, &other.current_revision_id)
            && self.created_at == other.created_at
            && self.updated_at == other.updated_at
    }

    fn copy(&self) -> (r: Self) {
        self.clone()
    }
}

impl Row<String> for HarnessComponent {
    open spec fn key(&self) -> Seq<char> {
        self.id@
    }

    open spec fn tenant(&self) -> Seq<char> {
        self.tenant_id@
    }

    open spec fn rank(&self) -> Seq<char> {
        self.id@
    }

    fn key_of(&self) -> (k: String) {
        self.id.clone()
    }

    fn tenant_of(&self) -> (t: &str) {
        self.tenant_id.as_str()
    }

    fn rank_of(&self) -> (t: &str) {
        self.id.as_str()
    }
}

/// One revision of a harness component.
#[derive(Debug, PartialEq, Eq)]
pub struct HarnessComponentRevision {
    pub id: String,
    pub tenant_id: String,
    pub component_id: String,
    pub iteration: u64,
    pub manifest_id: String,
    pub files: List<String>,
    pub content: Json,
    pub status: String,
    pub created_by: String,
    pub created_at: i64,
}

impl Clone for HarnessComponentRevision {
    fn clone(&self) -> (r: Self)
        ensures
            r == *self,
    {
        HarnessComponentRevision {
            id: self.id.clone(),
            tenant_id: self.tenant_id.clone(),
            component_id: self.component_id.clone(),
            iteration: self.iteration,
            manifest_id: self.manifest_id.clone(),
            files: self.files.clone(),
            content: self.content.clone(),
            status: self.status.clone(),
            created_by: self.created_by.clone(),
            created_at: self.created_at,
        }
    }
}

impl Record for HarnessComponentRevision {
    open spec fn same_as(&self, other: &Self) -> bool {
        &&& self.id@ == other.id@
        &&& self.tenant_id@ == other.tenant_id@
        &&& self.component_id@ == other.component_id@
        &&& self.iteration == other.iteration
        &&& self.manifest_id@ == other.manifest_id@
        &&& texts(self.files@) == texts(other.files@)
        &&& self.content.same_as(&other.content)
        &&& self.status@ == other.status@
        &&& self.created_by@ == other.created_by@
        &&& self.created_at == other.created_at
    }

    proof fn itself(&self) {
        self.content.itself();
    }

    fn same(&self, other: &Self) -> (r: bool) {
        text_eq(self.id.as_str(), other.id.as_str())
            && text_eq(self.tenant_id.as_str(), other.tenant_id.as_str())
            && text_eq(self.component_id.as_str(), other.component_id.as_str())
            && self.iteration == other.iteration
            && text_eq(self.manifest_id.as_str(), other.manifest_id.as_str())
            && texts_eq(&self.files, &other.files)
            && self.content.same(&other.content)
            && text_eq(self.status.as_str(), other.status.as_str())
            && text_eq(self.created_by.as_str(), other.created_by.as_str())
            && self.created_at == other.created_at
    }

    fn copy(&self) -> (r: Self) {
        self.clone()
    }
}

impl Row<String> for HarnessComponentRevision {
    open spec fn key(&self) -> Seq<char> {
        self.id@
    }

    open spec fn tenant(&self) -> Seq<char> {
        self.tenant_id@
    }

    open spec fn rank(&self) -> Seq<char> {
        self.id@
    }

    fn key_of(&self) -> (k: String) {
        self.id.clone()
    }

    fn tenant_of(&self) -> (t: &str) {
        self.tenant_id.as_str()
    }

    fn rank_of(&self) -> (t: &str) {
        self.id.as_str()
    }
}

/// A proposed change of a harness component.
#[derive(Debug, PartialEq, Eq)]
pub struct HarnessChangeManifest {
    pub id: String,
    pub tenant_id: String,
    pub iteration: u64,
    pub change_type: String,
    pub component_id: String,
    pub files: List<String>,
    pub failure_pattern: String,
    pub root_cause: String,
    pub targeted_fix: String,
    pub predicted_fixes: List<String>,
    pub risk_cases: List<String>,
    pub expected_metric_deltas: Json,
    pub baseline_eval_run_id: Option<String>,
    pub candidate_eval_run_id: Option<String>,
    pub why_this_component: String,
    pub created_by: String,
    pub created_at: i64,
    pub status: String,
}

impl Clone for HarnessChangeManifest {
    fn clone(&self) -> (r: Self)
        ensures
            r == *self,
    {
        HarnessChangeManifest {
            id: self.id.clone(),
            tenant_id: self.tenant_id.clone(),
            iteration: self.iteration,
            change_type: self.change_type.clone(),
            component_id: self.component_id.clone(),
            files: self.files.clone(),
            failure_pattern: self.failure_pattern.clone(),
            root_cause: self.root_cause.clone(),
            targeted_fix: self.targeted_fix.clone(),
            predicted_fixes: self.predicted_fixes.clone(),
            risk_cases: self.risk_cases.clone(),
            expected_metric_deltas: self.expected_metric_deltas.clone(),
            baseline_eval_run_id: self.baseline_eval_run_id.clone(),
            candidate_eval_run_id: self.candidate_eval_run_id.clone(),
            why_this_component: self.why_this_component.clone(),
            created_by: self.created_by.clone(),
            created_at: self.created_at,
            status: self.status.clone(),
        }
    }
}

impl Record for HarnessChangeManifest {
    open spec fn same_as(&self, other: &Self) -> bool {
        &&& self.id@ == other.id@
        &&& self.tenant_id@ == other.tenant_id@
        &&& self.iteration == other.iteration
        &&& self.change_type@ == other.change_type@
        &&& self.component_id@ == other.component_id@
        &&& texts(self.files@) == texts(other.files@)
        &&& self.failure_pattern@ == other.failure_pattern@
        &&& self.root_cause@ == other.root_cause@
        &&& self.targeted_fix@ == other.targeted_fix@
        &&& texts(self.predicted_fixes@) == texts(other.predicted_fixes@)
        &&& texts(self.risk_cases@) == texts(other.risk_cases@)
        &&& self.expected_metric_deltas.same_as(&other.expected_metric_deltas)
        &&& opt_text(self.baseline_eval_run_id) == opt_text(other.baseline_eval_run_id)
        &&& opt_text(self.candidate_eval_run_id) == opt_text(other.candidate_eval_run_id)
        &&& self.why_this_component@ == other.why_this_component@
        &&& self.created_by@ == other.created_by@
        &&& self.created_at == other.created_at
        &&& self.status@ == other.status@
    }

    proof fn itself(&self) {
        self.expected_metric_deltas.itself();
    }

    fn same(&self, other: &Self) -> (r: bool) {
        text_eq(self.id.as_str(), other.id.as_str())
            && text_eq(self.tenant_id.as_str(), other.tenant_id.as_str())
            && self.iteration == other.iteration
            && text_eq(self.change_type.as_str(), other.change_type.as_str())
            && text_eq(self.component_id.as_str(), other.component_id.as_str())
            && texts_eq(&self.files, &other.files)
            && text_eq(self.failure_pattern.as_str(), other.failure_pattern.as_str())
            && text_eq(self.root_cause.as_str(), other.root_cause.as_str())
            && text_eq(self.targeted_fix.as_str(), other.targeted_fix.as_str())
            && texts_eq(&self.predicted_fixes, &other.predicted_fixes)
            && texts_eq(&self.risk_cases, &other.risk_cases)
            && self.expected_metric_deltas.same(&other.expected_metric_deltas)
            && opt_eq(&self.baseline_eval_run_id, &other.baseline_eval_run_id)
            && opt_eq(&self.candidate_eval_run_id, &other.candidate_eval_run_id)
            && text_eq(self.why_this_component.as_str(), other.why_this_component.as_str())
            && text_eq(self.created_by.as_str(), other.created_by.as_str())
            && self.created_at == other.created_at
            && text_eq(self.status.as_str(), other.status.as_str())
    }

    fn copy(&self) -> (r: Self) {
        self.clone()
    }
}

impl Row<String> for HarnessChangeManifest {
    open spec fn key(&self) -> Seq<char> {
        self.id@
    }

    open spec fn tenant(&self) -> Seq<char> {
        self.tenant_id@
    }

    open spec fn rank(&self) -> Seq<char> {
        self.id@
    }

    fn key_of(&self) -> (k: String) {
        self.id.clone()
    }

    fn tenant_of(&self) -> (t: &str) {
        self.tenant_id.as_str()
    }

    fn rank_of(&self) -> (t: &str) {
        self.id.as_str()
    }
}

/// The judgement of a harness change.
#[derive(Debug, PartialEq, Eq)]
pub struct HarnessChangeVerdict {
    pub id: String,
    pub tenant_id: String,
    pub change_id: String,
    pub eval_run_id: Option<String>,
    pub verdict: String,
    pub predicted_fixes_confirmed: List<String>,
    pub risk_cases_regressed: List<String>,
    pub observed_metric_deltas: Json,
    pub evidence: Json,
    pub created_by: String,
    pub created_at: i64,
}

impl Clone for HarnessChangeVerdict {
    fn clone(&self) -> (r: Self)
        ensures
            r == *self,
    {
        HarnessChangeVerdict {
            id: self.id.clone(),
            tenant_id: self.tenant_id.clone(),
            change_id: self.change_id.clone(),
            eval_run_id: self.eval_run_id.clone(),
            verdict: self.verdict.clone(),
            predicted_fixes_confirmed: self.predicted_fixes_confirmed.clone(),
            risk_cases_regressed: self.risk_cases_regressed.clone(),
            observed_metric_deltas: self.observed_metric_deltas.clone(),
            evidence: self.evidence.clone(),
            created_by: self.created_by.clone(),
            created_at: self.created_at,
        }
    }
}

impl Record for HarnessChangeVerdict {
    open spec fn same_as(&self, other: &Self) -> bool {
        &&& self.id@ == other.id@
        &&& self.tenant_id@ == other.tenant_id@
        &&& self.change_id@ == other.change_id@
        &&& opt_text(self.eval_run_id) == opt_text(other.eval_run_id)
        &&& self.verdict@ == other.verdict@
        &&& texts(self.predicted_fixes_confirmed@) == texts(other.predicted_fixes_confirmed@)
        &&& texts(self.risk_cases_regressed@) == texts(other.risk_cases_regressed@)
        &&& self.observed_metric_deltas.same_as(&other.observed_metric_deltas)
        &&& self.evidence.same_as(&other.evidence)
        &&& self.created_by@ == other.created_by@
        &&& self.created_at == other.created_at
    }

    proof fn itself(&self) {
        self.observed_metric_deltas.itself();
        self.evidence.itself();
    }

    fn same(&self, other: &Self) -> (r: bool) {
        text_eq(self.id.as_str(), other.id.as_str())
            && text_eq(self.tenant_id.as_str(), other.tenant_id.as_str())
            && text_eq(self.change_id.as_str(), other.change_id.as_str())
            && opt_eq(&self.eval_run_id, &other.eval_run_id)
            && text_eq(self.verdict.as_str(), other.verdict.as_str())
            && texts_eq(&self.predicted_fixes_confirmed, &other.predicted_fixes_confirmed)
            && texts_eq(&self.risk_cases_regressed, &other.risk_cases_regressed)
            && self.observed_metric_deltas.same(&other.observed_metric_deltas)
            && self.evidence.same(&other.evidence)
            && text_eq(self.created_by.as_str(), other.created_by.as_str())
            && self.created_at == other.created_at
    }

    fn copy(&self) -> (r: Self) {
        self.clone()
    }
}

impl Row<String> for HarnessChangeVerdict {
    open spec fn key(&self) -> Seq<char> {
        self.id@
    }

    open spec fn tenant(&self) -> Seq<char> {
        self.tenant_id@
    }

    open spec fn rank(&self) -> Seq<char> {
        self.id@
    }

    fn key_of(&self) -> (k: String) {
        self.id.clone()
    }

    fn tenant_of(&self) -> (t: &str) {
        self.tenant_id.as_str()
    }

    fn rank_of(&self) -> (t: &str) {
        self.id.as_str()
    }
}

/// A question with the evidence that its answer should rest on.
#[derive(Debug, PartialEq, Eq)]
pub struct RagEvalCase {
    pub id: String,
    pub tenant_id: String,
    pub owner_user_id: Option<String>,
    pub question: String,
    pub expected_context_uris: List<String>,
    pub expected_source_document_uris: List<String>,
    pub expected_answer_contains: List<String>,
    pub tags: List<String>,
    pub metadata: Json,
    pub created_at: i64,
}

impl Clone for RagEvalCase {
    fn clone(&self) -> (r: Self)
        ensures
            r == *self,
    {
        RagEvalCase {
            id: self.id.clone(),
            tenant_id: self.tenant_id.clone(),
            owner_user_id: self.owner_user_id.clone(),
            question: self.question.clone(),
            expected_context_uris: self.expected_context_uris.clone(),
            expected_source_document_uris: self.expected_source_document_uris.clone(),
            expected_answer_contains: self.expected_answer_contains.clone(),
            tags: self.tags.clone(),
            metadata: self.metadata.clone(),
            created_at: self.created_at,
        }
    }
}

impl Record for RagEvalCase {
    open spec fn same_as(&self, other: &Self) -> bool {
        &&& self.id@ == other.id@
        &&& self.tenant_id@ == other.tenant_id@
        &&& opt_text(self.owner_user_id) == opt_text(other.owner_user_id)
        &&& self.question@ == other.question@
        &&& texts(self.expected_context_uris@) == texts(other.expected_context_uris@)
        &&& texts(self.expected_source_document_uris@) == texts(other.expected_source_document_uris@)
        &&& texts(self.expected_answer_contains@) == texts(other.expected_answer_contains@)
        &&& texts(self.tags@) == texts(other.tags@)
        &&& self.metadata.same_as(&other.metadata)
        &&& self.created_at == other.created_at
    }

    proof fn itself(&self) {
        self.metadata.itself();
    }

    fn same(&self, other: &Self) -> (r: bool) {
        text_eq(self.id.as_str(), other.id.as_str())
            && text_eq(self.tenant_id.as_str(), other.tenant_id.as_str())
            && opt_eq(&self.owner_user_id, &other.owner_user_id)
            && text_eq(self.question.as_str(), other.question.as_str())
            && texts_eq(&self.expected_context_uris, &other.expected_context_uris)
            && texts_eq(&self.expected_source_document_uris, &other.expected_source_document_uris)
            && texts_eq(&self.expected_answer_contains, &other.expected_answer_contains)
            && texts_eq(&self.tags, &other.tags)
            && self.metadata.same(&other.metadata)
            && self.created_at == other.created_at
    }

    fn copy(&self) -> (r: Self) {
        self.clone()
    }
}

impl Row<String> for RagEvalCase {
    open spec fn key(&self) -> Seq<char> {
        self.id@
    }

    open spec fn tenant(&self) -> Seq<char> {
        self.tenant_id@
    }

    open spec fn rank(&self) -> Seq<char> {
        self.id@
    }

    fn key_of(&self) -> (k: String) {
        self.id.clone()
    }

    fn tenant_of(&self) -> (t: &str) {
        self.tenant_id.as_str()
    }

    fn rank_of(&self) -> (t: &str) {
        self.id.as_str()
    }
}

/// A fraction: `part` of `whole`.
#[derive(Debug, PartialEq, Eq, Default)]
pub struct Rate {
    pub part: u64,
    pub whole: u64,
}

impl Clone for Rate {
    fn clone(&self) -> (r: Self)
        ensures
            r == *self,
    {
        Rate {
            part: self.part,
            whole: self.whole,
        }
    }
}

impl Record for Rate {
    open spec fn same_as(&self, other: &Self) -> bool {
        &&& self.part == other.part
        &&& self.whole == other.whole
    }

    proof fn itself(&self) {
    }

    fn same(&self, other: &Self) -> (r: bool) {
        self.part == other.part
            && self.whole == other.whole
    }

    fn copy(&self) -> (r: Self) {
        self.clone()
    }
}

/// The measurements of one evaluated case, as far as they were taken.
#[derive(Debug, PartialEq, Eq, Default)]
pub struct CaseMetrics {
    pub retrieval_recall_at_5: Option<Rate>,
    pub citation_precision: Option<Rate>,
    pub traceback_success_rate: Option<Rate>,
    pub source_doc_leak: Option<bool>,
    pub acl_violation: Option<bool>,
    pub stale_fragment: Option<bool>,
    pub tokens: Option<u64>,
}

fn clone_rate(rate: &Option<Rate>) -> (r: Option<Rate>)
    ensures
        r == *rate,
{
    match rate {
        Some(rate) => Some(rate.clone()),
        None => None,
    }
}

impl Clone for CaseMetrics {
    fn clone(&self) -> (r: Self)
        ensures
            r == *self,
    {
        CaseMetrics {
            retrieval_recall_at_5: clone_rate(&self.retrieval_recall_at_5),
            citation_precision: clone_rate(&self.citation_precision),
            traceback_success_rate: clone_rate(&self.traceback_success_rate),
            source_doc_leak: self.source_doc_leak,
            acl_violation: self.acl_violation,
            stale_fragment: self.stale_fragment,
            tokens: self.tokens,
        }
    }
}

impl Record for CaseMetrics {
    open spec fn same_as(&self, other: &Self) -> bool {
        &&& opt_same(self.retrieval_recall_at_5, other.retrieval_recall_at_5)
        &&& opt_same(self.citation_precision, other.citation_precision)
        &&& opt_same(self.traceback_success_rate, other.traceback_success_rate)
        &&& self.source_doc_leak == other.source_doc_leak
        &&& self.acl_violation == other.acl_violation
        &&& self.stale_fragment == other.stale_fragment
        &&& self.tokens == other.tokens
    }

    proof fn itself(&self) {
        opt_itself(self.retrieval_recall_at_5);
        opt_itself(self.citation_precision);
        opt_itself(self.traceback_success_rate);
    }

    fn same(&self, other: &Self) -> (r: bool) {
        options_same(&self.retrieval_recall_at_5, &other.retrieval_recall_at_5)
            && options_same(&self.citation_precision, &other.citation_precision)
            && options_same(&self.traceback_success_rate, &other.traceback_success_rate)
            && self.source_doc_leak == other.source_doc_leak
            && self.acl_violation == other.acl_violation
            && self.stale_fragment == other.stale_fragment
            && self.tokens == other.tokens
    }

    fn copy(&self) -> (r: Self) {
        self.clone()
    }
}

/// The measurements of a run. A list of fractions stands for their mean.
#[derive(Debug, PartialEq, Eq, Default)]
pub struct RagEvalMetrics {
    pub pass_rate: Rate,
    pub retrieval_recall_at_5: List<Rate>,
    pub citation_precision: List<Rate>,
    pub traceback_success_rate: List<Rate>,
    pub source_doc_leak_rate: Rate,
    pub acl_violation_rate: Rate,
    pub stale_fragment_rate: Rate,
    pub state_history_consistency_rate: Rate,
    pub llm_health_false_ready_rate: Rate,
    pub tokens_per_answer: List<Rate>,
    pub latency_p95: u64,
}

impl Clone for RagEvalMetrics {
    fn clone(&self) -> (r: Self)
        ensures
            r == *self,
    {
        RagEvalMetrics {
            pass_rate: self.pass_rate.clone(),
            retrieval_recall_at_5: self.retrieval_recall_at_5.clone(),
            citation_precision: self.citation_precision.clone(),
            traceback_success_rate: self.traceback_success_rate.clone(),
            source_doc_leak_rate: self.source_doc_leak_rate.clone(),
            acl_violation_rate: self.acl_violation_rate.clone(),
            stale_fragment_rate: self.stale_fragment_rate.clone(),
            state_history_consistency_rate: self.state_history_consistency_rate.clone(),
            llm_health_false_ready_rate: self.llm_health_false_ready_rate.clone(),
            tokens_per_answer: self.tokens_per_answer.clone(),
            latency_p95: self.latency_p95,
        }
    }
}

impl Record for RagEvalMetrics {
    open spec fn same_as(&self, other: &Self) -> bool {
        &&& self.pass_rate.same_as(&other.pass_rate)
        &&& all_same(self.retrieval_recall_at_5@, other.retrieval_recall_at_5@)
        &&& all_same(self.citation_precision@, other.citation_precision@)
        &&& all_same(self.traceback_success_rate@, other.traceback_success_rate@)
        &&& self.source_doc_leak_rate.same_as(&other.source_doc_leak_rate)
        &&& self.acl_violation_rate.same_as(&other.acl_violation_rate)
        &&& self.stale_fragment_rate.same_as(&other.stale_fragment_rate)
        &&& self.state_history_consistency_rate.same_as(&other.state_history_consistency_rate)
        &&& self.llm_health_false_ready_rate.same_as(&other.llm_health_false_ready_rate)
        &&& all_same(self.tokens_per_answer@, other.tokens_per_answer@)
        &&& self.latency_p95 == other.latency_p95
    }

    proof fn itself(&self) {
        self.pass_rate.itself();
        all_itself(self.retrieval_recall_at_5@);
        all_itself(self.citation_precision@);
        all_itself(self.traceback_success_rate@);
        self.source_doc_leak_rate.itself();
        self.acl_violation_rate.itself();
        self.stale_fragment_rate.itself();
        self.state_history_consistency_rate.itself();
        self.llm_health_false_ready_rate.itself();
        all_itself(self.tokens_per_answer@);
    }

    fn same(&self, other: &Self) -> (r: bool) {
        self.pass_rate.same(&other.pass_rate)
            && lists_same(&self.retrieval_recall_at_5, &other.retrieval_recall_at_5)
            && lists_same(&self.citation_precision, &other.citation_precision)
            && lists_same(&self.traceback_success_rate, &other.traceback_success_rate)
            && self.source_doc_leak_rate.same(&other.source_doc_leak_rate)
            && self.acl_violation_rate.same(&other.acl_violation_rate)
            && self.stale_fragment_rate.same(&other.stale_fragment_rate)
            && self.state_history_consistency_rate.same(&other.state_history_consistency_rate)
            && self.llm_health_false_ready_rate.same(&other.llm_health_false_ready_rate)
            && lists_same(&self.tokens_per_answer, &other.tokens_per_answer)
            && self.latency_p95 == other.latency_p95
    }

    fn copy(&self) -> (r: Self) {
        self.clone()
    }
}

/// A cited piece of context.
#[derive(Debug, PartialEq, Eq)]
pub struct Citation {
    pub uri: String,
    pub node_kind: Option<String>,
    pub retrieval_role: Option<String>,
    pub source_id: Option<String>,
    pub revision_id: Option<String>,
    pub source_document_uri: Option<String>,
    pub source_title: Option<String>,
    pub block_type: Option<String>,
    pub page_idx: Option<usize>,
    pub bbox: Option<Json>,
    pub section_path: List<String>,
    pub heading_level: Option<usize>,
    pub asset_refs: List<String>,
    pub artifact_refs: List<ParseArtifactRef>,
    pub fragment_index: Option<usize>,
    pub char_start: Option<usize>,
    pub char_end: Option<usize>,
    pub checksum: Option<String>,
    pub title: String,
    pub quote: String,
    /// The bits of a 32-bit float.
    pub score: u32,
}

impl Clone for Citation {
    fn clone(&self) -> (r: Self)
        ensures
            r == *self,
    {
        Citation {
            uri: self.uri.clone(),
            node_kind: self.node_kind.clone(),
            retrieval_role: self.retrieval_role.clone(),
            source_id: self.source_id.clone(),
            revision_id: self.revision_id.clone(),
            source_document_uri: self.source_document_uri.clone(),
            source_title: self.source_title.clone(),
            block_type: self.block_type.clone(),
            page_idx: self.page_idx,
            bbox: self.bbox.clone(),
            section_path: self.section_path.clone(),
            heading_level: self.heading_level,
            asset_refs: self.asset_refs.clone(),
            artifact_refs: self.artifact_refs.clone(),
            fragment_index: self.fragment_index,
            char_start: self.char_start,
            char_end: self.char_end,
            checksum: self.checksum.clone(),
            title: self.title.clone(),
            quote: self.quote.clone(),
            score: self.score,
        }
    }
}

impl Record for Citation {
    open spec fn same_as(&self, other: &Self) -> bool {
        &&& self.uri@ == other.uri@
        &&& opt_text(self.node_kind) == opt_text(other.node_kind)
        &&& opt_text(self.retrieval_role) == opt_text(other.retrieval_role)
        &&& opt_text(self.source_id) == opt_text(other.source_id)
        &&& opt_text(self.revision_id) == opt_text(other.revision_id)
        &&& opt_text(self.source_document_uri) == opt_text(other.source_document_uri)
        &&& opt_text(self.source_title) == opt_text(other.source_title)
        &&& opt_text(self.block_type) == opt_text(other.block_type)
        &&& self.page_idx == other.page_idx
        &&& opt_same(self.bbox, other.bbox)
        &&& texts(self.section_path@) == texts(other.section_path@)
        &&& self.heading_level == other.heading_level
        &&& texts(self.asset_refs@) == texts(other.asset_refs@)
        &&& all_same(self.artifact_refs@, other.artifact_refs@)
        &&& self.fragment_index == other.fragment_index
        &&& self.char_start == other.char_start
        &&& self.char_end == other.char_end
        &&& opt_text(self.checksum) == opt_text(other.checksum)
        &&& self.title@ == other.title@
        &&& self.quote@ == other.quote@
        &&& float_same(self.score, other.score)
    }

    proof fn itself(&self) {
        opt_itself(self.bbox);
        all_itself(self.artifact_refs@);
    }

    fn same(&self, other: &Self) -> (r: bool) {
        text_eq(self.uri.as_str(), other.uri.as_str())
            && opt_eq(&self.node_kind, &other.node_kind)
            && opt_eq(&self.retrieval_role, &other.retrieval_role)
            && opt_eq(&self.source_id, &other.source_id)
            && opt_eq(&self.revision_id, &other.revision_id)
            && opt_eq(&self.source_document_uri, &other.source_document_uri)
            && opt_eq(&self.source_title, &other.source_title)
            && opt_eq(&self.block_type, &other.block_type)
            && self.page_idx == other.page_idx
            && options_same(&self.bbox, &other.bbox)
            && texts_eq(&self.section_path, &other.section_path)
            && self.heading_level == other.heading_level
            && texts_eq(&self.asset_refs, &other.asset_refs)
            && lists_same(&self.artifact_refs, &other.artifact_refs)
            && self.fragment_index == other.fragment_index
            && self.char_start == other.char_start
            && self.char_end == other.char_end
            && opt_eq(&self.checksum, &other.checksum)
            && text_eq(self.title.as_str(), other.title.as_str())
            && text_eq(self.quote.as_str(), other.quote.as_str())
            && same_float(self.score, other.score)
    }

    fn copy(&self) -> (r: Self) {
        self.clone()
    }
}

/// How one case of a run came out.
#[derive(Debug, PartialEq, Eq)]
pub struct RagEvalCaseResult {
    pub id: String,
    pub tenant_id: String,
    pub run_id: String,
    pub case_id: String,
    pub owner_user_id: Option<String>,
    pub status: String,
    pub question: String,
    pub trace_id: String,
    pub answer: String,
    pub citations: List<Citation>,
    pub retrieved_uris: List<String>,
    pub source_document_uris: List<String>,
    pub failures: List<String>,
    pub guard_failures: List<String>,
    pub metrics: CaseMetrics,
    pub latency_ms: u64,
    pub created_at: i64,
}

impl Clone for RagEvalCaseResult {
    fn clone(&self) -> (r: Self)
        ensures
            r == *self,
    {
        RagEvalCaseResult {
            id: self.id.clone(),
            tenant_id: self.tenant_id.clone(),
            run_id: self.run_id.clone(),
            case_id: self.case_id.clone(),
            owner_user_id: self.owner_user_id.clone(),
            status: self.status.clone(),
            question: self.question.clone(),
            trace_id: self.trace_id.clone(),
            answer: self.answer.clone(),
            citations: self.citations.clone(),
            retrieved_uris: self.retrieved_uris.clone(),
            source_document_uris: self.source_document_uris.clone(),
            failures: self.failures.clone(),
            guard_failures: self.guard_failures.clone(),
            metrics: self.metrics.clone(),
            latency_ms: self.latency_ms,
            created_at: self.created_at,
        }
    }
}

impl Record for RagEvalCaseResult {
    open spec fn same_as(&self, other: &Self) -> bool {
        &&& self.id@ == other.id@
        &&& self.tenant_id@ == other.tenant_id@
        &&& self.run_id@ == other.run_id@
        &&& self.case_id@ == other.case_id@
        &&& opt_text(self.owner_user_id) == opt_text(other.owner_user_id)
        &&& self.status@ == other.status@
        &&& self.question@ == other.question@
        &&& self.trace_id@ == other.trace_id@
        &&& self.answer@ == other.answer@
        &&& all_same(self.citations@, other.citations@)
        &&& texts(self.retrieved_uris@) == texts(other.retrieved_uris@)
        &&& texts(self.source_document_uris@) == texts(other.source_document_uris@)
        &&& texts(self.failures@) == texts(other.failures@)
        &&& texts(self.guard_failures@) == texts(other.guard_failures@)
        &&& self.metrics.same_as(&other.metrics)
        &&& self.latency_ms == other.latency_ms
        &&& self.created_at == other.created_at
    }

    proof fn itself(&self) {
        all_itself(self.citations@);
        self.metrics.itself();
    }

    fn same(&self, other: &Self) -> (r: bool) {
        text_eq(self.id.as_str(), other.id.as_str())
            && text_eq(self.tenant_id.as_str(), other.tenant_id.as_str())
            && text_eq(self.run_id.as_str(), other.run_id.as_str())
            && text_eq(self.case_id.as_str(), other.case_id.as_str())
            && opt_eq(&self.owner_user_id, &other.owner_user_id)
            && text_eq(self.status.as_str(), other.status.as_str())
            && text_eq(self.question.as_str(), other.question.as_str())
            && text_eq(self.trace_id.as_str(), other.trace_id.as_str())
            && text_eq(self.answer.as_str(), other.answer.as_str())
            && lists_same(&self.citations, &other.citations)
            && texts_eq(&self.retrieved_uris, &other.retrieved_uris)
            && texts_eq(&self.source_document_uris, &other.source_document_uris)
            && texts_eq(&self.failures, &other.failures)
            && texts_eq(&self.guard_failures, &other.guard_failures)
            && self.metrics.same(&other.metrics)
            && self.latency_ms == other.latency_ms
            && self.created_at == other.created_at
    }

    fn copy(&self) -> (r: Self) {
        self.clone()
    }
}

impl Row<String> for RagEvalCaseResult {
    open spec fn key(&self) -> Seq<char> {
        self.id@
    }

    open spec fn tenant(&self) -> Seq<char> {
        self.tenant_id@
    }

    open spec fn rank(&self) -> Seq<char> {
        self.id@
    }

    fn key_of(&self) -> (k: String) {
        self.id.clone()
    }

    fn tenant_of(&self) -> (t: &str) {
        self.tenant_id.as_str()
    }

    fn rank_of(&self) -> (t: &str) {
        self.id.as_str()
    }
}

/// Whether a regression guard held.
#[derive(Debug, PartialEq, Eq)]
pub struct RegressionGuardResult {
    pub name: String,
    pub passed: bool,
    /// The cases or rows that broke the guard.
    pub evidence: Json,
}

impl Clone for RegressionGuardResult {
    fn clone(&self) -> (r: Self)
        ensures
            r == *self,
    {
        RegressionGuardResult {
            name: self.name.clone(),
            passed: self.passed,
            evidence: self.evidence.clone(),
        }
    }
}

impl Record for RegressionGuardResult {
    open spec fn same_as(&self, other: &Self) -> bool {
        &&& self.name@ == other.name@
        &&& self.passed == other.passed
        &&& self.evidence.same_as(&other.evidence)
    }

    proof fn itself(&self) {
        self.evidence.itself();
    }

    fn same(&self, other: &Self) -> (r: bool) {
        text_eq(self.name.as_str(), other.name.as_str())
            && self.passed == other.passed
            && self.evidence.same(&other.evidence)
    }

    fn copy(&self) -> (r: Self) {
        self.clone()
    }
}

/// A run over evaluation cases.
#[derive(Debug, PartialEq, Eq)]
pub struct RagEvalRun {
    pub id: String,
    pub tenant_id: String,
    pub change_id: Option<String>,
    pub case_ids: List<String>,
    pub result_ids: List<String>,
    pub trace_ids: List<String>,
    pub status: String,
    pub metrics: RagEvalMetrics,
    pub guard_results: List<RegressionGuardResult>,
    pub overview_source_document_uri: Option<String>,
    pub report_source_document_uris: List<String>,
    pub created_by: String,
    pub created_at: i64,
    pub completed_at: Option<i64>,
}

impl Clone for RagEvalRun {
    fn clone(&self) -> (r: Self)
        ensures
            r == *self,
    {
        RagEvalRun {
            id: self.id.clone(),
            tenant_id: self.tenant_id.clone(),
            change_id: self.change_id.clone(),
            case_ids: self.case_ids.clone(),
            result_ids: self.result_ids.clone(),
            trace_ids: self.trace_ids.clone(),
            status: self.status.clone(),
            metrics: self.metrics.clone(),
            guard_results: self.guard_results.clone(),
            overview_source_document_uri: self.overview_source_document_uri.clone(),
            report_source_document_uris: self.report_source_document_uris.clone(),
            created_by: self.created_by.clone(),
            created_at: self.created_at,
            completed_at: self.completed_at,
        }
    }
}

impl Record for RagEvalRun {
    open spec fn same_as(&self, other: &Self) -> bool {
        &&& self.id@ == other.id@
        &&& self.tenant_id@ == other.tenant_id@
        &&& opt_text(self.change_id) == opt_text(other.change_id)
        &&& texts(self.case_ids@) == texts(other.case_ids@)
        &&& texts(self.result_ids@) == texts(other.result_ids@)
        &&& texts(self.trace_ids@) == texts(other.trace_ids@)
        &&& self.status@ == other.status@
        &&& self.metrics.same_as(&other.metrics)
        &&& all_same(self.guard_results@, other.guard_results@)
        &&& opt_text(self.overview_source_document_uri) == opt_text(other.overview_source_document_uri)
        &&& texts(self.report_source_document_uris@) == texts(other.report_source_document_uris@)
        &&& self.created_by@ == other.created_by@
        &&& self.created_at == other.created_at
        &&& self.completed_at == other.completed_at
    }

    proof fn itself(&self) {
        self.metrics.itself();
        all_itself(self.guard_results@);
    }

    fn same(&self, other: &Self) -> (r: bool) {
        text_eq(self.id.as_str(), other.id.as_str())
            && text_eq(self.tenant_id.as_str(), other.tenant_id.as_str())
            && opt_eq(&self.change_id, &other.change_id)
            && texts_eq(&self.case_ids, &other.case_ids)
            && texts_eq(&self.result_ids, &other.result_ids)
            && texts_eq(&self.trace_ids, &other.trace_ids)
            && text_eq(self.status.as_str(), other.status.as_str())
            && self.metrics.same(&other.metrics)
            && lists_same(&self.guard_results, &other.guard_results)
            && opt_eq(&self.overview_source_document_uri, &other.overview_source_document_uri)
            && texts_eq(&self.report_source_document_uris, &other.report_source_document_uris)
            && text_eq(self.created_by.as_str(), other.created_by.as_str())
            && self.created_at == other.created_at
            && self.completed_at == other.completed_at
    }

    fn copy(&self) -> (r: Self) {
        self.clone()
    }
}

impl Row<String> for RagEvalRun {
    open spec fn key(&self) -> Seq<char> {
        self.id@
    }

    open spec fn tenant(&self) -> Seq<char> {
        self.tenant_id@
    }

    open spec fn rank(&self) -> Seq<char> {
        self.id@
    }

    fn key_of(&self) -> (k: String) {
        self.id.clone()
    }

    fn tenant_of(&self) -> (t: &str) {
        self.tenant_id.as_str()
    }

    fn rank_of(&self) -> (t: &str) {
        self.id.as_str()
    }
}

/// The cases of a run that failed in the same way.
#[derive(Debug, PartialEq, Eq)]
pub struct FailurePatternCluster {
    pub pattern: String,
    pub count: usize,
    pub case_ids: List<String>,
    pub suggested_target_component: String,
    pub root_cause_notes: List<String>,
}

impl Clone for FailurePatternCluster {
    fn clone(&self) -> (r: Self)
        ensures
            r == *self,
    {
        FailurePatternCluster {
            pattern: self.pattern.clone(),
            count: self.count,
            case_ids: self.case_ids.clone(),
            suggested_target_component: self.suggested_target_component.clone(),
            root_cause_notes: self.root_cause_notes.clone(),
        }
    }
}

impl Record for FailurePatternCluster {
    open spec fn same_as(&self, other: &Self) -> bool {
        &&& self.pattern@ == other.pattern@
        &&& self.count == other.count
        &&& texts(self.case_ids@) == texts(other.case_ids@)
        &&& self.suggested_target_component@ == other.suggested_target_component@
        &&& texts(self.root_cause_notes@) == texts(other.root_cause_notes@)
    }

    proof fn itself(&self) {
    }

    fn same(&self, other: &Self) -> (r: bool) {
        text_eq(self.pattern.as_str(), other.pattern.as_str())
            && self.count == other.count
            && texts_eq(&self.case_ids, &other.case_ids)
            && text_eq(self.suggested_target_component.as_str(), other.suggested_target_component.as_str())
            && texts_eq(&self.root_cause_notes, &other.root_cause_notes)
    }

    fn copy(&self) -> (r: Self) {
        self.clone()
    }
}

/// The report of a run.
#[derive(Debug, PartialEq, Eq)]
pub struct RagEvalOverview {
    pub tenant_id: String,
    pub run_id: String,
    pub status: String,
    pub metrics: RagEvalMetrics,
    pub failure_patterns: List<FailurePatternCluster>,
    pub suggested_target_component: String,
    pub root_cause_notes: List<String>,
    pub overview_markdown: String,
    pub case_report_uris: List<String>,
    pub overview_source_document_uri: Option<String>,
    pub generated_at: i64,
}

impl Clone for RagEvalOverview {
    fn clone(&self) -> (r: Self)
        ensures
            r == *self,
    {
        RagEvalOverview {
            tenant_id: self.tenant_id.clone(),
            run_id: self.run_id.clone(),
            status: self.status.clone(),
            metrics: self.metrics.clone(),
            failure_patterns: self.failure_patterns.clone(),
            suggested_target_component: self.suggested_target_component.clone(),
            root_cause_notes: self.root_cause_notes.clone(),
            overview_markdown: self.overview_markdown.clone(),
            case_report_uris: self.case_report_uris.clone(),
            overview_source_document_uri: self.overview_source_document_uri.clone(),
            generated_at: self.generated_at,
        }
    }
}

impl Record for RagEvalOverview {
    open spec fn same_as(&self, other: &Self) -> bool {
        &&& self.tenant_id@ == other.tenant_id@
        &&& self.run_id@ == other.run_id@
        &&& self.status@ == other.status@
        &&& self.metrics.same_as(&other.metrics)
        &&& all_same(self.failure_patterns@, other.failure_patterns@)
        &&& self.suggested_target_component@ == other.suggested_target_component@
        &&& texts(self.root_cause_notes@) == texts(other.root_cause_notes@)
        &&& self.overview_markdown@ == other.overview_markdown@
        &&& texts(self.case_report_uris@) == texts(other.case_report_uris@)
        &&& opt_text(self.overview_source_document_uri) == opt_text(other.overview_source_document_uri)
        &&& self.generated_at == other.generated_at
    }

    proof fn itself(&self) {
        self.metrics.itself();
        all_itself(self.failure_patterns@);
    }

    fn same(&self, other: &Self) -> (r: bool) {
        text_eq(self.tenant_id.as_str(), other.tenant_id.as_str())
            && text_eq(self.run_id.as_str(), other.run_id.as_str())
            && text_eq(self.status.as_str(), other.status.as_str())
            && self.metrics.same(&other.metrics)
            && lists_same(&self.failure_patterns, &other.failure_patterns)
            && text_eq(self.suggested_target_component.as_str(), other.suggested_target_component.as_str())
            && texts_eq(&self.root_cause_notes, &other.root_cause_notes)
            && text_eq(self.overview_markdown.as_str(), other.overview_markdown.as_str())
            && texts_eq(&self.case_report_uris, &other.case_report_uris)
            && opt_eq(&self.overview_source_document_uri, &other.overview_source_document_uri)
            && self.generated_at == other.generated_at
    }

    fn copy(&self) -> (r: Self) {
        self.clone()
    }
}

impl Row<String> for RagEvalOverview {
    open spec fn key(&self) -> Seq<char> {
        self.run_id@
    }

    open spec fn tenant(&self) -> Seq<char> {
        self.tenant_id@
    }

    open spec fn rank(&self) -> Seq<char> {
        self.run_id@
    }

    fn key_of(&self) -> (k: String) {
        self.run_id.clone()
    }

    fn tenant_of(&self) -> (t: &str) {
        self.tenant_id.as_str()
    }

    fn rank_of(&self) -> (t: &str) {
        self.run_id.as_str()
    }
}

} // verus!
