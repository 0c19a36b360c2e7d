//! Loading a tenant at the start: what a backend answered for each domain becomes one stage.

use vstd::prelude::*;

use crate::error::{ApiError, ErrorView};
use crate::hydration::{
    domain_fails, failed_ingest_recovery_domain, first_failed_domain, hydration_result,
    required_hydration_rows, HydrationFailure, HydrationStage,
};
use crate::json::Json;
use crate::model::harness::{
    HarnessChangeManifest, HarnessChangeVerdict, HarnessComponent, HarnessComponentRevision,
    RagEvalCase, RagEvalCaseResult, RagEvalOverview, RagEvalRun,
};
use crate::model::ingest::{
    CompanySource, IngestTask, IngestTaskResult, ParseArtifact, SourceRevision,
};
use crate::model::knowledge::{
    ContextNode, DatasetRecord, InsightRecord, KnowledgeLink, SessionRecord, StateItem,
    StructuredSnapshot, TraceRecord, UserEventIndex,
};
use crate::model::operation::{OperationPlan, OperationRecord, OperationResource};
use crate::operations::{
    mutation_plan, plan_steps, planned, primary_place, MutationPlanInput, RequestPrincipal,
    WriteConsistency,
};
use crate::order::first_where_is;
use crate::recovery::{
    a_recovery_starts_with_its_primary, ensure_artifacts_in_scope, of_tenant, recovers, repairs,
    IngestRecovery,
};
use crate::resolver::EventIndexResolver;

verus! {

/// What a backend answered for a domain: its rows, or none where it does not hold that domain.
pub type Rows<T> = Result<Option<Vec<T>>, ApiError>;

/// What a backend answered for the domains that have to be loaded.
pub struct StageRows {
    pub company_context: Rows<ContextNode>,
    pub state_items: Rows<StateItem>,
    pub insights: Rows<InsightRecord>,
    pub links: Rows<KnowledgeLink>,
    pub sources: Rows<CompanySource>,
    pub source_revisions: Rows<SourceRevision>,
    pub datasets: Rows<DatasetRecord>,
    pub snapshots: Rows<StructuredSnapshot>,
    pub structured_summaries: Rows<Json>,
    pub sessions: Rows<SessionRecord>,
    pub traces: Rows<TraceRecord>,
    pub harness_components: Rows<HarnessComponent>,
    pub harness_revisions: Rows<HarnessComponentRevision>,
    pub harness_changes: Rows<HarnessChangeManifest>,
    pub harness_verdicts: Rows<HarnessChangeVerdict>,
    pub eval_cases: Rows<RagEvalCase>,
    pub eval_runs: Rows<RagEvalRun>,
    pub ingest_tasks: Rows<IngestTask>,
    pub ingest_results: Rows<IngestTaskResult>,
    pub parse_artifacts: Rows<ParseArtifact>,
}

/// Why the rows of a domain cannot be taken.
pub open spec fn rows_fault<T>(domain: Seq<char>, rows: Rows<T>) -> Option<(Seq<char>, ErrorView)> {
    match rows {
        Ok(Some(_)) => None,
        Ok(None) => Some(
            (
                domain,
                ErrorView::Internal(
                    "mandatory hydration domain "@ + domain
                        + " is unavailable for the configured backend"@,
                ),
            ),
        ),
        Err(error) => Some((domain, error@)),
    }
}

/// The first of two faults.
pub open spec fn first_of(
    a: Option<(Seq<char>, ErrorView)>,
    b: Option<(Seq<char>, ErrorView)>,
) -> Option<(Seq<char>, ErrorView)> {
    match a {
        Some(_) => a,
        None => b,
    }
}

/// Why the rows of the domains cannot be taken: the fault of the first domain that has one.
pub open spec fn stage_fault(rows: StageRows) -> Option<(Seq<char>, ErrorView)> {
    first_of(
        rows_fault("company_context_nodes"@, rows.company_context),
        first_of(
            rows_fault("state_items"@, rows.state_items),
            first_of(
                rows_fault("insights"@, rows.insights),
                first_of(
                    rows_fault("links"@, rows.links),
                    first_of(
                        rows_fault("company_sources"@, rows.sources),
                        first_of(
                            rows_fault("source_revisions"@, rows.source_revisions),
                            first_of(
                                rows_fault("datasets"@, rows.datasets),
                                first_of(
                                    rows_fault("structured_snapshots"@, rows.snapshots),
                                    first_of(
                                        rows_fault("structured_summaries"@, rows.structured_summaries),
                                        first_of(
                                            rows_fault("sessions"@, rows.sessions),
                                            first_of(
                                                rows_fault("traces"@, rows.traces),
                                                first_of(
                                                    rows_fault("harness_components"@, rows.harness_components),
                                                    first_of(
                                                        rows_fault("harness_revisions"@, rows.harness_revisions),
                                                        first_of(
                                                            rows_fault("harness_changes"@, rows.harness_changes),
                                                            first_of(
                                                                rows_fault("harness_verdicts"@, rows.harness_verdicts),
                                                                first_of(
                                                                    rows_fault("eval_cases"@, rows.eval_cases),
                                                                    first_of(
                                                                        rows_fault("eval_runs"@, rows.eval_runs),
                                                                        first_of(
                                                                            rows_fault("ingest_tasks"@, rows.ingest_tasks),
                                                                            first_of(
                                                                                rows_fault("ingest_results"@, rows.ingest_results),
                                                                                rows_fault("parse_artifacts"@, rows.parse_artifacts),
                                                                            ),
                                                                        ),
                                                                    ),
                                                                ),
                                                            ),
                                                        ),
                                                    ),
                                                ),
                                            ),
                                        ),
                                    ),
                                ),
                            ),
                        ),
                    ),
                ),
            ),
        ),
    )
}

/// Whether a stage holds exactly the rows that were answered.
pub open spec fn holds_rows(
    stage: HydrationStage,
    rows: StageRows,
    user_indexes: Vec<UserEventIndex>,
) -> bool {
    &&& stage.operations@.len() == 0
    &&& stage.user_indexes == user_indexes
    &&& rows.company_context == Ok::<Option<Vec<ContextNode>>, ApiError>(Some(stage.company_context))
    &&& rows.state_items == Ok::<Option<Vec<StateItem>>, ApiError>(Some(stage.state_items))
    &&& rows.insights == Ok::<Option<Vec<InsightRecord>>, ApiError>(Some(stage.insights))
    &&& rows.links == Ok::<Option<Vec<KnowledgeLink>>, ApiError>(Some(stage.links))
    &&& rows.sources == Ok::<Option<Vec<CompanySource>>, ApiError>(Some(stage.sources))
    &&& rows.source_revisions == Ok::<Option<Vec<SourceRevision>>, ApiError>(Some(stage.source_revisions))
    &&& rows.datasets == Ok::<Option<Vec<DatasetRecord>>, ApiError>(Some(stage.datasets))
    &&& rows.snapshots == Ok::<Option<Vec<StructuredSnapshot>>, ApiError>(Some(stage.snapshots))
    &&& rows.structured_summaries == Ok::<Option<Vec<Json>>, ApiError>(Some(stage.structured_summaries))
    &&& rows.sessions == Ok::<Option<Vec<SessionRecord>>, ApiError>(Some(stage.sessions))
    &&& rows.traces == Ok::<Option<Vec<TraceRecord>>, ApiError>(Some(stage.traces))
    &&& rows.harness_components == Ok::<Option<Vec<HarnessComponent>>, ApiError>(Some(stage.harness_components))
    &&& rows.harness_revisions == Ok::<Option<Vec<HarnessComponentRevision>>, ApiError>(Some(stage.harness_revisions))
    &&& rows.harness_changes == Ok::<Option<Vec<HarnessChangeManifest>>, ApiError>(Some(stage.harness_changes))
    &&& rows.harness_verdicts == Ok::<Option<Vec<HarnessChangeVerdict>>, ApiError>(Some(stage.harness_verdicts))
    &&& rows.eval_cases == Ok::<Option<Vec<RagEvalCase>>, ApiError>(Some(stage.eval_cases))
    &&& rows.eval_runs == Ok::<Option<Vec<RagEvalRun>>, ApiError>(Some(stage.eval_runs))
    &&& rows.ingest_tasks == Ok::<Option<Vec<IngestTask>>, ApiError>(Some(stage.ingest_tasks))
    &&& rows.ingest_results == Ok::<Option<Vec<IngestTaskResult>>, ApiError>(Some(stage.ingest_results))
    &&& rows.parse_artifacts == Ok::<Option<Vec<ParseArtifact>>, ApiError>(Some(stage.parse_artifacts))
    &&& stage.eval_case_results@.len() == 0
    &&& stage.eval_overviews@.len() == 0
    &&& stage.recovered_ingest_tasks == 0
    &&& stage.recovered_parse_artifacts == 0
}

/// The stage of a tenant. A domain that could not be read, or that the backend does not hold, is
/// refused under its name; so are artifacts of another tenant.
pub fn assemble_stage(rows: StageRows, user_indexes: Vec<UserEventIndex>, tenant_id: &str) -> (r:
    Result<HydrationStage, HydrationFailure>)
    ensures
        match stage_fault(rows) {
            Some(fault) => domain_fails(r, fault.0, fault.1),
            None => if of_tenant(rows.parse_artifacts->Ok_0->Some_0@, tenant_id@) {
                r is Ok && holds_rows(r->Ok_0, rows, user_indexes)
            } else {
                domain_fails(
                    r,
                    "parse_artifacts"@,
                    ErrorView::Internal("parse artifact row does not match its tenant scope"@),
                )
            },
        },
{
    let company_context: Vec<ContextNode> = match required_hydration_rows("company_context_nodes", rows.company_context) {
        Ok(taken) => taken,
        Err(failure) => {
            return Err(failure);
        },
    };
    let state_items: Vec<StateItem> = match required_hydration_rows("state_items", rows.state_items) {
        Ok(taken) => taken,
        Err(failure) => {
            return Err(failure);
        },
    };
    let insights: Vec<InsightRecord> = match required_hydration_rows("insights", rows.insights) {
        Ok(taken) => taken,
        Err(failure) => {
            return Err(failure);
        },
    };
    let links: Vec<KnowledgeLink> = match required_hydration_rows("links", rows.links) {
        Ok(taken) => taken,
        Err(failure) => {
            return Err(failure);
        },
    };
    let sources: Vec<CompanySource> = match required_hydration_rows("company_sources", rows.sources) {
        Ok(taken) => taken,
        Err(failure) => {
            return Err(failure);
        },
    };
    let source_revisions: Vec<SourceRevision> = match required_hydration_rows("source_revisions", rows.source_revisions) {
        Ok(taken) => taken,
        Err(failure) => {
            return Err(failure);
        },
    };
    let datasets: Vec<DatasetRecord> = match required_hydration_rows("datasets", rows.datasets) {
        Ok(taken) => taken,
        Err(failure) => {
            return Err(failure);
        },
    };
    let snapshots: Vec<StructuredSnapshot> = match required_hydration_rows("structured_snapshots", rows.snapshots) {
        Ok(taken) => taken,
        Err(failure) => {
            return Err(failure);
        },
    };
    let structured_summaries: Vec<Json> = match required_hydration_rows("structured_summaries", rows.structured_summaries) {
        Ok(taken) => taken,
        Err(failure) => {
            return Err(failure);
        },
    };
    let sessions: Vec<SessionRecord> = match required_hydration_rows("sessions", rows.sessions) {
        Ok(taken) => taken,
        Err(failure) => {
            return Err(failure);
        },
    };
    let traces: Vec<TraceRecord> = match required_hydration_rows("traces", rows.traces) {
        Ok(taken) => taken,
        Err(failure) => {
            return Err(failure);
        },
    };
    let harness_components: Vec<HarnessComponent> = match required_hydration_rows("harness_components", rows.harness_components) {
        Ok(taken) => taken,
        Err(failure) => {
            return Err(failure);
        },
    };
    let harness_revisions: Vec<HarnessComponentRevision> = match required_hydration_rows("harness_revisions", rows.harness_revisions) {
        Ok(taken) => taken,
        Err(failure) => {
            return Err(failure);
        },
    };
    let harness_changes: Vec<HarnessChangeManifest> = match required_hydration_rows("harness_changes", rows.harness_changes) {
        Ok(taken) => taken,
        Err(failure) => {
            return Err(failure);
        },
    };
    let harness_verdicts: Vec<HarnessChangeVerdict> = match required_hydration_rows("harness_verdicts", rows.harness_verdicts) {
        Ok(taken) => taken,
        Err(failure) => {
            return Err(failure);
        },
    };
    let eval_cases: Vec<RagEvalCase> = match required_hydration_rows("eval_cases", rows.eval_cases) {
        Ok(taken) => taken,
        Err(failure) => {
            return Err(failure);
        },
    };
    let eval_runs: Vec<RagEvalRun> = match required_hydration_rows("eval_runs", rows.eval_runs) {
        Ok(taken) => taken,
        Err(failure) => {
            return Err(failure);
        },
    };
    let ingest_tasks: Vec<IngestTask> = match required_hydration_rows("ingest_tasks", rows.ingest_tasks) {
        Ok(taken) => taken,
        Err(failure) => {
            return Err(failure);
        },
    };
    let ingest_results: Vec<IngestTaskResult> = match required_hydration_rows("ingest_results", rows.ingest_results) {
        Ok(taken) => taken,
        Err(failure) => {
            return Err(failure);
        },
    };
    let parse_artifacts: Vec<ParseArtifact> = match required_hydration_rows("parse_artifacts", rows.parse_artifacts) {
        Ok(taken) => taken,
        Err(failure) => {
            return Err(failure);
        },
    };
    match ensure_artifacts_in_scope(&parse_artifacts, tenant_id) {
        Ok(_) => {},
        Err(failure) => {
            return Err(failure);
        },
    }
    Ok(
        HydrationStage {
            operations: Vec::new(),
            user_indexes,
            company_context,
            state_items,
            insights,
            links,
            sources,
            source_revisions,
            datasets,
            snapshots,
            structured_summaries,
            sessions,
            traces,
            harness_components,
            harness_revisions,
            harness_changes,
            harness_verdicts,
            eval_cases,
            eval_runs,
            eval_case_results: Vec::new(),
            eval_overviews: Vec::new(),
            ingest_tasks,
            ingest_results,
            parse_artifacts,
            recovered_ingest_tasks: 0,
            recovered_parse_artifacts: 0,
        },
    )
}

/// Adds the results and the overview of one run to a stage.
pub fn add_run_rows(
    stage: &mut HydrationStage,
    results: Rows<RagEvalCaseResult>,
    overview: Result<Option<RagEvalOverview>, ApiError>,
) -> (r: Result<(), HydrationFailure>)
    ensures
        match (results, overview) {
            (Ok(Some(more)), Ok(found)) => {
                &&& r is Ok
                &&& *final(stage) == (HydrationStage {
                    eval_case_results: final(stage).eval_case_results,
                    eval_overviews: final(stage).eval_overviews,
                    ..*old(stage)
                })
                &&& final(stage).eval_case_results@ == old(stage).eval_case_results@ + more@
                &&& final(stage).eval_overviews@ == match found {
                    Some(overview) => old(stage).eval_overviews@.push(overview),
                    None => old(stage).eval_overviews@,
                }
            },
            (Ok(Some(_)), Err(error)) => domain_fails(r, "eval_overviews"@, error@),
            (_, _) => match rows_fault("eval_case_results"@, results) {
                Some(fault) => domain_fails(r, fault.0, fault.1),
                None => false,
            },
        },
{
    let mut taken: Vec<RagEvalCaseResult> = match required_hydration_rows(
        "eval_case_results",
        results,
    ) {
        Ok(taken) => taken,
        Err(failure) => {
            return Err(failure);
        },
    };
    let found: Option<RagEvalOverview> = match hydration_result("eval_overviews", overview) {
        Ok(found) => found,
        Err(failure) => {
            return Err(failure);
        },
    };
    stage.eval_case_results.append(&mut taken);
    match found {
        Some(overview) => {
            stage.eval_overviews.push(overview);
        },
        None => {},
    }
    Ok(())
}

/// The kind of the operation that makes the repairs of a start durable.
pub const RECOVERY_KIND: &'static str = "startup.ingest_recovery";

/// Whether `input` asks for the repairs of a start.
pub open spec fn is_recovery_input(
    input: MutationPlanInput,
    recovery: IngestRecovery,
    tenant_id: Seq<char>,
    consistency: WriteConsistency,
    principal: Option<RequestPrincipal>,
    request_id: Option<String>,
    operation_id: Seq<char>,
    now: i64,
) -> bool {
    &&& input.tenant_id@ == tenant_id
    &&& input.operation_kind@ == RECOVERY_KIND@
    &&& input.owner_user_id is None
    &&& input.idempotency_key is None
    &&& input.primary_kind == recovery.primary_kind
    &&& input.resources == recovery.resources
    &&& input.response_snapshot == Json::Null
    &&& input.request_fingerprint is None
    &&& input.principal == principal
    &&& input.request_id == request_id
    &&& input.write_consistency == consistency
    &&& input.fresh_operation_id@ == operation_id
    &&& input.created_at == now
}

/// The plan that makes the repairs of a start durable.
pub fn recovery_plan(
    resolver: &EventIndexResolver,
    recovery: IngestRecovery,
    tenant_id: &str,
    consistency: WriteConsistency,
    principal: Option<RequestPrincipal>,
    request_id: Option<String>,
    operation_id: &str,
    now: i64,
) -> (r: Result<OperationPlan, HydrationFailure>)
    ensures
        if primary_place(recovery.resources@, recovery.primary_kind) < recovery.resources@.len() {
            &&& r is Ok
            &&& exists|input: MutationPlanInput|
                {
                    &&& is_recovery_input(
                        input,
                        recovery,
                        tenant_id@,
                        consistency,
                        principal,
                        request_id,
                        operation_id@,
                        now,
                    )
                    &&& #[trigger] planned(*resolver, input, r->Ok_0)
                }
        } else {
            domain_fails(
                r,
                recovery.domain@,
                ErrorView::Internal(
                    "mutation "@ + RECOVERY_KIND@
                        + " did not produce its declared primary resource"@,
                ),
            )
        },
{
    let domain: &'static str = recovery.domain;
    let input: MutationPlanInput = MutationPlanInput {
        tenant_id: tenant_id.to_owned(),
        operation_kind: RECOVERY_KIND.to_owned(),
        owner_user_id: None,
        idempotency_key: None,
        primary_kind: recovery.primary_kind,
        resources: recovery.resources,
        response_snapshot: Json::Null,
        request_fingerprint: None,
        principal,
        request_id,
        write_consistency: consistency,
        fresh_operation_id: operation_id.to_owned(),
        created_at: now,
    };
    let ghost asked = input;
    let plan: Result<OperationPlan, ApiError> = mutation_plan(resolver, input);
    let r: Result<OperationPlan, HydrationFailure> = hydration_result(domain, plan);
    proof {
        assert(asked.resources@ == recovery.resources@);
        if primary_place(recovery.resources@, recovery.primary_kind) < recovery.resources@.len() {
            assert(is_recovery_input(
                asked,
                recovery,
                tenant_id@,
                consistency,
                principal,
                request_id,
                operation_id@,
                now,
            ));
            assert(planned(*resolver, asked, r->Ok_0));
        } else {
            assert(domain_fails(
                r,
                recovery.domain@,
                ErrorView::Internal(
                    "mutation "@ + RECOVERY_KIND@
                        + " did not produce its declared primary resource"@,
                ),
            ));
        }
    }
    r
}

/// The domain in which the repairs of a start failed, by what is recorded of the operation.
pub open spec fn recovery_fault_domain(
    latest: Option<OperationRecord>,
    domain: Seq<char>,
) -> Seq<char> {
    match latest {
        Some(record) => match first_failed_domain(record, plan_steps(record.plan)) {
            Some(failed) => failed,
            None => domain,
        },
        None => domain,
    }
}

/// Takes the operation that made the repairs of a start durable into a stage. Where that operation
/// failed, `latest` is what is recorded of it.
pub fn finish_recovery(
    stage: &mut HydrationStage,
    outcome: Result<OperationRecord, ApiError>,
    latest: Option<OperationRecord>,
    domain: &'static str,
) -> (r: Result<(), HydrationFailure>)
    ensures
        match outcome {
            Ok(record) => {
                &&& r is Ok
                &&& *final(stage) == (HydrationStage {
                    operations: final(stage).operations,
                    ..*old(stage)
                })
                &&& final(stage).operations@ == old(stage).operations@.push(record)
            },
            Err(error) => domain_fails(r, recovery_fault_domain(latest, domain@), error@)
                && *final(stage) == *old(stage),
        },
{
    match outcome {
        Ok(record) => {
            stage.operations.push(record);
            Ok(())
        },
        Err(error) => {
            let failed: Option<&'static str> = match &latest {
                Some(record) => failed_ingest_recovery_domain(record),
                None => None,
            };
            let domain: &'static str = match failed {
                Some(failed) => failed,
                None => domain,
            };
            Err(HydrationFailure { domain, error })
        },
    }
}

/// The repairs that a start finds can always be planned.
pub proof fn repairs_can_be_planned(
    recovery: IngestRecovery,
    tasks: Seq<IngestTask>,
    artifacts: Seq<ParseArtifact>,
    results: Seq<IngestTaskResult>,
)
    requires
        recovers(recovery, tasks, artifacts, results),
        repairs(tasks, artifacts, results).len() > 0,
    ensures
        primary_place(recovery.resources@, recovery.primary_kind) == 0 < recovery.resources@.len(),
{
    a_recovery_starts_with_its_primary(recovery, tasks, artifacts, results);
    let kind = recovery.primary_kind;
    first_where_is(
        recovery.resources@,
        |resource: OperationResource| kind.accepts(resource@),
        0,
    );
}

} // verus!
