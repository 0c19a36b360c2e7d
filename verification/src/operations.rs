//! Planning, publishing, replaying and reconciling operations.

use vstd::prelude::*;
use vstd::string::*;

use crate::data::StoreData;
use crate::error::{fails_with, ApiError, ErrorView};
use crate::json::{json_quoted, render_text, Json};
use crate::model::operation::{
    resource_views, CompanySourceDeleteTarget, OperationActor, OperationActorScope, OperationPlan,
    OperationRecord, OperationResource, OperationStatus, OperationStep, OperationStepRole,
    OperationStepStatus, PlanMetadata, ResourceView, StepProgress,
};
use crate::naming::{hmac_hex, keyed_digest};
use crate::order::{find_where, first_where, first_where_facts, sort_by, sorted_by};
use crate::publish::{publish_resource_cache, published};
use crate::record::List;
use crate::resolver::EventIndexResolver;
use crate::source_delete::{is_settled, settled};
use crate::text::{
    blank, blank_iff_trimmed_empty, opt_is, opt_str, opt_text, padded4, padded4_text, text_before,
    text_eq, text_lt, texts, texts_contain, trim, trimmed,
};

verus! {

/// The version of the form of operation plans.
pub const OPERATION_PLAN_SCHEMA_VERSION: u32 = 1;

/// What a mutation is mainly about: the resource that must be accepted first.
#[derive(Debug, Clone, Copy, PartialEq, Eq, Structural)]
pub enum MutationPrimary {
    UserIndex,
    HistoryEvents,
    StateItem,
    Insight,
    Links,
    AnalysisMaterialization,
    DeleteCompanySource,
    SourceRevision,
    SourceDocuments,
    ParseArtifacts,
    StructuredSnapshot,
    Dataset,
    StructuredRows,
    StructuredSummary,
    Session,
    Trace,
    HarnessComponents,
    HarnessChanges,
    HarnessVerdicts,
    IngestTask,
    DeleteIngestTasks,
    IngestResult,
    EvalCase,
    EvalRun,
}

impl MutationPrimary {
    /// Whether a resource can be the primary one of such a mutation.
    pub open spec fn accepts(self, resource: ResourceView) -> bool {
        match self {
            MutationPrimary::UserIndex => resource is EnsureUserEventIndex,
            MutationPrimary::HistoryEvents => resource is HistoryEvents,
            MutationPrimary::StateItem => resource is StateItem,
            MutationPrimary::Insight => resource is Insight,
            MutationPrimary::Links => resource is Links,
            MutationPrimary::AnalysisMaterialization => resource is Insight || resource is Links,
            MutationPrimary::DeleteCompanySource => resource is DeleteCompanySourceIndex
                && resource->DeleteCompanySourceIndex_target is Fragments,
            MutationPrimary::SourceRevision => resource is SourceRevision,
            MutationPrimary::SourceDocuments => resource is SourceDocuments,
            MutationPrimary::ParseArtifacts => resource is ParseArtifacts,
            MutationPrimary::StructuredSnapshot => resource is StructuredSnapshot,
            MutationPrimary::Dataset => resource is Dataset,
            MutationPrimary::StructuredRows => resource is StructuredRows,
            MutationPrimary::StructuredSummary => resource is StructuredSummary,
            MutationPrimary::Session => resource is Session,
            MutationPrimary::Trace => resource is Trace,
            MutationPrimary::HarnessComponents => resource is HarnessComponents,
            MutationPrimary::HarnessChanges => resource is HarnessChanges,
            MutationPrimary::HarnessVerdicts => resource is HarnessVerdicts,
            MutationPrimary::IngestTask => resource is IngestTask || resource is IngestTasks,
            MutationPrimary::DeleteIngestTasks => resource is DeleteIngestTasks,
            MutationPrimary::IngestResult => resource is IngestResult,
            MutationPrimary::EvalCase => resource is EvalCase,
            MutationPrimary::EvalRun => resource is EvalRun,
        }
    }

    /// Whether a resource can be the primary one of such a mutation.
    pub fn matches(self, resource: &OperationResource) -> (r: bool)
        ensures
            r == self.accepts(resource@),
    {
        match (self, resource) {
            (MutationPrimary::UserIndex, OperationResource::EnsureUserEventIndex { .. }) => true,
            (MutationPrimary::HistoryEvents, OperationResource::HistoryEvents { .. }) => true,
            (MutationPrimary::StateItem, OperationResource::StateItem { .. }) => true,
            (MutationPrimary::Insight, OperationResource::Insight { .. }) => true,
            (MutationPrimary::Links, OperationResource::Links { .. }) => true,
            (MutationPrimary::AnalysisMaterialization, OperationResource::Insight { .. }) => true,
            (MutationPrimary::AnalysisMaterialization, OperationResource::Links { .. }) => true,
            (
                MutationPrimary::DeleteCompanySource,
                OperationResource::DeleteCompanySourceIndex { source_id, target },
            ) => matches!(target, CompanySourceDeleteTarget::Fragments),
            (MutationPrimary::SourceRevision, OperationResource::SourceRevision { .. }) => true,
            (MutationPrimary::SourceDocuments, OperationResource::SourceDocuments { .. }) => true,
            (MutationPrimary::ParseArtifacts, OperationResource::ParseArtifacts { .. }) => true,
            (MutationPrimary::StructuredSnapshot, OperationResource::StructuredSnapshot { .. }) => {
                true
            },
            (MutationPrimary::Dataset, OperationResource::Dataset { .. }) => true,
            (MutationPrimary::StructuredRows, OperationResource::StructuredRows { .. }) => true,
            (MutationPrimary::StructuredSummary, OperationResource::StructuredSummary { .. }) => {
                true
            },
            (MutationPrimary::Session, OperationResource::Session { .. }) => true,
            (MutationPrimary::Trace, OperationResource::Trace { .. }) => true,
            (MutationPrimary::HarnessComponents, OperationResource::HarnessComponents { .. }) => {
                true
            },
            (MutationPrimary::HarnessChanges, OperationResource::HarnessChanges { .. }) => true,
            (MutationPrimary::HarnessVerdicts, OperationResource::HarnessVerdicts { .. }) => true,
            (MutationPrimary::IngestTask, OperationResource::IngestTask { .. }) => true,
            (MutationPrimary::IngestTask, OperationResource::IngestTasks { .. }) => true,
            (MutationPrimary::DeleteIngestTasks, OperationResource::DeleteIngestTasks { .. }) => {
                true
            },
            (MutationPrimary::IngestResult, OperationResource::IngestResult { .. }) => true,
            (MutationPrimary::EvalCase, OperationResource::EvalCase { .. }) => true,
            (MutationPrimary::EvalRun, OperationResource::EvalRun { .. }) => true,
            _ => false,
        }
    }

    /// Whether an accepted primary is answered with although a side effect failed.
    pub open spec fn shows_partial(self) -> bool {
        self == MutationPrimary::HistoryEvents || self == MutationPrimary::DeleteCompanySource
    }

    /// Whether an accepted primary is answered with although a side effect failed.
    pub fn exposes_partial_persistence(self) -> (r: bool)
        ensures
            r == self.shows_partial(),
    {
        self == MutationPrimary::HistoryEvents || self == MutationPrimary::DeleteCompanySource
    }

    /// Whether the index must have confirmed such a mutation before it is answered.
    pub open spec fn needs_index(self) -> bool {
        self == MutationPrimary::UserIndex || self == MutationPrimary::AnalysisMaterialization
            || self == MutationPrimary::DeleteCompanySource || self
            == MutationPrimary::DeleteIngestTasks
    }

    /// Whether the index must have confirmed such a mutation before it is answered.
    pub fn requires_index_confirmation(self) -> (r: bool)
        ensures
            r == self.needs_index(),
    {
        self == MutationPrimary::UserIndex || self == MutationPrimary::AnalysisMaterialization
            || self == MutationPrimary::DeleteCompanySource || self
            == MutationPrimary::DeleteIngestTasks
    }
}

/// When a write counts as done.
#[derive(Debug, Clone, Copy, PartialEq, Eq, Structural)]
pub enum WriteConsistency {
    Accepted,
    ReadYourWrites,
    WaitForIndex,
}

/// The name of a write consistency.
pub open spec fn consistency_name(c: WriteConsistency) -> Seq<char> {
    match c {
        WriteConsistency::Accepted => "accepted"@,
        WriteConsistency::ReadYourWrites => "read_your_writes"@,
        WriteConsistency::WaitForIndex => "wait_for_index"@,
    }
}

/// The name of a write consistency.
pub fn consistency_text(c: WriteConsistency) -> (r: &'static str)
    ensures
        r@ == consistency_name(c),
{
    match c {
        WriteConsistency::Accepted => "accepted",
        WriteConsistency::ReadYourWrites => "read_your_writes",
        WriteConsistency::WaitForIndex => "wait_for_index",
    }
}

/// What the id of an idempotent operation is derived from.
pub open spec fn operation_id_material(
    tenant_id: Seq<char>,
    operation_kind: Seq<char>,
    owner_user_id_hash: Option<Seq<char>>,
    idempotency_key_hash: Seq<char>,
) -> Seq<char> {
    tenant_id + "\0"@ + operation_kind + "\0"@ + (match owner_user_id_hash {
        Some(owner) => "owner\0"@ + owner,
        None => "tenant_service"@,
    }) + "\0"@ + idempotency_key_hash
}

/// The id of an idempotent operation.
pub open spec fn idempotent_id(
    secret: Seq<u8>,
    tenant_id: Seq<char>,
    operation_kind: Seq<char>,
    owner_user_id_hash: Option<Seq<char>>,
    idempotency_key_hash: Seq<char>,
) -> Seq<char> {
    "op_"@ + keyed_digest(
        secret,
        "operation-id-v1"@,
        operation_id_material(tenant_id, operation_kind, owner_user_id_hash, idempotency_key_hash),
        32,
    )
}

/// The id of an idempotent operation.
pub fn idempotent_operation_id(
    secret: &Vec<u8>,
    tenant_id: &str,
    operation_kind: &str,
    owner_user_id_hash: Option<&str>,
    idempotency_key_hash: &str,
) -> (r: String)
    ensures
        r@ == idempotent_id(
            secret@,
            tenant_id@,
            operation_kind@,
            opt_str(owner_user_id_hash),
            idempotency_key_hash@,
        ),
{
    let scope: String = match owner_user_id_hash {
        Some(owner) => "owner\0".to_owned().concat(owner),
        None => "tenant_service".to_owned(),
    };
    let mut material: String = tenant_id.to_owned();
    material.append("\0");
    material.append(operation_kind);
    material.append("\0");
    material.append(scope.as_str());
    material.append("\0");
    material.append(idempotency_key_hash);
    let digest: String = hmac_hex(secret.as_slice(), "operation-id-v1", material.as_str(), 32);
    "op_".to_owned().concat(digest.as_str())
}

/// In what role someone asks.
pub enum RequestPrincipalScope {
    Owner { owner_user_id_hash: String },
    TenantService,
    Admin,
}

/// Who asks.
pub struct RequestPrincipal {
    pub scope: RequestPrincipalScope,
    pub roles: List<String>,
}

/// Whether `a` is who asked for an operation: the system, where nobody did.
pub open spec fn is_actor(
    a: OperationActor,
    principal: Option<RequestPrincipal>,
    request_id: Option<Seq<char>>,
) -> bool {
    &&& opt_text(a.request_id) == request_id
    &&& match principal {
        Some(p) => {
            &&& a.roles == p.roles
            &&& match p.scope {
                RequestPrincipalScope::Owner { owner_user_id_hash } => {
                    &&& a.scope == OperationActorScope::Owner
                    &&& opt_text(a.owner_user_id_hash) == Some(owner_user_id_hash@)
                },
                RequestPrincipalScope::TenantService => {
                    &&& a.scope == OperationActorScope::TenantService
                    &&& a.owner_user_id_hash is None
                },
                RequestPrincipalScope::Admin => {
                    &&& a.scope == OperationActorScope::Admin
                    &&& a.owner_user_id_hash is None
                },
            }
        },
        None => {
            &&& a.scope == OperationActorScope::System
            &&& a.owner_user_id_hash is None
            &&& a.roles@.len() == 0
        },
    }
}

/// Who asked for an operation.
pub fn operation_actor(principal: Option<RequestPrincipal>, request_id: Option<String>) -> (r:
    OperationActor)
    ensures
        is_actor(r, principal, opt_text(request_id)),
{
    match principal {
        Some(p) => {
            let (scope, owner_user_id_hash): (OperationActorScope, Option<String>) = match p.scope {
                RequestPrincipalScope::Owner { owner_user_id_hash } => (
                    OperationActorScope::Owner,
                    Some(owner_user_id_hash),
                ),
                RequestPrincipalScope::TenantService => (OperationActorScope::TenantService, None),
                RequestPrincipalScope::Admin => (OperationActorScope::Admin, None),
            };
            OperationActor { scope, owner_user_id_hash, roles: p.roles, request_id }
        },
        None => OperationActor {
            scope: OperationActorScope::System,
            owner_user_id_hash: None,
            roles: std::sync::Arc::new(Vec::new()),
            request_id,
        },
    }
}

/// What a plan is made from.
pub struct MutationPlanInput {
    pub tenant_id: String,
    pub operation_kind: String,
    pub owner_user_id: Option<String>,
    pub idempotency_key: Option<String>,
    pub primary_kind: MutationPrimary,
    pub resources: Vec<OperationResource>,
    pub response_snapshot: Json,
    pub request_fingerprint: Option<String>,
    pub principal: Option<RequestPrincipal>,
    pub request_id: Option<String>,
    pub write_consistency: WriteConsistency,
    pub fresh_operation_id: String,
    pub created_at: i64,
}

/// The place of the resource that is primary.
pub open spec fn primary_place(resources: Seq<OperationResource>, kind: MutationPrimary) -> int {
    first_where(resources, |resource: OperationResource| kind.accepts(resource@))
}

/// The steps of a plan, the primary one first.
pub open spec fn plan_steps(plan: OperationPlan) -> Seq<OperationStep> {
    seq![plan.primary] + plan.side_effects@
}

/// The resources of a plan, the primary one first.
pub open spec fn plan_resources(plan: OperationPlan) -> Seq<OperationResource> {
    Seq::new(plan_steps(plan).len(), |i: int| plan_steps(plan)[i].resource)
}

/// The hash of an optional idempotency key.
pub open spec fn key_hash(resolver: EventIndexResolver, key: Option<Seq<char>>) -> Option<
    Seq<char>,
> {
    match key {
        Some(k) => Some(resolver.key_digest(k)),
        None => None,
    }
}

/// The hash of an optional owner.
pub open spec fn owner_hash(resolver: EventIndexResolver, owner: Option<Seq<char>>) -> Option<
    Seq<char>,
> {
    match owner {
        Some(o) => Some(resolver.user_digest(o)),
        None => None,
    }
}

/// Whether `plan` is the plan for `input`.
pub open spec fn planned(
    resolver: EventIndexResolver,
    input: MutationPlanInput,
    plan: OperationPlan,
) -> bool {
    let at = primary_place(input.resources@, input.primary_kind);
    let rest = input.resources@.remove(at);
    let key = key_hash(resolver, opt_text(input.idempotency_key));
    let owner = owner_hash(resolver, opt_text(input.owner_user_id));
    &&& plan.schema_version == OPERATION_PLAN_SCHEMA_VERSION
    &&& plan.id@ == (match key {
        Some(hash) => idempotent_id(
            resolver.secret@,
            input.tenant_id@,
            input.operation_kind@,
            owner,
            hash,
        ),
        None => input.fresh_operation_id@,
    })
    &&& plan.tenant_id@ == input.tenant_id@
    &&& plan.operation_kind@ == input.operation_kind@
    &&& is_actor(plan.actor, input.principal, opt_text(input.request_id))
    &&& opt_text(plan.idempotency_key_hash) == key
    &&& plan.primary.id@ == "primary"@
    &&& plan.primary.role == OperationStepRole::Primary
    &&& plan.primary.resource == input.resources@[at]
    &&& plan.side_effects@.len() == rest.len()
    &&& forall|i: int|
        0 <= i < rest.len() ==> {
            &&& (#[trigger] plan.side_effects@[i]).id@ == "effect-"@ + padded4((i + 1) as nat)
            &&& plan.side_effects@[i].role == OperationStepRole::SideEffect
            &&& plan.side_effects@[i].resource == rest[i]
        }
    &&& plan.redacted_metadata.resource_count == input.resources@.len()
    &&& plan.redacted_metadata.write_consistency@ == consistency_name(input.write_consistency)
    &&& plan.redacted_metadata.wait_for_index == Some(
        input.write_consistency == WriteConsistency::WaitForIndex
            || input.primary_kind.needs_index(),
    )
    &&& opt_text(plan.redacted_metadata.request_fingerprint) == opt_text(input.request_fingerprint)
    &&& opt_text(plan.redacted_metadata.target_owner_user_id_hash) == owner
    &&& plan.response_snapshot == input.response_snapshot
    &&& plan.created_at == input.created_at
}

/// Makes the plan of a mutation: the declared primary resource first, the others as side effects.
pub fn mutation_plan(resolver: &EventIndexResolver, input: MutationPlanInput) -> (r: Result<
    OperationPlan,
    ApiError,
>)
    ensures
        if primary_place(input.resources@, input.primary_kind) < input.resources@.len() {
            r is Ok && planned(*resolver, input, r->Ok_0)
        } else {
            fails_with(
                r,
                ErrorView::Internal(
                    "mutation "@ + input.operation_kind@
                        + " did not produce its declared primary resource"@,
                ),
            )
        },
{
    let ghost whole = input;
    let kind: MutationPrimary = input.primary_kind;
    let mut resources: Vec<OperationResource> = input.resources;
    let resource_count: usize = resources.len();
    let ghost p = |resource: OperationResource| kind.accepts(resource@);
    let accept = |resource: &OperationResource| -> (b: bool)
        ensures
            b == p(*resource),
        { kind.matches(resource) };
    let at: usize = find_where(&resources, accept, Ghost(p));
    if at >= resources.len() {
        let mut message: String = "mutation ".to_owned();
        message.append(input.operation_kind.as_str());
        message.append(" did not produce its declared primary resource");
        return Err(ApiError::Internal(message));
    }
    let primary: OperationResource = resources.remove(at);
    let ghost rest = resources@;
    let key: Option<String> = match &input.idempotency_key {
        Some(key) => Some(resolver.idempotency_hash(key.as_str())),
        None => None,
    };
    let owner: Option<String> = match &input.owner_user_id {
        Some(owner) => Some(resolver.user_hash(owner.as_str())),
        None => None,
    };
    let id: String = match &key {
        Some(hash) => idempotent_operation_id(
            &resolver.secret,
            input.tenant_id.as_str(),
            input.operation_kind.as_str(),
            crate::text::as_deref(&owner),
            hash.as_str(),
        ),
        None => input.fresh_operation_id,
    };
    let mut effects: Vec<OperationStep> = Vec::new();
    while resources.len() > 0
        invariant
            effects@.len() + resources@.len() == rest.len(),
            resources@ == rest.skip(effects@.len() as int),
            rest.len() < usize::MAX,
            forall|i: int|
                0 <= i < effects@.len() ==> {
                    &&& (#[trigger] effects@[i]).id@ == "effect-"@ + padded4((i + 1) as nat)
                    &&& effects@[i].role == OperationStepRole::SideEffect
                    &&& effects@[i].resource == rest[i]
                },
        decreases resources@.len(),
    {
        let number: usize = effects.len() + 1;
        let resource: OperationResource = resources.remove(0);
        let id: String = "effect-".to_owned().concat(padded4_text(number as u64).as_str());
        effects.push(OperationStep { id, role: OperationStepRole::SideEffect, resource });
        assert(resources@ =~= rest.skip(effects@.len() as int));
    }
    let wait: bool = input.write_consistency == WriteConsistency::WaitForIndex
        || kind.requires_index_confirmation();
    let plan: OperationPlan = OperationPlan {
        schema_version: OPERATION_PLAN_SCHEMA_VERSION,
        id,
        tenant_id: input.tenant_id,
        operation_kind: input.operation_kind,
        actor: operation_actor(input.principal, input.request_id),
        idempotency_key_hash: key,
        primary: OperationStep {
            id: "primary".to_owned(),
            role: OperationStepRole::Primary,
            resource: primary,
        },
        side_effects: std::sync::Arc::new(effects),
        redacted_metadata: PlanMetadata {
            resource_count,
            write_consistency: consistency_text(input.write_consistency).to_owned(),
            wait_for_index: Some(wait),
            request_fingerprint: input.request_fingerprint,
            target_owner_user_id_hash: owner,
        },
        response_snapshot: input.response_snapshot,
        created_at: input.created_at,
    };
    Ok(plan)
}

/// A plan holds every resource that it was made from, and no other.
pub proof fn plan_keeps_every_resource(
    resolver: EventIndexResolver,
    input: MutationPlanInput,
    plan: OperationPlan,
)
    requires
        primary_place(input.resources@, input.primary_kind) < input.resources@.len(),
        planned(resolver, input, plan),
    ensures
        plan_resources(plan).to_multiset() == input.resources@.to_multiset(),
        input.primary_kind.accepts(plan.primary.resource@),
{
    broadcast use vstd::seq_lib::group_to_multiset_ensures;

    let p = |resource: OperationResource| input.primary_kind.accepts(resource@);
    first_where_facts(input.resources@, p);
    let at = primary_place(input.resources@, input.primary_kind);
    let rest = input.resources@.remove(at);
    assert(plan_resources(plan) =~= seq![input.resources@[at]] + rest);
    assert(rest.insert(0, input.resources@[at]) =~= seq![input.resources@[at]] + rest);
    vstd::seq_lib::to_multiset_insert(rest, 0, input.resources@[at]);
    vstd::seq_lib::to_multiset_remove(input.resources@, at);
    assert(plan_resources(plan).to_multiset() =~= input.resources@.to_multiset());
}

/// Whether a step has an id.
pub open spec fn step_named(step_id: Seq<char>) -> spec_fn(OperationStep) -> bool {
    |step: OperationStep| step.id@ == step_id
}

/// The place of the step with an id.
pub open spec fn step_place(plan: OperationPlan, step_id: Seq<char>) -> int {
    first_where(plan_steps(plan), step_named(step_id))
}

/// Whether a plan has a step with an id.
pub open spec fn has_step(plan: OperationPlan, step_id: Seq<char>) -> bool {
    step_place(plan, step_id) < plan_steps(plan).len()
}

/// The step with an id.
pub open spec fn step_with(plan: OperationPlan, step_id: Seq<char>) -> OperationStep {
    plan_steps(plan)[step_place(plan, step_id)]
}

/// A plan has a step with the id of each of its steps.
pub proof fn a_step_is_found(plan: OperationPlan, step_id: Seq<char>, i: int)
    requires
        0 <= i < plan_steps(plan).len(),
        plan_steps(plan)[i].id@ == step_id,
    ensures
        has_step(plan, step_id),
{
    let p = step_named(step_id);
    first_where_facts(plan_steps(plan), p);
    assert(p(plan_steps(plan)[i]));
}

/// The step with an id.
pub fn find_step<'a>(plan: &'a OperationPlan, step_id: &str) -> (r: Option<&'a OperationStep>)
    ensures
        match r {
            Some(step) => has_step(*plan, step_id@) && *step == step_with(*plan, step_id@),
            None => !has_step(*plan, step_id@),
        },
{
    let ghost p = step_named(step_id@);
    let ghost all = plan_steps(*plan);
    if text_eq(plan.primary.id.as_str(), step_id) {
        assert(all[0] == plan.primary);
        return Some(&plan.primary);
    }
    let accept = |step: &OperationStep| -> (b: bool)
        ensures
            b == p(*step),
        { text_eq(step.id.as_str(), step_id) };
    let at: usize = find_where(&plan.side_effects, accept, Ghost(p));
    assert(all[0] == plan.primary);
    assert(all.drop_first() =~= plan.side_effects@);
    if at < plan.side_effects.len() {
        Some(&plan.side_effects[at])
    } else {
        None
    }
}

/// The place of the progress of a step.
pub open spec fn progress_place(record: OperationRecord, step_id: Seq<char>) -> int {
    first_where(record.progress@, progress_named(step_id))
}

/// Whether the progress of a step has a name.
pub open spec fn progress_named(step_id: Seq<char>) -> spec_fn(StepProgress) -> bool {
    |progress: StepProgress| progress.step_id@ == step_id
}

/// Whether the progress of a step is known.
pub open spec fn has_progress(record: OperationRecord, step_id: Seq<char>) -> bool {
    progress_place(record, step_id) < record.progress@.len()
}

/// The progress of a step.
pub open spec fn progress_of(record: OperationRecord, step_id: Seq<char>) -> StepProgress {
    record.progress@[progress_place(record, step_id)]
}

/// The progress of a step.
pub fn find_progress<'a>(record: &'a OperationRecord, step_id: &str) -> (r: Option<
    &'a StepProgress,
>)
    ensures
        match r {
            Some(progress) => has_progress(*record, step_id@) && *progress == progress_of(
                *record,
                step_id@,
            ),
            None => !has_progress(*record, step_id@),
        },
{
    let ghost p = progress_named(step_id@);
    let accept = |progress: &StepProgress| -> (b: bool)
        ensures
            b == p(*progress),
        { text_eq(progress.step_id.as_str(), step_id) };
    let at: usize = find_where(&record.progress, accept, Ghost(p));
    if at < record.progress.len() {
        Some(&record.progress[at])
    } else {
        None
    }
}

/// The answer where an operation has no such step.
pub open spec fn step_missing(step_id: Seq<char>) -> ErrorView {
    ErrorView::Internal("operation step "@ + step_id + " is missing"@)
}

/// The answer where an operation has no such step.
pub fn missing_step(step_id: &str) -> (r: ApiError)
    ensures
        r@ == step_missing(step_id@),
{
    let mut message: String = "operation step ".to_owned();
    message.append(step_id);
    message.append(" is missing");
    ApiError::Internal(message)
}

/// Whether the primary step of an operation was accepted.
pub open spec fn primary_accepted(record: OperationRecord) -> bool {
    let id = record.plan.primary.id@;
    has_progress(record, id) && (progress_of(record, id).status == OperationStepStatus::Submitted
        || progress_of(record, id).status == OperationStepStatus::Completed)
}

/// Whether the primary step of an operation was accepted.
pub fn operation_primary_was_accepted(record: &OperationRecord) -> (r: bool)
    ensures
        r == primary_accepted(*record),
{
    match find_progress(record, record.plan.primary.id.as_str()) {
        Some(progress) => progress.status == OperationStepStatus::Submitted || progress.status
            == OperationStepStatus::Completed,
        None => false,
    }
}

/// Whether the answer to an operation may have been given already.
pub open spec fn response_exposed(record: OperationRecord) -> bool {
    let id = record.plan.primary.id@;
    record.plan.redacted_metadata.wait_for_index == Some(false) && has_progress(record, id) && (
    progress_of(record, id).task_uids@.len() > 0 || progress_of(record, id).status
        == OperationStepStatus::Completed)
}

/// Whether the answer to an operation may have been given already.
pub fn operation_primary_response_was_exposed(record: &OperationRecord) -> (r: bool)
    ensures
        r == response_exposed(*record),
{
    match record.plan.redacted_metadata.wait_for_index {
        Some(waits) => !waits && match find_progress(record, record.plan.primary.id.as_str()) {
            Some(progress) => progress.task_uids.len() > 0 || progress.status
                == OperationStepStatus::Completed,
            None => false,
        },
        None => false,
    }
}

/// The members of an answer with `duplicate` set, where there is such a member.
pub open spec fn marked_duplicate(members: Seq<(String, Json)>) -> Seq<(Seq<char>, Json)> {
    Seq::new(
        members.len(),
        |i: int|
            (
                members[i].0@,
                if members[i].0@ == "duplicate"@ {
                    Json::Bool(true)
                } else {
                    members[i].1
                },
            ),
    )
}

/// The members of an object by content.
pub open spec fn member_views(members: Seq<(String, Json)>) -> Seq<(Seq<char>, Json)> {
    Seq::new(members.len(), |i: int| (members[i].0@, members[i].1))
}

/// The answer to a repeated request: the first answer, marked as a duplicate.
pub fn replay_operation_response(record: &OperationRecord) -> (r: Result<Json, ApiError>)
    ensures
        match record.plan.response_snapshot {
            Json::Null => fails_with(
                r,
                ErrorView::Conflict("the existing operation predates idempotent response replay"@),
            ),
            Json::Object(members) => r is Ok && r->Ok_0 is Object && member_views(
                r->Ok_0->Object_0@,
            ) == marked_duplicate(members@),
            other => r == Ok::<Json, ApiError>(other),
        },
{
    match &record.plan.response_snapshot {
        Json::Null => Err(
            ApiError::conflict("the existing operation predates idempotent response replay"),
        ),
        Json::Object(members) => {
            let mut out: Vec<(String, Json)> = Vec::new();
            let mut i: usize = 0;
            while i < members.len()
                invariant
                    i <= members.len(),
                    out@.len() == i,
                    forall|j: int|
                        0 <= j < i ==> (#[trigger] out@[j]).0@ == members@[j].0@ && out@[j].1 == (
                        if members@[j].0@ == "duplicate"@ {
                            Json::Bool(true)
                        } else {
                            members@[j].1
                        }),
                decreases members.len() - i,
            {
                let value: Json = if text_eq(members[i].0.as_str(), "duplicate") {
                    Json::Bool(true)
                } else {
                    members[i].1.clone()
                };
                out.push((members[i].0.clone(), value));
                i += 1;
            }
            assert(member_views(out@) =~= marked_duplicate(members@));
            Ok(Json::Object(std::sync::Arc::new(out)))
        },
        other => Ok(other.clone()),
    }
}

/// Whether an operation serves the request with a fingerprint; without one, any does.
pub open spec fn request_matches(operation: OperationRecord, expected: Option<Seq<char>>) -> bool {
    expected is None || opt_text(operation.plan.redacted_metadata.request_fingerprint) == expected
}

/// The answer to an idempotency key that served another request.
pub open spec fn key_reused() -> ErrorView {
    ErrorView::Conflict("idempotency key was already used for a different request"@)
}

/// Refuses to answer a request with the operation of another one.
pub fn ensure_operation_request_matches(
    operation: &OperationRecord,
    expected_fingerprint: Option<&str>,
) -> (r: Result<(), ApiError>)
    ensures
        if request_matches(*operation, opt_str(expected_fingerprint)) {
            r is Ok
        } else {
            fails_with(r, key_reused())
        },
{
    match expected_fingerprint {
        None => Ok(()),
        Some(expected) => if opt_is(
            &operation.plan.redacted_metadata.request_fingerprint,
            expected,
        ) {
            Ok(())
        } else {
            Err(ApiError::conflict("idempotency key was already used for a different request"))
        },
    }
}

/// Whether a failed replay is answered with what is known of the operation.
pub fn replay_answers_partially(
    expose_partial_persistence: bool,
    response_was_exposed: bool,
    latest: Option<&OperationRecord>,
) -> (r: bool)
    ensures
        r == match latest {
            Some(record) => expose_partial_persistence && (response_was_exposed
                || response_exposed(*record) || primary_accepted(*record)),
            None => false,
        },
{
    match latest {
        Some(record) => expose_partial_persistence && (response_was_exposed
            || operation_primary_response_was_exposed(record) || operation_primary_was_accepted(
            record,
        )),
        None => false,
    }
}

/// How a mutation goes on once it is known what it would change.
#[derive(Debug, PartialEq, Eq)]
pub enum MutationCourse {
    /// The request was served before: answer with the operation that served it.
    Replay,
    /// The request changes nothing: answer without an operation.
    Nothing,
    /// The request is new: run its operation.
    Run { wait_for_index: bool, buffer_publication: bool },
}

/// Whether a mutation waits for the index.
pub open spec fn mutation_waits(consistency: WriteConsistency, kind: MutationPrimary) -> bool {
    consistency == WriteConsistency::WaitForIndex || kind.needs_index()
}

/// Decides how a mutation goes on.
pub fn mutation_course(
    existing: Option<&OperationRecord>,
    request_fingerprint: Option<&str>,
    resource_count: usize,
    write_consistency: WriteConsistency,
    primary_kind: MutationPrimary,
) -> (r: Result<MutationCourse, ApiError>)
    ensures
        match existing {
            Some(record) => if request_matches(*record, opt_str(request_fingerprint)) {
                r == Ok::<MutationCourse, ApiError>(MutationCourse::Replay)
            } else {
                fails_with(r, key_reused())
            },
            None => if resource_count == 0 {
                r == Ok::<MutationCourse, ApiError>(MutationCourse::Nothing)
            } else {
                r == Ok::<MutationCourse, ApiError>(
                    MutationCourse::Run {
                        wait_for_index: mutation_waits(write_consistency, primary_kind),
                        buffer_publication: mutation_waits(write_consistency, primary_kind)
                            && primary_kind != MutationPrimary::DeleteCompanySource,
                    },
                )
            },
        },
{
    match existing {
        Some(record) => {
            ensure_operation_request_matches(record, request_fingerprint)?;
            Ok(MutationCourse::Replay)
        },
        None => {
            if resource_count == 0 {
                return Ok(MutationCourse::Nothing);
            }
            let wait: bool = write_consistency == WriteConsistency::WaitForIndex
                || primary_kind.requires_index_confirmation();
            Ok(
                MutationCourse::Run {
                    wait_for_index: wait,
                    buffer_publication: wait && primary_kind
                        != MutationPrimary::DeleteCompanySource,
                },
            )
        },
    }
}

/// Whether a mutation whose side effect failed is answered as accepted.
pub fn failed_effect_is_answered(primary_kind: MutationPrimary, latest: &OperationRecord) -> (r:
    bool)
    ensures
        r == (primary_kind.shows_partial() && primary_accepted(*latest)),
{
    primary_kind.exposes_partial_persistence() && operation_primary_was_accepted(latest)
}

/// Whether the publication of a replayed operation waits for its last step.
pub fn replay_buffers_publication(record: &OperationRecord) -> (r: bool)
    ensures
        r == (record.plan.redacted_metadata.wait_for_index == Some(true)
            && record.plan.primary.resource@ !is DeleteCompanySourceIndex),
{
    match record.plan.redacted_metadata.wait_for_index {
        Some(waits) => waits && !matches!(
            record.plan.primary.resource,
            OperationResource::DeleteCompanySourceIndex { .. }
        ),
        None => false,
    }
}

/// What is to be done next for a step.
pub enum StepAction {
    /// Nothing: the step has come as far as it must.
    Finished,
    /// Wait for the tasks of the index, then complete the step.
    AwaitTasks { task_uids: List<String> },
    /// Hand the step to the repository.
    Submit { step: OperationStep },
}

/// Whether a step waits for the index: the creation of an index always does.
pub open spec fn step_waits(resource: ResourceView, wait_for_index: bool) -> bool {
    wait_for_index || resource is EnsureUserEventIndex
}

/// Decides what is to be done next for a step.
pub fn next_step_action(record: &OperationRecord, step_id: &str, wait_for_index: bool) -> (r:
    Result<StepAction, ApiError>)
    ensures
        if !has_step(record.plan, step_id@) || !has_progress(*record, step_id@) {
            fails_with(r, step_missing(step_id@))
        } else {
            let step = step_with(record.plan, step_id@);
            let progress = progress_of(*record, step_id@);
            match progress.status {
                OperationStepStatus::Completed => r == Ok::<StepAction, ApiError>(
                    StepAction::Finished,
                ),
                OperationStepStatus::Submitted => if step_waits(step.resource@, wait_for_index) {
                    r == Ok::<StepAction, ApiError>(
                        StepAction::AwaitTasks { task_uids: progress.task_uids },
                    )
                } else {
                    r == Ok::<StepAction, ApiError>(StepAction::Finished)
                },
                _ => r == Ok::<StepAction, ApiError>(StepAction::Submit { step }),
            }
        },
{
    let step: &OperationStep = match find_step(&record.plan, step_id) {
        Some(step) => step,
        None => {
            return Err(missing_step(step_id));
        },
    };
    let waits: bool = wait_for_index || matches!(
        step.resource,
        OperationResource::EnsureUserEventIndex { .. }
    );
    let progress: &StepProgress = match find_progress(record, step_id) {
        Some(progress) => progress,
        None => {
            return Err(missing_step(step_id));
        },
    };
    match progress.status {
        OperationStepStatus::Completed => Ok(StepAction::Finished),
        OperationStepStatus::Submitted => if waits {
            Ok(StepAction::AwaitTasks { task_uids: progress.task_uids.clone() })
        } else {
            Ok(StepAction::Finished)
        },
        _ => Ok(StepAction::Submit { step: step.clone() }),
    }
}

/// What is to be recorded of a step that the repository took.
#[derive(Debug, Clone, Copy, PartialEq, Eq, Structural)]
pub enum ReceiptAction {
    /// No task is pending: the step is complete.
    Complete,
    /// Tasks are pending and are not waited for.
    Accept,
    /// Tasks are pending: record them, wait for them, then complete the step.
    AcceptAndWait,
}

/// Decides what is to be recorded of a step that the repository took.
pub fn receipt_action(resource: &OperationResource, wait_for_index: bool, task_uids: &Vec<
    String,
>) -> (r: ReceiptAction)
    ensures
        r == (if task_uids@.len() == 0 {
            ReceiptAction::Complete
        } else if step_waits(resource@, wait_for_index) {
            ReceiptAction::AcceptAndWait
        } else {
            ReceiptAction::Accept
        }),
{
    let waits: bool = wait_for_index || matches!(
        resource,
        OperationResource::EnsureUserEventIndex { .. }
    );
    if task_uids.len() == 0 {
        ReceiptAction::Complete
    } else if waits {
        ReceiptAction::AcceptAndWait
    } else {
        ReceiptAction::Accept
    }
}

/// Records an operation whose checkpoint the journal confirmed.
pub fn record_confirmed_checkpoint(data: &mut StoreData, record: &OperationRecord)
    ensures
        *final(data) == (StoreData { operations: final(data).operations, ..*old(data) }),
        final(data).operations@ == old(data).operations@.insert(record.id@, *record),
{
    data.operations.insert(record.id.clone(), record.clone());
}

/// Records an operation whose checkpoint the journal did not confirm: what was confirmed before
/// stays.
pub fn record_unconfirmed_checkpoint(data: &mut StoreData, record: &OperationRecord)
    ensures
        *final(data) == (StoreData { operations: final(data).operations, ..*old(data) }),
        final(data).operations@ == (if old(data).operations@.dom().contains(record.id@) {
            old(data).operations@
        } else {
            old(data).operations@.insert(record.id@, *record)
        }),
{
    if !data.operations.contains_key(&record.id) {
        data.operations.insert(record.id.clone(), record.clone());
    }
}

/// Publishing a resource leaves the operations alone.
pub proof fn publishing_keeps_operations(
    before: StoreData,
    after: StoreData,
    staged: StoreData,
    tenant_id: Seq<char>,
    resource: ResourceView,
)
    requires
        published(before, after, staged, tenant_id, resource),
    ensures
        after.operations == before.operations,
{
}

/// What publishing resources one after the other changes.
pub open spec fn published_all(
    before: StoreData,
    after: StoreData,
    staged: StoreData,
    tenant_id: Seq<char>,
    resources: Seq<ResourceView>,
) -> bool
    decreases resources.len(),
{
    if resources.len() == 0 {
        after == before
    } else {
        exists|mid: StoreData|
            #![trigger published(mid, after, staged, tenant_id, resources.last())]
            published_all(before, mid, staged, tenant_id, resources.drop_last()) && published(
                mid,
                after,
                staged,
                tenant_id,
                resources.last(),
            )
    }
}

/// Publishes the resource of one accepted step, and records the operation.
pub fn publish_operation_step_cache(
    current: &mut StoreData,
    staged: &StoreData,
    record: &OperationRecord,
    step_id: &str,
) -> (r: Result<(), ApiError>)
    ensures
        if has_step(record.plan, step_id@) {
            &&& r is Ok
            &&& published(
                *old(current),
                (StoreData { operations: old(current).operations, ..*final(current) }),
                *staged,
                record.tenant_id@,
                step_with(record.plan, step_id@).resource@,
            )
            &&& final(current).operations@ == old(current).operations@.insert(record.id@, *record)
        } else {
            fails_with(r, step_missing(step_id@)) && *final(current) == *old(current)
        },
{
    match find_step(&record.plan, step_id) {
        Some(step) => {
            publish_resource_cache(current, staged, record.tenant_id.as_str(), &step.resource);
            let ghost mid = *current;
            proof {
                publishing_keeps_operations(
                    *old(current),
                    mid,
                    *staged,
                    record.tenant_id@,
                    step.resource@,
                );
            }
            current.operations.insert(record.id.clone(), record.clone());
            assert((StoreData { operations: old(current).operations, ..*current }) == mid);
            Ok(())
        },
        None => Err(missing_step(step_id)),
    }
}

/// The contents of the resources of a plan, the primary one first.
pub open spec fn plan_resource_views(plan: OperationPlan) -> Seq<ResourceView> {
    resource_views(plan_resources(plan))
}

/// Publishes the resources of all steps, and records the operation.
pub fn publish_operation_cache(
    current: &mut StoreData,
    staged: &StoreData,
    record: &OperationRecord,
)
    ensures
        published_all(
            *old(current),
            (StoreData { operations: old(current).operations, ..*final(current) }),
            *staged,
            record.tenant_id@,
            plan_resource_views(record.plan),
        ),
        final(current).operations@ == old(current).operations@.insert(record.id@, *record),
{
    let ghost views = plan_resource_views(record.plan);
    let ghost start = *current;
    publish_resource_cache(
        current,
        staged,
        record.tenant_id.as_str(),
        &record.plan.primary.resource,
    );
    proof {
        publishing_keeps_operations(
            start,
            *current,
            *staged,
            record.tenant_id@,
            record.plan.primary.resource@,
        );
        let one = views.take(1);
        assert(one.last() == record.plan.primary.resource@);
        assert(published_all(start, start, *staged, record.tenant_id@, one.drop_last()));
        assert(published(start, *current, *staged, record.tenant_id@, one.last()));
    }
    let effects: &Vec<OperationStep> = &record.plan.side_effects;
    let mut i: usize = 0;
    while i < effects.len()
        invariant
            i <= effects.len(),
            effects@ == record.plan.side_effects@,
            views == plan_resource_views(record.plan),
            views.len() == effects@.len() + 1,
            current.operations == start.operations,
            published_all(start, *current, *staged, record.tenant_id@, views.take(i + 1)),
        decreases effects.len() - i,
    {
        let ghost mid = *current;
        publish_resource_cache(
            current,
            staged,
            record.tenant_id.as_str(),
            &effects[i].resource,
        );
        proof {
            publishing_keeps_operations(
                mid,
                *current,
                *staged,
                record.tenant_id@,
                effects@[i as int].resource@,
            );
            let next = views.take(i + 2);
            assert(next.drop_last() =~= views.take(i + 1));
            assert(next.last() == effects@[i as int].resource@);
            assert(published(mid, *current, *staged, record.tenant_id@, next.last()));
        }
        i += 1;
    }
    assert(views.take(i + 1) =~= views);
    let ghost mid = *current;
    current.operations.insert(record.id.clone(), record.clone());
    assert((StoreData { operations: start.operations, ..*current }) == mid);
}

/// The texts of a list with the white space at their ends taken away.
pub open spec fn trimmed_all(s: Seq<Seq<char>>) -> Seq<Seq<char>> {
    Seq::new(s.len(), |i: int| trimmed(s[i]))
}

/// Each element once, in the order of its first place.
pub open spec fn distinct<T>(s: Seq<T>) -> Seq<T>
    decreases s.len(),
{
    if s.len() == 0 {
        s
    } else {
        let rest = distinct(s.drop_last());
        if rest.contains(s.last()) {
            rest
        } else {
            rest.push(s.last())
        }
    }
}

/// The most operations that one request may name.
pub const MAX_RECONCILE_IDS: usize = 1_000;

/// The operations that a request names: trimmed, each once; blank ones and too many are refused.
pub fn requested_operation_ids(operation_ids: &Vec<String>) -> (r: Result<Vec<String>, ApiError>)
    ensures
        if exists|i: int| 0 <= i < operation_ids@.len() && blank(#[trigger] operation_ids@[i]@) {
            fails_with(r, ErrorView::BadRequest("operation_ids must not contain empty values"@))
        } else if distinct(trimmed_all(texts(operation_ids@))).len() > MAX_RECONCILE_IDS {
            fails_with(
                r,
                ErrorView::BadRequest("operation_ids must contain at most 1000 unique values"@),
            )
        } else {
            r is Ok && texts(r->Ok_0@) == distinct(trimmed_all(texts(operation_ids@)))
        },
{
    let mut out: Vec<String> = Vec::new();
    let ghost all = trimmed_all(texts(operation_ids@));
    let mut i: usize = 0;
    assert(all.take(0) =~= Seq::<Seq<char>>::empty());
    assert(texts(out@) =~= distinct(all.take(0)));
    while i < operation_ids.len()
        invariant
            i <= operation_ids.len(),
            all == trimmed_all(texts(operation_ids@)),
            all.len() == operation_ids@.len(),
            forall|j: int| 0 <= j < i ==> !blank(#[trigger] operation_ids@[j]@),
            texts(out@) == distinct(all.take(i as int)),
        decreases operation_ids.len() - i,
    {
        let id: String = trim(operation_ids[i].as_str());
        proof {
            blank_iff_trimmed_empty(operation_ids@[i as int]@);
        }
        if id.as_str().is_empty() {
            return Err(ApiError::bad_request("operation_ids must not contain empty values"));
        }
        assert(all.take(i + 1).drop_last() =~= all.take(i as int));
        assert(all[i as int] == id@);
        let ghost before = out@;
        if !texts_contain(&out, id.as_str()) {
            proof {
                crate::text::texts_push(before, id);
            }
            out.push(id);
        }
        i += 1;
    }
    assert(all.take(i as int) =~= all);
    assert(texts(out@).len() == out@.len());
    if out.len() > MAX_RECONCILE_IDS {
        return Err(ApiError::bad_request("operation_ids must contain at most 1000 unique values"));
    }
    Ok(out)
}

/// Whether an operation comes before another in reconciliation: the oldest first, then by id.
pub open spec fn older(a: OperationRecord, b: OperationRecord) -> bool {
    a.created_at < b.created_at || (a.created_at == b.created_at && text_lt(a.id@, b.id@))
}

/// Whether an operation comes before another in reconciliation.
pub fn is_older(a: &OperationRecord, b: &OperationRecord) -> (r: bool)
    ensures
        r == older(*a, *b),
{
    a.created_at < b.created_at || (a.created_at == b.created_at && text_before(
        a.id.as_str(),
        b.id.as_str(),
    ))
}

/// At most `limit` of a sequence.
pub open spec fn at_most<T>(s: Seq<T>, limit: nat) -> Seq<T> {
    if s.len() <= limit {
        s
    } else {
        s.take(limit as int)
    }
}

/// Whether a status is asked for; none asked for means any.
pub open spec fn status_asked(statuses: Seq<OperationStatus>, status: OperationStatus) -> bool {
    statuses.len() == 0 || statuses.contains(status)
}

/// Whether a status is asked for; none asked for means any.
pub fn asks_status(statuses: &Vec<OperationStatus>, status: OperationStatus) -> (r: bool)
    ensures
        r == status_asked(statuses@, status),
{
    if statuses.len() == 0 {
        return true;
    }
    let mut i: usize = 0;
    while i < statuses.len()
        invariant
            i <= statuses.len(),
            forall|j: int| 0 <= j < i ==> statuses@[j] != status,
        decreases statuses.len() - i,
    {
        if statuses[i] == status {
            return true;
        }
        i += 1;
    }
    false
}

fn oldest_first(operations: Vec<OperationRecord>, limit: usize) -> (r: Vec<OperationRecord>)
    ensures
        r@ == at_most(
            sorted_by(operations@, by_age()),
            limit as nat,
        ),
{
    let ghost lt = by_age();
    let earlier = |a: &OperationRecord, b: &OperationRecord| -> (c: bool)
        ensures
            c == lt(*a, *b),
        { is_older(a, b) };
    let mut sorted: Vec<OperationRecord> = sort_by(operations, earlier, Ghost(lt));
    let ghost all = sorted@;
    if sorted.len() > limit {
        sorted.truncate(limit);
        assert(sorted@ =~= all.take(limit as int));
    }
    sorted
}

/// The order in which the oldest operation comes first.
pub open spec fn by_age() -> spec_fn(OperationRecord, OperationRecord) -> bool {
    |a: OperationRecord, b: OperationRecord| older(a, b)
}

/// Whether an operation of a tenant is unfinished and has a status that is asked for.
pub open spec fn is_open_for(tenant_id: Seq<char>, statuses: Seq<OperationStatus>) -> spec_fn(
    OperationRecord,
) -> bool {
    |operation: OperationRecord|
        operation.tenant_id@ == tenant_id && !is_settled(operation) && status_asked(
            statuses,
            operation.status,
        )
}

/// The unfinished operations of a tenant that a request without ids is about.
pub open spec fn open_operations(
    operations: Seq<OperationRecord>,
    tenant_id: Seq<char>,
    statuses: Seq<OperationStatus>,
    limit: nat,
) -> Seq<OperationRecord> {
    at_most(
        sorted_by(
            operations.filter(is_open_for(tenant_id, statuses)),
            by_age(),
        ),
        limit,
    )
}

/// The unfinished operations of a tenant that a request without ids is about.
pub fn oldest_open_operations(
    data: &StoreData,
    tenant_id: &str,
    statuses: &Vec<OperationStatus>,
    limit: usize,
) -> (r: Vec<OperationRecord>)
    ensures
        r@ == open_operations(data.operations.values(), tenant_id@, statuses@, limit as nat),
{
    let ghost p = is_open_for(tenant_id@, statuses@);
    let mut picked: Vec<OperationRecord> = Vec::new();
    let n: usize = data.operations.len();
    let ghost all = data.operations.values();
    let mut i: usize = 0;
    assert(all.take(0).filter(p) =~= Seq::<OperationRecord>::empty()) by {
        reveal(Seq::filter);
    }
    while i < n
        invariant
            i <= n == all.len(),
            all == data.operations.values(),
            all.len() == data.operations.rows().len(),
            p == is_open_for(tenant_id@, statuses@),
            picked@ == all.take(i as int).filter(p),
        decreases n - i,
    {
        assert(all.take(i + 1).drop_last() =~= all.take(i as int));
        assert(all.take(i + 1).filter(p) == (if p(all[i as int]) {
            picked@.push(all[i as int])
        } else {
            picked@
        })) by {
            reveal(Seq::filter);
        }
        let operation: &OperationRecord = data.operations.value_at(i);
        if text_eq(operation.tenant_id.as_str(), tenant_id) && !settled(operation) && asks_status(
            statuses,
            operation.status,
        ) {
            picked.push(operation.clone());
        }
        i += 1;
    }
    assert(all.take(i as int) =~= all);
    oldest_first(picked, limit)
}

/// Whether candidates lie within what a request is about.
pub open spec fn within_request(
    candidates: Seq<OperationRecord>,
    tenant_id: Seq<char>,
    ids: Seq<Seq<char>>,
) -> bool {
    forall|i: int|
        0 <= i < candidates.len() ==> (#[trigger] candidates[i]).tenant_id@ == tenant_id && (
        ids.len() == 0 || ids.contains(candidates[i].id@))
}

/// The candidates that are reconciled, the oldest first; refuses any that were not asked for.
pub fn scoped_candidates(
    candidates: Vec<OperationRecord>,
    tenant_id: &str,
    requested_ids: &Vec<String>,
    statuses: &Vec<OperationStatus>,
    limit: usize,
) -> (r: Result<Vec<OperationRecord>, ApiError>)
    ensures
        if within_request(candidates@, tenant_id@, texts(requested_ids@)) {
            r is Ok && r->Ok_0@ == at_most(
                sorted_by(
                    candidates@.filter(
                        |operation: OperationRecord| status_asked(statuses@, operation.status),
                    ),
                    by_age(),
                ),
                limit as nat,
            )
        } else {
            fails_with(
                r,
                ErrorView::Internal(
                    "operation repository returned a record outside the requested reconcile scope"@,
                ),
            )
        },
{
    let mut i: usize = 0;
    while i < candidates.len()
        invariant
            i <= candidates.len(),
            forall|j: int|
                0 <= j < i ==> (#[trigger] candidates@[j]).tenant_id@ == tenant_id@ && (texts(
                    requested_ids@,
                ).len() == 0 || texts(requested_ids@).contains(candidates@[j].id@)),
        decreases candidates.len() - i,
    {
        let candidate: &OperationRecord = &candidates[i];
        assert(texts(requested_ids@).len() == requested_ids@.len());
        if !text_eq(candidate.tenant_id.as_str(), tenant_id) || (requested_ids.len() > 0
            && !texts_contain(requested_ids, candidate.id.as_str())) {
            assert(!within_request(candidates@, tenant_id@, texts(requested_ids@))) by {
                let c = candidates@[i as int];
                assert(c.tenant_id@ != tenant_id@ || (texts(requested_ids@).len() != 0 && !texts(
                    requested_ids@,
                ).contains(c.id@)));
            }
            return Err(
                ApiError::internal(
                    "operation repository returned a record outside the requested reconcile scope",
                ),
            );
        }
        i += 1;
    }
    let mut picked: Vec<OperationRecord> = candidates;
    let ghost p = |operation: OperationRecord| status_asked(statuses@, operation.status);
    let keep = |operation: &OperationRecord| -> (b: bool)
        ensures
            b == p(*operation),
        { asks_status(statuses, operation.status) };
    crate::order::retain(&mut picked, keep, Ghost(p));
    Ok(oldest_first(picked, limit))
}

/// What a reconciliation did.
#[derive(Debug, Clone, Copy, PartialEq, Eq, Structural)]
pub struct ReconcileTally {
    pub reconciled: usize,
    pub completed: usize,
    pub failed: usize,
    pub skipped: usize,
}

/// How the reconciliation of one candidate ended.
#[derive(Debug, Clone, Copy, PartialEq, Eq, Structural)]
pub enum ReconcileOutcome {
    Skipped,
    Settled,
    StillOpen,
    Failed,
}

/// The tally of outcomes.
pub open spec fn tally(outcomes: Seq<ReconcileOutcome>) -> (nat, nat, nat, nat)
    decreases outcomes.len(),
{
    if outcomes.len() == 0 {
        (0, 0, 0, 0)
    } else {
        let rest = tally(outcomes.drop_last());
        match outcomes.last() {
            ReconcileOutcome::Skipped => (rest.0, rest.1, rest.2, rest.3 + 1),
            ReconcileOutcome::Settled => (rest.0 + 1, rest.1 + 1, rest.2, rest.3),
            ReconcileOutcome::StillOpen => (rest.0 + 1, rest.1, rest.2, rest.3),
            ReconcileOutcome::Failed => (rest.0 + 1, rest.1, rest.2 + 1, rest.3),
        }
    }
}

/// Every candidate is either skipped or reconciled, and no more complete or fail than that.
pub proof fn tally_adds_up(outcomes: Seq<ReconcileOutcome>)
    ensures
        tally(outcomes).0 + tally(outcomes).3 == outcomes.len(),
        tally(outcomes).1 + tally(outcomes).2 <= tally(outcomes).0,
    decreases outcomes.len(),
{
    if outcomes.len() > 0 {
        tally_adds_up(outcomes.drop_last());
    }
}

/// Counts outcomes.
pub fn tally_outcomes(outcomes: &Vec<ReconcileOutcome>) -> (r: ReconcileTally)
    ensures
        (r.reconciled as nat, r.completed as nat, r.failed as nat, r.skipped as nat) == tally(
            outcomes@,
        ),
{
    let mut r: ReconcileTally = ReconcileTally {
        reconciled: 0,
        completed: 0,
        failed: 0,
        skipped: 0,
    };
    let mut i: usize = 0;
    while i < outcomes.len()
        invariant
            i <= outcomes.len(),
            (r.reconciled as nat, r.completed as nat, r.failed as nat, r.skipped as nat) == tally(
                outcomes@.take(i as int),
            ),
        decreases outcomes.len() - i,
    {
        proof {
            tally_adds_up(outcomes@.take(i as int));
            assert(outcomes@.take(i + 1).drop_last() =~= outcomes@.take(i as int));
        }
        match outcomes[i] {
            ReconcileOutcome::Skipped => {
                r.skipped = r.skipped + 1;
            },
            ReconcileOutcome::Settled => {
                r.reconciled = r.reconciled + 1;
                r.completed = r.completed + 1;
            },
            ReconcileOutcome::StillOpen => {
                r.reconciled = r.reconciled + 1;
            },
            ReconcileOutcome::Failed => {
                r.reconciled = r.reconciled + 1;
                r.failed = r.failed + 1;
            },
        }
        i += 1;
    }
    assert(outcomes@.take(i as int) =~= outcomes@);
    r
}

/// Whether a candidate is left alone: in a dry run, and where it is done.
pub fn reconcile_skips(candidate: &OperationRecord, dry_run: bool) -> (r: bool)
    ensures
        r == (dry_run || is_settled(*candidate)),
{
    dry_run || settled(candidate)
}

/// How the reconciliation of a candidate ended, by what it led to.
pub fn reconcile_outcome(result: Option<&OperationRecord>) -> (r: ReconcileOutcome)
    ensures
        r == match result {
            Some(operation) => if is_settled(*operation) {
                ReconcileOutcome::Settled
            } else {
                ReconcileOutcome::StillOpen
            },
            None => ReconcileOutcome::Failed,
        },
{
    match result {
        Some(operation) => if settled(operation) {
            ReconcileOutcome::Settled
        } else {
            ReconcileOutcome::StillOpen
        },
        None => ReconcileOutcome::Failed,
    }
}

/// The fingerprint of a request that changes something. `request` is the request as it is written.
pub open spec fn request_fingerprint_of(
    secret: Seq<u8>,
    tenant_id: Seq<char>,
    operation_kind: Seq<char>,
    request: Seq<char>,
) -> Seq<char> {
    keyed_digest(
        secret,
        "mutation-request-v1"@,
        "["@ + json_quoted(tenant_id) + ","@ + json_quoted(operation_kind) + ","@ + request
            + "]"@,
        32,
    )
}

/// The fingerprint of a request that changes something. `request` is the request as it is written.
pub fn mutation_request_fingerprint(
    secret: &[u8],
    tenant_id: &str,
    operation_kind: &str,
    request: &str,
) -> (r: String)
    ensures
        r@ == request_fingerprint_of(secret@, tenant_id@, operation_kind@, request@),
{
    let mut canonical: String = "[".to_owned();
    canonical.append(render_text(tenant_id).as_str());
    canonical.append(",");
    canonical.append(render_text(operation_kind).as_str());
    canonical.append(",");
    canonical.append(request);
    canonical.append("]");
    hmac_hex(secret, "mutation-request-v1", canonical.as_str(), 32)
}

} // verus!
