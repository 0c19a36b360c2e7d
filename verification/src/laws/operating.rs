//! What operations can be relied on for: what is planned, what is taken up again and what is reported.

use vstd::prelude::*;

use crate::audit::{is_older, oldest};
use crate::data::StoreData;
use crate::execution::made_visible;
use crate::json::Json;
use crate::laws::choosing::what_is_chosen_within_a_bound;
use crate::laws::publishing::{reads, same_but};
use crate::model::knowledge::AuditRecord;
use crate::model::operation::{
    OperationActor, OperationActorScope, OperationPlan, OperationRecord, OperationStatus,
    OperationStepRole, OperationStepStatus, ResourceView,
};
use crate::operations::{
    by_age, distinct, has_progress, has_step, is_actor, is_open_for, marked_duplicate, older,
    open_operations, plan_steps, planned, primary_accepted, primary_place, progress_named,
    progress_of, response_exposed, step_named, step_with, tally, trimmed_all, MutationPlanInput,
    MutationPrimary, ReconcileOutcome, RequestPrincipal, WriteConsistency,
};
use crate::order::{first_where, first_where_facts, strict_order};
use crate::reconcile::{failures, named_operations, ErrorEntry, ReconcileResult};
use crate::resolver::EventIndexResolver;
use crate::source_delete::is_settled;
use crate::text::{opt_text, text_lt, text_lt_irreflexive, text_lt_total, text_lt_transitive, texts};

verus! {

/// A mutation of a kind is about a resource of that kind: what it does first can be nothing else.
pub proof fn a_mutation_is_about_its_kind(kind: MutationPrimary, resource: ResourceView)
    requires
        kind.accepts(resource),
    ensures
        resource is EnsureUserEventIndex <==> kind == MutationPrimary::UserIndex,
        resource is HistoryEvents <==> kind == MutationPrimary::HistoryEvents,
        resource is StateItem <==> kind == MutationPrimary::StateItem,
        resource is Insight ==> kind == MutationPrimary::Insight || kind
            == MutationPrimary::AnalysisMaterialization,
        resource is Links ==> kind == MutationPrimary::Links || kind
            == MutationPrimary::AnalysisMaterialization,
        kind == MutationPrimary::Insight ==> resource is Insight,
        kind == MutationPrimary::Links ==> resource is Links,
        resource is DeleteCompanySourceIndex <==> kind == MutationPrimary::DeleteCompanySource,
        resource is SourceRevision <==> kind == MutationPrimary::SourceRevision,
        resource is SourceDocuments <==> kind == MutationPrimary::SourceDocuments,
        resource is ParseArtifacts <==> kind == MutationPrimary::ParseArtifacts,
        resource is StructuredSnapshot <==> kind == MutationPrimary::StructuredSnapshot,
        resource is Dataset <==> kind == MutationPrimary::Dataset,
        resource is StructuredRows <==> kind == MutationPrimary::StructuredRows,
        resource is StructuredSummary <==> kind == MutationPrimary::StructuredSummary,
        resource is Session <==> kind == MutationPrimary::Session,
        resource is Trace <==> kind == MutationPrimary::Trace,
        resource is HarnessComponents <==> kind == MutationPrimary::HarnessComponents,
        resource is HarnessChanges <==> kind == MutationPrimary::HarnessChanges,
        resource is HarnessVerdicts <==> kind == MutationPrimary::HarnessVerdicts,
        resource is IngestTask || resource is IngestTasks <==> kind == MutationPrimary::IngestTask,
        resource is DeleteIngestTasks <==> kind == MutationPrimary::DeleteIngestTasks,
        resource is IngestResult <==> kind == MutationPrimary::IngestResult,
        resource is EvalCase <==> kind == MutationPrimary::EvalCase,
        resource is EvalRun <==> kind == MutationPrimary::EvalRun,
        resource !is ContextNodes && resource !is CompanySource && resource !is EvalCaseResults
            && resource !is EvalOverview,
{
}

/// A plan does first the first resource of the declared kind and then the others in their order. It
/// says who asked, and waits for the index where that is asked for or the kind needs it.
pub proof fn a_plan_is_as_declared(
    resolver: EventIndexResolver,
    input: MutationPlanInput,
    plan: OperationPlan,
    i: int,
)
    requires
        planned(resolver, input, plan),
        primary_place(input.resources@, input.primary_kind) < input.resources@.len(),
    ensures
        ({
            let at = primary_place(input.resources@, input.primary_kind);
            &&& input.primary_kind.accepts(plan.primary.resource@)
            &&& 0 <= i < at ==> !input.primary_kind.accepts(input.resources@[i]@)
            &&& plan.primary.role == OperationStepRole::Primary
            &&& plan.side_effects@.len() == input.resources@.len() - 1
            &&& 0 <= i < at ==> plan.side_effects@[i].resource == input.resources@[i]
            &&& at < i < input.resources@.len() ==> plan.side_effects@[i - 1].resource
                == input.resources@[i]
            &&& 0 <= i < plan.side_effects@.len() ==> plan.side_effects@[i].role
                == OperationStepRole::SideEffect
            &&& plan.tenant_id@ == input.tenant_id@
            &&& plan.operation_kind@ == input.operation_kind@
            &&& plan.created_at == input.created_at
            &&& plan.response_snapshot == input.response_snapshot
            &&& input.idempotency_key is None ==> plan.id@ == input.fresh_operation_id@
                && plan.idempotency_key_hash is None
            &&& input.idempotency_key is Some ==> opt_text(plan.idempotency_key_hash) == Some(
                resolver.key_digest(input.idempotency_key->0@),
            )
            &&& input.owner_user_id is Some ==> opt_text(
                plan.redacted_metadata.target_owner_user_id_hash,
            ) == Some(resolver.user_digest(input.owner_user_id->0@))
            &&& opt_text(plan.redacted_metadata.request_fingerprint) == opt_text(
                input.request_fingerprint,
            )
            &&& plan.redacted_metadata.resource_count == input.resources@.len()
            &&& input.write_consistency == WriteConsistency::WaitForIndex
                ==> plan.redacted_metadata.wait_for_index == Some(true)
            &&& input.primary_kind == MutationPrimary::UserIndex || input.primary_kind
                == MutationPrimary::AnalysisMaterialization || input.primary_kind
                == MutationPrimary::DeleteCompanySource || input.primary_kind
                == MutationPrimary::DeleteIngestTasks ==> plan.redacted_metadata.wait_for_index
                == Some(true)
            &&& plan.redacted_metadata.wait_for_index == Some(true) ==> input.write_consistency
                == WriteConsistency::WaitForIndex || input.primary_kind == MutationPrimary::UserIndex
                || input.primary_kind == MutationPrimary::AnalysisMaterialization
                || input.primary_kind == MutationPrimary::DeleteCompanySource || input.primary_kind
                == MutationPrimary::DeleteIngestTasks
            &&& input.principal is None ==> plan.actor.scope == OperationActorScope::System
        }),
{
    let p = |resource: crate::model::operation::OperationResource|
        input.primary_kind.accepts(resource@);
    first_where_facts(input.resources@, p);
    let at = primary_place(input.resources@, input.primary_kind);
    assert(at == first_where(input.resources@, p));
    assert(p(input.resources@[at]));
    let rest = input.resources@.remove(at);
    if 0 <= i < at {
        assert(!p(input.resources@[i]));
        assert(rest[i] == input.resources@[i]);
        assert(plan.side_effects@[i].resource == rest[i]);
    }
    if at < i < input.resources@.len() {
        assert(rest[i - 1] == input.resources@[i]);
        assert(plan.side_effects@[i - 1].resource == rest[i - 1]);
    }
    if 0 <= i < plan.side_effects@.len() {
        assert(plan.side_effects@[i].role == OperationStepRole::SideEffect);
    }
}

/// The same request under the same key has the same operation, whatever else is given and whenever it
/// is made.
pub proof fn the_same_key_has_the_same_operation(
    resolver: EventIndexResolver,
    a: MutationPlanInput,
    b: MutationPlanInput,
    first: OperationPlan,
    second: OperationPlan,
)
    requires
        planned(resolver, a, first),
        planned(resolver, b, second),
        a.idempotency_key is Some,
        opt_text(a.idempotency_key) == opt_text(b.idempotency_key),
        a.tenant_id@ == b.tenant_id@,
        a.operation_kind@ == b.operation_kind@,
        opt_text(a.owner_user_id) == opt_text(b.owner_user_id),
    ensures
        first.id@ == second.id@,
        opt_text(first.idempotency_key_hash) == opt_text(second.idempotency_key_hash),
{
}

/// Who asks is told as it is: an owner by its digest, and nobody else by one.
pub proof fn an_actor_is_who_asked(
    a: OperationActor,
    principal: Option<RequestPrincipal>,
    request_id: Option<Seq<char>>,
)
    requires
        is_actor(a, principal, request_id),
    ensures
        principal is None <==> a.scope == OperationActorScope::System,
        a.owner_user_id_hash is Some <==> a.scope == OperationActorScope::Owner,
        principal is Some ==> a.roles@ == principal->0.roles@,
        principal is None ==> a.roles@.len() == 0,
        opt_text(a.request_id) == request_id,
{
}

/// The step that is found has the name that was asked for and stands first of those that do; so does
/// the progress of a step.
pub proof fn a_step_is_the_one_named(record: OperationRecord, step_id: Seq<char>, i: int)
    ensures
        has_step(record.plan, step_id) ==> {
            &&& plan_steps(record.plan).contains(step_with(record.plan, step_id))
            &&& step_with(record.plan, step_id).id@ == step_id
        },
        0 <= i < plan_steps(record.plan).len() && plan_steps(record.plan)[i].id@ == step_id
            ==> has_step(record.plan, step_id),
        has_progress(record, step_id) ==> {
            &&& record.progress@.contains(progress_of(record, step_id))
            &&& progress_of(record, step_id).step_id@ == step_id
        },
        0 <= i < record.progress@.len() && record.progress@[i].step_id@ == step_id ==> has_progress(
            record,
            step_id,
        ),
{
    first_where_facts(plan_steps(record.plan), step_named(step_id));
    let p = progress_named(step_id);
    first_where_facts(record.progress@, p);
    if has_step(record.plan, step_id) {
        assert(step_named(step_id)(step_with(record.plan, step_id)));
    }
    if 0 <= i < plan_steps(record.plan).len() && plan_steps(record.plan)[i].id@ == step_id {
        assert(step_named(step_id)(plan_steps(record.plan)[i]));
    }
    if 0 <= i < record.progress@.len() && record.progress@[i].step_id@ == step_id {
        assert(p(record.progress@[i]));
    }
}

/// What an operation does first was accepted where it was handed over or completed; its answer was
/// given where that is not waited for and tasks are known or it is complete.
pub proof fn what_was_accepted_was_handed_over(record: OperationRecord)
    ensures
        primary_accepted(record) ==> exists|i: int|
            0 <= i < record.progress@.len() && (#[trigger] record.progress@[i]).step_id@
                == record.plan.primary.id@ && (record.progress@[i].status
                == OperationStepStatus::Submitted || record.progress@[i].status
                == OperationStepStatus::Completed),
        response_exposed(record) ==> record.plan.redacted_metadata.wait_for_index == Some(false)
            && exists|i: int|
            0 <= i < record.progress@.len() && (#[trigger] record.progress@[i]).step_id@
                == record.plan.primary.id@ && (record.progress@[i].task_uids@.len() > 0
                || record.progress@[i].status == OperationStepStatus::Completed),
{
    let id = record.plan.primary.id@;
    a_step_is_the_one_named(record, id, 0);
    if has_progress(record, id) {
        let i = crate::operations::progress_place(record, id);
        let p = progress_named(id);
        first_where_facts(record.progress@, p);
        assert(record.progress@[i].step_id@ == id);
    }
}

/// A replayed answer is the first one with its mark of a duplicate set: it has the same members, and
/// only the mark is another.
pub proof fn a_replay_changes_the_mark_alone(members: Seq<(String, Json)>, i: int)
    ensures
        marked_duplicate(members).len() == members.len(),
        0 <= i < members.len() ==> {
            let m = marked_duplicate(members)[i];
            &&& m.0 == members[i].0@
            &&& m.0 == "duplicate"@ ==> m.1 == Json::Bool(true)
            &&& m.0 != "duplicate"@ ==> m.1 == members[i].1
        },
{
}

/// The order of age is strict: the time decides, and the id where the times are the same.
pub proof fn age_is_an_order()
    ensures
        strict_order(by_age()),
        forall|a: OperationRecord, b: OperationRecord|
            a.created_at < b.created_at ==> #[trigger] older(a, b),
        forall|a: OperationRecord, b: OperationRecord| #[trigger]
            older(a, b) ==> a.created_at <= b.created_at,
{
    let lt = by_age();
    assert forall|a: OperationRecord, b: OperationRecord| lt(a, b) implies !#[trigger] lt(b, a) by {
        text_lt_irreflexive(a.id@);
        if text_lt(b.id@, a.id@) && text_lt(a.id@, b.id@) {
            text_lt_transitive(a.id@, b.id@, a.id@);
        }
    }
    assert forall|a: OperationRecord, b: OperationRecord, c: OperationRecord|
        !#[trigger] lt(b, a) && !#[trigger] lt(c, b) implies !lt(c, a) by {
        if lt(c, a) {
            text_lt_total(a.id@, b.id@);
            text_lt_total(b.id@, c.id@);
            if text_lt(a.id@, b.id@) && text_lt(c.id@, a.id@) {
                text_lt_transitive(c.id@, a.id@, b.id@);
            }
            if text_lt(b.id@, c.id@) && text_lt(c.id@, a.id@) {
                text_lt_transitive(b.id@, c.id@, a.id@);
            }
        }
    }
}

/// The operations that are taken up again are those of the tenant that are not settled and have a
/// status that is asked for, the oldest first; one is left out only where the limit is reached by
/// those that are not younger.
pub proof fn the_oldest_open_are_taken_up(
    operations: Seq<OperationRecord>,
    tenant_id: Seq<char>,
    statuses: Seq<OperationStatus>,
    limit: nat,
    i: int,
    j: int,
    other: OperationRecord,
)
    ensures
        ({
            let r = open_operations(operations, tenant_id, statuses, limit);
            &&& r.len() <= limit
            &&& 0 <= i < r.len() ==> {
                &&& operations.contains(r[i])
                &&& r[i].tenant_id@ == tenant_id
                &&& !is_settled(r[i])
                &&& statuses.len() > 0 ==> statuses.contains(r[i].status)
            }
            &&& 0 <= i < j < r.len() ==> r[i].created_at <= r[j].created_at
            &&& operations.contains(other) && other.tenant_id@ == tenant_id && !is_settled(other) && (
            statuses.len() == 0 || statuses.contains(other.status)) ==> r.contains(other) || (r.len()
                == limit && (0 <= i < r.len() ==> r[i].created_at <= other.created_at))
        }),
{
    let p = is_open_for(tenant_id, statuses);
    let lt = by_age();
    let r = open_operations(operations, tenant_id, statuses, limit);
    age_is_an_order();
    what_is_chosen_within_a_bound(operations, p, lt, limit);
    if 0 <= i < r.len() {
        assert(operations.contains(r[i]) && p(r[i]));
    }
    if 0 <= i < j < r.len() {
        assert(!lt(r[j], r[i]));
    }
    if operations.contains(other) && p(other) && !r.contains(other) && 0 <= i < r.len() {
        assert(!lt(other, r[i]));
    }
}

/// Operations that are named are found where they are there, belong to the tenant and have a status
/// that is asked for; no others are.
pub proof fn named_operations_are_found(
    m: Map<Seq<char>, OperationRecord>,
    ids: Seq<Seq<char>>,
    tenant_id: Seq<char>,
    statuses: Seq<OperationStatus>,
    x: OperationRecord,
)
    ensures
        named_operations(m, ids, tenant_id, statuses).contains(x) <==> x.tenant_id@ == tenant_id && (
        statuses.len() == 0 || statuses.contains(x.status)) && exists|k: int|
            0 <= k < ids.len() && m.dom().contains(#[trigger] ids[k]) && m[ids[k]] == x,
    decreases ids.len(),
{
    if ids.len() > 0 {
        let front = ids.drop_last();
        named_operations_are_found(m, front, tenant_id, statuses, x);
        let a = named_operations(m, front, tenant_id, statuses);
        let b = named_operations(m, ids, tenant_id, statuses);
        assert(ids[ids.len() - 1] == ids.last());
        if b.contains(x) {
            let n = choose|n: int| 0 <= n < b.len() && b[n] == x;
            if n < a.len() {
                assert(a[n] == x);
                let k = choose|k: int|
                    0 <= k < front.len() && m.dom().contains(#[trigger] front[k]) && m[front[k]]
                        == x;
                assert(m.dom().contains(ids[k]));
            } else {
                assert(m.dom().contains(ids[ids.len() - 1]));
            }
        }
        if crate::reconcile::is_asked(x, tenant_id, statuses) && exists|k: int|
            0 <= k < ids.len() && m.dom().contains(#[trigger] ids[k]) && m[ids[k]] == x {
            let k = choose|k: int|
                0 <= k < ids.len() && m.dom().contains(#[trigger] ids[k]) && m[ids[k]] == x;
            if k < front.len() {
                assert(m.dom().contains(front[k]));
                let n = choose|n: int| 0 <= n < a.len() && a[n] == x;
                assert(b[n] == x);
            } else {
                assert(b[b.len() - 1] == x);
            }
        }
    }
}

/// Making a list distinct keeps each value once.
pub proof fn distinct_keeps_each_once<T>(s: Seq<T>, x: T)
    ensures
        distinct(s).contains(x) <==> s.contains(x),
        distinct(s).no_duplicates(),
        distinct(s).len() <= s.len(),
    decreases s.len(),
{
    if s.len() > 0 {
        let front = s.drop_last();
        distinct_keeps_each_once(front, x);
        distinct_keeps_each_once(front, s.last());
        let a = distinct(front);
        let b = distinct(s);
        assert(s[s.len() - 1] == s.last());
        if s.contains(x) {
            let i = choose|i: int| 0 <= i < s.len() && s[i] == x;
            if i < front.len() {
                assert(front[i] == x);
                let n = choose|n: int| 0 <= n < a.len() && a[n] == x;
                assert(b[n] == x);
            } else if !a.contains(x) {
                assert(b[b.len() - 1] == x);
            } else {
                let n = choose|n: int| 0 <= n < a.len() && a[n] == x;
                assert(b[n] == x);
            }
        }
        if b.contains(x) {
            let n = choose|n: int| 0 <= n < b.len() && b[n] == x;
            if n < a.len() {
                assert(a[n] == x);
                let i = choose|i: int| 0 <= i < front.len() && front[i] == x;
                assert(s[i] == x);
            }
        }
    }
}

/// The ids that are taken up are those that were asked for without the space around them, each once.
pub proof fn asked_ids_are_taken_up_once(ids: Seq<String>, i: int, x: Seq<char>)
    ensures
        ({
            let r = distinct(trimmed_all(texts(ids)));
            &&& r.no_duplicates()
            &&& 0 <= i < ids.len() ==> r.contains(crate::text::trimmed(ids[i]@))
            &&& r.contains(x) ==> exists|k: int|
                0 <= k < ids.len() && x == crate::text::trimmed((#[trigger] ids[k])@)
        }),
{
    let all = trimmed_all(texts(ids));
    distinct_keeps_each_once(all, x);
    if 0 <= i < ids.len() {
        distinct_keeps_each_once(all, crate::text::trimmed(ids[i]@));
        assert(all[i] == crate::text::trimmed(ids[i]@));
    }
    if all.contains(x) {
        let k = choose|k: int| 0 <= k < all.len() && all[k] == x;
        assert(x == crate::text::trimmed(ids[k]@));
    }
}

/// How often an outcome came.
pub open spec fn times(outcomes: Seq<ReconcileOutcome>, outcome: ReconcileOutcome) -> nat
    decreases outcomes.len(),
{
    if outcomes.len() == 0 {
        0
    } else {
        times(outcomes.drop_last(), outcome) + (if outcomes.last() == outcome {
            1nat
        } else {
            0
        })
    }
}

/// A tally counts what was settled as completed, what failed as failed, what was left as skipped, and
/// everything but what was left as reconciled.
pub proof fn a_tally_counts_outcomes(outcomes: Seq<ReconcileOutcome>)
    ensures
        tally(outcomes).1 == times(outcomes, ReconcileOutcome::Settled),
        tally(outcomes).2 == times(outcomes, ReconcileOutcome::Failed),
        tally(outcomes).3 == times(outcomes, ReconcileOutcome::Skipped),
        tally(outcomes).0 == outcomes.len() - times(outcomes, ReconcileOutcome::Skipped),
    decreases outcomes.len(),
{
    if outcomes.len() > 0 {
        a_tally_counts_outcomes(outcomes.drop_last());
    }
}

/// Every candidate that failed is reported with its own id and what went wrong, and no other is.
pub proof fn every_failure_is_reported(
    candidates: Seq<OperationRecord>,
    results: Seq<ReconcileResult>,
    x: ErrorEntry,
)
    ensures
        failures(candidates, results).contains(x) <==> exists|i: int|
            0 <= i < results.len() && x.operation_id == candidates[i].id@ && match
                #[trigger] results[i] {
                ReconcileResult::Failed { category, fingerprint, .. } => category@ == x.category
                    && fingerprint@ == x.fingerprint,
                _ => false,
            },
    decreases results.len(),
{
    if results.len() > 0 {
        let front = results.drop_last();
        every_failure_is_reported(candidates, front, x);
        let a = failures(candidates, front);
        let b = failures(candidates, results);
        let last = results.len() - 1;
        if b.contains(x) {
            let n = choose|n: int| 0 <= n < b.len() && b[n] == x;
            if n < a.len() {
                assert(a[n] == x);
                let i = choose|i: int|
                    0 <= i < front.len() && x.operation_id == candidates[i].id@ && match
                        #[trigger] front[i] {
                        ReconcileResult::Failed { category, fingerprint, .. } => category@
                            == x.category && fingerprint@ == x.fingerprint,
                        _ => false,
                    };
                assert(results[i] == front[i]);
            } else {
                assert(results[last] is Failed);
            }
        }
        if exists|i: int|
            0 <= i < results.len() && x.operation_id == candidates[i].id@ && match
                #[trigger] results[i] {
                ReconcileResult::Failed { category, fingerprint, .. } => category@ == x.category
                    && fingerprint@ == x.fingerprint,
                _ => false,
            } {
            let i = choose|i: int|
                0 <= i < results.len() && x.operation_id == candidates[i].id@ && match
                    #[trigger] results[i] {
                    ReconcileResult::Failed { category, fingerprint, .. } => category@ == x.category
                        && fingerprint@ == x.fingerprint,
                    _ => false,
                };
            if i < last {
                assert(front[i] == results[i]);
                let n = choose|n: int| 0 <= n < a.len() && a[n] == x;
                assert(b[n] == x);
            } else {
                assert(b[b.len() - 1] == x);
            }
        }
    }
}

/// Where publication is buffered nothing is visible before the last step; once something is visible
/// the operation itself is read, and no other operation is touched.
pub proof fn what_is_buffered_is_not_visible(
    before: StoreData,
    after: StoreData,
    staged: StoreData,
    record: OperationRecord,
    step_id: Seq<char>,
    buffered: bool,
    last: bool,
)
    requires
        made_visible(before, after, staged, record, step_id, buffered, last),
    ensures
        buffered && !last ==> after == before,
        !buffered || last ==> reads(after.operations@, record.id@, record) && same_but(
            before.operations@,
            after.operations@,
            record.id@,
        ),
{
}

/// No record is older than the oldest one.
pub proof fn nothing_is_older_than_the_oldest(s: Seq<AuditRecord>, i: int)
    requires
        0 <= i < s.len(),
    ensures
        oldest(s) is Some,
        s.contains(oldest(s)->0),
        !is_older(s[i], oldest(s)->0),
        oldest(s)->0.occurred_at <= s[i].occurred_at,
    decreases s.len(),
{
    let front = s.drop_last();
    let last = s.last();
    assert(s[s.len() - 1] == last);
    text_lt_irreflexive(last.id@);
    crate::audit::the_oldest_is_there(s);
    if i < front.len() {
        nothing_is_older_than_the_oldest(front, i);
        let a = oldest(front)->0;
        assert(front[i] == s[i]);
        if is_older(last, a) && is_older(s[i], last) {
            if text_lt(s[i].id@, last.id@) && text_lt(last.id@, a.id@) {
                text_lt_transitive(s[i].id@, last.id@, a.id@);
            }
        }
    }
}

} // verus!
