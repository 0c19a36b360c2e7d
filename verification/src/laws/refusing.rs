//! When a request is refused, and with which kind of answer.

use vstd::prelude::*;

use crate::company::{activation_refusal, company_revision_refusal, CreateRevisionRequest};
use crate::components::{
    change_refusal, revision_refusal, revisions_of, rollback_refusal,
    CreateHarnessChangeManifestRequest, CreateHarnessComponentRevisionRequest,
    RollbackHarnessComponentRequest,
};
use crate::data::StoreData;
use crate::error::ErrorView;
use crate::ingest::under_way;
use crate::laws::choosing::the_first_is_accepted;
use crate::runs::{case_refusal, CreateRagEvalCaseRequest};
use crate::source_delete::delete_unfinished;
use crate::table::{list_at, lists};
use crate::tasks::{completion_refusal, source_of, task_refusal, IngestTaskRequest};
use crate::text::blank;

verus! {

/// Whether a text is given and says something.
pub open spec fn says(given: Option<String>) -> bool {
    given is Some && !blank(given->0@)
}

/// A change is taken if and only if all that has to be told of it is told, its type is one of
/// three, its component is there and its id is not. One that tells too little is a bad request,
/// one on a component that is not there is not found, and one that is there already is a conflict.
pub proof fn a_change_is_refused(
    d: StoreData,
    req: CreateHarnessChangeManifestRequest,
    new_id: Seq<char>,
)
    ensures
        ({
            let refusal = change_refusal(d, req, new_id);
            let id = if req.id is Some {
                req.id->0@
            } else {
                new_id
            };
            let told = (req.id is Some ==> says(req.id)) && says(req.component_id) && says(
                req.change_type,
            ) && says(req.failure_pattern) && says(req.root_cause) && says(req.targeted_fix)
                && says(req.why_this_component) && (req.change_type->0@ == "new"@
                || req.change_type->0@ == "improvement"@ || req.change_type->0@ == "rollback"@);
            let there = d.harness_components@.dom().contains(req.component_id->0@);
            let known = d.harness_changes@.dom().contains(id);
            &&& refusal is None <==> told && there && !known
            &&& refusal is Some && refusal->0 is BadRequest <==> !told
            &&& refusal is Some && refusal->0 is NotFound <==> told && !there
            &&& refusal is Some && refusal->0 is Conflict <==> told && there && known
        }),
{
}

/// A revision of a component is taken if and only if it names a change that is there and that is
/// of this component, which is there too.
pub proof fn a_component_revision_is_refused(
    d: StoreData,
    component_id: Seq<char>,
    req: CreateHarnessComponentRevisionRequest,
)
    ensures
        ({
            let refusal = revision_refusal(d, component_id, req);
            let change = d.harness_changes@[req.manifest_id->0@];
            let there = d.harness_components@.dom().contains(component_id)
                && d.harness_changes@.dom().contains(req.manifest_id->0@);
            &&& refusal is None <==> says(req.manifest_id) && there && change.component_id@
                == component_id
            &&& refusal is Some && refusal->0 is NotFound <==> says(req.manifest_id) && !there
            &&& refusal is Some && refusal->0 is BadRequest <==> !says(req.manifest_id) || (there
                && change.component_id@ != component_id)
            &&& refusal is Some ==> refusal->0 is NotFound || refusal->0 is BadRequest
        }),
{
}

/// A rollback to a revision that is named is taken if and only if the component is there and has
/// that revision.
pub proof fn a_rollback_is_refused(
    d: StoreData,
    component_id: Seq<char>,
    req: RollbackHarnessComponentRequest,
)
    requires
        req.target_revision_id is Some,
    ensures
        ({
            let refusal = rollback_refusal(d, component_id, req);
            let revisions = revisions_of(d, component_id);
            &&& refusal is None <==> d.harness_components@.dom().contains(component_id)
                && d.harness_revisions@.dom().contains(component_id) && exists|i: int|
                0 <= i < revisions.len() && (#[trigger] revisions[i]).id@
                    == req.target_revision_id->0@
            &&& refusal is Some ==> refusal->0 is NotFound
        }),
{
}

/// A case is taken if and only if it asks something and its id is new; one that asks nothing is a
/// bad request, one that is there already a conflict.
pub proof fn a_case_is_refused(d: StoreData, req: CreateRagEvalCaseRequest, new_id: Seq<char>)
    ensures
        ({
            let refusal = case_refusal(d, req, new_id);
            let id = if req.id is Some {
                req.id->0@
            } else {
                new_id
            };
            let told = (req.id is Some ==> says(req.id)) && says(req.question);
            let known = d.eval_cases@.dom().contains(id);
            &&& refusal is None <==> told && !known
            &&& refusal is Some && refusal->0 is BadRequest <==> !told
            &&& refusal is Some && refusal->0 is Conflict <==> told && known
        }),
{
}

/// A task is taken if and only if it has no key of its own, its parser can be had, it brings a
/// document, and what it is for is not being deleted; the deletion of a source of the company is
/// no matter to a task of a user.
pub proof fn a_task_is_refused(
    d: StoreData,
    tenant_id: Seq<char>,
    req: IngestTaskRequest,
    parser_fault: Option<ErrorView>,
    has_staged_upload: bool,
)
    ensures
        ({
            let refusal = task_refusal(d, tenant_id, req, parser_fault, has_staged_upload);
            let brings = says(req.content) || (req.bytes is Some && req.bytes->0@.len() > 0)
                || has_staged_upload || req.content_list is Some || req.content_list_v2 is Some;
            let deleting = req.owner_user_id is None && delete_unfinished(
                d.operations.values(),
                tenant_id,
                source_of(req),
            );
            &&& refusal is None <==> req.idempotency_key is None && parser_fault is None && brings
                && !deleting
            &&& req.idempotency_key is Some ==> refusal->0 is BadRequest
            &&& req.idempotency_key is None && parser_fault is Some ==> refusal == parser_fault
            &&& req.idempotency_key is None && parser_fault is None && !brings ==> refusal->0
                is BadRequest
            &&& req.idempotency_key is None && parser_fault is None && brings && deleting ==> refusal->0
                is Conflict
        }),
{
}

/// The outcome of a task is taken if and only if the task is there and still under way and its
/// source is not being deleted.
pub proof fn an_outcome_is_refused(
    d: StoreData,
    tenant_id: Seq<char>,
    task_id: Seq<char>,
    source_id: Seq<char>,
)
    ensures
        ({
            let refusal = completion_refusal(d, tenant_id, task_id, source_id);
            let task = d.ingest_tasks@[task_id];
            let deleting = task.owner_user_id is None && delete_unfinished(
                d.operations.values(),
                tenant_id,
                source_id,
            );
            let there = d.ingest_tasks@.dom().contains(task_id);
            &&& refusal is None <==> there && !deleting && under_way(task.state@)
            &&& refusal is Some && refusal->0 is NotFound <==> !there
            &&& refusal is Some && refusal->0 is Conflict <==> there && (deleting || !under_way(
                task.state@,
            ))
        }),
{
}

/// A revision of a source is taken if and only if it names its source, that source is not being
/// deleted, and it is not forced against the advice that was given.
pub proof fn a_source_revision_is_refused(
    d: StoreData,
    tenant_id: Seq<char>,
    source_id: Seq<char>,
    req: CreateRevisionRequest,
)
    ensures
        ({
            let refusal = company_revision_refusal(d, tenant_id, source_id, req);
            let forced = req.force_create && req.preflight_decision_id is Some
                && d.preflight_decisions@.dom().contains(req.preflight_decision_id->0@)
                && d.preflight_decisions@[req.preflight_decision_id->0@].recommended_action@
                == "update_revision"@;
            let deleting = delete_unfinished(d.operations.values(), tenant_id, source_id);
            &&& refusal is None <==> !blank(source_id) && !forced && !deleting
            &&& refusal is Some && refusal->0 is BadRequest <==> blank(source_id)
            &&& refusal is Some && refusal->0 is Conflict <==> !blank(source_id) && (forced
                || deleting)
        }),
{
}

/// A revision of a source is made the one in use if and only if the source has it and is not
/// being deleted.
pub proof fn an_activation_is_refused(
    d: StoreData,
    tenant_id: Seq<char>,
    source_id: Seq<char>,
    revision_id: Seq<char>,
)
    ensures
        ({
            let refusal = activation_refusal(d, tenant_id, source_id, revision_id);
            let revisions = list_at(lists(d.source_revisions@), source_id);
            let deleting = delete_unfinished(d.operations.values(), tenant_id, source_id);
            let there = d.source_revisions@.dom().contains(source_id) && exists|i: int|
                0 <= i < revisions.len() && (#[trigger] revisions[i]).id@ == revision_id;
            &&& refusal is None <==> !deleting && there
            &&& refusal is Some && refusal->0 is Conflict <==> deleting
            &&& refusal is Some && refusal->0 is NotFound <==> !deleting && !there
        }),
{
    let revisions = list_at(lists(d.source_revisions@), source_id);
    the_first_is_accepted(revisions, crate::company::company_revision_is(revision_id));
}

} // verus!
