//! Running operations: when a step goes to the repository, and what its success makes visible.

use vstd::prelude::*;

use crate::data::StoreData;
use crate::error::{fails_with, ApiError, ErrorView};
use crate::model::knowledge::UserEventIndex;
use crate::model::operation::{
    OperationRecord, OperationStep, OperationStepStatus, ResourceView,
};
use crate::operations::{
    a_step_is_found, by_age, has_progress, has_step, is_older, next_step_action, plan_resource_views,
    plan_steps,
    progress_of, publish_operation_cache, publish_operation_step_cache, published_all, step_missing,
    step_waits, step_with, StepAction,
};
use crate::order::{sort_by, sorted_by};
use crate::publish::published;
use crate::resolver::EventIndexResolver;
use crate::routing::{
    commitment, membership_fault, record_completed_registry_step, record_fault, registry_view,
    route_fault, routing_fault, steps_fault, validate_operation_record, validate_operation_routing,
    validate_operation_step_dynamic_membership,
};
use crate::source_delete::{is_settled, settled};
use crate::table::Table;
use crate::text::{text_eq, texts};

verus! {

/// Why a step may not be taken: the record of its operation is not in order, the operation writes
/// where it must not, or the step writes to an index that the registry does not know.
pub open spec fn step_refused(
    resolver: EventIndexResolver,
    data: StoreData,
    registry: Option<Map<Seq<char>, UserEventIndex>>,
    record: OperationRecord,
    checked: Result<(), String>,
    step_id: Seq<char>,
) -> Option<ErrorView> {
    match routing_fault(resolver, record, checked) {
        Some(fault) => Some(ErrorView::Internal(fault)),
        None => if !has_step(record.plan, step_id) || (step_with(
            record.plan,
            step_id,
        ).resource@ is EnsureUserEventIndex && !has_progress(record, step_id)) {
            Some(step_missing(step_id))
        } else {
            match membership_fault(resolver, data, registry, record, step_id) {
                Some(fault) => Some(ErrorView::Internal(fault)),
                None => if has_progress(record, step_id) {
                    None
                } else {
                    Some(step_missing(step_id))
                },
            }
        },
    }
}

/// What is to be done for a step that has come as far as `progress` says.
pub open spec fn step_action(
    record: OperationRecord,
    step_id: Seq<char>,
    wait_for_index: bool,
) -> StepAction {
    let step = step_with(record.plan, step_id);
    let progress = progress_of(record, step_id);
    match progress.status {
        OperationStepStatus::Completed => StepAction::Finished,
        OperationStepStatus::Submitted => if step_waits(step.resource@, wait_for_index) {
            StepAction::AwaitTasks { task_uids: progress.task_uids }
        } else {
            StepAction::Finished
        },
        _ => StepAction::Submit { step },
    }
}

/// Decides what is to be done for a step, or refuses it. `checked` is what the journal finds wrong
/// with the record.
pub fn begin_step(
    resolver: &EventIndexResolver,
    data: &StoreData,
    record: &OperationRecord,
    checked: &Result<(), String>,
    step_id: &str,
    wait_for_index: bool,
    registry: Option<&Table<String, UserEventIndex>>,
) -> (r: Result<StepAction, ApiError>)
    ensures
        match step_refused(*resolver, *data, registry_view(registry), *record, *checked, step_id@) {
            Some(error) => fails_with(r, error),
            None => r == Ok::<StepAction, ApiError>(
                step_action(*record, step_id@, wait_for_index),
            ),
        },
{
    match validate_operation_routing(resolver, record, checked) {
        Ok(_) => {},
        Err(error) => {
            return Err(error);
        },
    }
    match validate_operation_step_dynamic_membership(resolver, data, record, step_id, registry) {
        Ok(_) => {},
        Err(error) => {
            return Err(error);
        },
    }
    next_step_action(record, step_id, wait_for_index)
}

proof fn lemma_no_fault_anywhere(
    resolver: EventIndexResolver,
    steps: Seq<OperationStep>,
    tenant_id: Seq<char>,
    expected: Option<Seq<char>>,
    i: int,
)
    requires
        steps_fault(resolver, steps, tenant_id, expected) is None,
        0 <= i < steps.len(),
    ensures
        route_fault(resolver, steps[i].resource@, tenant_id, expected) is None,
    decreases steps.len(),
{
    if i < steps.len() - 1 {
        lemma_no_fault_anywhere(resolver, steps.drop_last(), tenant_id, expected, i);
    }
}

/// No step goes to the repository unless every step of its operation writes only where the tenant
/// and the owners of the operation are stored.
pub proof fn what_is_submitted_is_routed(
    resolver: EventIndexResolver,
    data: StoreData,
    registry: Option<Map<Seq<char>, UserEventIndex>>,
    record: OperationRecord,
    checked: Result<(), String>,
    step_id: Seq<char>,
    i: int,
)
    requires
        step_refused(resolver, data, registry, record, checked, step_id) is None,
        0 <= i < plan_steps(record.plan).len(),
    ensures
        route_fault(
            resolver,
            plan_steps(record.plan)[i].resource@,
            record.tenant_id@,
            commitment(record),
        ) is None,
{
    lemma_no_fault_anywhere(
        resolver,
        plan_steps(record.plan),
        record.tenant_id@,
        commitment(record),
        i,
    );
}

/// How far the run of an operation has come.
pub struct Execution {
    /// The steps of the operation, the primary one first.
    pub step_ids: Vec<String>,
    /// How many of them are done.
    pub done: usize,
    /// Whether nothing is published before the last step is done.
    pub buffer_publication: bool,
}

impl Execution {
    /// Whether the run is one of an operation with these steps.
    pub open spec fn runs(&self, steps: Seq<OperationStep>) -> bool {
        &&& self.done <= self.step_ids@.len()
        &&& texts(self.step_ids@) == step_names(steps)
    }
}

/// The names of steps.
pub open spec fn step_names(steps: Seq<OperationStep>) -> Seq<Seq<char>> {
    Seq::new(steps.len(), |i: int| steps[i].id@)
}

/// The run of an operation that has not begun.
pub fn start_execution(record: &OperationRecord, buffer_publication: bool) -> (r: Execution)
    ensures
        r.runs(plan_steps(record.plan)),
        r.done == 0,
        r.buffer_publication == buffer_publication,
{
    let ghost names = step_names(plan_steps(record.plan));
    let mut step_ids: Vec<String> = Vec::new();
    step_ids.push(record.plan.primary.id.clone());
    let mut i: usize = 0;
    assert(texts(step_ids@) =~= names.take(1));
    while i < record.plan.side_effects.len()
        invariant
            i <= record.plan.side_effects@.len(),
            names == step_names(plan_steps(record.plan)),
            names.len() == record.plan.side_effects@.len() + 1,
            texts(step_ids@) == names.take(i + 1),
        decreases record.plan.side_effects@.len() - i,
    {
        let ghost before = step_ids@;
        let id: String = record.plan.side_effects[i].id.clone();
        proof {
            crate::text::texts_push(before, id);
        }
        step_ids.push(id);
        assert(plan_steps(record.plan)[i + 1] == record.plan.side_effects@[i as int]);
        assert(texts(step_ids@) =~= names.take(i + 2));
        i += 1;
    }
    assert(names.take(i + 1) =~= names);
    Execution { step_ids, done: 0, buffer_publication }
}

/// The step that comes next; none where all are done.
pub fn next_step(run: &Execution) -> (r: Option<&str>)
    ensures
        match r {
            Some(id) => run.done < run.step_ids@.len() && id@ == run.step_ids@[run.done as int]@,
            None => run.done >= run.step_ids@.len(),
        },
{
    if run.done < run.step_ids.len() {
        Some(run.step_ids[run.done].as_str())
    } else {
        None
    }
}

/// The registry once a step is done.
pub open spec fn registry_after(
    registry: Map<Seq<char>, UserEventIndex>,
    record: OperationRecord,
    step_id: Seq<char>,
) -> Map<Seq<char>, UserEventIndex> {
    if progress_of(record, step_id).status != OperationStepStatus::Completed {
        registry
    } else {
        match step_with(record.plan, step_id).resource@ {
            ResourceView::EnsureUserEventIndex { index } => registry.insert(
                index.owner_user_id_hash@,
                index,
            ),
            _ => registry,
        }
    }
}

/// What becomes visible once a step is done: its own resource, or all of them with the last step
/// where publication is held back.
pub open spec fn made_visible(
    before: StoreData,
    after: StoreData,
    staged: StoreData,
    record: OperationRecord,
    step_id: Seq<char>,
    buffered: bool,
    last: bool,
) -> bool {
    let projected = StoreData { operations: before.operations, ..after };
    if !buffered {
        &&& published(
            before,
            projected,
            staged,
            record.tenant_id@,
            step_with(record.plan, step_id).resource@,
        )
        &&& after.operations@ == before.operations@.insert(record.id@, record)
    } else if last {
        &&& published_all(
            before,
            projected,
            staged,
            record.tenant_id@,
            plan_resource_views(record.plan),
        )
        &&& after.operations@ == before.operations@.insert(record.id@, record)
    } else {
        after == before
    }
}

/// Takes note that the next step of a run is done, as `record` says.
pub fn step_applied(
    run: &mut Execution,
    current: &mut StoreData,
    staged: &StoreData,
    record: &OperationRecord,
    registry: &mut Table<String, UserEventIndex>,
) -> (r: Result<(), ApiError>)
    requires
        old(run).runs(plan_steps(record.plan)),
        old(run).done < old(run).step_ids@.len(),
    ensures
        ({
            let id = old(run).step_ids@[old(run).done as int]@;
            if has_progress(*record, id) {
                &&& r is Ok
                &&& *final(run) == (Execution { done: (old(run).done + 1) as usize, ..*old(run) })
                &&& final(registry)@ == registry_after(old(registry)@, *record, id)
                &&& made_visible(
                    *old(current),
                    *final(current),
                    *staged,
                    *record,
                    id,
                    old(run).buffer_publication,
                    old(run).done + 1 == old(run).step_ids@.len(),
                )
            } else {
                &&& fails_with(r, step_missing(id))
                &&& *final(run) == *old(run)
                &&& *final(current) == *old(current)
                &&& final(registry)@ == old(registry)@
            }
        }),
{
    let n: usize = run.step_ids.len();
    let id: &str = run.step_ids[run.done].as_str();
    proof {
        assert(texts(run.step_ids@)[run.done as int] == id@);
        assert(texts(run.step_ids@).len() == run.step_ids@.len());
        assert(step_names(plan_steps(record.plan)).len() == plan_steps(record.plan).len());
        a_step_is_found(record.plan, id@, run.done as int);
    }
    record_completed_registry_step(record, id, registry)?;
    if !run.buffer_publication {
        publish_operation_step_cache(current, staged, record, id)?;
    } else if run.done + 1 == n {
        publish_operation_cache(current, staged, record);
    }
    run.done = run.done + 1;
    Ok(())
}

/// How many operations a start asks for at once.
pub const STARTUP_BATCH: usize = 250;

/// The operations that a start reconciles next, the oldest first. A journal that is not there, and
/// one that answers with more than it was asked for, is refused.
pub fn startup_batch(found: Option<Vec<OperationRecord>>) -> (r: Result<
    Vec<OperationRecord>,
    ApiError,
>)
    ensures
        match found {
            None => fails_with(
                r,
                ErrorView::Internal(
                    "operation journal is unavailable for the configured backend"@,
                ),
            ),
            Some(operations) => if operations@.len() > STARTUP_BATCH {
                fails_with(
                    r,
                    ErrorView::Internal(
                        "operation journal returned more startup candidates than requested"@,
                    ),
                )
            } else {
                r is Ok && r->Ok_0@ == sorted_by(
                    operations@,
                    by_age(),
                )
            },
        },
{
    match found {
        None => Err(
            ApiError::internal("operation journal is unavailable for the configured backend"),
        ),
        Some(operations) => {
            if operations.len() > STARTUP_BATCH {
                return Err(
                    ApiError::internal(
                        "operation journal returned more startup candidates than requested",
                    ),
                );
            }
            let ghost lt = by_age();
            let before = |a: &OperationRecord, b: &OperationRecord| -> (b2: bool)
                ensures
                    b2 == lt(*a, *b),
                { is_older(a, b) };
            Ok(sort_by(operations, before, Ghost(lt)))
        },
    }
}

/// Refuses an operation of another tenant, one whose record is not in order, and one that is done.
/// `checked` is what the journal finds wrong with the record.
pub fn check_startup_candidate(
    operation: &OperationRecord,
    tenant_id: &str,
    checked: &Result<(), String>,
) -> (r: Result<(), ApiError>)
    ensures
        if operation.tenant_id@ != tenant_id@ {
            fails_with(
                r,
                ErrorView::Internal("operation journal returned a cross-tenant record"@),
            )
        } else if record_fault(*operation, *checked) is Some {
            fails_with(
                r,
                ErrorView::Internal(
                    "operation journal returned an invalid record: "@ + record_fault(
                        *operation,
                        *checked,
                    )->0,
                ),
            )
        } else if is_settled(*operation) {
            fails_with(
                r,
                ErrorView::Internal("operation journal returned a completed startup candidate"@),
            )
        } else {
            r is Ok
        },
{
    if !text_eq(operation.tenant_id.as_str(), tenant_id) {
        return Err(ApiError::internal("operation journal returned a cross-tenant record"));
    }
    if let Err(why) = validate_operation_record(operation, checked) {
        let mut message: String = "operation journal returned an invalid record: ".to_owned();
        message.append(why.as_str());
        return Err(ApiError::Internal(message));
    }
    if settled(operation) {
        return Err(ApiError::internal("operation journal returned a completed startup candidate"));
    }
    Ok(())
}

} // verus!
