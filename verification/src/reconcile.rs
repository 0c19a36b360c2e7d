//! Reconciling operations: which are taken up, and what is reported of them.

use vstd::prelude::*;

use crate::data::StoreData;
use crate::error::{fails_with, ApiError, ErrorView};
use crate::listing::{operation_summary, summary_of, OperationSummary};
use crate::model::operation::{OperationRecord, OperationStatus};
use crate::operations::{
    asks_status, distinct, oldest_open_operations, open_operations, reconcile_outcome,
    requested_operation_ids, status_asked, tally, tally_outcomes, trimmed_all, ReconcileOutcome,
    ReconcileTally, MAX_RECONCILE_IDS,
};
use crate::routing::{record_fault, validate_operation_record};
use crate::source_delete::is_settled;
use crate::text::{blank, text_eq, texts};

verus! {

/// The most operations that one request may ask for.
pub const MAX_RECONCILE_LIMIT: usize = 1_000;

/// The operations that a request names, where the request is in order.
pub fn check_reconcile_request(limit: usize, operation_ids: &Vec<String>) -> (r: Result<
    Vec<String>,
    ApiError,
>)
    ensures
        if limit == 0 || limit > MAX_RECONCILE_LIMIT {
            fails_with(r, ErrorView::BadRequest("limit must be between 1 and 1000"@))
        } else if exists|i: int|
            0 <= i < operation_ids@.len() && blank(#[trigger] operation_ids@[i]@) {
            fails_with(r, ErrorView::BadRequest("operation_ids must not contain empty values"@))
        } else if distinct(trimmed_all(texts(operation_ids@))).len() > MAX_RECONCILE_IDS {
            fails_with(
                r,
                ErrorView::BadRequest("operation_ids must contain at most 1000 unique values"@),
            )
        } else {
            r is Ok && texts(r->Ok_0@) == distinct(trimmed_all(texts(operation_ids@)))
        },
{
    if limit == 0 || limit > MAX_RECONCILE_LIMIT {
        return Err(ApiError::bad_request("limit must be between 1 and 1000"));
    }
    requested_operation_ids(operation_ids)
}

/// Whether an operation is one of a tenant with a status that was asked for.
pub open spec fn is_asked(
    operation: OperationRecord,
    tenant_id: Seq<char>,
    statuses: Seq<OperationStatus>,
) -> bool {
    operation.tenant_id@ == tenant_id && status_asked(statuses, operation.status)
}

/// The operations of a tenant that are named, in the order of their names.
pub open spec fn named_operations(
    m: Map<Seq<char>, OperationRecord>,
    ids: Seq<Seq<char>>,
    tenant_id: Seq<char>,
    statuses: Seq<OperationStatus>,
) -> Seq<OperationRecord>
    decreases ids.len(),
{
    if ids.len() == 0 {
        Seq::empty()
    } else {
        let rest = named_operations(m, ids.drop_last(), tenant_id, statuses);
        if m.dom().contains(ids.last()) && is_asked(m[ids.last()], tenant_id, statuses) {
            rest.push(m[ids.last()])
        } else {
            rest
        }
    }
}

/// The operations that a request is about, as the store itself holds them.
pub open spec fn local_operations(
    data: StoreData,
    tenant_id: Seq<char>,
    ids: Seq<Seq<char>>,
    statuses: Seq<OperationStatus>,
    limit: nat,
) -> Seq<OperationRecord> {
    if ids.len() == 0 {
        open_operations(data.operations.values(), tenant_id, statuses, limit)
    } else {
        named_operations(data.operations@, ids, tenant_id, statuses)
    }
}

/// The operations that a request is about, as the store itself holds them: those that are named,
/// or else the oldest that are not done.
pub fn local_candidates(
    data: &StoreData,
    tenant_id: &str,
    requested_ids: &Vec<String>,
    statuses: &Vec<OperationStatus>,
    limit: usize,
) -> (r: Vec<OperationRecord>)
    ensures
        r@ == local_operations(
            *data,
            tenant_id@,
            texts(requested_ids@),
            statuses@,
            limit as nat,
        ),
{
    assert(texts(requested_ids@).len() == requested_ids@.len());
    if requested_ids.len() == 0 {
        return oldest_open_operations(data, tenant_id, statuses, limit);
    }
    let ghost ids = texts(requested_ids@);
    let ghost m = data.operations@;
    let mut out: Vec<OperationRecord> = Vec::new();
    let mut i: usize = 0;
    while i < requested_ids.len()
        invariant
            i <= requested_ids@.len() == ids.len(),
            ids == texts(requested_ids@),
            m == data.operations@,
            out@ == named_operations(m, ids.take(i as int), tenant_id@, statuses@),
        decreases requested_ids@.len() - i,
    {
        assert(ids.take(i + 1).drop_last() =~= ids.take(i as int));
        assert(ids[i as int] == requested_ids@[i as int]@);
        match data.operations.get(&requested_ids[i]) {
            Some(operation) => {
                if text_eq(operation.tenant_id.as_str(), tenant_id) && asks_status(
                    statuses,
                    operation.status,
                ) {
                    out.push(operation.clone());
                }
            },
            None => {},
        }
        i += 1;
    }
    assert(ids.take(i as int) =~= ids);
    out
}

/// What is wrong with the first of the candidates whose record is not in order.
pub open spec fn candidates_fault(
    candidates: Seq<OperationRecord>,
    checked: Seq<Result<(), String>>,
) -> Option<Seq<char>>
    decreases candidates.len(),
{
    if candidates.len() == 0 {
        None
    } else {
        match candidates_fault(candidates.drop_last(), checked) {
            Some(why) => Some(why),
            None => record_fault(candidates.last(), checked[candidates.len() - 1]),
        }
    }
}

proof fn lemma_candidates_fault_stays(
    candidates: Seq<OperationRecord>,
    checked: Seq<Result<(), String>>,
    n: int,
)
    requires
        0 <= n <= candidates.len(),
        candidates_fault(candidates.take(n), checked) is Some,
    ensures
        candidates_fault(candidates, checked) == candidates_fault(candidates.take(n), checked),
    decreases candidates.len() - n,
{
    if n < candidates.len() {
        assert(candidates.take(n + 1).drop_last() =~= candidates.take(n));
        lemma_candidates_fault_stays(candidates, checked, n + 1);
    } else {
        assert(candidates.take(n) =~= candidates);
    }
}

/// Refuses candidates of which a record is not in order. `checked` is what the journal finds wrong
/// with each.
pub fn check_candidates(candidates: &Vec<OperationRecord>, checked: &Vec<Result<(), String>>) -> (r:
    Result<(), ApiError>)
    requires
        checked@.len() == candidates@.len(),
    ensures
        match candidates_fault(candidates@, checked@) {
            Some(why) => fails_with(
                r,
                ErrorView::Internal("operation repository returned an invalid record: "@ + why),
            ),
            None => r is Ok,
        },
{
    let mut i: usize = 0;
    while i < candidates.len()
        invariant
            i <= candidates@.len() == checked@.len(),
            candidates_fault(candidates@.take(i as int), checked@) is None,
        decreases candidates@.len() - i,
    {
        assert(candidates@.take(i + 1).drop_last() =~= candidates@.take(i as int));
        if let Err(why) = validate_operation_record(&candidates[i], &checked[i]) {
            proof {
                lemma_candidates_fault_stays(candidates@, checked@, i + 1);
            }
            let mut message: String = "operation repository returned an invalid record: ".to_owned();
            message.append(why.as_str());
            return Err(ApiError::Internal(message));
        }
        i += 1;
    }
    assert(candidates@.take(i as int) =~= candidates@);
    Ok(())
}

/// How the reconciliation of one candidate went. Where it failed, `latest` is what is recorded of
/// the operation.
pub enum ReconcileResult {
    Left,
    Replayed(OperationRecord),
    Failed { category: String, fingerprint: String, latest: Option<OperationRecord> },
}

/// The outcome of a result.
pub open spec fn outcome_of(result: ReconcileResult) -> ReconcileOutcome {
    match result {
        ReconcileResult::Left => ReconcileOutcome::Skipped,
        ReconcileResult::Replayed(operation) => if is_settled(operation) {
            ReconcileOutcome::Settled
        } else {
            ReconcileOutcome::StillOpen
        },
        ReconcileResult::Failed { .. } => ReconcileOutcome::Failed,
    }
}

/// The outcomes of results.
pub open spec fn outcomes_of(results: Seq<ReconcileResult>) -> Seq<ReconcileOutcome> {
    Seq::new(results.len(), |i: int| outcome_of(results[i]))
}

/// The operation that is shown for a candidate: what became of it, as far as that is known.
pub open spec fn shown_operation(candidate: OperationRecord, result: ReconcileResult) -> OperationRecord {
    match result {
        ReconcileResult::Left => candidate,
        ReconcileResult::Replayed(operation) => operation,
        ReconcileResult::Failed { latest, .. } => match latest {
            Some(operation) => operation,
            None => candidate,
        },
    }
}

/// Why an operation could not be reconciled, without its cause.
pub struct OperationReconcileError {
    pub operation_id: String,
    pub category: String,
    pub fingerprint: String,
}

/// What is told of one failure.
pub struct ErrorEntry {
    pub operation_id: Seq<char>,
    pub category: Seq<char>,
    pub fingerprint: Seq<char>,
}

impl View for OperationReconcileError {
    type V = ErrorEntry;

    open spec fn view(&self) -> ErrorEntry {
        ErrorEntry {
            operation_id: self.operation_id@,
            category: self.category@,
            fingerprint: self.fingerprint@,
        }
    }
}

/// What is told of failures.
pub open spec fn entries(errors: Seq<OperationReconcileError>) -> Seq<ErrorEntry> {
    Seq::new(errors.len(), |i: int| errors[i]@)
}

/// One entry for each candidate that could not be reconciled, in their order.
pub open spec fn failures(
    candidates: Seq<OperationRecord>,
    results: Seq<ReconcileResult>,
) -> Seq<ErrorEntry>
    decreases results.len(),
{
    if results.len() == 0 {
        Seq::empty()
    } else {
        let n = results.len() - 1;
        let rest = failures(candidates, results.drop_last());
        match results[n] {
            ReconcileResult::Failed { category, fingerprint, .. } => rest.push(
                ErrorEntry {
                    operation_id: candidates[n].id@,
                    category: category@,
                    fingerprint: fingerprint@,
                },
            ),
            _ => rest,
        }
    }
}

/// What is reported of a reconciliation.
pub struct ReconcileReport {
    pub checked: usize,
    pub tally: ReconcileTally,
    pub errors: Vec<OperationReconcileError>,
    /// What became of each candidate, without its plan.
    pub operations: Vec<OperationSummary>,
}

/// Reports what became of each candidate.
pub fn reconcile_report(candidates: &Vec<OperationRecord>, results: &Vec<ReconcileResult>) -> (r:
    ReconcileReport)
    requires
        results@.len() == candidates@.len(),
    ensures
        r.checked == candidates@.len(),
        (
            r.tally.reconciled as nat,
            r.tally.completed as nat,
            r.tally.failed as nat,
            r.tally.skipped as nat,
        ) == tally(outcomes_of(results@)),
        entries(r.errors@) == failures(candidates@, results@),
        r.operations@ == Seq::new(
            candidates@.len(),
            |i: int| summary_of(shown_operation(candidates@[i], results@[i])),
        ),
{
    let mut outcomes: Vec<ReconcileOutcome> = Vec::new();
    let mut errors: Vec<OperationReconcileError> = Vec::new();
    let mut operations: Vec<OperationSummary> = Vec::new();
    let mut i: usize = 0;
    assert(entries(errors@) =~= failures(candidates@, results@.take(0)));
    while i < candidates.len()
        invariant
            i <= candidates@.len() == results@.len(),
            outcomes@.len() == i,
            operations@.len() == i,
            forall|j: int| 0 <= j < i ==> #[trigger] outcomes@[j] == outcome_of(results@[j]),
            forall|j: int|
                0 <= j < i ==> #[trigger] operations@[j] == summary_of(
                    shown_operation(candidates@[j], results@[j]),
                ),
            entries(errors@) == failures(candidates@, results@.take(i as int)),
        decreases candidates@.len() - i,
    {
        assert(results@.take(i + 1).drop_last() =~= results@.take(i as int));
        let candidate: &OperationRecord = &candidates[i];
        let ghost before = errors@;
        match &results[i] {
            ReconcileResult::Left => {
                outcomes.push(ReconcileOutcome::Skipped);
                operations.push(operation_summary(candidate));
            },
            ReconcileResult::Replayed(operation) => {
                outcomes.push(reconcile_outcome(Some(operation)));
                operations.push(operation_summary(operation));
            },
            ReconcileResult::Failed { category, fingerprint, latest } => {
                outcomes.push(reconcile_outcome(None));
                errors.push(
                    OperationReconcileError {
                        operation_id: candidate.id.clone(),
                        category: category.clone(),
                        fingerprint: fingerprint.clone(),
                    },
                );
                assert(entries(errors@) =~= entries(before).push(errors@.last()@));
                match latest {
                    Some(operation) => operations.push(operation_summary(operation)),
                    None => operations.push(operation_summary(candidate)),
                }
            },
        }
        i += 1;
    }
    assert(results@.take(i as int) =~= results@);
    assert(outcomes@ =~= outcomes_of(results@));
    let tally: ReconcileTally = tally_outcomes(&outcomes);
    ReconcileReport { checked: candidates.len(), tally, errors, operations }
}

proof fn failures_are_counted(candidates: Seq<OperationRecord>, results: Seq<ReconcileResult>)
    ensures
        failures(candidates, results).len() == tally(outcomes_of(results)).2,
    decreases results.len(),
{
    if results.len() > 0 {
        failures_are_counted(candidates, results.drop_last());
        assert(outcomes_of(results).drop_last() =~= outcomes_of(results.drop_last()));
    }
}

/// A reconciliation tells of every candidate once: each is skipped or reconciled, and each that
/// failed has an entry among the errors.
pub proof fn every_candidate_is_reported(
    r: ReconcileReport,
    candidates: Seq<OperationRecord>,
    results: Seq<ReconcileResult>,
)
    requires
        results.len() == candidates.len(),
        r.checked == candidates.len(),
        (
            r.tally.reconciled as nat,
            r.tally.completed as nat,
            r.tally.failed as nat,
            r.tally.skipped as nat,
        ) == tally(outcomes_of(results)),
        entries(r.errors@) == failures(candidates, results),
    ensures
        r.tally.reconciled + r.tally.skipped == r.checked,
        r.tally.completed + r.tally.failed <= r.tally.reconciled,
        r.errors@.len() == r.tally.failed,
{
    crate::operations::tally_adds_up(outcomes_of(results));
    failures_are_counted(candidates, results);
    assert(entries(r.errors@).len() == r.errors@.len());
}

} // verus!
