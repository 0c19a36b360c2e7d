//! Single records by id, who owns them, and how many there are of which kind.

use vstd::prelude::*;
use vstd::string::*;

use crate::data::StoreData;
use crate::error::{fails_with, ApiError, ErrorView};
use crate::model::ingest::IngestTask;
use crate::model::knowledge::{ContextNode, TraceRecord};
use crate::model::operation::{OperationRecord, OperationStatus};
use crate::order::{find_where, first_where, first_where_facts};
use crate::publish::COMPANY_CONTEXT_INDEX;
use crate::record::{count_values, select};
use crate::search::{rank_nodes, ranked, Score};
use crate::table::{list_at, lists};
use crate::text::{opt_text, text_eq, texts};

verus! {

/// Keeps a trace.
pub fn insert_trace(data: &mut StoreData, trace: TraceRecord)
    ensures
        *final(data) == (StoreData { traces: final(data).traces, ..*old(data) }),
        final(data).traces@ == old(data).traces@.insert(trace.id@, trace),
{
    data.traces.insert(trace.id.clone(), trace);
}

/// A trace of a tenant.
pub fn get_trace(data: &StoreData, tenant_id: &str, trace_id: &str) -> (r: Result<
    TraceRecord,
    ApiError,
>)
    ensures
        if data.traces@.dom().contains(trace_id@) && data.traces@[trace_id@].tenant_id@
            == tenant_id@ {
            r == Ok::<TraceRecord, ApiError>(data.traces@[trace_id@])
        } else {
            fails_with(r, ErrorView::NotFound("trace not found"@))
        },
{
    let key: String = trace_id.to_owned();
    match data.traces.get(&key) {
        Some(trace) => if text_eq(trace.tenant_id.as_str(), tenant_id) {
            Ok(trace.clone())
        } else {
            Err(ApiError::not_found("trace not found"))
        },
        None => Err(ApiError::not_found("trace not found")),
    }
}

/// The owner of a trace of a tenant, where it has one.
pub fn trace_owner_id(data: &StoreData, tenant_id: &str, trace_id: &str) -> (r: Result<
    Option<String>,
    ApiError,
>)
    ensures
        if data.traces@.dom().contains(trace_id@) && data.traces@[trace_id@].tenant_id@
            == tenant_id@ {
            r is Ok && opt_text(r->Ok_0) == opt_text(data.traces@[trace_id@].owner_user_id)
        } else {
            fails_with(r, ErrorView::NotFound("trace not found"@))
        },
{
    match get_trace(data, tenant_id, trace_id) {
        Ok(trace) => Ok(trace.owner_user_id.clone()),
        Err(error) => Err(error),
    }
}

/// The owner of an insight of a tenant.
pub fn insight_owner(data: &StoreData, tenant_id: &str, insight_id: &str) -> (r: Result<
    String,
    ApiError,
>)
    ensures
        if data.insights@.dom().contains(insight_id@) && data.insights@[insight_id@].tenant_id@
            == tenant_id@ {
            r is Ok && r->Ok_0@ == data.insights@[insight_id@].owner_user_id@
        } else {
            fails_with(r, ErrorView::NotFound("insight not found"@))
        },
{
    let key: String = insight_id.to_owned();
    match data.insights.get(&key) {
        Some(insight) => if text_eq(insight.tenant_id.as_str(), tenant_id) {
            Ok(insight.owner_user_id.clone())
        } else {
            Err(ApiError::not_found("insight not found"))
        },
        None => Err(ApiError::not_found("insight not found")),
    }
}

/// The owner of a snapshot of a tenant.
pub fn snapshot_owner(data: &StoreData, tenant_id: &str, snapshot_id: &str) -> (r: Result<
    String,
    ApiError,
>)
    ensures
        if data.snapshots@.dom().contains(snapshot_id@) && data.snapshots@[snapshot_id@].tenant_id@
            == tenant_id@ {
            r is Ok && r->Ok_0@ == data.snapshots@[snapshot_id@].owner_user_id@
        } else {
            fails_with(r, ErrorView::NotFound("snapshot not found"@))
        },
{
    let key: String = snapshot_id.to_owned();
    match data.snapshots.get(&key) {
        Some(snapshot) => if text_eq(snapshot.tenant_id.as_str(), tenant_id) {
            Ok(snapshot.owner_user_id.clone())
        } else {
            Err(ApiError::not_found("snapshot not found"))
        },
        None => Err(ApiError::not_found("snapshot not found")),
    }
}

/// The owner of a session.
pub fn session_owner_id(data: &StoreData, session_id: &str) -> (r: Result<String, ApiError>)
    ensures
        if data.sessions@.dom().contains(session_id@) {
            r is Ok && r->Ok_0@ == data.sessions@[session_id@].owner_user_id@
        } else {
            fails_with(r, ErrorView::NotFound("session not found"@))
        },
{
    let key: String = session_id.to_owned();
    match data.sessions.get(&key) {
        Some(session) => Ok(session.owner_user_id.clone()),
        None => Err(ApiError::not_found("session not found")),
    }
}

/// How many records there are of which kind.
pub struct StoreMetricsSnapshot {
    pub ingest_tasks: Vec<u64>,
    pub operations: OperationCounts,
}

/// How many operations have come how far.
pub struct OperationCounts {
    pub pending: u64,
    pub primary_committed: u64,
    pub effects_submitted: u64,
    pub partially_failed: u64,
    pub completed: u64,
    pub failed: u64,
}

/// Whether a text is `label`.
pub open spec fn label_is(label: Seq<char>) -> spec_fn(Seq<char>) -> bool {
    |l: Seq<char>| l == label
}

/// The place of a state among labels; an unknown state has the last place.
pub open spec fn state_place(labels: Seq<Seq<char>>, state: Seq<char>) -> int {
    let at = first_where(labels, label_is(state));
    if at < labels.len() {
        at
    } else {
        labels.len() - 1
    }
}

/// Whether a task of a tenant is counted in a place.
pub open spec fn counted_at(tenant_id: Seq<char>, labels: Seq<Seq<char>>, at: int) -> spec_fn(
    IngestTask,
) -> bool {
    |t: IngestTask| t.tenant_id@ == tenant_id && state_place(labels, t.state@) == at
}

/// Whether an operation of a tenant has come so far.
pub open spec fn come_to(tenant_id: Seq<char>, status: OperationStatus) -> spec_fn(
    OperationRecord,
) -> bool {
    |o: OperationRecord| o.tenant_id@ == tenant_id && o.status == status
}

fn find_place(labels: &Vec<String>, state: &str) -> (r: usize)
    requires
        labels@.len() > 0,
    ensures
        r == state_place(texts(labels@), state@),
{
    let ghost p = |l: String| l@ == state@;
    let accept = |l: &String| -> (b: bool)
        ensures
            b == p(*l),
        { text_eq(l.as_str(), state) };
    let at: usize = find_where(labels, accept, Ghost(p));
    proof {
        first_where_facts(labels@, p);
        let q = label_is(state@);
        let all = texts(labels@);
        assert forall|j: int| 0 <= j < at implies !q(#[trigger] all[j]) by {
            assert(!p(labels@[j]));
        }
        if at < labels@.len() {
            assert(q(all[at as int]));
        }
        crate::order::first_where_is(all, q, at as int);
    }
    if at < labels.len() {
        at
    } else {
        labels.len() - 1
    }
}

fn count_operations(data: &StoreData, tenant_id: &str, status: OperationStatus) -> (r: u64)
    ensures
        r == data.operations.values().filter(come_to(tenant_id@, status)).len(),
{
    let ghost p = come_to(tenant_id@, status);
    let accept = |o: &OperationRecord| -> (b: bool)
        ensures
            b == p(*o),
        { text_eq(o.tenant_id.as_str(), tenant_id) && o.status == status };
    count_values(&data.operations, accept, Ghost(p)) as u64
}

/// How many ingest tasks of a tenant are in which state, by `labels`, and how many of its
/// operations have come how far.
pub fn operational_metrics_snapshot(data: &StoreData, tenant_id: &str, labels: &Vec<String>) -> (r:
    StoreMetricsSnapshot)
    requires
        labels@.len() > 0,
    ensures
        r.ingest_tasks@.len() == labels@.len(),
        forall|i: int|
            0 <= i < labels@.len() ==> #[trigger] r.ingest_tasks@[i]
                == data.ingest_tasks.values().filter(
                counted_at(tenant_id@, texts(labels@), i),
            ).len(),
        ({
            let all = data.operations.values();
            let t = tenant_id@;
            let c = r.operations;
            &&& c.pending == all.filter(come_to(t, OperationStatus::Pending)).len()
            &&& c.primary_committed == all.filter(
                come_to(t, OperationStatus::PrimaryCommitted),
            ).len()
            &&& c.effects_submitted == all.filter(
                come_to(t, OperationStatus::EffectsSubmitted),
            ).len()
            &&& c.partially_failed == all.filter(
                come_to(t, OperationStatus::PartiallyFailed),
            ).len()
            &&& c.completed == all.filter(come_to(t, OperationStatus::Completed)).len()
            &&& c.failed == all.filter(come_to(t, OperationStatus::Failed)).len()
        }),
{
    let mut ingest_tasks: Vec<u64> = Vec::new();
    let mut i: usize = 0;
    while i < labels.len()
        invariant
            i <= labels@.len(),
            labels@.len() > 0,
            ingest_tasks@.len() == i,
            forall|j: int|
                0 <= j < i ==> #[trigger] ingest_tasks@[j] == data.ingest_tasks.values().filter(
                    counted_at(tenant_id@, texts(labels@), j),
                ).len(),
        decreases labels.len() - i,
    {
        let ghost p = counted_at(tenant_id@, texts(labels@), i as int);
        let accept = |t: &IngestTask| -> (b: bool)
            ensures
                b == p(*t),
            {
                text_eq(t.tenant_id.as_str(), tenant_id) && find_place(labels, t.state.as_str())
                    == i
            };
        ingest_tasks.push(count_values(&data.ingest_tasks, accept, Ghost(p)) as u64);
        i += 1;
    }
    StoreMetricsSnapshot {
        ingest_tasks,
        operations: OperationCounts {
            pending: count_operations(data, tenant_id, OperationStatus::Pending),
            primary_committed: count_operations(
                data,
                tenant_id,
                OperationStatus::PrimaryCommitted,
            ),
            effects_submitted: count_operations(
                data,
                tenant_id,
                OperationStatus::EffectsSubmitted,
            ),
            partially_failed: count_operations(data, tenant_id, OperationStatus::PartiallyFailed),
            completed: count_operations(data, tenant_id, OperationStatus::Completed),
            failed: count_operations(data, tenant_id, OperationStatus::Failed),
        },
    }
}

/// Whether a node is a tenant's.
pub open spec fn of_tenant(tenant_id: Seq<char>) -> spec_fn(ContextNode) -> bool {
    |node: ContextNode| node.tenant_id@ == tenant_id
}

/// The nodes of a tenant in one index.
pub open spec fn nodes_in_index(d: StoreData, tenant_id: Seq<char>, index_uid: Seq<char>) -> Seq<
    ContextNode,
> {
    if index_uid == COMPANY_CONTEXT_INDEX@ {
        d.company_context@.filter(of_tenant(tenant_id))
    } else {
        list_at(lists(d.personal_context@), index_uid).filter(of_tenant(tenant_id))
    }
}

/// The nodes of a tenant in one index, which a search for errors looks through.
pub fn debug_nodes(data: &StoreData, tenant_id: &str, index_uid: &str) -> (r: Vec<ContextNode>)
    ensures
        r@ == nodes_in_index(*data, tenant_id@, index_uid@),
{
    let ghost p = of_tenant(tenant_id@);
    let accept = |node: &ContextNode| -> (b: bool)
        ensures
            b == p(*node),
        { text_eq(node.tenant_id.as_str(), tenant_id) };
    if text_eq(index_uid, COMPANY_CONTEXT_INDEX) {
        return select(&data.company_context, accept, Ghost(p));
    }
    let key: String = index_uid.to_owned();
    match data.personal_context.get(&key) {
        Some(nodes) => select(nodes, accept, Ghost(p)),
        None => {
            assert(Seq::<ContextNode>::empty().filter(p) =~= Seq::<ContextNode>::empty()) by {
                reveal(Seq::filter);
            }
            Vec::new()
        },
    }
}

/// How many hits a search for errors shows.
pub const DEBUG_HITS: usize = 20;

/// What a search for errors shows of a node.
pub struct DebugHit {
    pub uri: String,
    pub title: String,
    pub layer: u8,
    /// The bits of a 32-bit float.
    pub score: u32,
    pub index_uid: String,
}

/// Whether hits show nodes, one by one.
pub open spec fn are_debug_hits(
    hits: Seq<DebugHit>,
    found: Seq<(ContextNode, Score)>,
    index_uid: Seq<char>,
) -> bool {
    hits.len() == found.len() && forall|i: int|
        0 <= i < hits.len() ==> {
            &&& (#[trigger] hits[i]).uri@ == found[i].0.uri@
            &&& hits[i].title@ == found[i].0.title@
            &&& hits[i].layer == found[i].0.layer
            &&& hits[i].score == found[i].1.bits
            &&& hits[i].index_uid@ == index_uid
        }
}

/// The nodes of one index that match best, the best first.
pub fn debug_search(nodes: &Vec<ContextNode>, scores_of: &Vec<Option<Score>>, index_uid: &str) -> (r:
    Vec<DebugHit>)
    requires
        scores_of@.len() == nodes@.len(),
    ensures
        are_debug_hits(r@, ranked(nodes@, scores_of@, DEBUG_HITS as nat), index_uid@),
{
    let found: Vec<(ContextNode, Score)> = rank_nodes(nodes, scores_of, DEBUG_HITS);
    let mut out: Vec<DebugHit> = Vec::new();
    let mut i: usize = 0;
    while i < found.len()
        invariant
            i <= found@.len(),
            are_debug_hits(out@, found@.take(i as int), index_uid@),
        decreases found.len() - i,
    {
        out.push(
            DebugHit {
                uri: found[i].0.uri.clone(),
                title: found[i].0.title.clone(),
                layer: found[i].0.layer,
                score: found[i].1.bits,
                index_uid: index_uid.to_owned(),
            },
        );
        assert(found@.take(i + 1) =~= found@.take(i as int).push(found@[i as int]));
        i += 1;
    }
    assert(found@.take(i as int) =~= found@);
    out
}

} // verus!
