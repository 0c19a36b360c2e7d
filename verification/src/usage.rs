//! How much a tenant or an owner has stored.

use vstd::prelude::*;
use vstd::string::*;

use crate::data::{SourceDocumentKey, StoreData};
use crate::json::{text_member, Json};
use crate::model::ingest::{IngestTask, ParseArtifact, ParsedBlock};
use crate::model::knowledge::{
    ContextNode, DatasetRecord, KnowledgeLink, SessionRecord, StateItem, StructuredSnapshot,
    TraceRecord, UserEventIndex,
};
use crate::operations::distinct;
use crate::record::select_values;
use crate::resolver::EventIndexResolver;
use crate::table::{list_at, lists, Table, TableKey};
use crate::text::{
    opt_eq_str, opt_owned, opt_str, opt_text, text_eq, texts, texts_add, texts_contain, texts_push,
};

verus! {

/// How many values `p` accepts.
pub open spec fn count_where<T>(s: Seq<T>, p: spec_fn(T) -> bool) -> nat
    decreases s.len(),
{
    if s.len() == 0 {
        0
    } else {
        count_where(s.drop_last(), p) + (if p(s.last()) {
            1nat
        } else {
            0nat
        })
    }
}

/// The weights of all values together.
pub open spec fn total<T>(s: Seq<T>, weight: spec_fn(T) -> nat) -> nat
    decreases s.len(),
{
    if s.len() == 0 {
        0
    } else {
        total(s.drop_last(), weight) + weight(s.last())
    }
}

pub(crate) fn count_values<K: TableKey, V, F: Fn(&V) -> bool>(
    t: &Table<K, V>,
    accept: F,
    Ghost(p): Ghost<spec_fn(V) -> bool>,
) -> (r: usize)
    requires
        forall|a: V| #[trigger] accept.requires((&a,)),
        forall|a: V, b: bool| accept.ensures((&a,), b) ==> b == p(a),
    ensures
        r == count_where(t.values(), p),
{
    let n: usize = t.len();
    let mut i: usize = 0;
    let mut count: usize = 0;
    let ghost all = t.values();
    while i < n
        invariant
            i <= n == t.rows().len(),
            all == t.values(),
            all.len() == n,
            count <= i,
            count == count_where(all.take(i as int), p),
            forall|a: V| #[trigger] accept.requires((&a,)),
            forall|a: V, b: bool| accept.ensures((&a,), b) ==> b == p(a),
        decreases n - i,
    {
        assert(all.take(i + 1).drop_last() =~= all.take(i as int));
        if accept(t.value_at(i)) {
            count += 1;
        }
        i += 1;
    }
    assert(all.take(i as int) =~= all);
    count
}

pub(crate) fn count_list<V, F: Fn(&V) -> bool>(
    v: &Vec<V>,
    accept: F,
    Ghost(p): Ghost<spec_fn(V) -> bool>,
) -> (r: usize)
    requires
        forall|a: V| #[trigger] accept.requires((&a,)),
        forall|a: V, b: bool| accept.ensures((&a,), b) ==> b == p(a),
    ensures
        r == count_where(v@, p),
{
    let mut i: usize = 0;
    let mut count: usize = 0;
    while i < v.len()
        invariant
            i <= v.len(),
            count <= i,
            count == count_where(v@.take(i as int), p),
            forall|a: V| #[trigger] accept.requires((&a,)),
            forall|a: V, b: bool| accept.ensures((&a,), b) ==> b == p(a),
        decreases v.len() - i,
    {
        assert(v@.take(i + 1).drop_last() =~= v@.take(i as int));
        if accept(&v[i]) {
            count += 1;
        }
        i += 1;
    }
    assert(v@.take(i as int) =~= v@);
    count
}

pub(crate) fn sum_values<K: TableKey, V, F: Fn(&V) -> u64>(
    t: &Table<K, V>,
    weigh: F,
    Ghost(weight): Ghost<spec_fn(V) -> nat>,
) -> (r: u128)
    requires
        forall|a: V| #[trigger] weigh.requires((&a,)),
        forall|a: V, b: u64| weigh.ensures((&a,), b) ==> b == weight(a),
    ensures
        r == total(t.values(), weight),
{
    let n: usize = t.len();
    let mut i: usize = 0;
    let mut sum: u128 = 0;
    let ghost all = t.values();
    while i < n
        invariant
            i <= n == t.rows().len(),
            all == t.values(),
            all.len() == n,
            sum <= i * 0xffff_ffff_ffff_ffff,
            sum == total(all.take(i as int), weight),
            forall|a: V| #[trigger] weigh.requires((&a,)),
            forall|a: V, b: u64| weigh.ensures((&a,), b) ==> b == weight(a),
        decreases n - i,
    {
        assert(all.take(i + 1).drop_last() =~= all.take(i as int));
        let w: u64 = weigh(t.value_at(i));
        sum += w as u128;
        i += 1;
    }
    assert(all.take(i as int) =~= all);
    sum
}

/// What a count is taken of: one owner of a tenant, or all of it.
pub struct UsageScope {
    pub tenant_id: String,
    pub owner_user_id: Option<String>,
    pub global: bool,
}

/// What is counted of a tenant or an owner. Sums are wide enough never to overflow.
pub struct UsageSnapshot {
    pub generated_at: i64,
    pub scope: UsageScope,
    pub store_backend: String,
    pub event_count: u128,
    pub user_event_index_count: usize,
    pub company_context_node_count: usize,
    pub private_context_node_count: u128,
    pub context_node_count: u128,
    pub trace_count: usize,
    pub link_count: usize,
    pub task_count: usize,
    pub queued: usize,
    pub parsing: usize,
    pub parsed: usize,
    pub fragmenting: usize,
    pub indexing: usize,
    pub completed: usize,
    pub failed: usize,
    pub parse_artifact_count: usize,
    pub parsed_block_count: u128,
    pub dataset_count: usize,
    pub snapshot_count: usize,
    pub row_count: u128,
    pub summary_count: usize,
    pub structured_state_item_count: usize,
    pub session_count: usize,
    pub message_count: u128,
}

/// Whether an owner is in scope.
pub open spec fn owner_in_scope(
    owner: Seq<char>,
    owner_user_id: Option<Seq<char>>,
    global: bool,
) -> bool {
    global || owner_user_id == Some(owner)
}

/// Whether an optional owner is in scope; without an owner only the global scope has it.
pub open spec fn optional_owner_in_scope(
    owner: Option<Seq<char>>,
    owner_user_id: Option<Seq<char>>,
    global: bool,
) -> bool {
    global || (owner_user_id is Some && owner == owner_user_id)
}

fn owner_counts(owner: &str, owner_user_id: Option<&str>, global: bool) -> (r: bool)
    ensures
        r == owner_in_scope(owner@, opt_str(owner_user_id), global),
{
    global || match owner_user_id {
        Some(target) => text_eq(target, owner),
        None => false,
    }
}

fn optional_owner_counts(owner: &Option<String>, owner_user_id: Option<&str>, global: bool) -> (r:
    bool)
    ensures
        r == optional_owner_in_scope(opt_text(*owner), opt_str(owner_user_id), global),
{
    global || (owner_user_id.is_some() && opt_eq_str(owner, owner_user_id))
}

/// Whether an index is in scope.
pub open spec fn index_in_scope(
    index: UserEventIndex,
    tenant_id: Seq<char>,
    owner_hash: Option<Seq<char>>,
    global: bool,
) -> bool {
    index.tenant_id@ == tenant_id && (global || owner_hash == Some(index.owner_user_id_hash@))
}

/// Whether a node of a tenant is active.
pub open spec fn active_node(tenant_id: Seq<char>) -> spec_fn(ContextNode) -> bool {
    |node: ContextNode| node.tenant_id@ == tenant_id && node.status@ == "active"@
}

/// Whether something of a tenant and an optional owner is in scope.
pub open spec fn shared_in_scope(
    tenant: Seq<char>,
    owner: Option<Seq<char>>,
    tenant_id: Seq<char>,
    owner_user_id: Option<Seq<char>>,
    global: bool,
) -> bool {
    tenant == tenant_id && optional_owner_in_scope(owner, owner_user_id, global)
}

/// Whether something of a tenant and an owner is in scope.
pub open spec fn private_in_scope(
    tenant: Seq<char>,
    owner: Seq<char>,
    tenant_id: Seq<char>,
    owner_user_id: Option<Seq<char>>,
    global: bool,
) -> bool {
    tenant == tenant_id && owner_in_scope(owner, owner_user_id, global)
}

/// Whether a state item in scope stands for a structured summary.
pub open spec fn summary_item_in_scope(
    item: StateItem,
    tenant_id: Seq<char>,
    owner_user_id: Option<Seq<char>>,
    global: bool,
) -> bool {
    item.state_type@ == "structured_summary"@ && private_in_scope(
        item.tenant_id@,
        item.owner_user_id@,
        tenant_id,
        owner_user_id,
        global,
    )
}

/// Whether a dataset belongs to a tenant.
pub open spec fn dataset_in_scope(dataset: DatasetRecord, tenant_id: Seq<char>) -> bool {
    dataset.tenant_id@ == tenant_id
}

/// Whether a task is in scope.
pub open spec fn task_in_scope(
    task: IngestTask,
    tenant_id: Seq<char>,
    owner_user_id: Option<Seq<char>>,
    global: bool,
) -> bool {
    task.tenant_id@ == tenant_id && optional_owner_in_scope(
        opt_text(task.owner_user_id),
        owner_user_id,
        global,
    )
}

/// How many tasks in scope have a state.
pub open spec fn tasks_in_state(
    d: StoreData,
    tenant_id: Seq<char>,
    owner_user_id: Option<Seq<char>>,
    global: bool,
    state: Seq<char>,
) -> nat {
    count_where(
        d.ingest_tasks.values(),
        |task: IngestTask|
            task_in_scope(task, tenant_id, owner_user_id, global) && task.state@ == state,
    )
}

/// The ids of the snapshots in scope, each once.
pub open spec fn scoped_snapshot_ids(
    d: StoreData,
    tenant_id: Seq<char>,
    owner_user_id: Option<Seq<char>>,
    global: bool,
) -> Seq<Seq<char>> {
    let s = d.snapshots.values().filter(
        |snapshot: StructuredSnapshot|
            snapshot.tenant_id@ == tenant_id && owner_in_scope(
                snapshot.owner_user_id@,
                owner_user_id,
                global,
            ),
    );
    distinct(Seq::new(s.len(), |i: int| s[i].id@))
}

/// Whether a summary is in scope.
pub open spec fn summary_in_scope(
    summary: Json,
    tenant_id: Seq<char>,
    owner_user_id: Option<Seq<char>>,
    global: bool,
) -> bool {
    text_member(summary, "tenant_id"@) == Some(tenant_id) && match text_member(
        summary,
        "owner_user_id"@,
    ) {
        Some(owner) => owner_in_scope(owner, owner_user_id, global),
        None => false,
    }
}

/// The hash of the owner in scope.
pub open spec fn scope_owner_hash(
    resolver: EventIndexResolver,
    owner_user_id: Option<Seq<char>>,
) -> Option<Seq<char>> {
    match owner_user_id {
        Some(owner) => Some(resolver.user_digest(owner)),
        None => None,
    }
}

/// The active nodes in scope that are private.
pub open spec fn private_nodes(
    d: StoreData,
    resolver: EventIndexResolver,
    tenant_id: Seq<char>,
    owner_user_id: Option<Seq<char>>,
    global: bool,
) -> nat {
    if global {
        total(
            d.personal_context.values(),
            |nodes: Vec<ContextNode>| count_where(nodes@, active_node(tenant_id)),
        )
    } else {
        match owner_user_id {
            Some(owner) => count_where(
                list_at(lists(d.personal_context@), resolver.context_of(tenant_id, owner)),
                active_node(tenant_id),
            ),
            None => 0,
        }
    }
}

/// How many blocks of documents in scope are stored.
pub open spec fn scoped_blocks(
    rows: Seq<(SourceDocumentKey, Vec<ParsedBlock>)>,
    tenant_id: Seq<char>,
    owner_user_id: Option<Seq<char>>,
    global: bool,
) -> nat
    decreases rows.len(),
{
    if rows.len() == 0 {
        0
    } else {
        let row = rows.last();
        scoped_blocks(rows.drop_last(), tenant_id, owner_user_id, global) + (if row.0.tenant_id@
            == tenant_id && optional_owner_in_scope(
            opt_text(row.0.owner_user_id),
            owner_user_id,
            global,
        ) {
            row.1@.len()
        } else {
            0nat
        })
    }
}

/// Whether `r` counts what is in scope.
pub open spec fn counts_usage(
    r: UsageSnapshot,
    d: StoreData,
    resolver: EventIndexResolver,
    tenant_id: Seq<char>,
    owner_user_id: Option<Seq<char>>,
    global: bool,
) -> bool {
    let hash = scope_owner_hash(resolver, owner_user_id);
    &&& r.event_count == total(
        d.user_indexes.values(),
        |index: UserEventIndex|
            if index_in_scope(index, tenant_id, hash, global) {
                index.event_count_estimate as nat
            } else {
                0nat
            },
    )
    &&& r.user_event_index_count == count_where(
        d.user_indexes.values(),
        |index: UserEventIndex| index_in_scope(index, tenant_id, hash, global),
    )
    &&& r.company_context_node_count == (if global {
        count_where(d.company_context@, active_node(tenant_id))
    } else {
        0
    })
    &&& r.private_context_node_count == private_nodes(
        d,
        resolver,
        tenant_id,
        owner_user_id,
        global,
    )
    &&& r.context_node_count == r.company_context_node_count + r.private_context_node_count
    &&& r.trace_count == count_where(
        d.traces.values(),
        |trace: TraceRecord|
            shared_in_scope(
            trace.tenant_id@,
            opt_text(trace.owner_user_id),
            tenant_id,
            owner_user_id,
            global,
        ),
    )
    &&& r.link_count == count_where(
        d.links.values(),
        |link: KnowledgeLink|
            shared_in_scope(
            link.tenant_id@,
            opt_text(link.owner_user_id),
            tenant_id,
            owner_user_id,
            global,
        ),
    )
    &&& r.task_count == count_where(
        d.ingest_tasks.values(),
        |task: IngestTask| task_in_scope(task, tenant_id, owner_user_id, global),
    )
    &&& r.queued == tasks_in_state(d, tenant_id, owner_user_id, global, "queued"@)
    &&& r.parsing == tasks_in_state(d, tenant_id, owner_user_id, global, "parsing"@)
    &&& r.parsed == tasks_in_state(d, tenant_id, owner_user_id, global, "parsed"@)
    &&& r.fragmenting == tasks_in_state(d, tenant_id, owner_user_id, global, "fragmenting"@)
    &&& r.indexing == tasks_in_state(d, tenant_id, owner_user_id, global, "indexing"@)
    &&& r.completed == tasks_in_state(d, tenant_id, owner_user_id, global, "completed"@)
    &&& r.failed == tasks_in_state(d, tenant_id, owner_user_id, global, "failed"@)
    &&& r.parse_artifact_count == count_where(
        d.parse_artifacts.values(),
        |artifact: ParseArtifact|
            shared_in_scope(
            artifact.tenant_id@,
            opt_text(artifact.owner_user_id),
            tenant_id,
            owner_user_id,
            global,
        ),
    )
    &&& r.parsed_block_count == scoped_blocks(
        d.parsed_blocks.rows(),
        tenant_id,
        owner_user_id,
        global,
    )
    &&& r.dataset_count == (if global {
        count_where(
            d.datasets.values(),
            |dataset: DatasetRecord| dataset_in_scope(dataset, tenant_id),
        )
    } else {
        0
    })
    &&& r.snapshot_count == scoped_snapshot_ids(d, tenant_id, owner_user_id, global).len()
    &&& r.row_count == total(
        d.snapshots.values(),
        |snapshot: StructuredSnapshot|
            if scoped_snapshot_ids(d, tenant_id, owner_user_id, global).contains(snapshot.id@) {
                snapshot.row_count as nat
            } else {
                0nat
            },
    )
    &&& r.summary_count == count_where(
        d.structured_summaries.values(),
        |summary: Json| summary_in_scope(summary, tenant_id, owner_user_id, global),
    )
    &&& r.structured_state_item_count == count_where(
        d.state_items.values(),
        |item: StateItem|
            summary_item_in_scope(item, tenant_id, owner_user_id, global),
    )
    &&& r.session_count == count_where(
        d.sessions.values(),
        |session: SessionRecord|
            private_in_scope(
            session.tenant_id@,
            session.owner_user_id@,
            tenant_id,
            owner_user_id,
            global,
        ),
    )
    &&& r.message_count == total(
        d.sessions.values(),
        |session: SessionRecord|
            if private_in_scope(
            session.tenant_id@,
            session.owner_user_id@,
            tenant_id,
            owner_user_id,
            global,
        ) {
                session.messages@.len()
            } else {
                0nat
            },
    )
}

fn count_tasks_in_state(
    data: &StoreData,
    tenant_id: &str,
    owner_user_id: Option<&str>,
    global: bool,
    state: &str,
) -> (r: usize)
    ensures
        r == tasks_in_state(*data, tenant_id@, opt_str(owner_user_id), global, state@),
{
    let ghost owner = opt_str(owner_user_id);
    let ghost p = |task: IngestTask|
        task_in_scope(task, tenant_id@, owner, global) && task.state@ == state@;
    let accept = |task: &IngestTask| -> (b: bool)
        ensures
            b == p(*task),
        {
            text_eq(task.tenant_id.as_str(), tenant_id) && optional_owner_counts(
                &task.owner_user_id,
                owner_user_id,
                global,
            ) && text_eq(task.state.as_str(), state)
        };
    count_values(&data.ingest_tasks, accept, Ghost(p))
}

fn count_active(nodes: &Vec<ContextNode>, tenant_id: &str) -> (r: usize)
    ensures
        r == count_where(nodes@, active_node(tenant_id@)),
{
    let ghost p = active_node(tenant_id@);
    let accept = |node: &ContextNode| -> (b: bool)
        ensures
            b == p(*node),
        {
            text_eq(node.tenant_id.as_str(), tenant_id) && text_eq(node.status.as_str(), "active")
        };
    count_list(nodes, accept, Ghost(p))
}

fn count_private(
    data: &StoreData,
    resolver: &EventIndexResolver,
    tenant_id: &str,
    owner_user_id: Option<&str>,
    global: bool,
) -> (r: u128)
    ensures
        r == private_nodes(*data, *resolver, tenant_id@, opt_str(owner_user_id), global),
        r <= 0xffff_ffff_ffff_ffff * 0xffff_ffff_ffff_ffff,
{
    if global {
        let ghost w = |nodes: Vec<ContextNode>| count_where(nodes@, active_node(tenant_id@));
        let weigh = |nodes: &Vec<ContextNode>| -> (n: u64)
            ensures
                n == w(*nodes),
            { count_active(nodes, tenant_id) as u64 };
        proof {
            assert forall|nodes: Vec<ContextNode>| #[trigger] w(nodes) <= nodes@.len() by {
                lemma_count_bound(nodes@, active_node(tenant_id@));
            }
            lemma_total_bound(data.personal_context.values(), w);
        }
        let n: usize = data.personal_context.len();
        let sum: u128 = sum_values(&data.personal_context, weigh, Ghost(w));
        proof {
            assert(n <= 0xffff_ffff_ffff_ffff);
            assert(sum <= n * 0xffff_ffff_ffff_ffff);
            assert(n * 0xffff_ffff_ffff_ffff <= 0xffff_ffff_ffff_ffff * 0xffff_ffff_ffff_ffff)
                by (nonlinear_arith)
                requires
                    n <= 0xffff_ffff_ffff_ffff,
            ;
        }
        sum
    } else {
        match owner_user_id {
            Some(owner) => {
                let uid: String = resolver.resolve(tenant_id, owner).personal_context_index_uid;
                match data.personal_context.get(&uid) {
                    Some(nodes) => count_active(nodes, tenant_id) as u128,
                    None => 0,
                }
            },
            None => 0,
        }
    }
}

proof fn lemma_count_bound<T>(s: Seq<T>, p: spec_fn(T) -> bool)
    ensures
        count_where(s, p) <= s.len(),
    decreases s.len(),
{
    if s.len() > 0 {
        lemma_count_bound(s.drop_last(), p);
    }
}

proof fn lemma_total_bound(s: Seq<Vec<ContextNode>>, w: spec_fn(Vec<ContextNode>) -> nat)
    requires
        forall|nodes: Vec<ContextNode>| #[trigger] w(nodes) <= nodes@.len(),
    ensures
        total(s, w) <= s.len() * 0xffff_ffff_ffff_ffff,
    decreases s.len(),
{
    if s.len() > 0 {
        lemma_total_bound(s.drop_last(), w);
        assert(w(s.last()) <= s.last()@.len());
        assert(s.last()@.len() == s.last().len());
        assert(s.last()@.len() <= 0xffff_ffff_ffff_ffff);
    }
}

fn count_blocks(
    t: &Table<SourceDocumentKey, Vec<ParsedBlock>>,
    tenant_id: &str,
    owner_user_id: Option<&str>,
    global: bool,
) -> (r: u128)
    ensures
        r == scoped_blocks(t.rows(), tenant_id@, opt_str(owner_user_id), global),
{
    let n: usize = t.len();
    let mut i: usize = 0;
    let mut sum: u128 = 0;
    let ghost rows = t.rows();
    let ghost owner = opt_str(owner_user_id);
    while i < n
        invariant
            i <= n == rows.len(),
            rows == t.rows(),
            owner == opt_str(owner_user_id),
            sum <= i * 0xffff_ffff_ffff_ffff,
            sum == scoped_blocks(rows.take(i as int), tenant_id@, owner, global),
        decreases n - i,
    {
        assert(rows.take(i + 1).drop_last() =~= rows.take(i as int));
        let key: &SourceDocumentKey = t.key_at(i);
        if text_eq(key.tenant_id.as_str(), tenant_id) && optional_owner_counts(
            &key.owner_user_id,
            owner_user_id,
            global,
        ) {
            sum += t.value_at(i).len() as u128;
        }
        i += 1;
    }
    assert(rows.take(i as int) =~= rows);
    sum
}

fn distinct_snapshot_ids(
    data: &StoreData,
    tenant_id: &str,
    owner_user_id: Option<&str>,
    global: bool,
) -> (r: Vec<String>)
    ensures
        texts(r@) == scoped_snapshot_ids(*data, tenant_id@, opt_str(owner_user_id), global),
{
    let ghost owner = opt_str(owner_user_id);
    let ghost p = |snapshot: StructuredSnapshot|
        snapshot.tenant_id@ == tenant_id@ && owner_in_scope(
            snapshot.owner_user_id@,
            owner,
            global,
        );
    let accept = |snapshot: &StructuredSnapshot| -> (b: bool)
        ensures
            b == p(*snapshot),
        {
            text_eq(snapshot.tenant_id.as_str(), tenant_id) && owner_counts(
                snapshot.owner_user_id.as_str(),
                owner_user_id,
                global,
            )
        };
    let mine: Vec<StructuredSnapshot> = select_values(&data.snapshots, accept, Ghost(p));
    let ghost ids = Seq::new(mine@.len(), |i: int| mine@[i].id@);
    let mut out: Vec<String> = Vec::new();
    let mut i: usize = 0;
    assert(texts(out@) =~= Seq::<Seq<char>>::empty());
    while i < mine.len()
        invariant
            i <= mine.len(),
            ids == Seq::new(mine@.len(), |i: int| mine@[i].id@),
            texts(out@) == distinct(ids.take(i as int)),
        decreases mine.len() - i,
    {
        assert(ids.take(i + 1).drop_last() =~= ids.take(i as int));
        proof {
            texts_push(out@, mine@[i as int].id);
        }
        texts_add(&mut out, mine[i].id.clone());
        i += 1;
    }
    assert(ids.take(i as int) =~= ids);
    out
}

/// Counts what a tenant or one of its owners has stored.
#[verifier::rlimit(60)]
pub fn usage_snapshot(
    data: &StoreData,
    resolver: &EventIndexResolver,
    tenant_id: &str,
    owner_user_id: Option<&str>,
    include_global: bool,
    backend: &str,
    now: i64,
) -> (r: UsageSnapshot)
    ensures
        r.generated_at == now,
        r.scope.tenant_id@ == tenant_id@,
        opt_text(r.scope.owner_user_id) == opt_str(owner_user_id),
        r.scope.global == include_global,
        r.store_backend@ == backend@,
        counts_usage(r, *data, *resolver, tenant_id@, opt_str(owner_user_id), include_global),
{
    let global: bool = include_global;
    let ghost owner = opt_str(owner_user_id);
    let ghost tenant = tenant_id@;
    let hash: Option<String> = match owner_user_id {
        Some(o) => Some(resolver.user_hash(o)),
        None => None,
    };
    let ghost hv = scope_owner_hash(*resolver, owner);
    let ghost in_scope = |index: UserEventIndex| index_in_scope(index, tenant, hv, global);
    let index_counts = |index: &UserEventIndex| -> (b: bool)
        ensures
            b == in_scope(*index),
        {
            text_eq(index.tenant_id.as_str(), tenant_id) && (global || match &hash {
                Some(h) => text_eq(h.as_str(), index.owner_user_id_hash.as_str()),
                None => false,
            })
        };
    let ghost event_weight = |index: UserEventIndex|
        if index_in_scope(index, tenant, hv, global) {
            index.event_count_estimate as nat
        } else {
            0nat
        };
    let weigh_events = |index: &UserEventIndex| -> (n: u64)
        ensures
            n == event_weight(*index),
        {
            if text_eq(index.tenant_id.as_str(), tenant_id) && (global || match &hash {
                Some(h) => text_eq(h.as_str(), index.owner_user_id_hash.as_str()),
                None => false,
            }) {
                index.event_count_estimate
            } else {
                0
            }
        };
    let event_count: u128 = sum_values(&data.user_indexes, weigh_events, Ghost(event_weight));
    let user_event_index_count: usize = count_values(
        &data.user_indexes,
        index_counts,
        Ghost(in_scope),
    );
    let company_context_node_count: usize = if global {
        count_active(&data.company_context, tenant_id)
    } else {
        0
    };
    let private_context_node_count: u128 = count_private(
        data,
        resolver,
        tenant_id,
        owner_user_id,
        global,
    );
    let ghost trace_p = |trace: TraceRecord|
        shared_in_scope(
            trace.tenant_id@,
            opt_text(trace.owner_user_id),
            tenant,
            owner,
            global,
        );
    let trace_counts = |trace: &TraceRecord| -> (b: bool)
        ensures
            b == trace_p(*trace),
        {
            text_eq(trace.tenant_id.as_str(), tenant_id) && optional_owner_counts(
                &trace.owner_user_id,
                owner_user_id,
                global,
            )
        };
    let trace_count: usize = count_values(&data.traces, trace_counts, Ghost(trace_p));
    let ghost link_p = |link: KnowledgeLink|
        shared_in_scope(
            link.tenant_id@,
            opt_text(link.owner_user_id),
            tenant,
            owner,
            global,
        );
    let link_counts = |link: &KnowledgeLink| -> (b: bool)
        ensures
            b == link_p(*link),
        {
            text_eq(link.tenant_id.as_str(), tenant_id) && optional_owner_counts(
                &link.owner_user_id,
                owner_user_id,
                global,
            )
        };
    let link_count: usize = count_values(&data.links, link_counts, Ghost(link_p));
    let ghost task_p = |task: IngestTask| task_in_scope(task, tenant, owner, global);
    let task_counts = |task: &IngestTask| -> (b: bool)
        ensures
            b == task_p(*task),
        {
            text_eq(task.tenant_id.as_str(), tenant_id) && optional_owner_counts(
                &task.owner_user_id,
                owner_user_id,
                global,
            )
        };
    let task_count: usize = count_values(&data.ingest_tasks, task_counts, Ghost(task_p));
    let ghost artifact_p = |artifact: ParseArtifact|
        shared_in_scope(
            artifact.tenant_id@,
            opt_text(artifact.owner_user_id),
            tenant,
            owner,
            global,
        );
    let artifact_counts = |artifact: &ParseArtifact| -> (b: bool)
        ensures
            b == artifact_p(*artifact),
        {
            text_eq(artifact.tenant_id.as_str(), tenant_id) && optional_owner_counts(
                &artifact.owner_user_id,
                owner_user_id,
                global,
            )
        };
    let parse_artifact_count: usize = count_values(
        &data.parse_artifacts,
        artifact_counts,
        Ghost(artifact_p),
    );
    let ghost dataset_p = |dataset: DatasetRecord| dataset_in_scope(dataset, tenant);
    let dataset_counts = |dataset: &DatasetRecord| -> (b: bool)
        ensures
            b == dataset_p(*dataset),
        { text_eq(dataset.tenant_id.as_str(), tenant_id) };
    let dataset_count: usize = if global {
        count_values(&data.datasets, dataset_counts, Ghost(dataset_p))
    } else {
        0
    };
    let ids: Vec<String> = distinct_snapshot_ids(data, tenant_id, owner_user_id, global);
    assert(texts(ids@).len() == ids@.len());
    let ghost row_weight = |snapshot: StructuredSnapshot|
        if scoped_snapshot_ids(*data, tenant, owner, global).contains(snapshot.id@) {
            snapshot.row_count as nat
        } else {
            0nat
        };
    let weigh_rows = |snapshot: &StructuredSnapshot| -> (n: u64)
        ensures
            n == row_weight(*snapshot),
        {
            if texts_contain(&ids, snapshot.id.as_str()) {
                snapshot.row_count as u64
            } else {
                0
            }
        };
    let row_count: u128 = sum_values(&data.snapshots, weigh_rows, Ghost(row_weight));
    let ghost summary_p = |summary: Json| summary_in_scope(summary, tenant, owner, global);
    let summary_counts = |summary: &Json| -> (b: bool)
        ensures
            b == summary_p(*summary),
        {
            (match summary.text_of("tenant_id") {
                Some(t) => text_eq(t, tenant_id),
                None => false,
            }) && match summary.text_of("owner_user_id") {
                Some(o) => owner_counts(o, owner_user_id, global),
                None => false,
            }
        };
    let summary_count: usize = count_values(
        &data.structured_summaries,
        summary_counts,
        Ghost(summary_p),
    );
    let ghost state_p = |item: StateItem|
        summary_item_in_scope(item, tenant, owner, global);
    let state_counts = |item: &StateItem| -> (b: bool)
        ensures
            b == state_p(*item),
        {
            text_eq(item.tenant_id.as_str(), tenant_id) && text_eq(
                item.state_type.as_str(),
                "structured_summary",
            ) && owner_counts(item.owner_user_id.as_str(), owner_user_id, global)
        };
    let structured_state_item_count: usize = count_values(
        &data.state_items,
        state_counts,
        Ghost(state_p),
    );
    let ghost session_p = |session: SessionRecord|
        private_in_scope(
            session.tenant_id@,
            session.owner_user_id@,
            tenant,
            owner,
            global,
        );
    let session_counts = |session: &SessionRecord| -> (b: bool)
        ensures
            b == session_p(*session),
        {
            text_eq(session.tenant_id.as_str(), tenant_id) && owner_counts(
                session.owner_user_id.as_str(),
                owner_user_id,
                global,
            )
        };
    let session_count: usize = count_values(&data.sessions, session_counts, Ghost(session_p));
    let ghost message_weight = |session: SessionRecord|
        if private_in_scope(
            session.tenant_id@,
            session.owner_user_id@,
            tenant,
            owner,
            global,
        ) {
            session.messages@.len()
        } else {
            0nat
        };
    let weigh_messages = |session: &SessionRecord| -> (n: u64)
        ensures
            n == message_weight(*session),
        {
            if text_eq(session.tenant_id.as_str(), tenant_id) && owner_counts(
                session.owner_user_id.as_str(),
                owner_user_id,
                global,
            ) {
                session.messages.len() as u64
            } else {
                0
            }
        };
    let message_count: u128 = sum_values(&data.sessions, weigh_messages, Ghost(message_weight));
    UsageSnapshot {
        generated_at: now,
        scope: UsageScope {
            tenant_id: tenant_id.to_owned(),
            owner_user_id: opt_owned(owner_user_id),
            global,
        },
        store_backend: backend.to_owned(),
        event_count,
        user_event_index_count,
        company_context_node_count,
        private_context_node_count,
        context_node_count: private_context_node_count + company_context_node_count as u128,
        trace_count,
        link_count,
        task_count,
        queued: count_tasks_in_state(data, tenant_id, owner_user_id, global, "queued"),
        parsing: count_tasks_in_state(data, tenant_id, owner_user_id, global, "parsing"),
        parsed: count_tasks_in_state(data, tenant_id, owner_user_id, global, "parsed"),
        fragmenting: count_tasks_in_state(data, tenant_id, owner_user_id, global, "fragmenting"),
        indexing: count_tasks_in_state(data, tenant_id, owner_user_id, global, "indexing"),
        completed: count_tasks_in_state(data, tenant_id, owner_user_id, global, "completed"),
        failed: count_tasks_in_state(data, tenant_id, owner_user_id, global, "failed"),
        parse_artifact_count,
        parsed_block_count: count_blocks(&data.parsed_blocks, tenant_id, owner_user_id, global),
        dataset_count,
        snapshot_count: ids.len(),
        row_count,
        summary_count,
        structured_state_item_count,
        session_count,
        message_count,
    }
}

} // verus!
