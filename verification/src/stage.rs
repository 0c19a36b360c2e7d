//! Making what was loaded for a tenant the state of the store.

use vstd::prelude::*;
use vstd::string::*;

use crate::data::{DocumentKeyView, ParseArtifactKey, SourceDocumentKey, StoreData};
use crate::grouping::{filter_lists, filtered_lists, lists_kept, regroup, regrouped};
use crate::harness::{
    bootstrap_harness_revision_id, bootstrap_id, default_ids, is_default_component, seeded,
};
use crate::hydration::{HydrationReport, HydrationStage};
use crate::json::{text_member, Json};
use crate::merge::{insert_rows, inserted_all};
use crate::model::harness::HarnessComponentRevision;
use crate::model::ingest::{IngestTaskResult, ParseArtifact, ParsedBlock, SourceRevision};
use crate::model::knowledge::{ContextNode, HistoryEvent, StructuredSnapshot, UserEventIndex};
use crate::model::operation::OperationRecord;
use crate::order::{put_first, put_where, retain, sort_by, sorted_by};
use crate::record::{copy_all, select_values, Row};
use crate::recovery::result_artifacts;
use crate::table::{ensure_list, kept, list_at, lists, Table, TableKey};
use crate::text::{opt_text, text_eq, texts, texts_contain};

verus! {

/// The rows that belong to other tenants.
pub open spec fn of_others<K: TableKey, R: Row<K>>(m: Map<K::V, R>, tenant_id: Seq<char>) -> Map<
    K::V,
    R,
> {
    kept(m, |k: K::V, v: R| v.tenant() != tenant_id)
}

/// The rows of a tenant replaced by `rows`.
pub open spec fn replaced<K: TableKey, R: Row<K>>(
    m: Map<K::V, R>,
    rows: Seq<R>,
    tenant_id: Seq<char>,
) -> Map<K::V, R> {
    inserted_all::<K, R>(of_others::<K, R>(m, tenant_id), rows)
}

/// Removes the rows of a tenant.
pub fn drop_tenant_rows<K: TableKey, R: Row<K>>(t: &mut Table<K, R>, tenant_id: &str)
    ensures
        final(t)@ == of_others::<K, R>(old(t)@, tenant_id@),
{
    let ghost p = |k: K::V, v: R| v.tenant() != tenant_id@;
    let keep = |k: &K, v: &R| -> (b: bool)
        ensures
            b == p(k@, *v),
        { !text_eq(v.tenant_of(), tenant_id) };
    t.retain(keep, Ghost(p));
}

/// Replaces the rows of a tenant by `rows`.
pub fn replace_tenant_rows<K: TableKey, R: Row<K>>(
    t: &mut Table<K, R>,
    rows: &Vec<R>,
    tenant_id: &str,
)
    ensures
        final(t)@ == replaced::<K, R>(old(t)@, rows@, tenant_id@),
{
    drop_tenant_rows(t, tenant_id);
    insert_rows(t, rows);
}

/// What is not under one of `names`.
pub open spec fn not_named<V>(m: Map<Seq<char>, V>, names: Seq<Seq<char>>) -> Map<Seq<char>, V> {
    kept(m, |k: Seq<char>, v: V| !names.contains(k))
}

fn drop_named<V>(t: &mut Table<String, V>, names: &Vec<String>)
    ensures
        final(t)@ == not_named(old(t)@, texts(names@)),
{
    let ghost p = |k: Seq<char>, v: V| !texts(names@).contains(k);
    let keep = |k: &String, v: &V| -> (b: bool)
        ensures
            b == p(k@, *v),
        { !texts_contain(names, k.as_str()) };
    t.retain(keep, Ghost(p));
}

/// What is not under a pair that starts with one of `names`.
pub open spec fn not_named_first<V>(
    m: Map<(Seq<char>, Seq<char>), V>,
    names: Seq<Seq<char>>,
) -> Map<(Seq<char>, Seq<char>), V> {
    kept(m, |k: (Seq<char>, Seq<char>), v: V| !names.contains(k.0))
}

fn drop_named_first<V>(t: &mut Table<(String, String), V>, names: &Vec<String>)
    ensures
        final(t)@ == not_named_first(old(t)@, texts(names@)),
{
    let ghost p = |k: (Seq<char>, Seq<char>), v: V| !texts(names@).contains(k.0);
    let keep = |k: &(String, String), v: &V| -> (b: bool)
        ensures
            b == p(k@, *v),
        { !texts_contain(names, k.0.as_str()) };
    t.retain(keep, Ghost(p));
}

/// What is under a pair that does not start with `name`.
pub open spec fn pairs_of_others<V>(m: Map<(Seq<char>, Seq<char>), V>, name: Seq<char>) -> Map<
    (Seq<char>, Seq<char>),
    V,
> {
    kept(m, |k: (Seq<char>, Seq<char>), v: V| k.0 != name)
}

fn drop_pairs<V>(t: &mut Table<(String, String), V>, name: &str)
    ensures
        final(t)@ == pairs_of_others(old(t)@, name@),
{
    let ghost p = |k: (Seq<char>, Seq<char>), v: V| k.0 != name@;
    let keep = |k: &(String, String), v: &V| -> (b: bool)
        ensures
            b == p(k@, *v),
        { !text_eq(k.0.as_str(), name) };
    t.retain(keep, Ghost(p));
}

/// What is under a triple that does not start with `name`.
pub open spec fn triples_of_others<V>(
    m: Map<(Seq<char>, Seq<char>, Seq<char>), V>,
    name: Seq<char>,
) -> Map<(Seq<char>, Seq<char>, Seq<char>), V> {
    kept(m, |k: (Seq<char>, Seq<char>, Seq<char>), v: V| k.0 != name)
}

fn drop_triples<V>(t: &mut Table<(String, String, String), V>, name: &str)
    ensures
        final(t)@ == triples_of_others(old(t)@, name@),
{
    let ghost p = |k: (Seq<char>, Seq<char>, Seq<char>), v: V| k.0 != name@;
    let keep = |k: &(String, String, String), v: &V| -> (b: bool)
        ensures
            b == p(k@, *v),
        { !text_eq(k.0.as_str(), name) };
    t.retain(keep, Ghost(p));
}

/// The operations put under their ids one after the other.
pub open spec fn operations_put(
    m: Map<Seq<char>, OperationRecord>,
    operations: Seq<OperationRecord>,
) -> Map<Seq<char>, OperationRecord>
    decreases operations.len(),
{
    if operations.len() == 0 {
        m
    } else {
        operations_put(m, operations.drop_last()).insert(
            operations.last().id@,
            operations.last(),
        )
    }
}

/// The operations of other tenants.
pub open spec fn operations_of_others(
    m: Map<Seq<char>, OperationRecord>,
    tenant_id: Seq<char>,
) -> Map<Seq<char>, OperationRecord> {
    kept(m, |k: Seq<char>, v: OperationRecord| v.tenant_id@ != tenant_id)
}

fn load_operations(
    t: &mut Table<String, OperationRecord>,
    operations: &Vec<OperationRecord>,
    tenant_id: &str,
)
    ensures
        final(t)@ == operations_put(operations_of_others(old(t)@, tenant_id@), operations@),
{
    let ghost p = |k: Seq<char>, v: OperationRecord| v.tenant_id@ != tenant_id@;
    let keep = |k: &String, v: &OperationRecord| -> (b: bool)
        ensures
            b == p(k@, *v),
        { !text_eq(v.tenant_id.as_str(), tenant_id) };
    t.retain(keep, Ghost(p));
    let ghost start = t@;
    let mut i: usize = 0;
    while i < operations.len()
        invariant
            i <= operations.len(),
            t@ == operations_put(start, operations@.take(i as int)),
        decreases operations.len() - i,
    {
        t.insert(operations[i].id.clone(), operations[i].clone());
        i += 1;
        assert(operations@.take(i as int).drop_last() =~= operations@.take(i - 1));
    }
    assert(operations@.take(i as int) =~= operations@);
}

/// The indexes of a tenant.
pub open spec fn indexes_of(values: Seq<UserEventIndex>, tenant_id: Seq<char>) -> Seq<
    UserEventIndex,
> {
    values.filter(|index: UserEventIndex| index.tenant_id@ == tenant_id)
}

/// The event indexes by name.
pub open spec fn event_uids(s: Seq<UserEventIndex>) -> Seq<Seq<char>> {
    Seq::new(s.len(), |i: int| s[i].event_index_uid@)
}

/// The personal context indexes by name.
pub open spec fn context_uids(s: Seq<UserEventIndex>) -> Seq<Seq<char>> {
    Seq::new(s.len(), |i: int| s[i].personal_context_index_uid@)
}

fn uids(indexes: &Vec<UserEventIndex>) -> (r: (Vec<String>, Vec<String>))
    ensures
        texts(r.0@) == event_uids(indexes@),
        texts(r.1@) == context_uids(indexes@),
{
    let mut events: Vec<String> = Vec::new();
    let mut contexts: Vec<String> = Vec::new();
    let mut i: usize = 0;
    while i < indexes.len()
        invariant
            i <= indexes.len(),
            events@.len() == i,
            contexts@.len() == i,
            forall|j: int| 0 <= j < i ==> (#[trigger] events@[j])@ == indexes@[j].event_index_uid@,
            forall|j: int|
                0 <= j < i ==> (#[trigger] contexts@[j])@
                    == indexes@[j].personal_context_index_uid@,
        decreases indexes.len() - i,
    {
        events.push(indexes[i].event_index_uid.clone());
        contexts.push(indexes[i].personal_context_index_uid.clone());
        i += 1;
    }
    assert(texts(events@) =~= event_uids(indexes@));
    assert(texts(contexts@) =~= context_uids(indexes@));
    (events, contexts)
}

/// The lists with one, maybe empty, under each of `names`.
pub open spec fn with_lists<V>(m: Map<Seq<char>, Seq<V>>, names: Seq<Seq<char>>) -> Map<
    Seq<char>,
    Seq<V>,
>
    decreases names.len(),
{
    if names.len() == 0 {
        m
    } else {
        let rest = with_lists(m, names.drop_last());
        rest.insert(names.last(), list_at(rest, names.last()))
    }
}

fn ensure_lists<V>(t: &mut Table<String, Vec<V>>, names: &Vec<String>)
    ensures
        lists(final(t)@) == with_lists(lists(old(t)@), texts(names@)),
{
    let mut i: usize = 0;
    let ghost all = texts(names@);
    while i < names.len()
        invariant
            i <= names.len(),
            all == texts(names@),
            lists(t@) == with_lists(lists(old(t)@), all.take(i as int)),
        decreases names.len() - i,
    {
        assert(all.take(i + 1).drop_last() =~= all.take(i as int));
        ensure_list(t, names[i].clone());
        i += 1;
    }
    assert(all.take(i as int) =~= all);
}

/// What is stored of events and personal context after the indexes of a tenant were loaded: the
/// indexes of the tenant are as loaded, and nothing is left of what they held.
pub open spec fn indexes_loaded(
    before: StoreData,
    after: StoreData,
    indexes: Seq<UserEventIndex>,
    tenant_id: Seq<char>,
) -> bool {
    let stale = indexes_of(before.user_indexes.values(), tenant_id);
    &&& after.event_by_id@ == of_others::<String, HistoryEvent>(before.event_by_id@, tenant_id)
    &&& after.event_idempotency@ == not_named_first(before.event_idempotency@, event_uids(stale))
    &&& lists(after.events_by_index@) == with_lists(
        not_named(lists(before.events_by_index@), event_uids(stale)),
        event_uids(indexes),
    )
    &&& lists(after.personal_context@) == not_named(
        lists(before.personal_context@),
        context_uids(stale),
    )
    &&& after.personal_context_loaded@ == not_named(
        before.personal_context_loaded@,
        context_uids(stale),
    )
    &&& after.user_indexes@ == inserted_all::<(String, String), UserEventIndex>(
        pairs_of_others(before.user_indexes@, tenant_id),
        indexes,
    )
}

proof fn lemma_lists_not_named<V>(m: Map<Seq<char>, Vec<V>>, names: Seq<Seq<char>>)
    ensures
        lists(not_named(m, names)) == not_named(lists(m), names),
{
    let p = |k: Seq<char>, v: Vec<V>| !names.contains(k);
    let q = |k: Seq<char>, v: Seq<V>| !names.contains(k);
    lists_kept(m, p, q);
}

fn load_indexes(data: &mut StoreData, indexes: &Vec<UserEventIndex>, tenant_id: &str)
    ensures
        *final(data) == (StoreData {
            event_by_id: final(data).event_by_id,
            event_idempotency: final(data).event_idempotency,
            events_by_index: final(data).events_by_index,
            personal_context: final(data).personal_context,
            personal_context_loaded: final(data).personal_context_loaded,
            user_indexes: final(data).user_indexes,
            ..*old(data)
        }),
        indexes_loaded(*old(data), *final(data), indexes@, tenant_id@),
{
    let ghost p = |index: UserEventIndex| index.tenant_id@ == tenant_id@;
    let accept = |index: &UserEventIndex| -> (b: bool)
        ensures
            b == p(*index),
        { text_eq(index.tenant_id.as_str(), tenant_id) };
    let stale: Vec<UserEventIndex> = select_values(&data.user_indexes, accept, Ghost(p));
    let (stale_events, stale_contexts): (Vec<String>, Vec<String>) = uids(&stale);
    let (new_events, _new_contexts): (Vec<String>, Vec<String>) = uids(indexes);
    drop_tenant_rows(&mut data.event_by_id, tenant_id);
    drop_named_first(&mut data.event_idempotency, &stale_events);
    proof {
        lemma_lists_not_named(data.events_by_index@, texts(stale_events@));
        lemma_lists_not_named(data.personal_context@, texts(stale_contexts@));
    }
    drop_named(&mut data.events_by_index, &stale_events);
    drop_named(&mut data.personal_context, &stale_contexts);
    drop_named(&mut data.personal_context_loaded, &stale_contexts);
    drop_pairs(&mut data.user_indexes, tenant_id);
    ensure_lists(&mut data.events_by_index, &new_events);
    insert_rows(&mut data.user_indexes, indexes);
}

/// Whether a node is of another tenant.
pub open spec fn node_of_another_tenant(tenant_id: Seq<char>) -> spec_fn(ContextNode) -> bool {
    |node: ContextNode| node.tenant_id@ != tenant_id
}

/// The company context with the nodes of a tenant replaced.
pub open spec fn nodes_loaded(
    before: Seq<ContextNode>,
    nodes: Seq<ContextNode>,
    tenant_id: Seq<char>,
) -> Seq<ContextNode> {
    before.filter(node_of_another_tenant(tenant_id)) + nodes
}

fn load_nodes(target: &mut Vec<ContextNode>, nodes: &Vec<ContextNode>, tenant_id: &str)
    ensures
        final(target)@ == nodes_loaded(old(target)@, nodes@, tenant_id@),
{
    let ghost p = node_of_another_tenant(tenant_id@);
    let keep = |node: &ContextNode| -> (b: bool)
        ensures
            b == p(*node),
        { !text_eq(node.tenant_id.as_str(), tenant_id) };
    retain(target, keep, Ghost(p));
    let mut more: Vec<ContextNode> = copy_all(nodes);
    target.append(&mut more);
}

/// A list of revisions with those of a tenant behind it, by age.
pub open spec fn revisions_appended(a: Seq<SourceRevision>, b: Seq<SourceRevision>) -> Seq<
    SourceRevision,
> {
    a + sorted_by(b, |x: SourceRevision, y: SourceRevision| x.created_at < y.created_at)
}

/// The revision lists with the revisions of a tenant replaced: those of others stay in front, and
/// no list is left empty.
pub open spec fn revisions_loaded(
    m: Map<Seq<char>, Seq<SourceRevision>>,
    revisions: Seq<SourceRevision>,
    tenant_id: Seq<char>,
) -> Map<Seq<char>, Seq<SourceRevision>> {
    regrouped(
        filtered_lists(m, |k: Seq<char>, r: SourceRevision| r.tenant_id@ != tenant_id),
        revisions,
        |r: SourceRevision| r.source_id@,
        |a: Seq<SourceRevision>, b: Seq<SourceRevision>| revisions_appended(a, b),
    )
}

fn append_revisions(a: Vec<SourceRevision>, b: Vec<SourceRevision>) -> (r: Vec<SourceRevision>)
    ensures
        r@ == revisions_appended(a@, b@),
{
    let ghost lt = |x: SourceRevision, y: SourceRevision| x.created_at < y.created_at;
    let earlier = |x: &SourceRevision, y: &SourceRevision| -> (c: bool)
        ensures
            c == lt(*x, *y),
        { x.created_at < y.created_at };
    let mut sorted: Vec<SourceRevision> = sort_by(b, earlier, Ghost(lt));
    let mut out: Vec<SourceRevision> = a;
    out.append(&mut sorted);
    out
}

fn load_revisions(
    t: &mut Table<String, Vec<SourceRevision>>,
    revisions: &Vec<SourceRevision>,
    tenant_id: &str,
)
    ensures
        lists(final(t)@) == revisions_loaded(lists(old(t)@), revisions@, tenant_id@),
{
    let ghost p = |k: Seq<char>, r: SourceRevision| r.tenant_id@ != tenant_id@;
    let keep = |k: &String, r: &SourceRevision| -> (b: bool)
        ensures
            b == p(k@, *r),
        { !text_eq(r.tenant_id.as_str(), tenant_id) };
    filter_lists(t, keep, Ghost(p));
    let ghost key = |r: SourceRevision| r.source_id@;
    let ghost combine = |a: Seq<SourceRevision>, b: Seq<SourceRevision>| revisions_appended(a, b);
    let key_of = |r: &SourceRevision| -> (k: String)
        ensures
            k@ == key(*r),
        { r.source_id.clone() };
    let put_together = |a: Vec<SourceRevision>, b: Vec<SourceRevision>| -> (c: Vec<SourceRevision>)
        ensures
            c@ == combine(a@, b@),
        { append_revisions(a, b) };
    regroup(t, revisions, key_of, put_together, Ghost(key), Ghost(combine));
}

/// Revisions put in one after the other, each in the place of the one with its tenant and id.
pub open spec fn revisions_put(
    a: Seq<HarnessComponentRevision>,
    b: Seq<HarnessComponentRevision>,
) -> Seq<HarnessComponentRevision>
    decreases b.len(),
{
    if b.len() == 0 {
        a
    } else {
        let x = b.last();
        put_first(
            revisions_put(a, b.drop_last()),
            x,
            |r: HarnessComponentRevision| r.tenant_id@ == x.tenant_id@ && r.id@ == x.id@,
        )
    }
}

/// The order of revisions by iteration.
pub open spec fn by_iteration() -> spec_fn(
    HarnessComponentRevision,
    HarnessComponentRevision,
) -> bool {
    |x: HarnessComponentRevision, y: HarnessComponentRevision| x.iteration < y.iteration
}

/// The revisions of a component with loaded ones put in, by iteration.
pub open spec fn revisions_merged(
    a: Seq<HarnessComponentRevision>,
    b: Seq<HarnessComponentRevision>,
) -> Seq<HarnessComponentRevision> {
    sorted_by(revisions_put(a, sorted_by(b, by_iteration())), by_iteration())
}

fn sort_by_iteration(v: Vec<HarnessComponentRevision>) -> (r: Vec<HarnessComponentRevision>)
    ensures
        r@ == sorted_by(v@, by_iteration()),
{
    let ghost lt = by_iteration();
    let earlier = |x: &HarnessComponentRevision, y: &HarnessComponentRevision| -> (c: bool)
        ensures
            c == lt(*x, *y),
        { x.iteration < y.iteration };
    sort_by(v, earlier, Ghost(lt))
}

fn put_revision(list: &mut Vec<HarnessComponentRevision>, x: &HarnessComponentRevision)
    ensures
        final(list)@ == put_first(
            old(list)@,
            *x,
            |r: HarnessComponentRevision| r.tenant_id@ == x.tenant_id@ && r.id@ == x.id@,
        ),
{
    let ghost p = |r: HarnessComponentRevision| r.tenant_id@ == x.tenant_id@ && r.id@ == x.id@;
    let accept = |r: &HarnessComponentRevision| -> (c: bool)
        ensures
            c == p(*r),
        {
            text_eq(r.tenant_id.as_str(), x.tenant_id.as_str()) && text_eq(
                r.id.as_str(),
                x.id.as_str(),
            )
        };
    put_where(list, x.clone(), accept, Ghost(p));
}

fn merge_revisions(a: Vec<HarnessComponentRevision>, b: Vec<HarnessComponentRevision>) -> (r: Vec<
    HarnessComponentRevision,
>)
    ensures
        r@ == revisions_merged(a@, b@),
{
    let ghost a0 = a@;
    let sorted: Vec<HarnessComponentRevision> = sort_by_iteration(b);
    let mut out: Vec<HarnessComponentRevision> = a;
    let mut i: usize = 0;
    while i < sorted.len()
        invariant
            i <= sorted.len(),
            out@ == revisions_put(a0, sorted@.take(i as int)),
        decreases sorted.len() - i,
    {
        put_revision(&mut out, &sorted[i]);
        i += 1;
        assert(sorted@.take(i as int).drop_last() =~= sorted@.take(i - 1));
    }
    assert(sorted@.take(i as int) =~= sorted@);
    sort_by_iteration(out)
}

/// The ids of the revisions.
pub open spec fn revision_ids(s: Seq<HarnessComponentRevision>) -> Seq<Seq<char>> {
    Seq::new(s.len(), |i: int| s[i].id@)
}

/// The ids of the components.
pub open spec fn component_ids(s: Seq<crate::model::harness::HarnessComponent>) -> Seq<Seq<char>> {
    Seq::new(s.len(), |i: int| s[i].id@)
}

/// The components that stay: those of other tenants, the built-in ones and those that were loaded.
pub open spec fn components_kept(
    m: Map<Seq<char>, crate::model::harness::HarnessComponent>,
    loaded: Seq<Seq<char>>,
    tenant_id: Seq<char>,
) -> Map<Seq<char>, crate::model::harness::HarnessComponent> {
    kept(
        m,
        |k: Seq<char>, c: crate::model::harness::HarnessComponent|
            c.tenant_id@ != tenant_id || default_ids().contains(k) || loaded.contains(k),
    )
}

/// Whether a revision stays: it is one of another tenant, a first one of a built-in component, or
/// one that was loaded.
pub open spec fn revision_stays(
    k: Seq<char>,
    r: HarnessComponentRevision,
    loaded: Seq<Seq<char>>,
    tenant_id: Seq<char>,
) -> bool {
    r.tenant_id@ != tenant_id || (default_ids().contains(k) && r.id@ == bootstrap_id(k))
        || loaded.contains(r.id@)
}

/// What is left of the components and revisions before the loaded ones are put in.
pub open spec fn harness_cleared(
    before: StoreData,
    after: StoreData,
    stage: HydrationStage,
    tenant_id: Seq<char>,
) -> bool {
    &&& after == (StoreData {
        harness_components: after.harness_components,
        harness_revisions: after.harness_revisions,
        ..before
    })
    &&& after.harness_components@ == components_kept(
        before.harness_components@,
        component_ids(stage.harness_components@),
        tenant_id,
    )
    &&& lists(after.harness_revisions@) == filtered_lists(
        lists(before.harness_revisions@),
        |k: Seq<char>, r: HarnessComponentRevision|
            revision_stays(k, r, revision_ids(stage.harness_revisions@), tenant_id),
    )
}

/// The loaded components and revisions put in.
pub open spec fn harness_put(before: StoreData, after: StoreData, stage: HydrationStage) -> bool {
    &&& after == (StoreData {
        harness_components: after.harness_components,
        harness_revisions: after.harness_revisions,
        ..before
    })
    &&& after.harness_components@ == inserted_all::<
        String,
        crate::model::harness::HarnessComponent,
    >(before.harness_components@, stage.harness_components@)
    &&& lists(after.harness_revisions@) == regrouped(
        lists(before.harness_revisions@),
        stage.harness_revisions@,
        |r: HarnessComponentRevision| r.component_id@,
        |a: Seq<HarnessComponentRevision>, b: Seq<HarnessComponentRevision>| revisions_merged(a, b),
    )
}

/// The components and revisions of a tenant as loaded; the built-in ones are there in any case.
pub open spec fn harness_loaded(
    before: StoreData,
    after: StoreData,
    stage: HydrationStage,
    tenant_id: Seq<char>,
    now: i64,
) -> bool {
    exists|cleared: StoreData, with_defaults: StoreData|
        {
            &&& #[trigger] harness_cleared(before, cleared, stage, tenant_id)
            &&& seeded(cleared, with_defaults, tenant_id, now)
            &&& #[trigger] harness_put(with_defaults, after, stage)
        }
}

fn ids_of_components(s: &Vec<crate::model::harness::HarnessComponent>) -> (r: Vec<String>)
    ensures
        texts(r@) == component_ids(s@),
{
    let mut out: Vec<String> = Vec::new();
    let mut i: usize = 0;
    while i < s.len()
        invariant
            i <= s.len(),
            out@.len() == i,
            forall|j: int| 0 <= j < i ==> (#[trigger] out@[j])@ == s@[j].id@,
        decreases s.len() - i,
    {
        out.push(s[i].id.clone());
        i += 1;
    }
    assert(texts(out@) =~= component_ids(s@));
    out
}

fn ids_of_revisions(s: &Vec<HarnessComponentRevision>) -> (r: Vec<String>)
    ensures
        texts(r@) == revision_ids(s@),
{
    let mut out: Vec<String> = Vec::new();
    let mut i: usize = 0;
    while i < s.len()
        invariant
            i <= s.len(),
            out@.len() == i,
            forall|j: int| 0 <= j < i ==> (#[trigger] out@[j])@ == s@[j].id@,
        decreases s.len() - i,
    {
        out.push(s[i].id.clone());
        i += 1;
    }
    assert(texts(out@) =~= revision_ids(s@));
    out
}

fn clear_harness(data: &mut StoreData, stage: &HydrationStage, tenant_id: &str)
    ensures
        harness_cleared(*old(data), *final(data), *stage, tenant_id@),
{
    let loaded: Vec<String> = ids_of_components(&stage.harness_components);
    let ghost names = component_ids(stage.harness_components@);
    let ghost p = |k: Seq<char>, c: crate::model::harness::HarnessComponent|
        c.tenant_id@ != tenant_id@ || default_ids().contains(k) || names.contains(k);
    let keep = |k: &String, c: &crate::model::harness::HarnessComponent| -> (b: bool)
        ensures
            b == p(k@, *c),
        {
            !text_eq(c.tenant_id.as_str(), tenant_id) || is_default_component(k.as_str())
                || texts_contain(&loaded, k.as_str())
        };
    data.harness_components.retain(keep, Ghost(p));
    let loaded_revisions: Vec<String> = ids_of_revisions(&stage.harness_revisions);
    let ghost rids = revision_ids(stage.harness_revisions@);
    let ghost q = |k: Seq<char>, r: HarnessComponentRevision|
        revision_stays(k, r, rids, tenant_id@);
    let stays = |k: &String, r: &HarnessComponentRevision| -> (b: bool)
        ensures
            b == q(k@, *r),
        {
            !text_eq(r.tenant_id.as_str(), tenant_id) || (is_default_component(k.as_str())
                && text_eq(r.id.as_str(), bootstrap_harness_revision_id(k.as_str()).as_str()))
                || texts_contain(&loaded_revisions, r.id.as_str())
        };
    filter_lists(&mut data.harness_revisions, stays, Ghost(q));
}

fn put_harness(data: &mut StoreData, stage: &HydrationStage)
    ensures
        harness_put(*old(data), *final(data), *stage),
{
    insert_rows(&mut data.harness_components, &stage.harness_components);
    let ghost key = |r: HarnessComponentRevision| r.component_id@;
    let ghost combine = |a: Seq<HarnessComponentRevision>, b: Seq<HarnessComponentRevision>|
        revisions_merged(a, b);
    let key_of = |r: &HarnessComponentRevision| -> (k: String)
        ensures
            k@ == key(*r),
        { r.component_id.clone() };
    let put_together = |a: Vec<HarnessComponentRevision>, b: Vec<HarnessComponentRevision>| -> (c:
        Vec<HarnessComponentRevision>)
        ensures
            c@ == combine(a@, b@),
        { merge_revisions(a, b) };
    regroup(
        &mut data.harness_revisions,
        &stage.harness_revisions,
        key_of,
        put_together,
        Ghost(key),
        Ghost(combine),
    );
}

fn load_harness(data: &mut StoreData, stage: &HydrationStage, tenant_id: &str, now: i64)
    ensures
        *final(data) == (StoreData {
            harness_components: final(data).harness_components,
            harness_revisions: final(data).harness_revisions,
            ..*old(data)
        }),
        harness_loaded(*old(data), *final(data), *stage, tenant_id@, now),
{
    clear_harness(data, stage, tenant_id);
    let ghost cleared = *data;
    data.seed_harness_components(tenant_id, now);
    let ghost with_defaults = *data;
    put_harness(data, stage);
    assert(harness_cleared(*old(data), cleared, *stage, tenant_id@));
    assert(harness_put(with_defaults, *data, *stage));
}

/// The snapshots of a tenant by id.
pub open spec fn snapshot_ids(values: Seq<StructuredSnapshot>, tenant_id: Seq<char>) -> Seq<
    Seq<char>,
> {
    let s = values.filter(|snapshot: StructuredSnapshot| snapshot.tenant_id@ == tenant_id);
    Seq::new(s.len(), |i: int| s[i].id@)
}

/// The summaries put under their ids one after the other; one without an id is left out.
pub open spec fn summaries_put(m: Map<Seq<char>, Json>, summaries: Seq<Json>) -> Map<Seq<char>, Json>
    decreases summaries.len(),
{
    if summaries.len() == 0 {
        m
    } else {
        let rest = summaries_put(m, summaries.drop_last());
        match text_member(summaries.last(), "id"@) {
            Some(id) => rest.insert(id, summaries.last()),
            None => rest,
        }
    }
}

/// The summaries of other tenants.
pub open spec fn summaries_of_others(m: Map<Seq<char>, Json>, tenant_id: Seq<char>) -> Map<
    Seq<char>,
    Json,
> {
    kept(m, |k: Seq<char>, v: Json| text_member(v, "tenant_id"@) != Some(tenant_id))
}

/// The structured data of a tenant as loaded; nothing is left of the rows of its snapshots.
pub open spec fn structured_loaded(
    before: StoreData,
    after: StoreData,
    stage: HydrationStage,
    tenant_id: Seq<char>,
) -> bool {
    let stale = snapshot_ids(before.snapshots.values(), tenant_id);
    &&& after.datasets@ == replaced::<String, crate::model::knowledge::DatasetRecord>(
        before.datasets@,
        stage.datasets@,
        tenant_id,
    )
    &&& lists(after.rows_by_snapshot@) == not_named(lists(before.rows_by_snapshot@), stale)
    &&& after.row_idempotency@ == not_named_first(before.row_idempotency@, stale)
    &&& after.snapshot_idempotency@ == pairs_of_others(before.snapshot_idempotency@, tenant_id)
    &&& after.snapshots@ == replaced::<String, StructuredSnapshot>(
        before.snapshots@,
        stage.snapshots@,
        tenant_id,
    )
    &&& after.structured_summaries@ == summaries_put(
        summaries_of_others(before.structured_summaries@, tenant_id),
        stage.structured_summaries@,
    )
}

fn load_summaries(t: &mut Table<String, Json>, summaries: &Vec<Json>, tenant_id: &str)
    ensures
        final(t)@ == summaries_put(summaries_of_others(old(t)@, tenant_id@), summaries@),
{
    let ghost p = |k: Seq<char>, v: Json| text_member(v, "tenant_id"@) != Some(tenant_id@);
    let keep = |k: &String, v: &Json| -> (b: bool)
        ensures
            b == p(k@, *v),
        {
            match v.text_of("tenant_id") {
                Some(tenant) => !text_eq(tenant, tenant_id),
                None => true,
            }
        };
    t.retain(keep, Ghost(p));
    let ghost start = t@;
    let mut i: usize = 0;
    while i < summaries.len()
        invariant
            i <= summaries.len(),
            t@ == summaries_put(start, summaries@.take(i as int)),
        decreases summaries.len() - i,
    {
        assert(summaries@.take(i + 1).drop_last() =~= summaries@.take(i as int));
        match summaries[i].text_of("id") {
            Some(id) => {
                t.insert(id.to_owned(), summaries[i].clone());
            },
            None => {},
        }
        i += 1;
    }
    assert(summaries@.take(i as int) =~= summaries@);
}

fn tenant_snapshot_ids(t: &Table<String, StructuredSnapshot>, tenant_id: &str) -> (r: Vec<String>)
    ensures
        texts(r@) == snapshot_ids(t.values(), tenant_id@),
{
    let ghost p = |snapshot: StructuredSnapshot| snapshot.tenant_id@ == tenant_id@;
    let accept = |snapshot: &StructuredSnapshot| -> (b: bool)
        ensures
            b == p(*snapshot),
        { text_eq(snapshot.tenant_id.as_str(), tenant_id) };
    let mine: Vec<StructuredSnapshot> = select_values(t, accept, Ghost(p));
    let mut out: Vec<String> = Vec::new();
    let mut i: usize = 0;
    while i < mine.len()
        invariant
            i <= mine.len(),
            out@.len() == i,
            forall|j: int| 0 <= j < i ==> (#[trigger] out@[j])@ == mine@[j].id@,
        decreases mine.len() - i,
    {
        out.push(mine[i].id.clone());
        i += 1;
    }
    assert(texts(out@) =~= snapshot_ids(t.values(), tenant_id@));
    out
}

fn load_structured(data: &mut StoreData, stage: &HydrationStage, tenant_id: &str)
    ensures
        *final(data) == (StoreData {
            datasets: final(data).datasets,
            rows_by_snapshot: final(data).rows_by_snapshot,
            row_idempotency: final(data).row_idempotency,
            snapshot_idempotency: final(data).snapshot_idempotency,
            snapshots: final(data).snapshots,
            structured_summaries: final(data).structured_summaries,
            ..*old(data)
        }),
        structured_loaded(*old(data), *final(data), *stage, tenant_id@),
{
    replace_tenant_rows(&mut data.datasets, &stage.datasets, tenant_id);
    let stale: Vec<String> = tenant_snapshot_ids(&data.snapshots, tenant_id);
    proof {
        lemma_lists_not_named(data.rows_by_snapshot@, texts(stale@));
    }
    drop_named(&mut data.rows_by_snapshot, &stale);
    drop_named_first(&mut data.row_idempotency, &stale);
    drop_pairs(&mut data.snapshot_idempotency, tenant_id);
    replace_tenant_rows(&mut data.snapshots, &stage.snapshots, tenant_id);
    load_summaries(&mut data.structured_summaries, &stage.structured_summaries, tenant_id);
}

/// The key of the document that a result was made for.
pub open spec fn result_key(result: IngestTaskResult) -> DocumentKeyView {
    DocumentKeyView {
        tenant_id: result.task.tenant_id@,
        owner_user_id: opt_text(result.task.owner_user_id),
        uri: result.source_document_uri@,
    }
}

/// The blocks of the results put under their documents one after the other.
pub open spec fn blocks_put(
    m: Map<DocumentKeyView, Seq<ParsedBlock>>,
    results: Seq<IngestTaskResult>,
) -> Map<DocumentKeyView, Seq<ParsedBlock>>
    decreases results.len(),
{
    if results.len() == 0 {
        m
    } else {
        blocks_put(m, results.drop_last()).insert(
            result_key(results.last()),
            results.last().parsed_blocks@,
        )
    }
}

/// The blocks of the documents of other tenants.
pub open spec fn blocks_of_others(
    m: Map<DocumentKeyView, Seq<ParsedBlock>>,
    tenant_id: Seq<char>,
) -> Map<DocumentKeyView, Seq<ParsedBlock>> {
    kept(m, |k: DocumentKeyView, v: Seq<ParsedBlock>| k.tenant_id != tenant_id)
}

/// What was ingested for a tenant as loaded; the artifacts of a result are stored with it.
pub open spec fn ingest_loaded(
    before: StoreData,
    after: StoreData,
    stage: HydrationStage,
    tenant_id: Seq<char>,
) -> bool {
    &&& after.ingest_tasks@ == replaced::<String, crate::model::ingest::IngestTask>(
        before.ingest_tasks@,
        stage.ingest_tasks@,
        tenant_id,
    )
    &&& after.ingest_results@ == replaced::<String, IngestTaskResult>(
        before.ingest_results@,
        stage.ingest_results@,
        tenant_id,
    )
    &&& after.parse_artifacts@ == inserted_all::<ParseArtifactKey, ParseArtifact>(
        replaced::<ParseArtifactKey, ParseArtifact>(
            before.parse_artifacts@,
            stage.parse_artifacts@,
            tenant_id,
        ),
        result_artifacts(stage.ingest_results@),
    )
    &&& lists(after.parsed_blocks@) == blocks_put(
        blocks_of_others(lists(before.parsed_blocks@), tenant_id),
        stage.ingest_results@,
    )
}

fn load_blocks(
    t: &mut Table<SourceDocumentKey, Vec<ParsedBlock>>,
    results: &Vec<IngestTaskResult>,
    tenant_id: &str,
)
    ensures
        lists(final(t)@) == blocks_put(blocks_of_others(lists(old(t)@), tenant_id@), results@),
{
    let ghost p = |k: DocumentKeyView, v: Vec<ParsedBlock>| k.tenant_id != tenant_id@;
    let ghost q = |k: DocumentKeyView, v: Seq<ParsedBlock>| k.tenant_id != tenant_id@;
    let keep = |k: &SourceDocumentKey, v: &Vec<ParsedBlock>| -> (b: bool)
        ensures
            b == p(k@, *v),
        { !text_eq(k.tenant_id.as_str(), tenant_id) };
    proof {
        lists_kept(t@, p, q);
    }
    t.retain(keep, Ghost(p));
    let ghost start = lists(t@);
    let mut i: usize = 0;
    while i < results.len()
        invariant
            i <= results.len(),
            lists(t@) == blocks_put(start, results@.take(i as int)),
        decreases results.len() - i,
    {
        assert(results@.take(i + 1).drop_last() =~= results@.take(i as int));
        let result: &IngestTaskResult = &results[i];
        let key: SourceDocumentKey = SourceDocumentKey {
            tenant_id: result.task.tenant_id.clone(),
            owner_user_id: result.task.owner_user_id.clone(),
            uri: result.source_document_uri.clone(),
        };
        let blocks: Vec<ParsedBlock> = copy_all(&result.parsed_blocks);
        let ghost before = t@;
        let ghost kv = key@;
        let ghost content = blocks;
        t.insert(key, blocks);
        assert(lists(t@) =~= lists(before).insert(kv, content@));
        assert(kv == result_key(*result));
        i += 1;
    }
    assert(results@.take(i as int) =~= results@);
}

proof fn lemma_inserted_concat<K: TableKey, R: Row<K>>(m: Map<K::V, R>, a: Seq<R>, b: Seq<R>)
    ensures
        inserted_all::<K, R>(inserted_all::<K, R>(m, a), b) == inserted_all::<K, R>(m, a + b),
    decreases b.len(),
{
    if b.len() == 0 {
        assert(a + b =~= a);
    } else {
        lemma_inserted_concat::<K, R>(m, a, b.drop_last());
        assert((a + b).drop_last() =~= a + b.drop_last());
        assert((a + b).last() == b.last());
    }
}

fn load_result_artifacts(
    t: &mut Table<ParseArtifactKey, ParseArtifact>,
    results: &Vec<IngestTaskResult>,
)
    ensures
        final(t)@ == inserted_all::<ParseArtifactKey, ParseArtifact>(
            old(t)@,
            result_artifacts(results@),
        ),
{
    let mut i: usize = 0;
    while i < results.len()
        invariant
            i <= results.len(),
            t@ == inserted_all::<ParseArtifactKey, ParseArtifact>(
                old(t)@,
                result_artifacts(results@.take(i as int)),
            ),
        decreases results.len() - i,
    {
        assert(results@.take(i + 1).drop_last() =~= results@.take(i as int));
        proof {
            lemma_inserted_concat::<ParseArtifactKey, ParseArtifact>(
                old(t)@,
                result_artifacts(results@.take(i as int)),
                results@[i as int].parse_artifacts@,
            );
        }
        insert_rows(t, &results[i].parse_artifacts);
        i += 1;
    }
    assert(results@.take(i as int) =~= results@);
}

fn load_ingest(data: &mut StoreData, stage: &HydrationStage, tenant_id: &str)
    ensures
        *final(data) == (StoreData {
            ingest_tasks: final(data).ingest_tasks,
            ingest_results: final(data).ingest_results,
            parse_artifacts: final(data).parse_artifacts,
            parsed_blocks: final(data).parsed_blocks,
            ..*old(data)
        }),
        ingest_loaded(*old(data), *final(data), *stage, tenant_id@),
{
    replace_tenant_rows(&mut data.ingest_tasks, &stage.ingest_tasks, tenant_id);
    replace_tenant_rows(&mut data.ingest_results, &stage.ingest_results, tenant_id);
    replace_tenant_rows(&mut data.parse_artifacts, &stage.parse_artifacts, tenant_id);
    load_result_artifacts(&mut data.parse_artifacts, &stage.ingest_results);
    load_blocks(&mut data.parsed_blocks, &stage.ingest_results, tenant_id);
}

/// What is known of a tenant as loaded.
pub open spec fn knowledge_loaded(
    before: StoreData,
    after: StoreData,
    stage: HydrationStage,
    tenant_id: Seq<char>,
) -> bool {
    &&& after.company_context@ == nodes_loaded(
        before.company_context@,
        stage.company_context@,
        tenant_id,
    )
    &&& after.state_items@ == inserted_all::<
        (String, String, String),
        crate::model::knowledge::StateItem,
    >(triples_of_others(before.state_items@, tenant_id), stage.state_items@)
    &&& after.insights@ == replaced::<String, crate::model::knowledge::InsightRecord>(
        before.insights@,
        stage.insights@,
        tenant_id,
    )
    &&& after.insight_idempotency@ == triples_of_others(before.insight_idempotency@, tenant_id)
    &&& after.links@ == replaced::<String, crate::model::knowledge::KnowledgeLink>(
        before.links@,
        stage.links@,
        tenant_id,
    )
    &&& after.link_idempotency@ == triples_of_others(before.link_idempotency@, tenant_id)
    &&& after.sources@ == replaced::<String, crate::model::ingest::CompanySource>(
        before.sources@,
        stage.sources@,
        tenant_id,
    )
    &&& after.source_documents@ == of_others::<
        SourceDocumentKey,
        crate::model::ingest::SourceDocument,
    >(before.source_documents@, tenant_id)
    &&& lists(after.source_revisions@) == revisions_loaded(
        lists(before.source_revisions@),
        stage.source_revisions@,
        tenant_id,
    )
    &&& after.sessions@ == replaced::<String, crate::model::knowledge::SessionRecord>(
        before.sessions@,
        stage.sessions@,
        tenant_id,
    )
    &&& after.traces@ == replaced::<String, crate::model::knowledge::TraceRecord>(
        before.traces@,
        stage.traces@,
        tenant_id,
    )
}

fn load_knowledge(data: &mut StoreData, stage: &HydrationStage, tenant_id: &str)
    ensures
        *final(data) == (StoreData {
            company_context: final(data).company_context,
            state_items: final(data).state_items,
            insights: final(data).insights,
            insight_idempotency: final(data).insight_idempotency,
            links: final(data).links,
            link_idempotency: final(data).link_idempotency,
            sources: final(data).sources,
            source_documents: final(data).source_documents,
            source_revisions: final(data).source_revisions,
            sessions: final(data).sessions,
            traces: final(data).traces,
            ..*old(data)
        }),
        knowledge_loaded(*old(data), *final(data), *stage, tenant_id@),
{
    load_nodes(&mut data.company_context, &stage.company_context, tenant_id);
    drop_triples(&mut data.state_items, tenant_id);
    insert_rows(&mut data.state_items, &stage.state_items);
    replace_tenant_rows(&mut data.insights, &stage.insights, tenant_id);
    drop_triples(&mut data.insight_idempotency, tenant_id);
    replace_tenant_rows(&mut data.links, &stage.links, tenant_id);
    drop_triples(&mut data.link_idempotency, tenant_id);
    replace_tenant_rows(&mut data.sources, &stage.sources, tenant_id);
    drop_tenant_rows(&mut data.source_documents, tenant_id);
    load_revisions(&mut data.source_revisions, &stage.source_revisions, tenant_id);
    replace_tenant_rows(&mut data.sessions, &stage.sessions, tenant_id);
    replace_tenant_rows(&mut data.traces, &stage.traces, tenant_id);
}

/// The changes and evaluations of a tenant as loaded.
pub open spec fn evaluations_loaded(
    before: StoreData,
    after: StoreData,
    stage: HydrationStage,
    tenant_id: Seq<char>,
) -> bool {
    &&& after.harness_changes@ == replaced::<String, crate::model::harness::HarnessChangeManifest>(
        before.harness_changes@,
        stage.harness_changes@,
        tenant_id,
    )
    &&& after.harness_verdicts@ == replaced::<String, crate::model::harness::HarnessChangeVerdict>(
        before.harness_verdicts@,
        stage.harness_verdicts@,
        tenant_id,
    )
    &&& after.eval_cases@ == replaced::<String, crate::model::harness::RagEvalCase>(
        before.eval_cases@,
        stage.eval_cases@,
        tenant_id,
    )
    &&& after.eval_runs@ == replaced::<String, crate::model::harness::RagEvalRun>(
        before.eval_runs@,
        stage.eval_runs@,
        tenant_id,
    )
    &&& after.eval_case_results@ == replaced::<String, crate::model::harness::RagEvalCaseResult>(
        before.eval_case_results@,
        stage.eval_case_results@,
        tenant_id,
    )
    &&& after.eval_overviews@ == replaced::<String, crate::model::harness::RagEvalOverview>(
        before.eval_overviews@,
        stage.eval_overviews@,
        tenant_id,
    )
}

fn load_evaluations(data: &mut StoreData, stage: &HydrationStage, tenant_id: &str)
    ensures
        *final(data) == (StoreData {
            harness_changes: final(data).harness_changes,
            harness_verdicts: final(data).harness_verdicts,
            eval_cases: final(data).eval_cases,
            eval_runs: final(data).eval_runs,
            eval_case_results: final(data).eval_case_results,
            eval_overviews: final(data).eval_overviews,
            ..*old(data)
        }),
        evaluations_loaded(*old(data), *final(data), *stage, tenant_id@),
{
    replace_tenant_rows(&mut data.harness_changes, &stage.harness_changes, tenant_id);
    replace_tenant_rows(&mut data.harness_verdicts, &stage.harness_verdicts, tenant_id);
    replace_tenant_rows(&mut data.eval_cases, &stage.eval_cases, tenant_id);
    replace_tenant_rows(&mut data.eval_runs, &stage.eval_runs, tenant_id);
    replace_tenant_rows(&mut data.eval_case_results, &stage.eval_case_results, tenant_id);
    replace_tenant_rows(&mut data.eval_overviews, &stage.eval_overviews, tenant_id);
}

/// The state after what was loaded for a tenant became it; audit records and decisions on new
/// documents are left alone.
pub open spec fn stage_published(
    before: StoreData,
    after: StoreData,
    stage: HydrationStage,
    report: HydrationReport,
    tenant_id: Seq<char>,
    now: i64,
) -> bool {
    &&& after.audit_records == before.audit_records
    &&& after.preflight_decisions == before.preflight_decisions
    &&& after.hydration_report == Some(report)
    &&& after.operations@ == operations_put(
        operations_of_others(before.operations@, tenant_id),
        stage.operations@,
    )
    &&& indexes_loaded(before, after, stage.user_indexes@, tenant_id)
    &&& knowledge_loaded(before, after, stage, tenant_id)
    &&& structured_loaded(before, after, stage, tenant_id)
    &&& exists|mid: StoreData, done: StoreData|
        {
            &&& mid.harness_components == before.harness_components
            &&& mid.harness_revisions == before.harness_revisions
            &&& done.harness_components == after.harness_components
            &&& done.harness_revisions == after.harness_revisions
            &&& #[trigger] harness_loaded(mid, done, stage, tenant_id, now)
        }
    &&& evaluations_loaded(before, after, stage, tenant_id)
    &&& ingest_loaded(before, after, stage, tenant_id)
}

/// Makes what was loaded for a tenant the state of the store.
pub fn publish_hydration_stage(
    data: &mut StoreData,
    tenant_id: &str,
    stage: &HydrationStage,
    report: HydrationReport,
    now: i64,
)
    ensures
        stage_published(*old(data), *final(data), *stage, report, tenant_id@, now),
{
    load_operations(&mut data.operations, &stage.operations, tenant_id);
    load_indexes(data, &stage.user_indexes, tenant_id);
    load_knowledge(data, stage, tenant_id);
    load_structured(data, stage, tenant_id);
    let ghost mid = *data;
    load_harness(data, stage, tenant_id, now);
    let ghost done = *data;
    assert(harness_loaded(mid, done, *stage, tenant_id@, now));
    load_evaluations(data, stage, tenant_id);
    load_ingest(data, stage, tenant_id);
    data.hydration_report = Some(report);
}

/// Loading a tenant leaves the rows of other tenants alone, where no loaded row has their key.
pub proof fn loading_keeps_other_tenants<K: TableKey, R: Row<K>>(
    m: Map<K::V, R>,
    rows: Seq<R>,
    tenant_id: Seq<char>,
    k: K::V,
)
    requires
        m.dom().contains(k),
        m[k].tenant() != tenant_id,
        forall|i: int| 0 <= i < rows.len() ==> (#[trigger] rows[i]).key() != k,
    ensures
        replaced::<K, R>(m, rows, tenant_id).dom().contains(k),
        replaced::<K, R>(m, rows, tenant_id)[k] == m[k],
{
    lemma_not_inserted::<K, R>(of_others::<K, R>(m, tenant_id), rows, k);
}

/// After a tenant was loaded every row of the tenant is one that was loaded.
pub proof fn loading_leaves_only_what_was_loaded<K: TableKey, R: Row<K>>(
    m: Map<K::V, R>,
    rows: Seq<R>,
    tenant_id: Seq<char>,
    k: K::V,
)
    requires
        replaced::<K, R>(m, rows, tenant_id).dom().contains(k),
        replaced::<K, R>(m, rows, tenant_id)[k].tenant() == tenant_id,
    ensures
        rows.contains(replaced::<K, R>(m, rows, tenant_id)[k]),
    decreases rows.len(),
{
    if rows.len() > 0 {
        let front = rows.drop_last();
        if rows.last().key() == k {
            assert(rows[rows.len() - 1] == replaced::<K, R>(m, rows, tenant_id)[k]);
        } else {
            loading_leaves_only_what_was_loaded::<K, R>(m, front, tenant_id, k);
            let x = replaced::<K, R>(m, rows, tenant_id)[k];
            let i = choose|i: int| 0 <= i < front.len() && front[i] == x;
            assert(rows[i] == x);
        }
    }
}

/// Loading a tenant a second time changes nothing.
pub proof fn loading_twice_is_loading_once<K: TableKey, R: Row<K>>(
    m: Map<K::V, R>,
    rows: Seq<R>,
    tenant_id: Seq<char>,
)
    requires
        forall|i: int| 0 <= i < rows.len() ==> (#[trigger] rows[i]).tenant() == tenant_id,
    ensures
        replaced::<K, R>(replaced::<K, R>(m, rows, tenant_id), rows, tenant_id) == replaced::<K, R>(
            m,
            rows,
            tenant_id,
        ),
{
    let once = replaced::<K, R>(m, rows, tenant_id);
    let twice = replaced::<K, R>(once, rows, tenant_id);
    let base = of_others::<K, R>(m, tenant_id);
    let rest = of_others::<K, R>(once, tenant_id);
    assert forall|k: K::V| #[trigger] twice.dom().contains(k) <==> once.dom().contains(k) by {
        lemma_same_where_inserted::<K, R>(base, rest, rows, k);
        if forall|i: int| 0 <= i < rows.len() ==> (#[trigger] rows[i]).key() != k {
            lemma_not_inserted::<K, R>(base, rows, k);
            lemma_not_inserted::<K, R>(rest, rows, k);
        }
    }
    assert forall|k: K::V| #[trigger] twice.dom().contains(k) implies twice[k] == once[k] by {
        lemma_same_where_inserted::<K, R>(base, rest, rows, k);
        if forall|i: int| 0 <= i < rows.len() ==> (#[trigger] rows[i]).key() != k {
            lemma_not_inserted::<K, R>(base, rows, k);
            lemma_not_inserted::<K, R>(rest, rows, k);
        }
    }
    assert(twice =~= once);
}

proof fn lemma_not_inserted<K: TableKey, R: Row<K>>(m: Map<K::V, R>, rows: Seq<R>, k: K::V)
    requires
        forall|i: int| 0 <= i < rows.len() ==> (#[trigger] rows[i]).key() != k,
    ensures
        inserted_all::<K, R>(m, rows).dom().contains(k) == m.dom().contains(k),
        m.dom().contains(k) ==> inserted_all::<K, R>(m, rows)[k] == m[k],
    decreases rows.len(),
{
    if rows.len() > 0 {
        let front = rows.drop_last();
        assert forall|i: int| 0 <= i < front.len() implies (#[trigger] front[i]).key() != k by {
            assert(front[i] == rows[i]);
        }
        assert(rows[rows.len() - 1].key() != k);
        lemma_not_inserted::<K, R>(m, front, k);
    }
}

proof fn lemma_same_where_inserted<K: TableKey, R: Row<K>>(
    a: Map<K::V, R>,
    b: Map<K::V, R>,
    rows: Seq<R>,
    k: K::V,
)
    ensures
        (exists|i: int| 0 <= i < rows.len() && (#[trigger] rows[i]).key() == k) ==> {
            &&& inserted_all::<K, R>(a, rows).dom().contains(k)
            &&& inserted_all::<K, R>(b, rows).dom().contains(k)
            &&& inserted_all::<K, R>(a, rows)[k] == inserted_all::<K, R>(b, rows)[k]
        },
    decreases rows.len(),
{
    if rows.len() > 0 {
        let front = rows.drop_last();
        lemma_same_where_inserted::<K, R>(a, b, front, k);
        if rows.last().key() != k && exists|i: int|
            0 <= i < rows.len() && (#[trigger] rows[i]).key() == k {
            let i = choose|i: int| 0 <= i < rows.len() && (#[trigger] rows[i]).key() == k;
            assert(front[i].key() == k);
        }
    }
}

} // verus!
