//! What a mutation changed, as the resources of an operation.

use vstd::prelude::*;

use crate::data::{ParseArtifactKey, SourceDocumentKey, StoreData};
use crate::json::{text_member, Json};
use crate::model::harness::{
    HarnessChangeManifest, HarnessChangeVerdict, HarnessComponent, HarnessComponentRevision,
    RagEvalCase, RagEvalCaseResult, RagEvalOverview, RagEvalRun,
};
use crate::model::ingest::{
    CompanySource, IngestTask, IngestTaskResult, ParseArtifact, SourceDocument, SourceRevision,
};
use crate::model::knowledge::{
    ContextNode, DatasetRecord, HistoryEvent, InsightRecord, KnowledgeLink, SessionRecord,
    StateItem, StructuredSnapshot, TraceRecord, UserEventIndex,
};
use crate::model::operation::{
    resource_views, CompanySourceDeleteTarget, DeleteTargetView, OperationResource, ResourceView,
};
use crate::order::{deduped, sort_by, sorted_by};
use crate::publish::COMPANY_CONTEXT_INDEX;
use crate::record::{
    all_same, by_rank, changed_of, changed_rows, changes, lists_same, select, select_values, sort_rows, Record,
    Row,
};
use crate::source_delete::{company_source_related_uris, related_uris};
use crate::table::{list_at, lists, Table, TableKey};
use crate::text::{
    dedup_texts, sort_texts, sorted_texts, text_before, text_eq, text_lt, texts, texts_contain,
};

verus! {

/// The last of `rows` with key `k`.
pub open spec fn last_with_key<R: Row<String>>(rows: Seq<R>, k: Seq<char>) -> Option<R>
    decreases rows.len(),
{
    if rows.len() == 0 {
        None
    } else if rows.last().key() == k {
        Some(rows.last())
    } else {
        last_with_key(rows.drop_last(), k)
    }
}

fn find_last_with_key<'a, R: Row<String>>(rows: &'a Vec<R>, k: &str) -> (r: Option<&'a R>)
    ensures
        match r {
            Some(row) => last_with_key(rows@, k@) == Some(*row),
            None => last_with_key(rows@, k@) is None,
        },
{
    let mut i: usize = rows.len();
    assert(rows@.take(rows.len() as int) =~= rows@);
    while i > 0
        invariant
            i <= rows.len(),
            last_with_key(rows@, k@) == last_with_key(rows@.take(i as int), k@),
        decreases i,
    {
        assert(rows@.take(i as int).last() == rows@[i - 1]);
        assert(rows@.take(i as int).drop_last() =~= rows@.take(i - 1));
        if text_eq(rows[i - 1].key_of().as_str(), k) {
            return Some(&rows[i - 1]);
        }
        i -= 1;
    }
    None
}

/// All the lists of a table, one behind the other.
pub open spec fn flattened<R>(values: Seq<Vec<R>>) -> Seq<R>
    decreases values.len(),
{
    if values.len() == 0 {
        Seq::empty()
    } else {
        flattened(values.drop_last()) + values.last()@
    }
}

/// All the lists of a table, one behind the other.
pub fn flatten<K: TableKey, R: Record>(t: &Table<K, Vec<R>>) -> (r: Vec<R>)
    ensures
        r@ == flattened(t.values()),
{
    let mut out: Vec<R> = Vec::new();
    let n: usize = t.len();
    let ghost all = t.values();
    let mut i: usize = 0;
    while i < n
        invariant
            i <= n == all.len(),
            all == t.values(),
            all.len() == t.rows().len(),
            out@ == flattened(all.take(i as int)),
        decreases n - i,
    {
        assert(all.take(i + 1).drop_last() =~= all.take(i as int));
        let mut list: Vec<R> = crate::record::copy_all(t.value_at(i));
        out.append(&mut list);
        i += 1;
    }
    assert(all.take(i as int) =~= all);
    out
}

/// Which rows a tenant owns.
pub open spec fn owned_by<R: Row<String>>(tenant_id: Seq<char>) -> spec_fn(R) -> bool {
    |row: R| row.tenant() == tenant_id
}

/// Which rows of a tenant differ from what is known of them.
pub open spec fn differs_from<R: Row<String>>(
    known: Seq<R>,
    tenant_id: Seq<char>,
) -> spec_fn(R) -> bool {
    |row: R|
        row.tenant() == tenant_id && match last_with_key(known, row.key()) {
            Some(old_row) => !old_row.same_as(&row),
            None => true,
        }
}

/// The rows of a tenant that are new or have changed since `before`, by rank.
pub open spec fn list_changes<R: Row<String>>(
    before: Seq<R>,
    after: Seq<R>,
    tenant_id: Seq<char>,
) -> Seq<R> {
    let known = before.filter(owned_by(tenant_id));
    sorted_by(after.filter(differs_from(known, tenant_id)), by_rank::<String, R>())
}

/// The rows of a tenant that are new or have changed since `before`, by rank.
pub fn changed_in_lists<R: Row<String>>(
    before: &Table<String, Vec<R>>,
    after: &Table<String, Vec<R>>,
    tenant_id: &str,
) -> (r: Vec<R>)
    ensures
        r@ == list_changes(
            flattened(before.values()),
            flattened(after.values()),
            tenant_id@,
        ),
{
    let before_all: Vec<R> = flatten(before);
    let after_all: Vec<R> = flatten(after);
    let ghost own = owned_by::<R>(tenant_id@);
    let is_own = |row: &R| -> (b: bool)
        ensures
            b == own(*row),
        { text_eq(row.tenant_of(), tenant_id) };
    let known: Vec<R> = select(&before_all, is_own, Ghost(own));
    let ghost p = differs_from::<R>(known@, tenant_id@);
    let accept = |row: &R| -> (b: bool)
        ensures
            b == p(*row),
        {
            text_eq(row.tenant_of(), tenant_id) && match find_last_with_key(
                &known,
                row.key_of().as_str(),
            ) {
                Some(old_row) => !old_row.same(row),
                None => true,
            }
        };
    let picked: Vec<R> = select(&after_all, accept, Ghost(p));
    sort_rows(picked)
}

/// What identifies a node within an index.
pub fn context_node_identity(node: &ContextNode) -> (r: (&str, u8))
    ensures
        r.0@ == node.uri@,
        r.1 == node.layer,
{
    (node.uri.as_str(), node.layer)
}

/// Whether two nodes have the same identity.
pub open spec fn same_identity(a: ContextNode, b: ContextNode) -> bool {
    a.uri@ == b.uri@ && a.layer == b.layer
}

/// The order of nodes by identity.
pub open spec fn identity_lt(a: ContextNode, b: ContextNode) -> bool {
    text_lt(a.uri@, b.uri@) || (a.uri@ == b.uri@ && a.layer < b.layer)
}

/// The last of `nodes` with the identity of `node`.
pub open spec fn last_with_identity(nodes: Seq<ContextNode>, node: ContextNode) -> Option<
    ContextNode,
>
    decreases nodes.len(),
{
    if nodes.len() == 0 {
        None
    } else if same_identity(nodes.last(), node) {
        Some(nodes.last())
    } else {
        last_with_identity(nodes.drop_last(), node)
    }
}

fn node_changed(before: &Vec<ContextNode>, node: &ContextNode) -> (r: bool)
    ensures
        r == match last_with_identity(before@, *node) {
            Some(old_node) => !old_node.same_as(node),
            None => true,
        },
{
    let mut i: usize = before.len();
    assert(before@.take(before.len() as int) =~= before@);
    while i > 0
        invariant
            i <= before.len(),
            last_with_identity(before@, *node) == last_with_identity(before@.take(i as int), *node),
        decreases i,
    {
        assert(before@.take(i as int).last() == before@[i - 1]);
        assert(before@.take(i as int).drop_last() =~= before@.take(i - 1));
        let wanted = context_node_identity(node);
        let found = context_node_identity(&before[i - 1]);
        if text_eq(found.0, wanted.0) && found.1 == wanted.1 {
            return !before[i - 1].same(node);
        }
        i -= 1;
    }
    true
}

/// Which nodes differ from what is known of them.
pub open spec fn node_differs_from(known: Seq<ContextNode>) -> spec_fn(ContextNode) -> bool {
    |node: ContextNode|
        match last_with_identity(known, node) {
            Some(old_node) => !old_node.same_as(&node),
            None => true,
        }
}

/// The nodes that are new or have changed since `before`, by identity.
pub open spec fn node_changes(before: Seq<ContextNode>, after: Seq<ContextNode>) -> Seq<
    ContextNode,
> {
    sorted_by(
        after.filter(node_differs_from(before)),
        |a: ContextNode, b: ContextNode| identity_lt(a, b),
    )
}

/// The nodes that are new or have changed since `before`, by identity.
pub fn changed_context_nodes(before: &Vec<ContextNode>, after: &Vec<ContextNode>) -> (r: Vec<
    ContextNode,
>)
    ensures
        r@ == node_changes(before@, after@),
{
    let ghost p = node_differs_from(before@);
    let accept = |node: &ContextNode| -> (b: bool)
        ensures
            b == p(*node),
        { node_changed(before, node) };
    let picked: Vec<ContextNode> = select(after, accept, Ghost(p));
    let ghost lt = |a: ContextNode, b: ContextNode| identity_lt(a, b);
    let earlier = |a: &ContextNode, b: &ContextNode| -> (c: bool)
        ensures
            c == lt(*a, *b),
        {
            let x = context_node_identity(a);
            let y = context_node_identity(b);
            text_before(x.0, y.0) || (text_eq(x.0, y.0) && x.1 < y.1)
        };
    sort_by(picked, earlier, Ghost(lt))
}

/// Whether a node belongs to a tenant.
pub open spec fn node_of_tenant(tenant_id: Seq<char>) -> spec_fn(ContextNode) -> bool {
    |node: ContextNode| node.tenant_id@ == tenant_id
}

/// The nodes of a tenant.
pub open spec fn nodes_of_tenant(nodes: Seq<ContextNode>, tenant_id: Seq<char>) -> Seq<
    ContextNode,
> {
    nodes.filter(node_of_tenant(tenant_id))
}

/// Copies of the nodes of a tenant.
pub fn tenant_nodes(nodes: &Vec<ContextNode>, tenant_id: &str) -> (r: Vec<ContextNode>)
    ensures
        r@ == nodes_of_tenant(nodes@, tenant_id@),
{
    let ghost p = node_of_tenant(tenant_id@);
    let accept = |node: &ContextNode| -> (b: bool)
        ensures
            b == p(*node),
        { text_eq(node.tenant_id.as_str(), tenant_id) };
    select(nodes, accept, Ghost(p))
}

/// Appends one resource for each row.
fn push_each<R, F: Fn(R) -> OperationResource>(
    resources: &mut Vec<OperationResource>,
    rows: Vec<R>,
    make: F,
    Ghost(view): Ghost<spec_fn(R) -> ResourceView>,
)
    requires
        forall|row: R| #[trigger] make.requires((row,)),
        forall|row: R, made: OperationResource|
            make.ensures((row,), made) ==> made@ == view(row),
    ensures
        resource_views(final(resources)@) == resource_views(old(resources)@) + rows@.map_values(
            view,
        ),
{
    let ghost all = rows@;
    let ghost mut n: int = 0;
    let mut rest: Vec<R> = rows;
    assert(resource_views(resources@) =~= resource_views(old(resources)@) + all.take(0).map_values(
        view,
    ));
    while rest.len() > 0
        invariant
            0 <= n <= all.len(),
            rest@ == all.skip(n),
            resource_views(resources@) == resource_views(old(resources)@) + all.take(n).map_values(
                view,
            ),
            forall|row: R| #[trigger] make.requires((row,)),
            forall|row: R, made: OperationResource|
                make.ensures((row,), made) ==> made@ == view(row),
        decreases rest.len(),
    {
        let ghost before = resources@;
        let row: R = rest.remove(0);
        assert(row == all[n]);
        let made: OperationResource = make(row);
        resources.push(made);
        proof {
            assert(resource_views(resources@) =~= resource_views(before).push(view(all[n])));
            assert(all.take(n + 1).map_values(view) =~= all.take(n).map_values(view).push(
                view(all[n]),
            ));
            assert(rest@ =~= all.skip(n + 1));
            n = n + 1;
            assert(resource_views(resources@) =~= resource_views(old(resources)@) + all.take(
                n,
            ).map_values(view));
        }
    }
    assert(all.take(n) =~= all);
}

/// Appends one resource.
fn push_one(resources: &mut Vec<OperationResource>, resource: OperationResource)
    ensures
        resource_views(final(resources)@) == resource_views(old(resources)@) + seq![resource@],
{
    let ghost before = resources@;
    resources.push(resource);
    assert(resource_views(resources@) =~= resource_views(before) + seq![resource@]);
}

/// Whether an event belongs to an index.
pub open spec fn event_of_index(index_uid: Seq<char>) -> spec_fn(HistoryEvent) -> bool {
    |event: HistoryEvent| event.event_index_uid@ == index_uid
}

/// The changed events of an index, by id.
pub open spec fn events_of_index(events: Seq<HistoryEvent>, index_uid: Seq<char>) -> Seq<
    HistoryEvent,
> {
    sorted_by(
        events.filter(event_of_index(index_uid)),
        by_rank::<String, HistoryEvent>(),
    )
}

/// The indexes of events, each once, in order.
pub open spec fn index_uids(events: Seq<HistoryEvent>) -> Seq<Seq<char>> {
    deduped(
        sorted_texts(Seq::new(events.len(), |i: int| events[i].event_index_uid@)),
    )
}

/// The changed events of a tenant, one resource to an index.
pub open spec fn event_resources(
    before: StoreData,
    after: StoreData,
    tenant_id: Seq<char>,
) -> Seq<ResourceView> {
    let changed = after.event_by_id.values().filter(
        changed_of::<String, HistoryEvent>(before.event_by_id@, tenant_id),
    );
    index_uids(changed).map_values(
        |uid: Seq<char>|
            ResourceView::HistoryEvents { events: events_of_index(changed, uid) },
    )
}

fn push_event_resources(
    resources: &mut Vec<OperationResource>,
    before: &StoreData,
    after: &StoreData,
    tenant_id: &str,
)
    ensures
        resource_views(final(resources)@) == resource_views(old(resources)@) + event_resources(
            *before,
            *after,
            tenant_id@,
        ),
{
    let ghost p = changed_of::<String, HistoryEvent>(before.event_by_id@, tenant_id@);
    let accept = |event: &HistoryEvent| -> (b: bool)
        ensures
            b == p(*event),
        {
            text_eq(event.tenant_id.as_str(), tenant_id) && match before.event_by_id.get(
                &event.id,
            ) {
                Some(old_event) => !old_event.same(event),
                None => true,
            }
        };
    let changed: Vec<HistoryEvent> = select_values(&after.event_by_id, accept, Ghost(p));
    let mut uids: Vec<String> = Vec::new();
    let mut i: usize = 0;
    while i < changed.len()
        invariant
            i <= changed.len(),
            uids@.len() == i,
            forall|j: int| 0 <= j < i ==> uids@[j] == changed@[j].event_index_uid,
        decreases changed.len() - i,
    {
        uids.push(changed[i].event_index_uid.clone());
        i += 1;
    }
    assert(texts(uids@) =~= Seq::new(changed@.len(), |i: int| changed@[i].event_index_uid@));
    let uids: Vec<String> = dedup_texts(sort_texts(uids));
    let ghost view = |uid: Seq<char>|
        ResourceView::HistoryEvents { events: events_of_index(changed@, uid) };
    let mut i: usize = 0;
    assert(resource_views(resources@) =~= resource_views(old(resources)@) + texts(uids@).take(
        0,
    ).map_values(view));
    while i < uids.len()
        invariant
            i <= uids.len(),
            view == (|uid: Seq<char>|
                ResourceView::HistoryEvents { events: events_of_index(changed@, uid) }),
            resource_views(resources@) == resource_views(old(resources)@) + texts(uids@).take(
                i as int,
            ).map_values(view),
        decreases uids.len() - i,
    {
        let uid: &String = &uids[i];
        let ghost q = event_of_index(uid@);
        let of_index = |event: &HistoryEvent| -> (b: bool)
            ensures
                b == q(*event),
            { text_eq(event.event_index_uid.as_str(), uid.as_str()) };
        let picked: Vec<HistoryEvent> = select(&changed, of_index, Ghost(q));
        let events: Vec<HistoryEvent> = sort_rows(picked);
        push_one(
            resources,
            OperationResource::HistoryEvents { events: std::sync::Arc::new(events) },
        );
        assert(texts(uids@).take(i + 1).map_values(view) =~= texts(uids@).take(
            i as int,
        ).map_values(view) + seq![view(uid@)]);
        i += 1;
        assert(resource_views(resources@) =~= resource_views(old(resources)@) + texts(uids@).take(
            i as int,
        ).map_values(view));
    }
    assert(texts(uids@).take(i as int) =~= texts(uids@));
}

/// The changed nodes of an index, as a resource where there are any.
pub open spec fn node_resource(
    index_uid: Seq<char>,
    before: Seq<ContextNode>,
    after: Seq<ContextNode>,
    tenant_id: Seq<char>,
) -> Seq<ResourceView> {
    let changed = node_changes(nodes_of_tenant(before, tenant_id), nodes_of_tenant(after, tenant_id));
    if changed.len() == 0 {
        Seq::empty()
    } else {
        seq![ResourceView::ContextNodes { index_uid, nodes: changed }]
    }
}

fn push_node_resource(
    resources: &mut Vec<OperationResource>,
    index_uid: &str,
    before: &Vec<ContextNode>,
    after: &Vec<ContextNode>,
    tenant_id: &str,
)
    ensures
        resource_views(final(resources)@) == resource_views(old(resources)@) + node_resource(
            index_uid@,
            before@,
            after@,
            tenant_id@,
        ),
{
    let changed: Vec<ContextNode> = changed_context_nodes(
        &tenant_nodes(before, tenant_id),
        &tenant_nodes(after, tenant_id),
    );
    if changed.len() > 0 {
        push_one(
            resources,
            OperationResource::ContextNodes {
                index_uid: index_uid.to_owned(),
                nodes: std::sync::Arc::new(changed),
            },
        );
    } else {
        assert(resource_views(resources@) =~= resource_views(old(resources)@) + Seq::empty());
    }
}

/// The keys of a table, in the order of the rows.
pub open spec fn key_texts<V>(t: Table<String, V>) -> Seq<Seq<char>> {
    Seq::new(t.rows().len(), |i: int| t.rows()[i].0@)
}

fn push_keys<V>(out: &mut Vec<String>, t: &Table<String, V>)
    ensures
        texts(final(out)@) == texts(old(out)@) + key_texts(*t),
{
    let n: usize = t.len();
    let mut i: usize = 0;
    assert(texts(out@) =~= texts(old(out)@) + key_texts(*t).take(0));
    while i < n
        invariant
            i <= n == t.rows().len(),
            texts(out@) == texts(old(out)@) + key_texts(*t).take(i as int),
        decreases n - i,
    {
        let ghost before = out@;
        out.push(t.key_at(i).clone());
        proof {
            crate::text::texts_push(before, t.rows()[i as int].0);
            assert(key_texts(*t).take(i + 1) =~= key_texts(*t).take(i as int).push(
                t.rows()[i as int].0@,
            ));
            assert(texts(out@) =~= texts(old(out)@) + key_texts(*t).take(i + 1));
        }
        i += 1;
    }
    assert(key_texts(*t).take(i as int) =~= key_texts(*t));
}

/// The personal indexes that either state knows, each once, in order.
pub open spec fn personal_uids(before: StoreData, after: StoreData) -> Seq<Seq<char>> {
    deduped(sorted_texts(key_texts(after.personal_context) + key_texts(before.personal_context)))
}

/// The changed nodes of the first `n` personal indexes.
pub open spec fn personal_resources(
    before: StoreData,
    after: StoreData,
    tenant_id: Seq<char>,
    n: int,
) -> Seq<ResourceView>
    decreases n,
{
    if n <= 0 {
        Seq::empty()
    } else {
        let uid = personal_uids(before, after)[n - 1];
        personal_resources(before, after, tenant_id, n - 1) + node_resource(
            uid,
            list_at(lists(before.personal_context@), uid),
            list_at(lists(after.personal_context@), uid),
            tenant_id,
        )
    }
}

fn push_personal_resources(
    resources: &mut Vec<OperationResource>,
    before: &StoreData,
    after: &StoreData,
    tenant_id: &str,
)
    ensures
        resource_views(final(resources)@) == resource_views(old(resources)@) + personal_resources(
            *before,
            *after,
            tenant_id@,
            personal_uids(*before, *after).len() as int,
        ),
{
    let mut uids: Vec<String> = Vec::new();
    push_keys(&mut uids, &after.personal_context);
    push_keys(&mut uids, &before.personal_context);
    assert(texts(uids@) =~= key_texts(after.personal_context) + key_texts(before.personal_context));
    let uids: Vec<String> = dedup_texts(sort_texts(uids));
    let none: Vec<ContextNode> = Vec::new();
    let mut i: usize = 0;
    assert(resource_views(resources@) =~= resource_views(old(resources)@) + Seq::empty());
    while i < uids.len()
        invariant
            i <= uids.len(),
            none@ == Seq::<ContextNode>::empty(),
            texts(uids@) == personal_uids(*before, *after),
            resource_views(resources@) == resource_views(old(resources)@) + personal_resources(
                *before,
                *after,
                tenant_id@,
                i as int,
            ),
        decreases uids.len() - i,
    {
        let uid: &String = &uids[i];
        assert(texts(uids@)[i as int] == uid@);
        let old_nodes: &Vec<ContextNode> = match before.personal_context.get(uid) {
            Some(nodes) => nodes,
            None => &none,
        };
        let new_nodes: &Vec<ContextNode> = match after.personal_context.get(uid) {
            Some(nodes) => nodes,
            None => &none,
        };
        let ghost so_far = resource_views(resources@);
        push_node_resource(resources, uid.as_str(), old_nodes, new_nodes, tenant_id);
        i += 1;
        assert(resource_views(resources@) =~= resource_views(old(resources)@) + personal_resources(
            *before,
            *after,
            tenant_id@,
            i as int,
        ));
    }
}

/// Whether a link of the tenant begins or ends at one of `uris`.
pub open spec fn touches_any(tenant_id: Seq<char>, uris: Seq<Seq<char>>) -> spec_fn(
    KnowledgeLink,
) -> bool {
    |link: KnowledgeLink|
        link.tenant_id@ == tenant_id && (uris.contains(link.source_uri@) || uris.contains(
            link.target_uri@,
        ))
}

/// The links of a tenant that touch one of `uris`, by id, each once.
pub open spec fn touching_link_ids(
    links: Seq<KnowledgeLink>,
    tenant_id: Seq<char>,
    uris: Seq<Seq<char>>,
) -> Seq<Seq<char>> {
    let touching = links.filter(touches_any(tenant_id, uris));
    deduped(sorted_texts(Seq::new(touching.len(), |i: int| touching[i].id@)))
}

/// The URIs of a company source, each once, in order.
pub open spec fn source_uris(data: StoreData, tenant_id: Seq<char>, source_id: Seq<char>) -> Seq<
    Seq<char>,
> {
    deduped(sorted_texts(related_uris(data, tenant_id, source_id)))
}

/// The deletions that a removed company source asks for.
pub open spec fn deletion_resources(
    before: StoreData,
    tenant_id: Seq<char>,
    source_id: Seq<char>,
) -> Seq<ResourceView> {
    let uris = source_uris(before, tenant_id, source_id);
    seq![
        ResourceView::DeleteCompanySourceIndex { source_id, target: DeleteTargetView::Fragments },
        ResourceView::DeleteCompanySourceIndex { source_id, target: DeleteTargetView::Revisions },
        ResourceView::DeleteCompanySourceIndex { source_id, target: DeleteTargetView::Source },
        ResourceView::DeleteCompanySourceIndex {
            source_id,
            target: DeleteTargetView::SourceDocuments,
        },
        ResourceView::DeleteCompanySourceIndex {
            source_id,
            target: DeleteTargetView::ParseArtifacts,
        },
        ResourceView::DeleteCompanySourceIndex { source_id, target: DeleteTargetView::IngestTasks },
        ResourceView::DeleteCompanySourceIndex {
            source_id,
            target: DeleteTargetView::IngestResults,
        },
        ResourceView::DeleteCompanySourceIndex {
            source_id,
            target: DeleteTargetView::Links {
                link_ids: touching_link_ids(before.links.values(), tenant_id, uris),
                related_uris: uris,
            },
        },
    ]
}

/// Whether a source of the tenant is there no more.
pub open spec fn source_is_gone(after: StoreData, tenant_id: Seq<char>) -> spec_fn(
    CompanySource,
) -> bool {
    |source: CompanySource|
        source.tenant_id@ == tenant_id && !after.sources@.dom().contains(source.id@)
}

/// The company sources of a tenant that are gone, by id.
pub open spec fn gone_sources(before: StoreData, after: StoreData, tenant_id: Seq<char>) -> Seq<
    CompanySource,
> {
    sorted_by(
        before.sources.values().filter(source_is_gone(after, tenant_id)),
        by_rank::<String, CompanySource>(),
    )
}

/// The deletions of the first `n` sources that are gone.
pub open spec fn all_deletion_resources(
    before: StoreData,
    tenant_id: Seq<char>,
    gone: Seq<CompanySource>,
) -> Seq<ResourceView>
    decreases gone.len(),
{
    if gone.len() == 0 {
        Seq::empty()
    } else {
        all_deletion_resources(before, tenant_id, gone.drop_last()) + deletion_resources(
            before,
            tenant_id,
            gone.last().id@,
        )
    }
}

fn push_deletion(
    resources: &mut Vec<OperationResource>,
    source_id: &String,
    target: CompanySourceDeleteTarget,
)
    ensures
        resource_views(final(resources)@) == resource_views(old(resources)@) + seq![
            ResourceView::DeleteCompanySourceIndex { source_id: source_id@, target: target@ },
        ],
{
    push_one(
        resources,
        OperationResource::DeleteCompanySourceIndex { source_id: source_id.clone(), target },
    );
}

fn push_deletion_resources(
    resources: &mut Vec<OperationResource>,
    before: &StoreData,
    tenant_id: &str,
    source_id: &String,
)
    ensures
        resource_views(final(resources)@) == resource_views(old(resources)@) + deletion_resources(
            *before,
            tenant_id@,
            source_id@,
        ),
{
    let uris: Vec<String> = dedup_texts(
        sort_texts(company_source_related_uris(before, tenant_id, source_id.as_str())),
    );
    let ghost p = touches_any(tenant_id@, texts(uris@));
    let accept = |link: &KnowledgeLink| -> (b: bool)
        ensures
            b == p(*link),
        {
            text_eq(link.tenant_id.as_str(), tenant_id) && (texts_contain(
                &uris,
                link.source_uri.as_str(),
            ) || texts_contain(&uris, link.target_uri.as_str()))
        };
    let touching: Vec<KnowledgeLink> = select_values(&before.links, accept, Ghost(p));
    let mut ids: Vec<String> = Vec::new();
    let mut i: usize = 0;
    while i < touching.len()
        invariant
            i <= touching.len(),
            ids@.len() == i,
            forall|j: int| 0 <= j < i ==> ids@[j] == touching@[j].id,
        decreases touching.len() - i,
    {
        ids.push(touching[i].id.clone());
        i += 1;
    }
    assert(texts(ids@) =~= Seq::new(touching@.len(), |i: int| touching@[i].id@));
    let link_ids: Vec<String> = dedup_texts(sort_texts(ids));
    push_deletion(resources, source_id, CompanySourceDeleteTarget::Fragments);
    push_deletion(resources, source_id, CompanySourceDeleteTarget::Revisions);
    push_deletion(resources, source_id, CompanySourceDeleteTarget::Source);
    push_deletion(resources, source_id, CompanySourceDeleteTarget::SourceDocuments);
    push_deletion(resources, source_id, CompanySourceDeleteTarget::ParseArtifacts);
    push_deletion(resources, source_id, CompanySourceDeleteTarget::IngestTasks);
    push_deletion(resources, source_id, CompanySourceDeleteTarget::IngestResults);
    push_deletion(
        resources,
        source_id,
        CompanySourceDeleteTarget::Links {
            link_ids: std::sync::Arc::new(link_ids),
            related_uris: std::sync::Arc::new(uris),
        },
    );
    assert(resource_views(resources@) =~= resource_views(old(resources)@) + deletion_resources(
        *before,
        tenant_id@,
        source_id@,
    ));
}

fn push_all_deletion_resources(
    resources: &mut Vec<OperationResource>,
    before: &StoreData,
    after: &StoreData,
    tenant_id: &str,
)
    ensures
        resource_views(final(resources)@) == resource_views(old(resources)@)
            + all_deletion_resources(
            *before,
            tenant_id@,
            gone_sources(*before, *after, tenant_id@),
        ),
{
    let ghost p = source_is_gone(*after, tenant_id@);
    let accept = |source: &CompanySource| -> (b: bool)
        ensures
            b == p(*source),
        {
            text_eq(source.tenant_id.as_str(), tenant_id) && !after.sources.contains_key(
                &source.id,
            )
        };
    let picked: Vec<CompanySource> = select_values(&before.sources, accept, Ghost(p));
    let gone: Vec<CompanySource> = sort_rows(picked);
    let mut i: usize = 0;
    assert(resource_views(resources@) =~= resource_views(old(resources)@) + Seq::empty());
    while i < gone.len()
        invariant
            i <= gone.len(),
            resource_views(resources@) == resource_views(old(resources)@) + all_deletion_resources(
                *before,
                tenant_id@,
                gone@.take(i as int),
            ),
        decreases gone.len() - i,
    {
        assert(gone@.take(i + 1).drop_last() =~= gone@.take(i as int));
        push_deletion_resources(resources, before, tenant_id, &gone[i].id);
        i += 1;
        assert(resource_views(resources@) =~= resource_views(old(resources)@)
            + all_deletion_resources(*before, tenant_id@, gone@.take(i as int)));
    }
    assert(gone@.take(i as int) =~= gone@);
}

/// One resource with all of `rows`, where there are any.
pub open spec fn some_resource<R>(rows: Seq<R>, make: spec_fn(Seq<R>) -> ResourceView) -> Seq<
    ResourceView,
> {
    if rows.len() == 0 {
        Seq::empty()
    } else {
        seq![make(rows)]
    }
}

/// What a mutation changed in the knowledge of a tenant.
pub open spec fn knowledge_resources(
    before: StoreData,
    after: StoreData,
    tenant_id: Seq<char>,
) -> Seq<ResourceView> {
    changes::<(String, String), UserEventIndex>(
        before.user_indexes@,
        after.user_indexes.values(),
        tenant_id,
    ).map_values(|index: UserEventIndex| ResourceView::EnsureUserEventIndex { index })
        + event_resources(before, after, tenant_id) + node_resource(
        COMPANY_CONTEXT_INDEX@,
        before.company_context@,
        after.company_context@,
        tenant_id,
    ) + personal_resources(
        before,
        after,
        tenant_id,
        personal_uids(before, after).len() as int,
    ) + changes::<(String, String, String), StateItem>(
        before.state_items@,
        after.state_items.values(),
        tenant_id,
    ).map_values(|item: StateItem| ResourceView::StateItem { item }) + changes::<
        String,
        InsightRecord,
    >(before.insights@, after.insights.values(), tenant_id).map_values(
        |insight: InsightRecord| ResourceView::Insight { insight },
    )
}

/// What a mutation changed in the documents of a tenant.
pub open spec fn document_resources(
    before: StoreData,
    after: StoreData,
    tenant_id: Seq<char>,
) -> Seq<ResourceView> {
    changes::<String, CompanySource>(
        before.sources@,
        after.sources.values(),
        tenant_id,
    ).map_values(|source: CompanySource| ResourceView::CompanySource { source })
        + all_deletion_resources(before, tenant_id, gone_sources(before, after, tenant_id))
        + list_changes::<SourceRevision>(
        flattened(before.source_revisions.values()),
        flattened(after.source_revisions.values()),
        tenant_id,
    ).map_values(|revision: SourceRevision| ResourceView::SourceRevision { revision })
        + some_resource(
        changes::<SourceDocumentKey, SourceDocument>(
            before.source_documents@,
            after.source_documents.values(),
            tenant_id,
        ),
        |documents: Seq<SourceDocument>| ResourceView::SourceDocuments { documents },
    ) + some_resource(
        changes::<ParseArtifactKey, ParseArtifact>(
            before.parse_artifacts@,
            after.parse_artifacts.values(),
            tenant_id,
        ),
        |artifacts: Seq<ParseArtifact>| ResourceView::ParseArtifacts { artifacts },
    )
}

fn push_knowledge_resources(
    resources: &mut Vec<OperationResource>,
    before: &StoreData,
    after: &StoreData,
    tenant_id: &str,
)
    ensures
        resource_views(final(resources)@) == resource_views(old(resources)@) + knowledge_resources(
            *before,
            *after,
            tenant_id@,
        ),
{
    let rows: Vec<UserEventIndex> = changed_rows(&before.user_indexes, &after.user_indexes, tenant_id);
    let make = |index: UserEventIndex| -> (made: OperationResource)
        ensures
            made@ == (ResourceView::EnsureUserEventIndex { index }),
        { OperationResource::EnsureUserEventIndex { index } };
    push_each(
        resources,
        rows,
        make,
        Ghost(|index: UserEventIndex| ResourceView::EnsureUserEventIndex { index }),
    );
    push_event_resources(resources, before, after, tenant_id);
    push_node_resource(
        resources,
        COMPANY_CONTEXT_INDEX,
        &before.company_context,
        &after.company_context,
        tenant_id,
    );
    push_personal_resources(resources, before, after, tenant_id);
    let rows: Vec<StateItem> = changed_rows(&before.state_items, &after.state_items, tenant_id);
    let make = |item: StateItem| -> (made: OperationResource)
        ensures
            made@ == (ResourceView::StateItem { item }),
        { OperationResource::StateItem { item } };
    push_each(
        resources,
        rows,
        make,
        Ghost(|item: StateItem| ResourceView::StateItem { item }),
    );
    let rows: Vec<InsightRecord> = changed_rows(&before.insights, &after.insights, tenant_id);
    let make = |insight: InsightRecord| -> (made: OperationResource)
        ensures
            made@ == (ResourceView::Insight { insight }),
        { OperationResource::Insight { insight } };
    push_each(
        resources,
        rows,
        make,
        Ghost(|insight: InsightRecord| ResourceView::Insight { insight }),
    );
    assert(resource_views(resources@) =~= resource_views(old(resources)@) + knowledge_resources(
        *before,
        *after,
        tenant_id@,
    ));
}

fn push_document_resources(
    resources: &mut Vec<OperationResource>,
    before: &StoreData,
    after: &StoreData,
    tenant_id: &str,
)
    ensures
        resource_views(final(resources)@) == resource_views(old(resources)@) + document_resources(
            *before,
            *after,
            tenant_id@,
        ),
{
    let rows: Vec<CompanySource> = changed_rows(&before.sources, &after.sources, tenant_id);
    let make = |source: CompanySource| -> (made: OperationResource)
        ensures
            made@ == (ResourceView::CompanySource { source }),
        { OperationResource::CompanySource { source } };
    push_each(
        resources,
        rows,
        make,
        Ghost(|source: CompanySource| ResourceView::CompanySource { source }),
    );
    push_all_deletion_resources(resources, before, after, tenant_id);
    let rows: Vec<SourceRevision> = changed_in_lists(&before.source_revisions, &after.source_revisions, tenant_id);
    let make = |revision: SourceRevision| -> (made: OperationResource)
        ensures
            made@ == (ResourceView::SourceRevision { revision }),
        { OperationResource::SourceRevision { revision } };
    push_each(
        resources,
        rows,
        make,
        Ghost(|revision: SourceRevision| ResourceView::SourceRevision { revision }),
    );
    let documents: Vec<SourceDocument> = changed_rows(
        &before.source_documents,
        &after.source_documents,
        tenant_id,
    );
    if documents.len() > 0 {
        push_one(
            resources,
            OperationResource::SourceDocuments { documents: std::sync::Arc::new(documents) },
        );
    }
    let artifacts: Vec<ParseArtifact> = changed_rows(
        &before.parse_artifacts,
        &after.parse_artifacts,
        tenant_id,
    );
    if artifacts.len() > 0 {
        push_one(
            resources,
            OperationResource::ParseArtifacts { artifacts: std::sync::Arc::new(artifacts) },
        );
    }
    assert(resource_views(resources@) =~= resource_views(old(resources)@) + document_resources(
        *before,
        *after,
        tenant_id@,
    ));
}

/// The ids of the snapshots of a tenant, in order.
pub open spec fn tenant_snapshot_ids(data: StoreData, tenant_id: Seq<char>) -> Seq<Seq<char>> {
    let own = data.snapshots.values().filter(
        |snapshot: StructuredSnapshot| snapshot.tenant_id@ == tenant_id,
    );
    sorted_texts(Seq::new(own.len(), |i: int| own[i].id@))
}

/// Whether the rows of a snapshot are there and have changed.
pub open spec fn rows_changed(before: StoreData, after: StoreData, snapshot_id: Seq<char>) -> bool {
    &&& after.rows_by_snapshot@.dom().contains(snapshot_id)
    &&& after.rows_by_snapshot@[snapshot_id]@.len() > 0
    &&& !(before.rows_by_snapshot@.dom().contains(snapshot_id) && all_same(
        before.rows_by_snapshot@[snapshot_id]@,
        after.rows_by_snapshot@[snapshot_id]@,
    ))
}

/// The changed rows of the first `n` snapshots of a tenant, one resource to a snapshot.
pub open spec fn row_resources(
    before: StoreData,
    after: StoreData,
    tenant_id: Seq<char>,
    n: int,
) -> Seq<ResourceView>
    decreases n,
{
    if n <= 0 {
        Seq::empty()
    } else {
        let id = tenant_snapshot_ids(after, tenant_id)[n - 1];
        let rest = row_resources(before, after, tenant_id, n - 1);
        if rows_changed(before, after, id) {
            rest.push(ResourceView::StructuredRows { rows: after.rows_by_snapshot@[id]@ })
        } else {
            rest
        }
    }
}

fn push_row_resources(
    resources: &mut Vec<OperationResource>,
    before: &StoreData,
    after: &StoreData,
    tenant_id: &str,
)
    ensures
        resource_views(final(resources)@) == resource_views(old(resources)@) + row_resources(
            *before,
            *after,
            tenant_id@,
            tenant_snapshot_ids(*after, tenant_id@).len() as int,
        ),
{
    let ghost p = |snapshot: StructuredSnapshot| snapshot.tenant_id@ == tenant_id@;
    let accept = |snapshot: &StructuredSnapshot| -> (b: bool)
        ensures
            b == p(*snapshot),
        { text_eq(snapshot.tenant_id.as_str(), tenant_id) };
    let own: Vec<StructuredSnapshot> = select_values(&after.snapshots, accept, Ghost(p));
    let mut ids: Vec<String> = Vec::new();
    let mut i: usize = 0;
    while i < own.len()
        invariant
            i <= own.len(),
            ids@.len() == i,
            forall|j: int| 0 <= j < i ==> ids@[j] == own@[j].id,
        decreases own.len() - i,
    {
        ids.push(own[i].id.clone());
        i += 1;
    }
    assert(texts(ids@) =~= Seq::new(own@.len(), |i: int| own@[i].id@));
    let ids: Vec<String> = sort_texts(ids);
    let mut i: usize = 0;
    assert(resource_views(resources@) =~= resource_views(old(resources)@) + Seq::empty());
    while i < ids.len()
        invariant
            i <= ids.len(),
            texts(ids@) == tenant_snapshot_ids(*after, tenant_id@),
            resource_views(resources@) == resource_views(old(resources)@) + row_resources(
                *before,
                *after,
                tenant_id@,
                i as int,
            ),
        decreases ids.len() - i,
    {
        let id: &String = &ids[i];
        assert(texts(ids@)[i as int] == id@);
        if let Some(rows) = after.rows_by_snapshot.get(id) {
            let changed: bool = rows.len() > 0 && match before.rows_by_snapshot.get(id) {
                Some(old_rows) => !lists_same(old_rows, rows),
                None => true,
            };
            if changed {
                push_one(
                    resources,
                    OperationResource::StructuredRows {
                        rows: std::sync::Arc::new(crate::record::copy_all(rows)),
                    },
                );
            }
        }
        i += 1;
        assert(resource_views(resources@) =~= resource_views(old(resources)@) + row_resources(
            *before,
            *after,
            tenant_id@,
            i as int,
        ));
    }
}

/// The summaries of a tenant that are new or have changed, by id.
pub open spec fn summary_changes(
    before: StoreData,
    after: StoreData,
    tenant_id: Seq<char>,
) -> Seq<(String, Json)> {
    sorted_by(
        after.structured_summaries.rows().filter(
            |row: (String, Json)|
                text_member(row.1, "tenant_id"@) == Some(tenant_id) && !(
                before.structured_summaries@.dom().contains(row.0@)
                    && before.structured_summaries@[row.0@].same_as(&row.1)),
        ),
        |a: (String, Json), b: (String, Json)| text_lt(a.0@, b.0@),
    )
}

/// The summaries of a tenant that are new or have changed, by id.
pub open spec fn summary_resources(
    before: StoreData,
    after: StoreData,
    tenant_id: Seq<char>,
) -> Seq<ResourceView> {
    summary_changes(before, after, tenant_id).map_values(
        |row: (String, Json)| ResourceView::StructuredSummary { summary: row.1 },
    )
}

fn push_summary_resources(
    resources: &mut Vec<OperationResource>,
    before: &StoreData,
    after: &StoreData,
    tenant_id: &str,
)
    ensures
        resource_views(final(resources)@) == resource_views(old(resources)@) + summary_resources(
            *before,
            *after,
            tenant_id@,
        ),
{
    let ghost p = |row: (String, Json)|
        text_member(row.1, "tenant_id"@) == Some(tenant_id@) && !(
        before.structured_summaries@.dom().contains(row.0@)
            && before.structured_summaries@[row.0@].same_as(&row.1));
    let ghost all = after.structured_summaries.rows();
    let n: usize = after.structured_summaries.len();
    let mut picked: Vec<(String, Json)> = Vec::new();
    let mut i: usize = 0;
    assert(all.take(0).filter(p) =~= Seq::<(String, Json)>::empty()) by {
        reveal(Seq::filter);
    }
    while i < n
        invariant
            i <= n == all.len(),
            all == after.structured_summaries.rows(),
            p == (|row: (String, Json)|
                text_member(row.1, "tenant_id"@) == Some(tenant_id@) && !(
                before.structured_summaries@.dom().contains(row.0@)
                    && before.structured_summaries@[row.0@].same_as(&row.1))),
            picked@ == all.take(i as int).filter(p),
        decreases n - i,
    {
        assert(all.take(i + 1).drop_last() =~= all.take(i as int));
        assert(all.take(i + 1).filter(p) == (if p(all[i as int]) {
            picked@.push(all[i as int])
        } else {
            picked@
        })) by {
            reveal(Seq::filter);
        }
        let key: &String = after.structured_summaries.key_at(i);
        let summary: &Json = after.structured_summaries.value_at(i);
        let own: bool = match summary.text_of("tenant_id") {
            Some(tenant) => text_eq(tenant, tenant_id),
            None => false,
        };
        let changed: bool = match before.structured_summaries.get(key) {
            Some(old_summary) => !old_summary.same(summary),
            None => true,
        };
        if own && changed {
            picked.push((key.clone(), summary.clone()));
        }
        i += 1;
    }
    assert(all.take(i as int) =~= all);
    let ghost lt = |a: (String, Json), b: (String, Json)| text_lt(a.0@, b.0@);
    let earlier = |a: &(String, Json), b: &(String, Json)| -> (c: bool)
        ensures
            c == lt(*a, *b),
        { text_before(a.0.as_str(), b.0.as_str()) };
    let sorted: Vec<(String, Json)> = sort_by(picked, earlier, Ghost(lt));
    let make = |row: (String, Json)| -> (made: OperationResource)
        ensures
            made@ == (ResourceView::StructuredSummary { summary: row.1 }),
        { OperationResource::StructuredSummary { summary: row.1 } };
    push_each(
        resources,
        sorted,
        make,
        Ghost(|row: (String, Json)| ResourceView::StructuredSummary { summary: row.1 }),
    );
}

/// What a mutation changed in the structured data of a tenant.
pub open spec fn structured_resources(
    before: StoreData,
    after: StoreData,
    tenant_id: Seq<char>,
) -> Seq<ResourceView> {
    changes::<String, DatasetRecord>(before.datasets@, after.datasets.values(), tenant_id).map_values(
        |dataset: DatasetRecord| ResourceView::Dataset { dataset },
    ) + changes::<String, StructuredSnapshot>(before.snapshots@, after.snapshots.values(), tenant_id).map_values(
        |snapshot: StructuredSnapshot| ResourceView::StructuredSnapshot { snapshot },
    ) + row_resources(before, after, tenant_id, tenant_snapshot_ids(after, tenant_id).len() as int) + summary_resources(before, after, tenant_id)
}

/// Appends what a mutation changed in the structured data of a tenant.
fn structured_mutation_resources(
    resources: &mut Vec<OperationResource>,
    before: &StoreData,
    after: &StoreData,
    tenant_id: &str,
)
    ensures
        resource_views(final(resources)@) == resource_views(old(resources)@) + structured_resources(
            *before,
            *after,
            tenant_id@,
        ),
{
    let rows: Vec<DatasetRecord> = changed_rows(&before.datasets, &after.datasets, tenant_id);
    let make = |dataset: DatasetRecord| -> (made: OperationResource)
        ensures
            made@ == (ResourceView::Dataset { dataset }),
        { OperationResource::Dataset { dataset } };
    push_each(
        resources,
        rows,
        make,
        Ghost(|dataset: DatasetRecord| ResourceView::Dataset { dataset }),
    );
    let rows: Vec<StructuredSnapshot> = changed_rows(&before.snapshots, &after.snapshots, tenant_id);
    let make = |snapshot: StructuredSnapshot| -> (made: OperationResource)
        ensures
            made@ == (ResourceView::StructuredSnapshot { snapshot }),
        { OperationResource::StructuredSnapshot { snapshot } };
    push_each(
        resources,
        rows,
        make,
        Ghost(|snapshot: StructuredSnapshot| ResourceView::StructuredSnapshot { snapshot }),
    );
    push_row_resources(resources, before, after, tenant_id);
    push_summary_resources(resources, before, after, tenant_id);
    assert(resource_views(resources@) =~= resource_views(old(resources)@) + structured_resources(
        *before,
        *after,
        tenant_id@,
    ));
}

/// What a mutation changed in the sessions, traces and links of a tenant.
pub open spec fn session_and_link_resources(
    before: StoreData,
    after: StoreData,
    tenant_id: Seq<char>,
) -> Seq<ResourceView> {
    changes::<String, SessionRecord>(before.sessions@, after.sessions.values(), tenant_id).map_values(
        |session: SessionRecord| ResourceView::Session { session },
    ) + changes::<String, TraceRecord>(before.traces@, after.traces.values(), tenant_id).map_values(
        |trace: TraceRecord| ResourceView::Trace { trace },
    ) + some_resource(
        changes::<String, KnowledgeLink>(before.links@, after.links.values(), tenant_id),
        |links: Seq<KnowledgeLink>| ResourceView::Links { links },
    )
}

/// Appends what a mutation changed in the sessions, traces and links of a tenant.
fn session_and_link_mutation_resources(
    resources: &mut Vec<OperationResource>,
    before: &StoreData,
    after: &StoreData,
    tenant_id: &str,
)
    ensures
        resource_views(final(resources)@) == resource_views(old(resources)@) + session_and_link_resources(
            *before,
            *after,
            tenant_id@,
        ),
{
    let rows: Vec<SessionRecord> = changed_rows(&before.sessions, &after.sessions, tenant_id);
    let make = |session: SessionRecord| -> (made: OperationResource)
        ensures
            made@ == (ResourceView::Session { session }),
        { OperationResource::Session { session } };
    push_each(
        resources,
        rows,
        make,
        Ghost(|session: SessionRecord| ResourceView::Session { session }),
    );
    let rows: Vec<TraceRecord> = changed_rows(&before.traces, &after.traces, tenant_id);
    let make = |trace: TraceRecord| -> (made: OperationResource)
        ensures
            made@ == (ResourceView::Trace { trace }),
        { OperationResource::Trace { trace } };
    push_each(
        resources,
        rows,
        make,
        Ghost(|trace: TraceRecord| ResourceView::Trace { trace }),
    );
    let links: Vec<KnowledgeLink> = changed_rows(&before.links, &after.links, tenant_id);
    if links.len() > 0 {
        push_one(
            resources,
            OperationResource::Links { links: std::sync::Arc::new(links) },
        );
    }
    assert(resource_views(resources@) =~= resource_views(old(resources)@) + session_and_link_resources(
        *before,
        *after,
        tenant_id@,
    ));
}

/// The harness components and revisions of a tenant that are new or have changed.
pub open spec fn component_resources(
    before: StoreData,
    after: StoreData,
    tenant_id: Seq<char>,
) -> Seq<ResourceView> {
    let components = changes::<String, HarnessComponent>(
        before.harness_components@,
        after.harness_components.values(),
        tenant_id,
    );
    let revisions = list_changes::<HarnessComponentRevision>(
        flattened(before.harness_revisions.values()),
        flattened(after.harness_revisions.values()),
        tenant_id,
    );
    if components.len() == 0 && revisions.len() == 0 {
        Seq::empty()
    } else {
        seq![ResourceView::HarnessComponents { components, revisions }]
    }
}

/// Whether a task of the tenant is there no more.
pub open spec fn task_is_gone(after: StoreData, tenant_id: Seq<char>) -> spec_fn(
    IngestTask,
) -> bool {
    |task: IngestTask|
        task.tenant_id@ == tenant_id && !after.ingest_tasks@.dom().contains(task.task_id@)
}

/// The ids of the ingest tasks of a tenant that are gone, in order.
pub open spec fn gone_task_ids(before: StoreData, after: StoreData, tenant_id: Seq<char>) -> Seq<
    Seq<char>,
> {
    let gone = before.ingest_tasks.values().filter(task_is_gone(after, tenant_id));
    sorted_texts(Seq::new(gone.len(), |i: int| gone[i].task_id@))
}

fn deleted_task_ids(before: &StoreData, after: &StoreData, tenant_id: &str) -> (r: Vec<String>)
    ensures
        texts(r@) == gone_task_ids(*before, *after, tenant_id@),
{
    let ghost p = task_is_gone(*after, tenant_id@);
    let accept = |task: &IngestTask| -> (b: bool)
        ensures
            b == p(*task),
        {
            text_eq(task.tenant_id.as_str(), tenant_id) && !after.ingest_tasks.contains_key(
                &task.task_id,
            )
        };
    let gone: Vec<IngestTask> = select_values(&before.ingest_tasks, accept, Ghost(p));
    let mut ids: Vec<String> = Vec::new();
    let mut i: usize = 0;
    while i < gone.len()
        invariant
            i <= gone.len(),
            ids@.len() == i,
            forall|j: int| 0 <= j < i ==> ids@[j] == gone@[j].task_id,
        decreases gone.len() - i,
    {
        ids.push(gone[i].task_id.clone());
        i += 1;
    }
    assert(texts(ids@) =~= Seq::new(gone@.len(), |i: int| gone@[i].task_id@));
    sort_texts(ids)
}

/// What a mutation changed in the evaluations of a tenant.
pub open spec fn eval_resources(
    before: StoreData,
    after: StoreData,
    tenant_id: Seq<char>,
) -> Seq<ResourceView> {
    changes::<String, RagEvalCase>(before.eval_cases@, after.eval_cases.values(), tenant_id).map_values(
        |case: RagEvalCase| ResourceView::EvalCase { case },
    ) + changes::<String, RagEvalRun>(before.eval_runs@, after.eval_runs.values(), tenant_id).map_values(
        |run: RagEvalRun| ResourceView::EvalRun { run },
    ) + some_resource(
        changes::<String, RagEvalCaseResult>(before.eval_case_results@, after.eval_case_results.values(), tenant_id),
        |results: Seq<RagEvalCaseResult>| ResourceView::EvalCaseResults { results },
    ) + changes::<String, RagEvalOverview>(before.eval_overviews@, after.eval_overviews.values(), tenant_id).map_values(
        |overview: RagEvalOverview| ResourceView::EvalOverview { overview },
    )
}

/// Appends what a mutation changed in the evaluations of a tenant.
fn eval_mutation_resources(
    resources: &mut Vec<OperationResource>,
    before: &StoreData,
    after: &StoreData,
    tenant_id: &str,
)
    ensures
        resource_views(final(resources)@) == resource_views(old(resources)@) + eval_resources(
            *before,
            *after,
            tenant_id@,
        ),
{
    let rows: Vec<RagEvalCase> = changed_rows(&before.eval_cases, &after.eval_cases, tenant_id);
    let make = |case: RagEvalCase| -> (made: OperationResource)
        ensures
            made@ == (ResourceView::EvalCase { case }),
        { OperationResource::EvalCase { case } };
    push_each(
        resources,
        rows,
        make,
        Ghost(|case: RagEvalCase| ResourceView::EvalCase { case }),
    );
    let rows: Vec<RagEvalRun> = changed_rows(&before.eval_runs, &after.eval_runs, tenant_id);
    let make = |run: RagEvalRun| -> (made: OperationResource)
        ensures
            made@ == (ResourceView::EvalRun { run }),
        { OperationResource::EvalRun { run } };
    push_each(
        resources,
        rows,
        make,
        Ghost(|run: RagEvalRun| ResourceView::EvalRun { run }),
    );
    let results: Vec<RagEvalCaseResult> = changed_rows(&before.eval_case_results, &after.eval_case_results, tenant_id);
    if results.len() > 0 {
        push_one(
            resources,
            OperationResource::EvalCaseResults { results: std::sync::Arc::new(results) },
        );
    }
    let rows: Vec<RagEvalOverview> = changed_rows(&before.eval_overviews, &after.eval_overviews, tenant_id);
    let make = |overview: RagEvalOverview| -> (made: OperationResource)
        ensures
            made@ == (ResourceView::EvalOverview { overview }),
        { OperationResource::EvalOverview { overview } };
    push_each(
        resources,
        rows,
        make,
        Ghost(|overview: RagEvalOverview| ResourceView::EvalOverview { overview }),
    );
    assert(resource_views(resources@) =~= resource_views(old(resources)@) + eval_resources(
        *before,
        *after,
        tenant_id@,
    ));
}

/// What a mutation changed in the harness, the ingest tasks and the evaluations of a tenant.
pub open spec fn operational_resources(
    before: StoreData,
    after: StoreData,
    tenant_id: Seq<char>,
) -> Seq<ResourceView> {
    component_resources(before, after, tenant_id) + some_resource(
        changes::<String, HarnessChangeManifest>(before.harness_changes@, after.harness_changes.values(), tenant_id),
        |changed: Seq<HarnessChangeManifest>| ResourceView::HarnessChanges { changes: changed },
    ) + some_resource(
        changes::<String, HarnessChangeVerdict>(before.harness_verdicts@, after.harness_verdicts.values(), tenant_id),
        |verdicts: Seq<HarnessChangeVerdict>| ResourceView::HarnessVerdicts { verdicts },
    ) + some_resource(
        changes::<String, IngestTask>(before.ingest_tasks@, after.ingest_tasks.values(), tenant_id),
        |tasks: Seq<IngestTask>| ResourceView::IngestTasks { tasks },
    ) + some_resource(
        gone_task_ids(before, after, tenant_id),
        |task_ids: Seq<Seq<char>>| ResourceView::DeleteIngestTasks { task_ids },
    ) + changes::<String, IngestTaskResult>(before.ingest_results@, after.ingest_results.values(), tenant_id).map_values(
        |result: IngestTaskResult| ResourceView::IngestResult { result },
    ) + eval_resources(before, after, tenant_id)
}

/// Appends what a mutation changed in the harness, the ingest tasks and the evaluations.
#[verifier::rlimit(60)]
fn operational_mutation_resources(
    resources: &mut Vec<OperationResource>,
    before: &StoreData,
    after: &StoreData,
    tenant_id: &str,
)
    ensures
        resource_views(final(resources)@) == resource_views(old(resources)@) + operational_resources(
            *before,
            *after,
            tenant_id@,
        ),
{
    let components: Vec<HarnessComponent> = changed_rows(
        &before.harness_components,
        &after.harness_components,
        tenant_id,
    );
    let revisions: Vec<HarnessComponentRevision> = changed_in_lists(
        &before.harness_revisions,
        &after.harness_revisions,
        tenant_id,
    );
    if components.len() > 0 || revisions.len() > 0 {
        push_one(
            resources,
            OperationResource::HarnessComponents {
                components: std::sync::Arc::new(components),
                revisions: std::sync::Arc::new(revisions),
            },
        );
    }
    let changed: Vec<HarnessChangeManifest> = changed_rows(&before.harness_changes, &after.harness_changes, tenant_id);
    if changed.len() > 0 {
        push_one(
            resources,
            OperationResource::HarnessChanges { changes: std::sync::Arc::new(changed) },
        );
    }
    let verdicts: Vec<HarnessChangeVerdict> = changed_rows(&before.harness_verdicts, &after.harness_verdicts, tenant_id);
    if verdicts.len() > 0 {
        push_one(
            resources,
            OperationResource::HarnessVerdicts { verdicts: std::sync::Arc::new(verdicts) },
        );
    }
    let tasks: Vec<IngestTask> = changed_rows(&before.ingest_tasks, &after.ingest_tasks, tenant_id);
    if tasks.len() > 0 {
        push_one(
            resources,
            OperationResource::IngestTasks { tasks: std::sync::Arc::new(tasks) },
        );
    }
    let task_ids: Vec<String> = deleted_task_ids(before, after, tenant_id);
    if task_ids.len() > 0 {
        assert(texts(task_ids@).len() > 0);
        push_one(
            resources,
            OperationResource::DeleteIngestTasks { task_ids: std::sync::Arc::new(task_ids) },
        );
    } else {
        assert(texts(task_ids@).len() == 0);
    }
    let rows: Vec<IngestTaskResult> = changed_rows(&before.ingest_results, &after.ingest_results, tenant_id);
    let make = |result: IngestTaskResult| -> (made: OperationResource)
        ensures
            made@ == (ResourceView::IngestResult { result }),
        { OperationResource::IngestResult { result } };
    push_each(
        resources,
        rows,
        make,
        Ghost(|result: IngestTaskResult| ResourceView::IngestResult { result }),
    );
    eval_mutation_resources(resources, before, after, tenant_id);
    assert(resource_views(resources@) =~= resource_views(old(resources)@) + operational_resources(
        *before,
        *after,
        tenant_id@,
    ));
}

/// Everything that a mutation changed for a tenant, as operation resources in a fixed order.
pub open spec fn mutation_delta(
    before: StoreData,
    after: StoreData,
    tenant_id: Seq<char>,
) -> Seq<ResourceView> {
    knowledge_resources(before, after, tenant_id) + document_resources(before, after, tenant_id)
        + structured_resources(before, after, tenant_id) + session_and_link_resources(
        before,
        after,
        tenant_id,
    ) + operational_resources(before, after, tenant_id)
}

/// Everything that a mutation changed for a tenant, as operation resources in a fixed order.
pub fn mutation_resources(
    tenant_id: &str,
    before: &StoreData,
    after: &StoreData,
) -> (r: Vec<OperationResource>)
    ensures
        resource_views(r@) == mutation_delta(*before, *after, tenant_id@),
{
    let mut resources: Vec<OperationResource> = Vec::new();
    push_knowledge_resources(&mut resources, before, after, tenant_id);
    push_document_resources(&mut resources, before, after, tenant_id);
    structured_mutation_resources(&mut resources, before, after, tenant_id);
    session_and_link_mutation_resources(&mut resources, before, after, tenant_id);
    operational_mutation_resources(&mut resources, before, after, tenant_id);
    assert(resource_views(resources@) =~= mutation_delta(*before, *after, tenant_id@));
    resources
}

} // verus!
