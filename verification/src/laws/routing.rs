//! Where what an operation writes may go: to its own tenant, to its owner's own indexes, and to no
//! index that is not registered.

use vstd::prelude::*;

use crate::data::StoreData;
use crate::model::knowledge::{ContextNode, HistoryEvent, UserEventIndex};
use crate::model::operation::{OperationRecord, OperationStep, ResourceView};
use crate::naming::index_id;
use crate::operations::plan_steps;
use crate::publish::COMPANY_CONTEXT_INDEX;
use crate::resolver::{
    context_uid, event_uid, EVENT_INDEX_SCHEMA_VERSION, EVENT_SETTINGS_HASH, EventIndexResolver,
};
use crate::routing::{
    commitment, event_needs, index_fault, need_fault, needs_fault, node_fault, nodes_fault,
    registered, route_fault, routing_fault, steps_fault, Need,
};

verus! {

/// Whether an owner is the one that is expected, where one is.
pub open spec fn is_expected(expected: Option<Seq<char>>, owner_hash: Seq<char>) -> bool {
    expected is Some ==> expected->0 == owner_hash
}

/// An index is written only where it is wholly what its tenant and owner make of it, in use, and
/// of the owner that is expected.
pub proof fn an_index_is_routed_to_its_owner(
    resolver: EventIndexResolver,
    index: UserEventIndex,
    tenant_id: Seq<char>,
    expected: Option<Seq<char>>,
)
    ensures
        index_fault(resolver, index, tenant_id, expected) is None <==> {
            let tenant_hash = resolver.tenant_digest(tenant_id);
            &&& index.tenant_id@ == tenant_id
            &&& index.tenant_hash@ == tenant_hash
            &&& index.id@ == index_id(tenant_hash, index.owner_user_id_hash@)
            &&& index.event_index_uid@ == event_uid(tenant_hash, index.owner_user_id_hash@)
            &&& index.personal_context_index_uid@ == context_uid(
                tenant_hash,
                index.owner_user_id_hash@,
            )
            &&& index.schema_version == EVENT_INDEX_SCHEMA_VERSION
            &&& index.settings_hash@ == EVENT_SETTINGS_HASH@
            &&& index.status@ == "active"@
            &&& is_expected(expected, index.owner_user_id_hash@)
        },
{
}

/// A node is written only under its own tenant and index: a private one to its owner's own index
/// and only for the owner that is expected, a shared one to the company's.
pub proof fn a_node_is_routed_to_its_index(
    resolver: EventIndexResolver,
    node: ContextNode,
    index_uid: Seq<char>,
    tenant_id: Seq<char>,
    expected: Option<Seq<char>>,
)
    ensures
        node_fault(resolver, node, index_uid, tenant_id, expected) is None <==> {
            &&& node.tenant_id@ == tenant_id
            &&& node.index_uid@ == index_uid
            &&& node.owner_user_id is Some ==> {
                &&& index_uid == resolver.context_of(tenant_id, node.owner_user_id->0@)
                &&& node.index_kind@ == "personal"@
                &&& node.privacy@ == "private"@
                &&& is_expected(expected, resolver.user_digest(node.owner_user_id->0@))
            }
            &&& node.owner_user_id is None ==> {
                &&& index_uid == COMPANY_CONTEXT_INDEX@
                &&& node.index_kind@ == "company"@
                &&& node.privacy@ == "company"@
            }
        },
{
}

/// Nodes are written only where each may be.
pub proof fn every_node_is_routed(
    resolver: EventIndexResolver,
    nodes: Seq<ContextNode>,
    index_uid: Seq<char>,
    tenant_id: Seq<char>,
    expected: Option<Seq<char>>,
)
    ensures
        nodes_fault(resolver, nodes, index_uid, tenant_id, expected) is None <==> forall|i: int|
            0 <= i < nodes.len() ==> node_fault(
                resolver,
                #[trigger] nodes[i],
                index_uid,
                tenant_id,
                expected,
            ) is None,
    decreases nodes.len(),
{
    if nodes.len() > 0 {
        let front = nodes.drop_last();
        let n = nodes.len() - 1;
        every_node_is_routed(resolver, front, index_uid, tenant_id, expected);
        assert(forall|i: int| 0 <= i < n ==> #[trigger] front[i] == nodes[i]);
        assert(nodes.last() == nodes[n]);
        if nodes_fault(resolver, nodes, index_uid, tenant_id, expected) is None {
            assert forall|i: int| 0 <= i < nodes.len() implies node_fault(
                resolver,
                #[trigger] nodes[i],
                index_uid,
                tenant_id,
                expected,
            ) is None by {
                if i < n {
                    assert(front[i] == nodes[i]);
                }
            }
        }
    }
}

/// Events are written only where each is of the tenant, in its owner's own index, and of the owner
/// that is expected.
pub proof fn every_event_is_routed(
    resolver: EventIndexResolver,
    events: Seq<HistoryEvent>,
    tenant_id: Seq<char>,
    expected: Option<Seq<char>>,
)
    ensures
        route_fault(resolver, ResourceView::HistoryEvents { events }, tenant_id, expected) is None
            <==> forall|i: int|
            0 <= i < events.len() ==> {
                &&& (#[trigger] events[i]).tenant_id@ == tenant_id
                &&& events[i].owner_user_id_hash@ == resolver.user_digest(events[i].owner_user_id@)
                &&& events[i].event_index_uid@ == resolver.events_of(
                    tenant_id,
                    events[i].owner_user_id@,
                )
                &&& events[i].event_index_schema_version == EVENT_INDEX_SCHEMA_VERSION
                &&& is_expected(expected, resolver.user_digest(events[i].owner_user_id@))
            },
{
    let ok = forall|i: int|
        0 <= i < events.len() ==> crate::routing::event_routed(
            resolver,
            #[trigger] events[i],
            tenant_id,
            expected,
        );
    assert(route_fault(resolver, ResourceView::HistoryEvents { events }, tenant_id, expected)
        is None <==> ok);
    if forall|i: int|
        0 <= i < events.len() ==> {
            &&& (#[trigger] events[i]).tenant_id@ == tenant_id
            &&& events[i].owner_user_id_hash@ == resolver.user_digest(events[i].owner_user_id@)
            &&& events[i].event_index_uid@ == resolver.events_of(
                tenant_id,
                events[i].owner_user_id@,
            )
            &&& events[i].event_index_schema_version == EVENT_INDEX_SCHEMA_VERSION
            &&& is_expected(expected, resolver.user_digest(events[i].owner_user_id@))
        } {
        assert(ok);
    }
}

/// Where an owner is expected, only that owner's links and insights are written.
pub proof fn only_the_expected_owner_is_written_for(
    resolver: EventIndexResolver,
    resource: ResourceView,
    tenant_id: Seq<char>,
    expected: Seq<char>,
)
    requires
        route_fault(resolver, resource, tenant_id, Some(expected)) is None,
    ensures
        match resource {
            ResourceView::Links { links } => forall|i: int|
                0 <= i < links.len() ==> (#[trigger] links[i]).owner_user_id is Some
                    && resolver.user_digest(links[i].owner_user_id->0@) == expected,
            ResourceView::Insight { insight } => resolver.user_digest(insight.owner_user_id@)
                == expected,
            _ => true,
        },
{
    if let ResourceView::Links { links } = resource {
        assert(forall|i: int|
            0 <= i < links.len() ==> crate::routing::link_committed(
                resolver,
                #[trigger] links[i],
                Some(expected),
            ));
    }
}

/// The steps of an operation may be run only if each of them may.
pub proof fn every_step_is_routed(
    resolver: EventIndexResolver,
    steps: Seq<OperationStep>,
    tenant_id: Seq<char>,
    expected: Option<Seq<char>>,
)
    ensures
        steps_fault(resolver, steps, tenant_id, expected) is None <==> forall|i: int|
            0 <= i < steps.len() ==> route_fault(
                resolver,
                (#[trigger] steps[i]).resource@,
                tenant_id,
                expected,
            ) is None,
    decreases steps.len(),
{
    if steps.len() > 0 {
        let front = steps.drop_last();
        let n = steps.len() - 1;
        every_step_is_routed(resolver, front, tenant_id, expected);
        assert(forall|i: int| 0 <= i < n ==> #[trigger] front[i] == steps[i]);
        assert(steps.last() == steps[n]);
        if steps_fault(resolver, steps, tenant_id, expected) is None {
            assert forall|i: int| 0 <= i < steps.len() implies route_fault(
                resolver,
                (#[trigger] steps[i]).resource@,
                tenant_id,
                expected,
            ) is None by {
                if i < n {
                    assert(front[i] == steps[i]);
                }
            }
        }
    }
}

/// An operation that is let through is sound in itself; each of its steps stays with the tenant of
/// the operation; and one from an analysis says whom it is for and writes for no one else.
pub proof fn an_operation_is_let_through(
    resolver: EventIndexResolver,
    record: OperationRecord,
    checked: Result<(), String>,
    i: int,
)
    requires
        routing_fault(resolver, record, checked) is None,
        0 <= i < plan_steps(record.plan).len(),
    ensures
        checked is Ok,
        record.operation_kind@ == "analysis.materialize"@
            ==> record.plan.redacted_metadata.target_owner_user_id_hash is Some && route_fault(
            resolver,
            plan_steps(record.plan)[i].resource@,
            record.tenant_id@,
            Some(record.plan.redacted_metadata.target_owner_user_id_hash->0@),
        ) is None,
        record.operation_kind@ != "analysis.materialize"@ ==> route_fault(
            resolver,
            plan_steps(record.plan)[i].resource@,
            record.tenant_id@,
            None,
        ) is None,
{
    every_step_is_routed(
        resolver,
        plan_steps(record.plan),
        record.tenant_id@,
        commitment(record),
    );
}

/// A step needs an index that is registered, of the tenant and owner it writes for, in use and of
/// the present kind, and that is the very one it names.
pub proof fn a_need_is_met_by_a_registered_index(
    index: Option<UserEventIndex>,
    tenant_id: Seq<char>,
    need: Need,
)
    ensures
        need_fault(index, tenant_id, need) is None <==> {
            &&& index is Some
            &&& index->0.tenant_id@ == tenant_id
            &&& index->0.owner_user_id_hash@ == need.owner_hash
            &&& index->0.status@ == "active"@
            &&& index->0.schema_version == EVENT_INDEX_SCHEMA_VERSION
            &&& index->0.settings_hash@ == EVENT_SETTINGS_HASH@
            &&& need.event_uid is Some ==> need.event_uid->0 == index->0.event_index_uid@
            &&& need.context_uid is Some ==> need.context_uid->0
                == index->0.personal_context_index_uid@
            &&& need.exact is Some ==> {
                let exact = need.exact->0;
                &&& index->0.id@ == exact.id@
                &&& index->0.tenant_id@ == exact.tenant_id@
                &&& index->0.tenant_hash@ == exact.tenant_hash@
                &&& index->0.owner_user_id_hash@ == exact.owner_user_id_hash@
                &&& index->0.event_index_uid@ == exact.event_index_uid@
                &&& index->0.personal_context_index_uid@ == exact.personal_context_index_uid@
                &&& index->0.schema_version == exact.schema_version
                &&& index->0.settings_hash@ == exact.settings_hash@
                &&& index->0.status@ == exact.status@
            }
        },
{
}

/// All needs are met if each is.
pub proof fn every_need_is_met(
    registry: Option<Map<Seq<char>, UserEventIndex>>,
    data: StoreData,
    tenant_id: Seq<char>,
    needs: Seq<Need>,
)
    ensures
        needs_fault(registry, data, tenant_id, needs) is None <==> forall|i: int|
            0 <= i < needs.len() ==> need_fault(
                registered(registry, data, tenant_id, (#[trigger] needs[i]).owner_hash),
                tenant_id,
                needs[i],
            ) is None,
    decreases needs.len(),
{
    if needs.len() > 0 {
        let front = needs.drop_last();
        let n = needs.len() - 1;
        every_need_is_met(registry, data, tenant_id, front);
        assert(forall|i: int| 0 <= i < n ==> #[trigger] front[i] == needs[i]);
        assert(needs.last() == needs[n]);
        if needs_fault(registry, data, tenant_id, needs) is None {
            assert forall|i: int| 0 <= i < needs.len() implies need_fault(
                registered(registry, data, tenant_id, (#[trigger] needs[i]).owner_hash),
                tenant_id,
                needs[i],
            ) is None by {
                if i < n {
                    assert(front[i] == needs[i]);
                }
            }
        }
    }
}

/// An index is looked up in the registry that is given, and else among the store's own.
pub proof fn an_index_is_looked_up(
    registry: Option<Map<Seq<char>, UserEventIndex>>,
    data: StoreData,
    tenant_id: Seq<char>,
    owner_hash: Seq<char>,
)
    ensures
        ({
            let r = registered(registry, data, tenant_id, owner_hash);
            &&& registry is Some ==> (r is Some <==> registry->0.dom().contains(owner_hash))
            &&& registry is Some && r is Some ==> r->0 == registry->0[owner_hash]
            &&& registry is None ==> (r is Some <==> data.user_indexes@.dom().contains(
                (tenant_id, owner_hash),
            ))
            &&& registry is None && r is Some ==> r->0 == data.user_indexes@[(
                tenant_id,
                owner_hash,
            )]
        }),
{
}

/// Every event needs the index of its own owner.
pub proof fn an_event_needs_its_owners_index(events: Seq<HistoryEvent>, i: int)
    requires
        0 <= i < events.len(),
    ensures
        event_needs(events).len() == events.len(),
        event_needs(events)[i].owner_hash == events[i].owner_user_id_hash@,
        event_needs(events)[i].event_uid == Some(events[i].event_index_uid@),
{
}

} // verus!
