//! Whether operations write where their tenant and their owners are stored.

use vstd::prelude::*;
use vstd::string::*;

use crate::data::StoreData;
use crate::error::{fails_with, ApiError, ErrorView};
use crate::model::knowledge::{ContextNode, HistoryEvent, KnowledgeLink, UserEventIndex};
use crate::model::operation::{
    OperationRecord, OperationResource, OperationStep, OperationStepStatus, ResourceView,
};
use crate::naming::{index_id, user_event_index_id};
use crate::operations::{
    find_progress, find_step, has_progress, has_step, missing_step, plan_steps, progress_of,
    step_missing, step_with,
};
use crate::publish::COMPANY_CONTEXT_INDEX;
use crate::resolver::{
    context_index_uid, context_uid, event_index_uid, event_uid, EventIndexResolver, EventRouting,
    EVENT_INDEX_SCHEMA_VERSION, EVENT_SETTINGS_HASH,
};
use crate::table::Table;
use crate::text::{opt_text, text_eq, texts};

verus! {

/// The kind of the operations that materialise an analysis.
pub const ANALYSIS_KIND: &'static str = "analysis.materialize";

/// Whether a hash is the one that an analysis committed to; without a commitment, any is.
pub open spec fn commits(expected: Option<Seq<char>>, hash: Seq<char>) -> bool {
    match expected {
        Some(e) => e == hash,
        None => true,
    }
}

fn committed(expected: &Option<String>, hash: &str) -> (r: bool)
    ensures
        r == commits(opt_text(*expected), hash@),
{
    match expected {
        Some(e) => text_eq(e.as_str(), hash),
        None => true,
    }
}

/// Whether a registry row is the one that tenant and owner hash lead to.
pub open spec fn index_routed(
    resolver: EventIndexResolver,
    index: UserEventIndex,
    tenant_id: Seq<char>,
) -> bool {
    let tenant_hash = resolver.tenant_digest(tenant_id);
    &&& index.tenant_id@ == tenant_id
    &&& index.tenant_hash@ == tenant_hash
    &&& index.id@ == index_id(tenant_hash, index.owner_user_id_hash@)
    &&& index.event_index_uid@ == event_uid(tenant_hash, index.owner_user_id_hash@)
    &&& index.personal_context_index_uid@ == context_uid(tenant_hash, index.owner_user_id_hash@)
}

/// Whether a registry row is the one that tenant and owner hash lead to.
pub fn index_is_routed(
    resolver: &EventIndexResolver,
    index: &UserEventIndex,
    tenant_id: &str,
) -> (r: bool)
    ensures
        r == index_routed(*resolver, *index, tenant_id@),
{
    let tenant_hash: String = resolver.tenant_hash(tenant_id);
    let owner: &str = index.owner_user_id_hash.as_str();
    text_eq(index.tenant_id.as_str(), tenant_id) && text_eq(
        index.tenant_hash.as_str(),
        tenant_hash.as_str(),
    ) && text_eq(
        index.id.as_str(),
        user_event_index_id(tenant_hash.as_str(), owner).as_str(),
    ) && text_eq(
        index.event_index_uid.as_str(),
        event_index_uid(tenant_hash.as_str(), owner).as_str(),
    ) && text_eq(
        index.personal_context_index_uid.as_str(),
        context_index_uid(tenant_hash.as_str(), owner).as_str(),
    )
}

/// What is wrong with a registry row of an operation.
pub open spec fn index_fault(
    resolver: EventIndexResolver,
    index: UserEventIndex,
    tenant_id: Seq<char>,
    expected: Option<Seq<char>>,
) -> Option<Seq<char>> {
    if index_routed(resolver, index, tenant_id) && index.schema_version
        == EVENT_INDEX_SCHEMA_VERSION && index.settings_hash@ == EVENT_SETTINGS_HASH@
        && index.status@ == "active"@ && commits(expected, index.owner_user_id_hash@) {
        None
    } else {
        Some("persisted operation contains an invalid user-index route"@)
    }
}

/// Whether an event is stored where its owner's events are.
pub open spec fn event_routed(
    resolver: EventIndexResolver,
    event: HistoryEvent,
    tenant_id: Seq<char>,
    expected: Option<Seq<char>>,
) -> bool {
    &&& event.tenant_id@ == tenant_id
    &&& event.owner_user_id_hash@ == resolver.user_digest(event.owner_user_id@)
    &&& event.event_index_uid@ == resolver.events_of(tenant_id, event.owner_user_id@)
    &&& event.event_index_schema_version == EVENT_INDEX_SCHEMA_VERSION
    &&& commits(expected, resolver.user_digest(event.owner_user_id@))
}

/// What is wrong with the events of an operation.
pub open spec fn events_fault(
    resolver: EventIndexResolver,
    events: Seq<HistoryEvent>,
    tenant_id: Seq<char>,
    expected: Option<Seq<char>>,
) -> Option<Seq<char>> {
    if forall|i: int|
        0 <= i < events.len() ==> event_routed(resolver, #[trigger] events[i], tenant_id, expected) {
        None
    } else {
        Some("persisted operation contains an invalid history-event route"@)
    }
}

/// What is wrong with a context node of an operation.
pub open spec fn node_fault(
    resolver: EventIndexResolver,
    node: ContextNode,
    index_uid: Seq<char>,
    tenant_id: Seq<char>,
    expected: Option<Seq<char>>,
) -> Option<Seq<char>> {
    if node.tenant_id@ != tenant_id || node.index_uid@ != index_uid {
        Some("persisted operation contains an invalid context route"@)
    } else {
        match node.owner_user_id {
            Some(owner) => if index_uid == resolver.context_of(tenant_id, owner@)
                && node.index_kind@ == "personal"@ && node.privacy@ == "private"@ && commits(
                expected,
                resolver.user_digest(owner@),
            ) {
                None
            } else {
                Some("persisted operation contains an invalid personal-context route"@)
            },
            None => if index_uid == COMPANY_CONTEXT_INDEX@ && node.index_kind@ == "company"@
                && node.privacy@ == "company"@ {
                None
            } else {
                Some("persisted operation contains an invalid company-context route"@)
            },
        }
    }
}

/// What is wrong with the first context node of an operation with which anything is.
pub open spec fn nodes_fault(
    resolver: EventIndexResolver,
    nodes: Seq<ContextNode>,
    index_uid: Seq<char>,
    tenant_id: Seq<char>,
    expected: Option<Seq<char>>,
) -> Option<Seq<char>>
    decreases nodes.len(),
{
    if nodes.len() == 0 {
        None
    } else {
        match nodes_fault(resolver, nodes.drop_last(), index_uid, tenant_id, expected) {
            Some(fault) => Some(fault),
            None => node_fault(resolver, nodes.last(), index_uid, tenant_id, expected),
        }
    }
}

/// Whether a link belongs to the owner that an analysis committed to.
pub open spec fn link_committed(
    resolver: EventIndexResolver,
    link: KnowledgeLink,
    expected: Option<Seq<char>>,
) -> bool {
    match expected {
        Some(e) => link.owner_user_id is Some && resolver.user_digest(link.owner_user_id->0@) == e,
        None => true,
    }
}

/// What is wrong with where a resource is written.
pub open spec fn route_fault(
    resolver: EventIndexResolver,
    resource: ResourceView,
    tenant_id: Seq<char>,
    expected: Option<Seq<char>>,
) -> Option<Seq<char>> {
    match resource {
        ResourceView::EnsureUserEventIndex { index } => index_fault(
            resolver,
            index,
            tenant_id,
            expected,
        ),
        ResourceView::HistoryEvents { events } => events_fault(
            resolver,
            events,
            tenant_id,
            expected,
        ),
        ResourceView::ContextNodes { index_uid, nodes } => nodes_fault(
            resolver,
            nodes,
            index_uid,
            tenant_id,
            expected,
        ),
        ResourceView::Insight { insight } => if commits(
            expected,
            resolver.user_digest(insight.owner_user_id@),
        ) {
            None
        } else {
            Some("analysis insight does not match its target owner commitment"@)
        },
        ResourceView::Links { links } => links_fault(resolver, links, expected),
        _ => None,
    }
}

/// What is wrong with the links of an operation.
pub open spec fn links_fault(
    resolver: EventIndexResolver,
    links: Seq<KnowledgeLink>,
    expected: Option<Seq<char>>,
) -> Option<Seq<char>> {
    if forall|i: int|
        0 <= i < links.len() ==> link_committed(resolver, #[trigger] links[i], expected) {
        None
    } else {
        Some("analysis link does not match its target owner commitment"@)
    }
}

fn fault_of_nodes(
    resolver: &EventIndexResolver,
    nodes: &Vec<ContextNode>,
    index_uid: &str,
    tenant_id: &str,
    expected: &Option<String>,
) -> (r: Option<&'static str>)
    ensures
        crate::text::opt_str(r) == nodes_fault(
            *resolver,
            nodes@,
            index_uid@,
            tenant_id@,
            opt_text(*expected),
        ),
{
    let ghost e = opt_text(*expected);
    let mut i: usize = 0;
    while i < nodes.len()
        invariant
            i <= nodes.len(),
            e == opt_text(*expected),
            nodes_fault(*resolver, nodes@.take(i as int), index_uid@, tenant_id@, e) is None,
        decreases nodes.len() - i,
    {
        let node: &ContextNode = &nodes[i];
        assert(nodes@.take(i + 1).drop_last() =~= nodes@.take(i as int));
        let fault: Option<&'static str> = if !text_eq(node.tenant_id.as_str(), tenant_id)
            || !text_eq(node.index_uid.as_str(), index_uid) {
            Some("persisted operation contains an invalid context route")
        } else {
            match &node.owner_user_id {
                Some(owner) => {
                    let routing: EventRouting = resolver.resolve(tenant_id, owner.as_str());
                    if text_eq(index_uid, routing.personal_context_index_uid.as_str()) && text_eq(
                        node.index_kind.as_str(),
                        "personal",
                    ) && text_eq(node.privacy.as_str(), "private") && committed(
                        expected,
                        routing.owner_user_id_hash.as_str(),
                    ) {
                        None
                    } else {
                        Some("persisted operation contains an invalid personal-context route")
                    }
                },
                None => if text_eq(index_uid, COMPANY_CONTEXT_INDEX) && text_eq(
                    node.index_kind.as_str(),
                    "company",
                ) && text_eq(node.privacy.as_str(), "company") {
                    None
                } else {
                    Some("persisted operation contains an invalid company-context route")
                },
            }
        };
        if fault.is_some() {
            proof {
                lemma_nodes_fault_stays(*resolver, nodes@, index_uid@, tenant_id@, e, i + 1);
            }
            return fault;
        }
        i += 1;
    }
    assert(nodes@.take(i as int) =~= nodes@);
    None
}

proof fn lemma_nodes_fault_stays(
    resolver: EventIndexResolver,
    nodes: Seq<ContextNode>,
    index_uid: Seq<char>,
    tenant_id: Seq<char>,
    expected: Option<Seq<char>>,
    n: int,
)
    requires
        0 <= n <= nodes.len(),
        nodes_fault(resolver, nodes.take(n), index_uid, tenant_id, expected) is Some,
    ensures
        nodes_fault(resolver, nodes, index_uid, tenant_id, expected) == nodes_fault(
            resolver,
            nodes.take(n),
            index_uid,
            tenant_id,
            expected,
        ),
    decreases nodes.len() - n,
{
    if n < nodes.len() {
        assert(nodes.take(n + 1).drop_last() =~= nodes.take(n));
        lemma_nodes_fault_stays(resolver, nodes, index_uid, tenant_id, expected, n + 1);
    } else {
        assert(nodes.take(n) =~= nodes);
    }
}

fn fault_of_events(
    resolver: &EventIndexResolver,
    events: &Vec<HistoryEvent>,
    tenant_id: &str,
    expected: &Option<String>,
) -> (r: Option<&'static str>)
    ensures
        crate::text::opt_str(r) == events_fault(
            *resolver,
            events@,
            tenant_id@,
            opt_text(*expected),
        ),
{
    let ghost e = opt_text(*expected);
    let mut i: usize = 0;
    while i < events.len()
        invariant
            i <= events.len(),
            e == opt_text(*expected),
            forall|j: int|
                0 <= j < i ==> event_routed(*resolver, #[trigger] events@[j], tenant_id@, e),
        decreases events.len() - i,
    {
        let event: &HistoryEvent = &events[i];
        let routing: EventRouting = resolver.resolve(tenant_id, event.owner_user_id.as_str());
        if !(text_eq(event.tenant_id.as_str(), tenant_id) && text_eq(
            event.owner_user_id_hash.as_str(),
            routing.owner_user_id_hash.as_str(),
        ) && text_eq(event.event_index_uid.as_str(), routing.event_index_uid.as_str())
            && event.event_index_schema_version == EVENT_INDEX_SCHEMA_VERSION && committed(
            expected,
            routing.owner_user_id_hash.as_str(),
        )) {
            assert(!event_routed(*resolver, events@[i as int], tenant_id@, e));
            return Some("persisted operation contains an invalid history-event route");
        }
        i += 1;
    }
    None
}

fn fault_of_links(
    resolver: &EventIndexResolver,
    links: &Vec<KnowledgeLink>,
    expected: &Option<String>,
) -> (r: Option<&'static str>)
    ensures
        crate::text::opt_str(r) == links_fault(*resolver, links@, opt_text(*expected)),
{
    let ghost e = opt_text(*expected);
    let mut i: usize = 0;
    while i < links.len()
        invariant
            i <= links.len(),
            e == opt_text(*expected),
            forall|j: int| 0 <= j < i ==> link_committed(*resolver, #[trigger] links@[j], e),
        decreases links.len() - i,
    {
        let ok: bool = match expected {
            Some(wanted) => match &links[i].owner_user_id {
                Some(owner) => text_eq(resolver.user_hash(owner.as_str()).as_str(), wanted.as_str()),
                None => false,
            },
            None => true,
        };
        if !ok {
            assert(!link_committed(*resolver, links@[i as int], e));
            return Some("analysis link does not match its target owner commitment");
        }
        i += 1;
    }
    None
}

fn fault_of_resource(
    resolver: &EventIndexResolver,
    resource: &OperationResource,
    tenant_id: &str,
    expected: &Option<String>,
) -> (r: Option<&'static str>)
    ensures
        crate::text::opt_str(r) == route_fault(
            *resolver,
            resource@,
            tenant_id@,
            opt_text(*expected),
        ),
{
    match resource {
        OperationResource::EnsureUserEventIndex { index } => if index_is_routed(
            resolver,
            index,
            tenant_id,
        ) && index.schema_version == EVENT_INDEX_SCHEMA_VERSION && text_eq(
            index.settings_hash.as_str(),
            EVENT_SETTINGS_HASH,
        ) && text_eq(index.status.as_str(), "active") && committed(
            expected,
            index.owner_user_id_hash.as_str(),
        ) {
            None
        } else {
            Some("persisted operation contains an invalid user-index route")
        },
        OperationResource::HistoryEvents { events } => fault_of_events(
            resolver,
            events,
            tenant_id,
            expected,
        ),
        OperationResource::ContextNodes { index_uid, nodes } => fault_of_nodes(
            resolver,
            nodes,
            index_uid.as_str(),
            tenant_id,
            expected,
        ),
        OperationResource::Insight { insight } => if committed(
            expected,
            resolver.user_hash(insight.owner_user_id.as_str()).as_str(),
        ) {
            None
        } else {
            Some("analysis insight does not match its target owner commitment")
        },
        OperationResource::Links { links } => fault_of_links(resolver, links, expected),
        _ => None,
    }
}

/// What is wrong with the first step of an operation with which anything is.
pub open spec fn steps_fault(
    resolver: EventIndexResolver,
    steps: Seq<OperationStep>,
    tenant_id: Seq<char>,
    expected: Option<Seq<char>>,
) -> Option<Seq<char>>
    decreases steps.len(),
{
    if steps.len() == 0 {
        None
    } else {
        match steps_fault(resolver, steps.drop_last(), tenant_id, expected) {
            Some(fault) => Some(fault),
            None => route_fault(resolver, steps.last().resource@, tenant_id, expected),
        }
    }
}

/// The owner that an operation committed to: that of an analysis.
pub open spec fn commitment(record: OperationRecord) -> Option<Seq<char>> {
    if record.operation_kind@ == ANALYSIS_KIND@ {
        opt_text(record.plan.redacted_metadata.target_owner_user_id_hash)
    } else {
        None
    }
}

/// The owners that nodes name.
pub open spec fn node_owners(nodes: Seq<ContextNode>) -> Seq<Seq<char>>
    decreases nodes.len(),
{
    if nodes.len() == 0 {
        Seq::empty()
    } else {
        match nodes.last().owner_user_id {
            Some(owner) => node_owners(nodes.drop_last()).push(owner@),
            None => node_owners(nodes.drop_last()),
        }
    }
}

/// The owners that links name.
pub open spec fn link_owners(links: Seq<KnowledgeLink>) -> Seq<Seq<char>>
    decreases links.len(),
{
    if links.len() == 0 {
        Seq::empty()
    } else {
        match links.last().owner_user_id {
            Some(owner) => link_owners(links.drop_last()).push(owner@),
            None => link_owners(links.drop_last()),
        }
    }
}

/// The owners that a resource of an analysis names.
pub open spec fn named_owners(resource: ResourceView) -> Seq<Seq<char>> {
    match resource {
        ResourceView::HistoryEvents { events } => Seq::new(
            events.len(),
            |i: int| events[i].owner_user_id@,
        ),
        ResourceView::ContextNodes { nodes, .. } => node_owners(nodes),
        ResourceView::Insight { insight } => seq![insight.owner_user_id@],
        ResourceView::Links { links } => link_owners(links),
        _ => Seq::empty(),
    }
}

/// The owners that steps name, in the order of the steps.
pub open spec fn step_owners(steps: Seq<OperationStep>) -> Seq<Seq<char>>
    decreases steps.len(),
{
    if steps.len() == 0 {
        Seq::empty()
    } else {
        step_owners(steps.drop_last()) + named_owners(steps.last().resource@)
    }
}

/// Whether there is more than one owner among `owners`.
pub open spec fn mixed(owners: Seq<Seq<char>>) -> bool {
    exists|i: int, j: int|
        0 <= i < owners.len() && 0 <= j < owners.len() && #[trigger] owners[i] != #[trigger] owners[j]
}

/// What is wrong with a record: what its journal finds wrong with its form, or that it is an
/// analysis for more than one owner.
pub open spec fn record_fault(record: OperationRecord, checked: Result<(), String>) -> Option<
    Seq<char>,
> {
    match checked {
        Err(why) => Some(why@),
        Ok(_) => if record.operation_kind@ == ANALYSIS_KIND@ && mixed(
            step_owners(plan_steps(record.plan)),
        ) {
            Some("analysis materialization mixes target owners"@)
        } else {
            None
        },
    }
}

fn push_owner(out: &mut Vec<String>, owner: &String)
    ensures
        texts(final(out)@) == texts(old(out)@).push(owner@),
{
    let copy: String = owner.clone();
    proof {
        crate::text::texts_push(out@, copy);
    }
    out.push(copy);
}

fn push_owners(out: &mut Vec<String>, resource: &OperationResource)
    ensures
        texts(final(out)@) == texts(old(out)@) + named_owners(resource@),
{
    let ghost before = texts(out@);
    match resource {
        OperationResource::HistoryEvents { events } => {
            let ghost all = named_owners(resource@);
            let mut i: usize = 0;
            assert(texts(out@) =~= before + all.take(0));
            while i < events.len()
                invariant
                    i <= events@.len() == all.len(),
                    forall|j: int| 0 <= j < all.len() ==> #[trigger] all[j] == events@[j].owner_user_id@,
                    texts(out@) == before + all.take(i as int),
                decreases events@.len() - i,
            {
                push_owner(out, &events[i].owner_user_id);
                assert(texts(out@) =~= before + all.take(i + 1));
                i += 1;
            }
            assert(all.take(i as int) =~= all);
        },
        OperationResource::ContextNodes { index_uid: _, nodes } => {
            let mut i: usize = 0;
            assert(texts(out@) =~= before + node_owners(nodes@.take(0)));
            while i < nodes.len()
                invariant
                    i <= nodes@.len(),
                    texts(out@) == before + node_owners(nodes@.take(i as int)),
                decreases nodes@.len() - i,
            {
                assert(nodes@.take(i + 1).drop_last() =~= nodes@.take(i as int));
                if let Some(owner) = &nodes[i].owner_user_id {
                    push_owner(out, owner);
                }
                assert(texts(out@) =~= before + node_owners(nodes@.take(i + 1)));
                i += 1;
            }
            assert(nodes@.take(i as int) =~= nodes@);
        },
        OperationResource::Insight { insight } => {
            push_owner(out, &insight.owner_user_id);
            assert(texts(out@) =~= before + named_owners(resource@));
        },
        OperationResource::Links { links } => {
            let mut i: usize = 0;
            assert(texts(out@) =~= before + link_owners(links@.take(0)));
            while i < links.len()
                invariant
                    i <= links@.len(),
                    texts(out@) == before + link_owners(links@.take(i as int)),
                decreases links@.len() - i,
            {
                assert(links@.take(i + 1).drop_last() =~= links@.take(i as int));
                if let Some(owner) = &links[i].owner_user_id {
                    push_owner(out, owner);
                }
                assert(texts(out@) =~= before + link_owners(links@.take(i + 1)));
                i += 1;
            }
            assert(links@.take(i as int) =~= links@);
        },
        _ => {
            assert(texts(out@) =~= before + named_owners(resource@));
        },
    }
}

fn is_mixed(owners: &Vec<String>) -> (r: bool)
    ensures
        r == mixed(texts(owners@)),
{
    let ghost all = texts(owners@);
    let mut i: usize = 0;
    while i < owners.len()
        invariant
            i <= owners@.len() == all.len(),
            all == texts(owners@),
            forall|j: int| 0 <= j < i ==> #[trigger] all[j] == all[0],
        decreases owners@.len() - i,
    {
        assert(all[i as int] == owners@[i as int]@);
        assert(all[0] == owners@[0]@);
        if !text_eq(owners[i].as_str(), owners[0].as_str()) {
            assert(all[i as int] != all[0]);
            return true;
        }
        i += 1;
    }
    false
}

/// Refuses a record that is not in order. `checked` is what its journal finds wrong with its form.
pub fn validate_operation_record(record: &OperationRecord, checked: &Result<(), String>) -> (r:
    Result<(), String>)
    ensures
        match record_fault(*record, *checked) {
            Some(why) => r is Err && r->Err_0@ == why,
            None => r is Ok,
        },
{
    if let Err(why) = checked {
        return Err(why.clone());
    }
    if !text_eq(record.operation_kind.as_str(), ANALYSIS_KIND) {
        return Ok(());
    }
    let ghost steps = plan_steps(record.plan);
    let mut owners: Vec<String> = Vec::new();
    push_owners(&mut owners, &record.plan.primary.resource);
    proof {
        reveal_with_fuel(step_owners, 2);
        assert(steps.take(1).drop_last() =~= Seq::<OperationStep>::empty());
        assert(steps.take(1).last() == record.plan.primary);
        assert(texts(owners@) =~= step_owners(steps.take(1)));
    }
    let effects: &Vec<OperationStep> = &record.plan.side_effects;
    let mut i: usize = 0;
    while i < effects.len()
        invariant
            i <= effects@.len(),
            effects@ == record.plan.side_effects@,
            steps == plan_steps(record.plan),
            texts(owners@) == step_owners(steps.take(i + 1)),
        decreases effects@.len() - i,
    {
        proof {
            assert(steps.take(i + 2).drop_last() =~= steps.take(i + 1));
            assert(steps.take(i + 2).last() == effects@[i as int]);
        }
        push_owners(&mut owners, &effects[i].resource);
        i += 1;
    }
    assert(steps.take(i + 1) =~= steps);
    if is_mixed(&owners) {
        Err("analysis materialization mixes target owners".to_owned())
    } else {
        Ok(())
    }
}

/// An analysis whose record is in order is for one owner: whatever its steps hold that names an
/// owner names the same one.
pub proof fn an_analysis_is_for_one_owner(
    record: OperationRecord,
    checked: Result<(), String>,
    i: int,
    j: int,
)
    requires
        record_fault(record, checked) is None,
        record.operation_kind@ == ANALYSIS_KIND@,
        0 <= i < step_owners(plan_steps(record.plan)).len(),
        0 <= j < step_owners(plan_steps(record.plan)).len(),
    ensures
        step_owners(plan_steps(record.plan))[i] == step_owners(plan_steps(record.plan))[j],
{
}

/// Whether an analysis lacks the owner that it should have committed to.
pub open spec fn lacks_commitment(record: OperationRecord) -> bool {
    record.operation_kind@ == ANALYSIS_KIND@
        && record.plan.redacted_metadata.target_owner_user_id_hash is None
}

/// Why an operation may not run: its record is not in order, or it writes anywhere but where its
/// tenant and its owners are stored.
pub open spec fn routing_fault(
    resolver: EventIndexResolver,
    record: OperationRecord,
    checked: Result<(), String>,
) -> Option<Seq<char>> {
    match record_fault(record, checked) {
        Some(why) => Some("invalid persisted operation record: "@ + why),
        None => if lacks_commitment(record) {
            Some("analysis operation is missing its target owner commitment"@)
        } else {
            steps_fault(resolver, plan_steps(record.plan), record.tenant_id@, commitment(record))
        },
    }
}

/// Refuses an operation whose record is not in order, and one that writes anywhere but where its
/// tenant and its owners are stored. `checked` is what the journal finds wrong with the record.
pub fn validate_operation_routing(
    resolver: &EventIndexResolver,
    record: &OperationRecord,
    checked: &Result<(), String>,
) -> (r: Result<(), ApiError>)
    ensures
        match routing_fault(*resolver, *record, *checked) {
            Some(fault) => fails_with(r, ErrorView::Internal(fault)),
            None => r is Ok,
        },
{
    if let Err(why) = validate_operation_record(record, checked) {
        let mut message: String = "invalid persisted operation record: ".to_owned();
        message.append(why.as_str());
        return Err(ApiError::Internal(message));
    }
    let expected: Option<String> = if text_eq(record.operation_kind.as_str(), ANALYSIS_KIND) {
        match &record.plan.redacted_metadata.target_owner_user_id_hash {
            Some(hash) => Some(hash.clone()),
            None => {
                return Err(
                    ApiError::internal("analysis operation is missing its target owner commitment"),
                );
            },
        }
    } else {
        None
    };
    let ghost e = opt_text(expected);
    let ghost steps = plan_steps(record.plan);
    let first: Option<&'static str> = fault_of_resource(
        resolver,
        &record.plan.primary.resource,
        record.tenant_id.as_str(),
        &expected,
    );
    proof {
        reveal_with_fuel(steps_fault, 2);
        assert(steps.take(1).drop_last() =~= Seq::<OperationStep>::empty());
        assert(steps.take(1).last() == record.plan.primary);
    }
    if let Some(fault) = first {
        proof {
            lemma_steps_fault_stays(*resolver, steps, record.tenant_id@, e, 1);
        }
        return Err(ApiError::internal(fault));
    }
    let effects: &Vec<OperationStep> = &record.plan.side_effects;
    let mut i: usize = 0;
    while i < effects.len()
        invariant
            i <= effects.len(),
            effects@ == record.plan.side_effects@,
            steps == plan_steps(record.plan),
            e == opt_text(expected),
            e == commitment(*record),
            !lacks_commitment(*record),
            record_fault(*record, *checked) is None,
            steps_fault(*resolver, steps.take(i + 1), record.tenant_id@, e) is None,
        decreases effects.len() - i,
    {
        proof {
            assert(steps.take(i + 2).drop_last() =~= steps.take(i + 1));
            assert(steps.take(i + 2).last() == effects@[i as int]);
        }
        if let Some(fault) = fault_of_resource(
            resolver,
            &effects[i].resource,
            record.tenant_id.as_str(),
            &expected,
        ) {
            proof {
                lemma_steps_fault_stays(*resolver, steps, record.tenant_id@, e, i + 2);
            }
            return Err(ApiError::internal(fault));
        }
        i += 1;
    }
    assert(steps.take(i + 1) =~= steps);
    Ok(())
}

proof fn lemma_steps_fault_stays(
    resolver: EventIndexResolver,
    steps: Seq<OperationStep>,
    tenant_id: Seq<char>,
    expected: Option<Seq<char>>,
    n: int,
)
    requires
        0 <= n <= steps.len(),
        steps_fault(resolver, steps.take(n), tenant_id, expected) is Some,
    ensures
        steps_fault(resolver, steps, tenant_id, expected) == steps_fault(
            resolver,
            steps.take(n),
            tenant_id,
            expected,
        ),
    decreases steps.len() - n,
{
    if n < steps.len() {
        assert(steps.take(n + 1).drop_last() =~= steps.take(n));
        lemma_steps_fault_stays(resolver, steps, tenant_id, expected, n + 1);
    } else {
        assert(steps.take(n) =~= steps);
    }
}

/// An operation whose routing is in order holds no row of another tenant among its events and
/// context nodes.
pub proof fn routed_operations_stay_in_their_tenant(
    resolver: EventIndexResolver,
    record: OperationRecord,
    checked: Result<(), String>,
    step: int,
    i: int,
)
    requires
        routing_fault(resolver, record, checked) is None,
        0 <= step < plan_steps(record.plan).len(),
    ensures
        match plan_steps(record.plan)[step].resource@ {
            ResourceView::HistoryEvents { events } => 0 <= i < events.len() ==> events[i].tenant_id@
                == record.tenant_id@,
            ResourceView::ContextNodes { index_uid, nodes } => 0 <= i < nodes.len()
                ==> nodes[i].tenant_id@ == record.tenant_id@ && nodes[i].index_uid@ == index_uid,
            _ => true,
        },
{
    let steps = plan_steps(record.plan);
    lemma_no_step_fault(resolver, steps, record.tenant_id@, commitment(record), step);
    match steps[step].resource@ {
        ResourceView::HistoryEvents { events } => {
            if 0 <= i < events.len() {
                assert(event_routed(resolver, events[i], record.tenant_id@, commitment(record)));
            }
        },
        ResourceView::ContextNodes { index_uid, nodes } => {
            if 0 <= i < nodes.len() {
                lemma_no_node_fault(
                    resolver,
                    nodes,
                    index_uid,
                    record.tenant_id@,
                    commitment(record),
                    i,
                );
            }
        },
        _ => {},
    }
}

proof fn lemma_no_step_fault(
    resolver: EventIndexResolver,
    steps: Seq<OperationStep>,
    tenant_id: Seq<char>,
    expected: Option<Seq<char>>,
    i: int,
)
    requires
        steps_fault(resolver, steps, tenant_id, expected) is None,
        0 <= i < steps.len(),
    ensures
        route_fault(resolver, steps[i].resource@, tenant_id, expected) is None,
    decreases steps.len(),
{
    if i < steps.len() - 1 {
        lemma_no_step_fault(resolver, steps.drop_last(), tenant_id, expected, i);
    }
}

proof fn lemma_no_node_fault(
    resolver: EventIndexResolver,
    nodes: Seq<ContextNode>,
    index_uid: Seq<char>,
    tenant_id: Seq<char>,
    expected: Option<Seq<char>>,
    i: int,
)
    requires
        nodes_fault(resolver, nodes, index_uid, tenant_id, expected) is None,
        0 <= i < nodes.len(),
    ensures
        node_fault(resolver, nodes[i], index_uid, tenant_id, expected) is None,
    decreases nodes.len(),
{
    if i < nodes.len() - 1 {
        lemma_no_node_fault(resolver, nodes.drop_last(), index_uid, tenant_id, expected, i);
    }
}

/// Whether two registry rows stand for the same index.
pub open spec fn same_index(a: UserEventIndex, b: UserEventIndex) -> bool {
    &&& a.id@ == b.id@
    &&& a.tenant_id@ == b.tenant_id@
    &&& a.tenant_hash@ == b.tenant_hash@
    &&& a.owner_user_id_hash@ == b.owner_user_id_hash@
    &&& a.event_index_uid@ == b.event_index_uid@
    &&& a.personal_context_index_uid@ == b.personal_context_index_uid@
    &&& a.schema_version == b.schema_version
    &&& a.settings_hash@ == b.settings_hash@
    &&& a.status@ == b.status@
}

/// Whether two registry rows stand for the same index.
pub fn same_user_index_identity(left: &UserEventIndex, right: &UserEventIndex) -> (r: bool)
    ensures
        r == same_index(*left, *right),
{
    text_eq(left.id.as_str(), right.id.as_str()) && text_eq(
        left.tenant_id.as_str(),
        right.tenant_id.as_str(),
    ) && text_eq(left.tenant_hash.as_str(), right.tenant_hash.as_str()) && text_eq(
        left.owner_user_id_hash.as_str(),
        right.owner_user_id_hash.as_str(),
    ) && text_eq(left.event_index_uid.as_str(), right.event_index_uid.as_str()) && text_eq(
        left.personal_context_index_uid.as_str(),
        right.personal_context_index_uid.as_str(),
    ) && left.schema_version == right.schema_version && text_eq(
        left.settings_hash.as_str(),
        right.settings_hash.as_str(),
    ) && text_eq(left.status.as_str(), right.status.as_str())
}

/// What a step needs of the registry: an owner's row, with the indexes that it names.
pub ghost struct Need {
    pub owner_hash: Seq<char>,
    pub event_uid: Option<Seq<char>>,
    pub context_uid: Option<Seq<char>>,
    pub exact: Option<UserEventIndex>,
}

/// The registry row of an owner: that of the given registry, or else that of the state.
pub open spec fn registered(
    registry: Option<Map<Seq<char>, UserEventIndex>>,
    data: StoreData,
    tenant_id: Seq<char>,
    owner_hash: Seq<char>,
) -> Option<UserEventIndex> {
    match registry {
        Some(r) => if r.dom().contains(owner_hash) {
            Some(r[owner_hash])
        } else {
            None
        },
        None => if data.user_indexes@.dom().contains((tenant_id, owner_hash)) {
            Some(data.user_indexes@[(tenant_id, owner_hash)])
        } else {
            None
        },
    }
}

/// What is wrong with the registry for a need.
pub open spec fn need_fault(index: Option<UserEventIndex>, tenant_id: Seq<char>, need: Need) -> Option<
    Seq<char>,
> {
    match index {
        None => Some("persisted operation references an unregistered dynamic index"@),
        Some(row) => if row.tenant_id@ == tenant_id && row.owner_user_id_hash@ == need.owner_hash
            && row.status@ == "active"@ && row.schema_version == EVENT_INDEX_SCHEMA_VERSION
            && row.settings_hash@ == EVENT_SETTINGS_HASH@ && commits(
            need.event_uid,
            row.event_index_uid@,
        ) && commits(need.context_uid, row.personal_context_index_uid@) && (need.exact is None
            || same_index(row, need.exact->0)) {
            None
        } else {
            Some("persisted operation dynamic index is not in the reconciled registry"@)
        },
    }
}

/// What the events of a step need.
pub open spec fn event_needs(events: Seq<HistoryEvent>) -> Seq<Need> {
    Seq::new(
        events.len(),
        |i: int|
            Need {
                owner_hash: events[i].owner_user_id_hash@,
                event_uid: Some(events[i].event_index_uid@),
                context_uid: None,
                exact: None,
            },
    )
}

/// What the context nodes of a step need: those that have an owner.
pub open spec fn node_needs(
    resolver: EventIndexResolver,
    nodes: Seq<ContextNode>,
    index_uid: Seq<char>,
) -> Seq<Need>
    decreases nodes.len(),
{
    if nodes.len() == 0 {
        Seq::empty()
    } else {
        let rest = node_needs(resolver, nodes.drop_last(), index_uid);
        match nodes.last().owner_user_id {
            Some(owner) => rest.push(
                Need {
                    owner_hash: resolver.user_digest(owner@),
                    event_uid: None,
                    context_uid: Some(index_uid),
                    exact: None,
                },
            ),
            None => rest,
        }
    }
}

/// What is wrong with the registry for the first need for which anything is.
pub open spec fn needs_fault(
    registry: Option<Map<Seq<char>, UserEventIndex>>,
    data: StoreData,
    tenant_id: Seq<char>,
    needs: Seq<Need>,
) -> Option<Seq<char>>
    decreases needs.len(),
{
    if needs.len() == 0 {
        None
    } else {
        match needs_fault(registry, data, tenant_id, needs.drop_last()) {
            Some(fault) => Some(fault),
            None => need_fault(
                registered(registry, data, tenant_id, needs.last().owner_hash),
                tenant_id,
                needs.last(),
            ),
        }
    }
}

/// The view of an optional registry.
pub open spec fn registry_view(registry: Option<&Table<String, UserEventIndex>>) -> Option<
    Map<Seq<char>, UserEventIndex>,
> {
    match registry {
        Some(t) => Some(t@),
        None => None,
    }
}

fn check_need(
    data: &StoreData,
    registry: Option<&Table<String, UserEventIndex>>,
    tenant_id: &String,
    owner_hash: &String,
    event_uid: Option<&str>,
    context_uid: Option<&str>,
    exact: Option<&UserEventIndex>,
) -> (r: Option<&'static str>)
    ensures
        crate::text::opt_str(r) == need_fault(
            registered(registry_view(registry), *data, tenant_id@, owner_hash@),
            tenant_id@,
            Need {
                owner_hash: owner_hash@,
                event_uid: crate::text::opt_str(event_uid),
                context_uid: crate::text::opt_str(context_uid),
                exact: match exact {
                    Some(index) => Some(*index),
                    None => None,
                },
            },
        ),
{
    let index: Option<&UserEventIndex> = match registry {
        Some(table) => table.get(owner_hash),
        None => {
            let key: (String, String) = (tenant_id.clone(), owner_hash.clone());
            data.user_indexes.get(&key)
        },
    };
    match index {
        None => Some("persisted operation references an unregistered dynamic index"),
        Some(row) => {
            let event_ok: bool = match event_uid {
                Some(uid) => text_eq(row.event_index_uid.as_str(), uid),
                None => true,
            };
            let context_ok: bool = match context_uid {
                Some(uid) => text_eq(row.personal_context_index_uid.as_str(), uid),
                None => true,
            };
            let exact_ok: bool = match exact {
                Some(expected) => same_user_index_identity(row, expected),
                None => true,
            };
            if text_eq(row.tenant_id.as_str(), tenant_id.as_str()) && text_eq(
                row.owner_user_id_hash.as_str(),
                owner_hash.as_str(),
            ) && text_eq(row.status.as_str(), "active") && row.schema_version
                == EVENT_INDEX_SCHEMA_VERSION && text_eq(
                row.settings_hash.as_str(),
                EVENT_SETTINGS_HASH,
            ) && event_ok && context_ok && exact_ok {
                None
            } else {
                Some("persisted operation dynamic index is not in the reconciled registry")
            }
        },
    }
}

proof fn lemma_needs_fault_stays(
    registry: Option<Map<Seq<char>, UserEventIndex>>,
    data: StoreData,
    tenant_id: Seq<char>,
    needs: Seq<Need>,
    n: int,
)
    requires
        0 <= n <= needs.len(),
        needs_fault(registry, data, tenant_id, needs.take(n)) is Some,
    ensures
        needs_fault(registry, data, tenant_id, needs) == needs_fault(
            registry,
            data,
            tenant_id,
            needs.take(n),
        ),
    decreases needs.len() - n,
{
    if n < needs.len() {
        assert(needs.take(n + 1).drop_last() =~= needs.take(n));
        lemma_needs_fault_stays(registry, data, tenant_id, needs, n + 1);
    } else {
        assert(needs.take(n) =~= needs);
    }
}

fn check_events(
    data: &StoreData,
    registry: Option<&Table<String, UserEventIndex>>,
    tenant_id: &String,
    events: &Vec<HistoryEvent>,
) -> (r: Option<&'static str>)
    ensures
        crate::text::opt_str(r) == needs_fault(
            registry_view(registry),
            *data,
            tenant_id@,
            event_needs(events@),
        ),
{
    let ghost needs = event_needs(events@);
    let ghost view = registry_view(registry);
    let mut i: usize = 0;
    while i < events.len()
        invariant
            i <= events.len(),
            needs == event_needs(events@),
            view == registry_view(registry),
            needs_fault(view, *data, tenant_id@, needs.take(i as int)) is None,
        decreases events.len() - i,
    {
        proof {
            assert(needs.take(i + 1).drop_last() =~= needs.take(i as int));
            assert(needs.take(i + 1).last() == needs[i as int]);
        }
        let fault: Option<&'static str> = check_need(
            data,
            registry,
            tenant_id,
            &events[i].owner_user_id_hash,
            Some(events[i].event_index_uid.as_str()),
            None,
            None,
        );
        if fault.is_some() {
            proof {
                lemma_needs_fault_stays(view, *data, tenant_id@, needs, i + 1);
            }
            return fault;
        }
        i += 1;
    }
    assert(needs.take(i as int) =~= needs);
    None
}

proof fn lemma_node_needs_grow(
    resolver: EventIndexResolver,
    nodes: Seq<ContextNode>,
    index_uid: Seq<char>,
    n: int,
)
    requires
        0 <= n <= nodes.len(),
    ensures
        node_needs(resolver, nodes.take(n), index_uid).len() <= node_needs(
            resolver,
            nodes,
            index_uid,
        ).len(),
        node_needs(resolver, nodes, index_uid).take(
            node_needs(resolver, nodes.take(n), index_uid).len() as int,
        ) == node_needs(resolver, nodes.take(n), index_uid),
    decreases nodes.len() - n,
{
    if n < nodes.len() {
        lemma_node_needs_grow(resolver, nodes, index_uid, n + 1);
        assert(nodes.take(n + 1).drop_last() =~= nodes.take(n));
        let a = node_needs(resolver, nodes.take(n), index_uid);
        let b = node_needs(resolver, nodes.take(n + 1), index_uid);
        let c = node_needs(resolver, nodes, index_uid);
        assert(c.take(b.len() as int) == b);
        assert(c.take(a.len() as int) =~= b.take(a.len() as int));
        assert(b.take(a.len() as int) =~= a);
    } else {
        assert(nodes.take(n) =~= nodes);
        let c = node_needs(resolver, nodes, index_uid);
        assert(c.take(c.len() as int) =~= c);
    }
}

fn check_nodes(
    resolver: &EventIndexResolver,
    data: &StoreData,
    registry: Option<&Table<String, UserEventIndex>>,
    tenant_id: &String,
    index_uid: &str,
    nodes: &Vec<ContextNode>,
) -> (r: Option<&'static str>)
    ensures
        crate::text::opt_str(r) == needs_fault(
            registry_view(registry),
            *data,
            tenant_id@,
            node_needs(*resolver, nodes@, index_uid@),
        ),
{
    let ghost view = registry_view(registry);
    let mut i: usize = 0;
    while i < nodes.len()
        invariant
            i <= nodes.len(),
            view == registry_view(registry),
            needs_fault(
                view,
                *data,
                tenant_id@,
                node_needs(*resolver, nodes@.take(i as int), index_uid@),
            ) is None,
        decreases nodes.len() - i,
    {
        let ghost so_far = node_needs(*resolver, nodes@.take(i as int), index_uid@);
        let ghost next = node_needs(*resolver, nodes@.take(i + 1), index_uid@);
        assert(nodes@.take(i + 1).drop_last() =~= nodes@.take(i as int));
        if let Some(owner) = &nodes[i].owner_user_id {
            let hash: String = resolver.user_hash(owner.as_str());
            assert(next.drop_last() =~= so_far);
            let fault: Option<&'static str> = check_need(
                data,
                registry,
                tenant_id,
                &hash,
                None,
                Some(index_uid),
                None,
            );
            if fault.is_some() {
                proof {
                    lemma_node_needs_grow(*resolver, nodes@, index_uid@, i + 1);
                    lemma_needs_fault_stays(
                        view,
                        *data,
                        tenant_id@,
                        node_needs(*resolver, nodes@, index_uid@),
                        next.len() as int,
                    );
                }
                return fault;
            }
        }
        i += 1;
    }
    assert(nodes@.take(i as int) =~= nodes@);
    None
}

/// What is wrong with the registry for a step.
pub open spec fn membership_fault(
    resolver: EventIndexResolver,
    data: StoreData,
    registry: Option<Map<Seq<char>, UserEventIndex>>,
    record: OperationRecord,
    step_id: Seq<char>,
) -> Option<Seq<char>> {
    match step_with(record.plan, step_id).resource@ {
        ResourceView::EnsureUserEventIndex { index } => if progress_of(record, step_id).status
            != OperationStepStatus::Completed {
            None
        } else {
            need_fault(
                registered(registry, data, record.tenant_id@, index.owner_user_id_hash@),
                record.tenant_id@,
                Need {
                    owner_hash: index.owner_user_id_hash@,
                    event_uid: Some(index.event_index_uid@),
                    context_uid: Some(index.personal_context_index_uid@),
                    exact: Some(index),
                },
            )
        },
        ResourceView::HistoryEvents { events } => needs_fault(
            registry,
            data,
            record.tenant_id@,
            event_needs(events),
        ),
        ResourceView::ContextNodes { index_uid, nodes } => needs_fault(
            registry,
            data,
            record.tenant_id@,
            node_needs(resolver, nodes, index_uid),
        ),
        _ => None,
    }
}

/// Refuses a step that writes to an index of an owner which the registry does not know.
pub fn validate_operation_step_dynamic_membership(
    resolver: &EventIndexResolver,
    data: &StoreData,
    record: &OperationRecord,
    step_id: &str,
    dynamic_registry: Option<&Table<String, UserEventIndex>>,
) -> (r: Result<(), ApiError>)
    ensures
        if !has_step(record.plan, step_id@) {
            fails_with(r, step_missing(step_id@))
        } else if step_with(record.plan, step_id@).resource@ is EnsureUserEventIndex
            && !has_progress(*record, step_id@) {
            fails_with(r, step_missing(step_id@))
        } else {
            match membership_fault(
                *resolver,
                *data,
                registry_view(dynamic_registry),
                *record,
                step_id@,
            ) {
                Some(fault) => fails_with(r, ErrorView::Internal(fault)),
                None => r is Ok,
            }
        },
{
    let step: &OperationStep = match find_step(&record.plan, step_id) {
        Some(step) => step,
        None => {
            return Err(missing_step(step_id));
        },
    };
    let fault: Option<&'static str> = match &step.resource {
        OperationResource::EnsureUserEventIndex { index } => {
            match find_progress(record, step_id) {
                Some(progress) => if progress.status != OperationStepStatus::Completed {
                    None
                } else {
                    check_need(
                        data,
                        dynamic_registry,
                        &record.tenant_id,
                        &index.owner_user_id_hash,
                        Some(index.event_index_uid.as_str()),
                        Some(index.personal_context_index_uid.as_str()),
                        Some(index),
                    )
                },
                None => {
                    return Err(missing_step(step_id));
                },
            }
        },
        OperationResource::HistoryEvents { events } => check_events(
            data,
            dynamic_registry,
            &record.tenant_id,
            events,
        ),
        OperationResource::ContextNodes { index_uid, nodes } => check_nodes(
            resolver,
            data,
            dynamic_registry,
            &record.tenant_id,
            index_uid.as_str(),
            nodes,
        ),
        _ => None,
    };
    match fault {
        Some(message) => Err(ApiError::internal(message)),
        None => Ok(()),
    }
}

/// The registry of a tenant by owner hash, from the first `n` rows.
pub open spec fn registry_of(rows: Seq<UserEventIndex>, tenant_id: Seq<char>) -> Map<
    Seq<char>,
    UserEventIndex,
>
    decreases rows.len(),
{
    if rows.len() == 0 {
        Map::empty()
    } else {
        let rest = registry_of(rows.drop_last(), tenant_id);
        if rows.last().tenant_id@ == tenant_id {
            rest.insert(rows.last().owner_user_id_hash@, rows.last())
        } else {
            rest
        }
    }
}

/// The registry of a tenant by owner hash.
pub fn current_user_index_registry(data: &StoreData, tenant_id: &str) -> (r: Table<
    String,
    UserEventIndex,
>)
    ensures
        r@ == registry_of(data.user_indexes.values(), tenant_id@),
{
    let mut out: Table<String, UserEventIndex> = Table::new();
    let n: usize = data.user_indexes.len();
    let ghost all = data.user_indexes.values();
    let mut i: usize = 0;
    while i < n
        invariant
            i <= n == all.len(),
            all == data.user_indexes.values(),
            all.len() == data.user_indexes.rows().len(),
            out@ == registry_of(all.take(i as int), tenant_id@),
        decreases n - i,
    {
        assert(all.take(i + 1).drop_last() =~= all.take(i as int));
        let index: &UserEventIndex = data.user_indexes.value_at(i);
        if text_eq(index.tenant_id.as_str(), tenant_id) {
            out.insert(index.owner_user_id_hash.clone(), index.clone());
        }
        i += 1;
    }
    assert(all.take(i as int) =~= all);
    out
}

/// Adds the index of a completed step to the registry.
pub fn record_completed_registry_step(
    record: &OperationRecord,
    step_id: &str,
    registry: &mut Table<String, UserEventIndex>,
) -> (r: Result<(), ApiError>)
    ensures
        if !has_progress(*record, step_id@) {
            fails_with(r, step_missing(step_id@)) && final(registry)@ == old(registry)@
        } else if progress_of(*record, step_id@).status != OperationStepStatus::Completed {
            r is Ok && final(registry)@ == old(registry)@
        } else if !has_step(record.plan, step_id@) {
            fails_with(r, step_missing(step_id@)) && final(registry)@ == old(registry)@
        } else {
            r is Ok && final(registry)@ == (match step_with(record.plan, step_id@).resource@ {
                ResourceView::EnsureUserEventIndex { index } => old(registry)@.insert(
                    index.owner_user_id_hash@,
                    index,
                ),
                _ => old(registry)@,
            })
        },
{
    match find_progress(record, step_id) {
        None => {
            return Err(missing_step(step_id));
        },
        Some(progress) => {
            if progress.status != OperationStepStatus::Completed {
                return Ok(());
            }
        },
    }
    match find_step(&record.plan, step_id) {
        None => Err(missing_step(step_id)),
        Some(step) => {
            if let OperationResource::EnsureUserEventIndex { index } = &step.resource {
                registry.insert(index.owner_user_id_hash.clone(), index.clone());
            }
            Ok(())
        },
    }
}

/// Whether no two registry rows have the same owner.
pub open spec fn distinct_owners(indexes: Seq<UserEventIndex>) -> bool {
    forall|i: int, j: int|
        0 <= i < j < indexes.len() ==> (#[trigger] indexes[i]).owner_user_id_hash@ != (
        #[trigger] indexes[j]).owner_user_id_hash@
}

/// The registry of rows by owner hash.
pub open spec fn by_owner(indexes: Seq<UserEventIndex>) -> Map<Seq<char>, UserEventIndex>
    decreases indexes.len(),
{
    if indexes.len() == 0 {
        Map::empty()
    } else {
        by_owner(indexes.drop_last()).insert(indexes.last().owner_user_id_hash@, indexes.last())
    }
}

proof fn lemma_by_owner(indexes: Seq<UserEventIndex>)
    ensures
        forall|k: Seq<char>| #[trigger]
            by_owner(indexes).dom().contains(k) <==> exists|i: int|
                0 <= i < indexes.len() && (#[trigger] indexes[i]).owner_user_id_hash@ == k,
    decreases indexes.len(),
{
    if indexes.len() > 0 {
        lemma_by_owner(indexes.drop_last());
        assert forall|k: Seq<char>| #[trigger] by_owner(indexes).dom().contains(k) implies exists|
            i: int,
        | 0 <= i < indexes.len() && (#[trigger] indexes[i]).owner_user_id_hash@ == k by {
            if by_owner(indexes.drop_last()).dom().contains(k) {
                let i = choose|i: int|
                    0 <= i < indexes.drop_last().len() && (
                    #[trigger] indexes.drop_last()[i]).owner_user_id_hash@ == k;
                assert(indexes[i].owner_user_id_hash@ == k);
            } else {
                assert(indexes[indexes.len() - 1].owner_user_id_hash@ == k);
            }
        }
        assert forall|i: int| 0 <= i < indexes.len() implies by_owner(indexes).dom().contains(
            (#[trigger] indexes[i]).owner_user_id_hash@,
        ) by {
            let k = indexes[i].owner_user_id_hash@;
            if i < indexes.len() - 1 {
                assert(indexes.drop_last()[i].owner_user_id_hash@ == k);
                assert(by_owner(indexes.drop_last()).dom().contains(k));
            }
        }
    }
}

/// The registry of rows by owner hash; refuses two rows of one owner.
pub fn startup_registry(user_indexes: &Vec<UserEventIndex>) -> (r: Result<
    Table<String, UserEventIndex>,
    ApiError,
>)
    ensures
        if distinct_owners(user_indexes@) {
            r is Ok && r->Ok_0@ == by_owner(user_indexes@)
        } else {
            fails_with(
                r,
                ErrorView::Internal("duplicate owner hash in user event-index registry"@),
            )
        },
{
    let mut out: Table<String, UserEventIndex> = Table::new();
    let mut i: usize = 0;
    while i < user_indexes.len()
        invariant
            i <= user_indexes.len(),
            out@ == by_owner(user_indexes@.take(i as int)),
            distinct_owners(user_indexes@.take(i as int)),
        decreases user_indexes.len() - i,
    {
        let index: &UserEventIndex = &user_indexes[i];
        let ghost done = user_indexes@.take(i as int);
        proof {
            lemma_by_owner(done);
            assert(user_indexes@.take(i + 1).drop_last() =~= done);
        }
        if out.contains_key(&index.owner_user_id_hash) {
            proof {
                let j = choose|j: int|
                    0 <= j < done.len() && (#[trigger] done[j]).owner_user_id_hash@
                        == index.owner_user_id_hash@;
                assert(user_indexes@[j] == done[j]);
                assert(user_indexes@[j].owner_user_id_hash@
                    == user_indexes@[i as int].owner_user_id_hash@);
            }
            return Err(ApiError::internal("duplicate owner hash in user event-index registry"));
        }
        out.insert(index.owner_user_id_hash.clone(), index.clone());
        proof {
            let next = user_indexes@.take(i + 1);
            assert forall|a: int, b: int| 0 <= a < b < next.len() implies (
            #[trigger] next[a]).owner_user_id_hash@ != (#[trigger] next[b]).owner_user_id_hash@ by {
                assert(next[a] == done[a]);
                if b < i {
                    assert(next[b] == done[b]);
                } else {
                    assert(by_owner(done).dom().contains(done[a].owner_user_id_hash@));
                }
            }
        }
        i += 1;
    }
    assert(user_indexes@.take(i as int) =~= user_indexes@);
    Ok(out)
}

/// Whether every row of the replayed registry is durably there, unchanged.
pub open spec fn registry_kept(
    tenant_id: Seq<char>,
    replayed: Map<Seq<char>, UserEventIndex>,
    refreshed: Map<Seq<char>, UserEventIndex>,
) -> bool {
    forall|k: Seq<char>| #[trigger]
        replayed.dom().contains(k) ==> refreshed.dom().contains(k) && refreshed[k].tenant_id@
            == tenant_id && same_index(refreshed[k], replayed[k])
}

/// Whether some row of the replayed registry is not there.
pub open spec fn some_row_missing(
    replayed: Map<Seq<char>, UserEventIndex>,
    refreshed: Map<Seq<char>, UserEventIndex>,
) -> bool {
    exists|k: Seq<char>| #[trigger] replayed.dom().contains(k) && !refreshed.dom().contains(k)
}

/// Whether some row of the replayed registry is there with another identity.
pub open spec fn some_row_changed(
    tenant_id: Seq<char>,
    replayed: Map<Seq<char>, UserEventIndex>,
    refreshed: Map<Seq<char>, UserEventIndex>,
) -> bool {
    exists|k: Seq<char>| #[trigger]
        replayed.dom().contains(k) && refreshed.dom().contains(k) && !(refreshed[k].tenant_id@
            == tenant_id && same_index(refreshed[k], replayed[k]))
}

/// Refuses a refreshed registry in which a replayed row is missing or has another identity.
pub fn verify_refreshed_startup_registry(
    tenant_id: &str,
    replay_registry: &Table<String, UserEventIndex>,
    refreshed_indexes: &Vec<UserEventIndex>,
) -> (r: Result<(), ApiError>)
    ensures
        if !distinct_owners(refreshed_indexes@) {
            fails_with(
                r,
                ErrorView::Internal("duplicate owner hash in user event-index registry"@),
            )
        } else if registry_kept(tenant_id@, replay_registry@, by_owner(refreshed_indexes@)) {
            r is Ok
        } else {
            ||| fails_with(
                r,
                ErrorView::Internal(
                    "replayed user event-index registry row is not durably visible"@,
                ),
            ) && some_row_missing(replay_registry@, by_owner(refreshed_indexes@))
            ||| fails_with(
                r,
                ErrorView::Internal("replayed user event-index registry row changed identity"@),
            ) && some_row_changed(tenant_id@, replay_registry@, by_owner(refreshed_indexes@))
        },
{
    let refreshed: Table<String, UserEventIndex> = startup_registry(refreshed_indexes)?;
    let n: usize = replay_registry.len();
    let mut i: usize = 0;
    while i < n
        invariant
            i <= n == replay_registry.rows().len(),
            replay_registry.wf(),
            distinct_owners(refreshed_indexes@),
            refreshed@ == by_owner(refreshed_indexes@),
            forall|j: int|
                0 <= j < i ==> {
                    let k = (#[trigger] replay_registry.rows()[j]).0@;
                    refreshed@.dom().contains(k) && refreshed@[k].tenant_id@ == tenant_id@
                        && same_index(refreshed@[k], replay_registry.rows()[j].1)
                },
        decreases n - i,
    {
        let owner_hash: &String = replay_registry.key_at(i);
        let expected: &UserEventIndex = replay_registry.value_at(i);
        proof {
            replay_registry.row_facts(i as int);
        }
        match refreshed.get(owner_hash) {
            None => {
                assert(replay_registry@.dom().contains(owner_hash@));
                return Err(
                    ApiError::internal(
                        "replayed user event-index registry row is not durably visible",
                    ),
                );
            },
            Some(actual) => {
                if !text_eq(actual.tenant_id.as_str(), tenant_id) || !same_user_index_identity(
                    actual,
                    expected,
                ) {
                    assert(replay_registry@.dom().contains(owner_hash@));
                    return Err(
                        ApiError::internal(
                            "replayed user event-index registry row changed identity",
                        ),
                    );
                }
            },
        }
        i += 1;
    }
    assert forall|k: Seq<char>| #[trigger]
        replay_registry@.dom().contains(k) implies refreshed@.dom().contains(k)
        && refreshed@[k].tenant_id@ == tenant_id@ && same_index(
        refreshed@[k],
        replay_registry@[k],
    ) by {
        replay_registry.key_facts(k);
        let j = crate::table::row_of(replay_registry.rows(), k);
        assert(replay_registry.rows()[j].0@ == k);
    }
    Ok(())
}

} // verus!
