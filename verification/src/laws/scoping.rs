//! Whose nodes are seen by whom: a reader sees what the company shares and what is the reader's
//! own, and nothing that belongs to someone else.

use vstd::prelude::*;

use crate::data::StoreData;
use crate::error::ErrorView;
use crate::laws::choosing::{a_filter_keeps_what_it_accepts, a_sum_holds_what_either_holds};
use crate::model::knowledge::{ContextNode, TraceRecord};
use crate::nodes::is_candidate;
use crate::order::{any_where, first_where, first_where_facts, put_first};
use crate::publish::COMPANY_CONTEXT_INDEX;
use crate::query::passes;
use crate::reading::{
    company_scope, in_requested_scope, is_company_node, is_personal_node, kept_with_company,
    owner_scope, reveal_target, reveals, scope_of, scoped_nodes, ContextRevealResponse,
};
use crate::resolver::EventIndexResolver;
use crate::search::{
    answered_owner, at_place, eligible, hit_uris, is_trace, latest_nodes, merged_candidates,
    not_among, scoped_to, ContextSearchResponse, SearchPlan,
};
use crate::table::{list_at, lists};
use crate::text::{opt_text, texts};

verus! {

/// Whether a node is one that the company shares.
pub open spec fn is_shared(node: ContextNode, tenant_id: Seq<char>) -> bool {
    node.tenant_id@ == tenant_id && node.owner_user_id is None && node.privacy@ == "company"@
        && node.index_kind@ == "company"@ && node.index_uid@ == COMPANY_CONTEXT_INDEX@
}

/// Whether a node is an owner's own.
pub open spec fn is_own(
    node: ContextNode,
    tenant_id: Seq<char>,
    owner: Seq<char>,
    index_uid: Seq<char>,
) -> bool {
    node.tenant_id@ == tenant_id && node.owner_user_id is Some && node.owner_user_id->0@ == owner
        && node.privacy@ == "private"@ && node.index_kind@ == "personal"@ && node.index_uid@
        == index_uid
}

/// A row of the repository is taken for a reader if and only if it is active and either shared by
/// the reader's company or the reader's own.
pub proof fn a_row_is_in_scope(
    resolver: EventIndexResolver,
    node: ContextNode,
    tenant_id: Seq<char>,
    owner: Option<Seq<char>>,
)
    ensures
        in_requested_scope(resolver, node, tenant_id, owner) <==> node.status@ == "active"@ && (
        is_shared(node, tenant_id) || (owner is Some && is_own(
            node,
            tenant_id,
            owner->0,
            resolver.context_of(tenant_id, owner->0),
        ))),
{
}

/// What a reader has in scope is what the company shares and what is the reader's own, all of it
/// and nothing else.
pub proof fn a_scope_holds_the_shared_and_the_own(
    d: StoreData,
    resolver: EventIndexResolver,
    tenant_id: Seq<char>,
    owner: Option<Seq<char>>,
    node: ContextNode,
)
    ensures
        scope_of(d, resolver, tenant_id, owner).contains(node) <==> {
            ||| d.company_context@.contains(node) && is_shared(node, tenant_id)
            ||| owner is Some && list_at(
                lists(d.personal_context@),
                resolver.context_of(tenant_id, owner->0),
            ).contains(node) && is_own(
                node,
                tenant_id,
                owner->0,
                resolver.context_of(tenant_id, owner->0),
            )
        },
{
    let shared = company_scope(d, tenant_id);
    let p = |node: ContextNode| is_company_node(node, tenant_id);
    assert(shared == d.company_context@.filter(p));
    a_filter_keeps_what_it_accepts(d.company_context@, p, node);
    if owner is Some {
        let uid = resolver.context_of(tenant_id, owner->0);
        let q = |node: ContextNode| is_personal_node(node, tenant_id, owner->0, uid);
        let nodes = list_at(lists(d.personal_context@), uid);
        let own = owner_scope(d, resolver, tenant_id, owner->0);
        assert(own == nodes.filter(q));
        a_filter_keeps_what_it_accepts(nodes, q, node);
        let all = scope_of(d, resolver, tenant_id, owner);
        assert(all == shared + own);
        a_sum_holds_what_either_holds(shared, own, node);
    }
}

/// A reader who is not named sees nothing that has an owner.
pub proof fn without_an_owner_nothing_private_is_seen(
    d: StoreData,
    resolver: EventIndexResolver,
    tenant_id: Seq<char>,
    node: ContextNode,
)
    requires
        scope_of(d, resolver, tenant_id, None).contains(node),
    ensures
        node.owner_user_id is None,
        node.tenant_id@ == tenant_id,
        d.company_context@.contains(node),
{
    a_scope_holds_the_shared_and_the_own(d, resolver, tenant_id, None, node);
}

/// A personal node is taken in only where it is private, in the index asked for, and its owner's
/// digest is the one expected; nothing else of what was loaded is kept.
pub proof fn what_is_loaded_for_an_owner_is_the_owners(
    resolver: EventIndexResolver,
    nodes: Seq<ContextNode>,
    tenant_id: Seq<char>,
    index_uid: Seq<char>,
    owner_hash: Seq<char>,
    expected_owner: Option<Seq<char>>,
    node: ContextNode,
)
    ensures
        scoped_nodes(resolver, nodes, tenant_id, index_uid, owner_hash, expected_owner).contains(
            node,
        ) <==> {
            &&& nodes.contains(node)
            &&& node.tenant_id@ == tenant_id
            &&& node.index_uid@ == index_uid
            &&& node.index_kind@ == "personal"@
            &&& node.privacy@ == "private"@
            &&& node.owner_user_id is Some
            &&& resolver.user_digest(node.owner_user_id->0@) == owner_hash
            &&& expected_owner is Some ==> node.owner_user_id->0@ == expected_owner->0
        },
{
    let p = |node: ContextNode|
        crate::reading::in_personal_scope(
            resolver,
            node,
            tenant_id,
            index_uid,
            owner_hash,
            expected_owner,
        );
    a_filter_keeps_what_it_accepts(nodes, p, node);
}

/// A node is kept with the company's if it says so or stands in the company's index.
pub proof fn a_node_has_its_home(node: ContextNode)
    ensures
        kept_with_company(node) <==> node.index_kind@ == "company"@ || node.index_uid@
            == COMPANY_CONTEXT_INDEX@,
{
}

/// What is revealed is the address that is given, or else the first that the trace tells of.
pub proof fn what_is_revealed(d: StoreData, uri: Option<Seq<char>>, trace_id: Option<Seq<char>>)
    ensures
        uri is Some ==> reveal_target(d, uri, trace_id) == Ok::<Seq<char>, ErrorView>(uri->0),
        uri is None && trace_id is None ==> reveal_target(d, uri, trace_id) is Err
            && reveal_target(d, uri, trace_id)->Err_0 is BadRequest,
        uri is None && trace_id is Some ==> (reveal_target(d, uri, trace_id) is Ok
            <==> d.traces@.dom().contains(trace_id->0) && d.traces@[trace_id->0].context_uris@.len()
            > 0),
        uri is None && trace_id is Some && reveal_target(d, uri, trace_id) is Ok ==> reveal_target(
            d,
            uri,
            trace_id,
        )->Ok_0 == d.traces@[trace_id->0].context_uris@[0]@,
{
}

/// What is revealed of a node is its own body, under its own address and layer.
pub proof fn a_reveal_is_of_its_node(
    r: ContextRevealResponse,
    node: ContextNode,
    uri: Seq<char>,
)
    requires
        reveals(r, node, uri),
    ensures
        r.uri@ == node.uri@,
        r.layer == node.layer,
        r.content@ == node.body@,
        r.source_ref.kind@ == node.index_kind@,
        node.source_id is Some ==> r.source_ref.id@ == node.source_id->0@,
        opt_text(r.source_ref.uri) == Some(uri),
{
}

/// An answer is for the one who is named, and else for the owner of the session.
pub proof fn an_answer_has_its_owner(
    d: StoreData,
    owner: Option<Seq<char>>,
    session_id: Option<Seq<char>>,
)
    ensures
        owner is Some ==> answered_owner(d, owner, session_id) == owner,
        owner is None && session_id is Some && d.sessions@.dom().contains(session_id->0)
            ==> answered_owner(d, owner, session_id) == Some(
            d.sessions@[session_id->0].owner_user_id@,
        ),
        owner is None && (session_id is None || !d.sessions@.dom().contains(session_id->0))
            ==> answered_owner(d, owner, session_id) is None,
{
}

/// A trace tells who asked what, when, and which addresses were answered, in their order.
pub proof fn a_trace_tells_what_was_answered(
    t: TraceRecord,
    id: Seq<char>,
    tenant_id: Seq<char>,
    plan: SearchPlan,
    mode: Seq<char>,
    response: ContextSearchResponse,
    now: i64,
)
    requires
        is_trace(t, id, tenant_id, plan, mode, response, now),
    ensures
        t.id@ == id,
        t.tenant_id@ == tenant_id,
        opt_text(t.owner_user_id) == opt_text(plan.owner_user_id),
        t.query@ == plan.query@,
        t.mode@ == mode,
        t.created_at == now,
        t.context_uris@.len() == response.hits@.len(),
        forall|i: int|
            0 <= i < t.context_uris@.len() ==> (#[trigger] t.context_uris@[i])@
                == response.hits@[i].uri@,
{
    let uris = hit_uris(response.hits@);
    assert(texts(t.context_uris@).len() == t.context_uris@.len());
    assert(uris.len() == response.hits@.len());
    assert forall|i: int| 0 <= i < t.context_uris@.len() implies (
    #[trigger] t.context_uris@[i])@ == response.hits@[i].uri@ by {
        assert(uris[i] == response.hits@[i].uri@);
        assert(texts(t.context_uris@)[i] == response.hits@[i].uri@);
    }
}

/// The latest nodes are some of the nodes, and for every node there is one at its place.
proof fn lemma_latest_nodes(nodes: Seq<ContextNode>)
    ensures
        forall|node: ContextNode| #[trigger]
            latest_nodes(nodes).contains(node) ==> nodes.contains(node),
        forall|node: ContextNode| #[trigger]
            nodes.contains(node) ==> any_where(
                latest_nodes(nodes),
                at_place(node.uri@, node.layer),
            ),
    decreases nodes.len(),
{
    if nodes.len() > 0 {
        let front = nodes.drop_last();
        let last = nodes.last();
        let earlier = latest_nodes(front);
        let p = at_place(last.uri@, last.layer);
        let all = latest_nodes(nodes);
        lemma_latest_nodes(front);
        first_where_facts(earlier, p);
        let at = first_where(earlier, p);
        assert(all == put_first(earlier, last, p));
        assert(nodes.contains(last));
        assert forall|node: ContextNode| #[trigger] all.contains(node) implies nodes.contains(
            node,
        ) by {
            let i = choose|i: int| 0 <= i < all.len() && all[i] == node;
            if node != last {
                assert(earlier[i] == node);
                assert(earlier.contains(node));
                assert(front.contains(node));
                let j = choose|j: int| 0 <= j < front.len() && front[j] == node;
                assert(nodes[j] == node);
            }
        }
        assert forall|node: ContextNode| #[trigger] nodes.contains(node) implies any_where(
            all,
            at_place(node.uri@, node.layer),
        ) by {
            let q = at_place(node.uri@, node.layer);
            let j = choose|j: int| 0 <= j < nodes.len() && nodes[j] == node;
            if j < front.len() {
                assert(front[j] == node);
                assert(front.contains(node));
                let i = choose|i: int| 0 <= i < earlier.len() && q(#[trigger] earlier[i]);
                assert(q(all[i]));
            } else if at < earlier.len() {
                assert(q(all[at]));
            } else {
                assert(q(all[earlier.len() as int]));
            }
        }
    }
}

/// Candidates are merged so that a reader sees its own writes: whatever is found outside the
/// reader's scope is left out, what is found at a place that the reader's own store tells of is
/// left out too, and what the store tells of is in if it passes the filters.
pub proof fn own_writes_are_among_the_candidates(
    d: StoreData,
    resolver: EventIndexResolver,
    tenant_id: Seq<char>,
    plan: SearchPlan,
    found: Seq<ContextNode>,
    own_writes: bool,
    node: ContextNode,
)
    requires
        merged_candidates(d, resolver, tenant_id, plan, found, own_writes).contains(node),
    ensures
        ({
            let owner = opt_text(plan.owner_user_id);
            let scope = scope_of(d, resolver, tenant_id, owner);
            let loaded = found.contains(node) && in_requested_scope(
                resolver,
                node,
                tenant_id,
                owner,
            );
            &&& !own_writes ==> loaded
            &&& own_writes ==> {
                ||| loaded && forall|own: ContextNode| #[trigger]
                    scope.contains(own) ==> !(own.uri@ == node.uri@ && own.layer == node.layer)
                ||| scope.contains(node) && is_candidate(node) && passes(plan.filters, node)
            }
        }),
{
    let owner = opt_text(plan.owner_user_id);
    let p = scoped_to(resolver, tenant_id, owner);
    let scoped = found.filter(p);
    a_filter_keeps_what_it_accepts(found, p, node);
    if own_writes {
        let scope = scope_of(d, resolver, tenant_id, owner);
        let local = latest_nodes(scope);
        lemma_latest_nodes(scope);
        let q = not_among(local);
        a_filter_keeps_what_it_accepts(scoped, q, node);
        a_filter_keeps_what_it_accepts(local, eligible(plan.filters), node);
        a_sum_holds_what_either_holds(scoped.filter(q), local.filter(eligible(plan.filters)), node);
        if scoped.filter(q).contains(node) {
            assert forall|own: ContextNode| #[trigger] scope.contains(own) implies !(own.uri@
                == node.uri@ && own.layer == node.layer) by {
                if own.uri@ == node.uri@ && own.layer == node.layer {
                    assert(any_where(local, at_place(own.uri@, own.layer)));
                    assert(at_place(own.uri@, own.layer) == at_place(node.uri@, node.layer));
                }
            }
        }
    }
}

/// Every row that is found in the reader's scope is a candidate, unless the reader's own store
/// tells of its place.
pub proof fn what_is_found_in_scope_is_a_candidate(
    d: StoreData,
    resolver: EventIndexResolver,
    tenant_id: Seq<char>,
    plan: SearchPlan,
    found: Seq<ContextNode>,
    own_writes: bool,
    node: ContextNode,
)
    requires
        found.contains(node),
        in_requested_scope(resolver, node, tenant_id, opt_text(plan.owner_user_id)),
        own_writes ==> forall|own: ContextNode| #[trigger]
            scope_of(d, resolver, tenant_id, opt_text(plan.owner_user_id)).contains(own) ==> !(
            own.uri@ == node.uri@ && own.layer == node.layer),
    ensures
        merged_candidates(d, resolver, tenant_id, plan, found, own_writes).contains(node),
{
    let owner = opt_text(plan.owner_user_id);
    let p = scoped_to(resolver, tenant_id, owner);
    let scoped = found.filter(p);
    a_filter_keeps_what_it_accepts(found, p, node);
    if own_writes {
        let scope = scope_of(d, resolver, tenant_id, owner);
        let local = latest_nodes(scope);
        lemma_latest_nodes(scope);
        let q = not_among(local);
        if any_where(local, at_place(node.uri@, node.layer)) {
            let i = choose|i: int|
                0 <= i < local.len() && at_place(node.uri@, node.layer)(#[trigger] local[i]);
            assert(local.contains(local[i]));
        }
        a_filter_keeps_what_it_accepts(scoped, q, node);
        a_sum_holds_what_either_holds(scoped.filter(q), local.filter(eligible(plan.filters)), node);
    }
}

} // verus!
