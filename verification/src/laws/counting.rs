//! What counts, guards and listings can be relied on for: they tell of what is there, and of nothing
//! that is not the caller's.

use vstd::prelude::*;

use crate::accessors::{nodes_in_index, state_place};
use crate::cursor::{operation_list, operation_lt, operation_wanted, OperationListCursor};
use crate::data::StoreData;
use crate::documents::document_for_owner;
use crate::guards::{
    are_guards, broke, is_unsafe, lacks_history, lacks_link, leads_to_old, missing_links,
    stale_links, tells_of, unsafe_fragments, untold_facts,
};
use crate::hits::all_nodes;
use crate::json::Json;
use crate::laws::choosing::{a_filter_keeps_what_it_accepts, what_is_sorted_out};
use crate::listing::{behind, is_page, OperationListPage};
use crate::model::harness::{RagEvalCaseResult, RegressionGuardResult};
use crate::model::ingest::{IngestTask, ParseArtifact};
use crate::model::knowledge::{
    ContextNode, HistoryEvent, KnowledgeLink, SessionRecord, StateItem, TraceRecord, UserEventIndex,
};
use crate::model::operation::{OperationRecord, OperationStatus};
use crate::order::{any_where, first_where_facts, strict_order};
use crate::reading::is_part_of_link;
use crate::resolver::EventIndexResolver;
use crate::snapshots::{column, numbers_in, row_numbers};
use crate::text::{opt_text, text_lt, text_lt_irreflexive, text_lt_total, text_lt_transitive, texts};
use crate::usage::{
    count_where, counts_usage, index_in_scope, private_in_scope, scope_owner_hash, shared_in_scope,
    summary_in_scope, task_in_scope, UsageSnapshot,
};

verus! {

/// What is counted is what is accepted.
pub proof fn a_count_is_of_what_is_accepted<T>(s: Seq<T>, p: spec_fn(T) -> bool)
    ensures
        count_where(s, p) == s.filter(p).len(),
        count_where(s, p) > 0 <==> any_where(s, p),
    decreases s.len(),
{
    reveal(Seq::filter);
    if s.len() > 0 {
        a_count_is_of_what_is_accepted(s.drop_last(), p);
        assert(s[s.len() - 1] == s.last());
        if any_where(s.drop_last(), p) {
            let i = choose|i: int| 0 <= i < s.drop_last().len() && p(#[trigger] s.drop_last()[i]);
            assert(p(s[i]));
        }
        if any_where(s, p) {
            let i = choose|i: int| 0 <= i < s.len() && p(#[trigger] s[i]);
            if i < s.len() - 1 {
                assert(p(s.drop_last()[i]));
            }
        }
    }
}

proof fn lemma_count_none<T>(s: Seq<T>, p: spec_fn(T) -> bool)
    requires
        forall|x: T| !#[trigger] p(x),
    ensures
        count_where(s, p) == 0,
    decreases s.len(),
{
    if s.len() > 0 {
        lemma_count_none(s.drop_last(), p);
        assert(!p(s.last()));
    }
}

proof fn lemma_count_fewer<T>(s: Seq<T>, p: spec_fn(T) -> bool, q: spec_fn(T) -> bool)
    requires
        forall|x: T| #[trigger] p(x) ==> q(x),
    ensures
        count_where(s, p) <= count_where(s, q),
    decreases s.len(),
{
    if s.len() > 0 {
        lemma_count_fewer(s.drop_last(), p, q);
        assert(p(s.last()) ==> q(s.last()));
    }
}

/// What counts for an owner is the owner's own in the tenant; what counts for everyone is the
/// tenant's. Without an owner nothing private counts.
pub proof fn an_owner_counts_its_own(
    resolver: EventIndexResolver,
    tenant: Seq<char>,
    owner: Option<Seq<char>>,
    tenant_id: Seq<char>,
    owner_user_id: Option<Seq<char>>,
    global: bool,
    index: UserEventIndex,
    task: IngestTask,
)
    ensures
        shared_in_scope(tenant, owner, tenant_id, owner_user_id, global) <==> tenant == tenant_id && (
        global || (owner_user_id is Some && owner == owner_user_id)),
        owner is Some ==> (private_in_scope(tenant, owner->0, tenant_id, owner_user_id, global)
            <==> tenant == tenant_id && (global || owner == owner_user_id)),
        index_in_scope(index, tenant_id, scope_owner_hash(resolver, owner_user_id), global)
            ==> index.tenant_id@ == tenant_id && (global || (owner_user_id is Some
            && index.owner_user_id_hash@ == resolver.user_digest(owner_user_id->0))),
        index.tenant_id@ == tenant_id && (global || (owner_user_id is Some
            && index.owner_user_id_hash@ == resolver.user_digest(owner_user_id->0)))
            ==> index_in_scope(
            index,
            tenant_id,
            scope_owner_hash(resolver, owner_user_id),
            global,
        ),
        task_in_scope(task, tenant_id, owner_user_id, global) <==> task.tenant_id@ == tenant_id && (
        global || (owner_user_id is Some && opt_text(task.owner_user_id) == owner_user_id)),
{
}

/// A caller without a name who does not ask for everyone counts nothing.
pub proof fn nobody_counts_nothing(
    r: UsageSnapshot,
    d: StoreData,
    resolver: EventIndexResolver,
    tenant_id: Seq<char>,
)
    requires
        counts_usage(r, d, resolver, tenant_id, None, false),
    ensures
        r.user_event_index_count == 0,
        r.company_context_node_count == 0,
        r.private_context_node_count == 0,
        r.context_node_count == 0,
        r.trace_count == 0,
        r.link_count == 0,
        r.task_count == 0,
        r.parse_artifact_count == 0,
        r.dataset_count == 0,
        r.session_count == 0,
        r.structured_state_item_count == 0,
        r.summary_count == 0,
{
    lemma_count_none(
        d.user_indexes.values(),
        |index: UserEventIndex|
            index_in_scope(index, tenant_id, scope_owner_hash(resolver, None), false),
    );
    lemma_count_none(
        d.traces.values(),
        |trace: TraceRecord|
            shared_in_scope(
                trace.tenant_id@,
                opt_text(trace.owner_user_id),
                tenant_id,
                None,
                false,
            ),
    );
    lemma_count_none(
        d.links.values(),
        |link: KnowledgeLink|
            shared_in_scope(link.tenant_id@, opt_text(link.owner_user_id), tenant_id, None, false),
    );
    lemma_count_none(
        d.ingest_tasks.values(),
        |task: IngestTask| task_in_scope(task, tenant_id, None, false),
    );
    lemma_count_none(
        d.parse_artifacts.values(),
        |artifact: ParseArtifact|
            shared_in_scope(
                artifact.tenant_id@,
                opt_text(artifact.owner_user_id),
                tenant_id,
                None,
                false,
            ),
    );
    lemma_count_none(
        d.sessions.values(),
        |session: SessionRecord|
            private_in_scope(
                session.tenant_id@,
                session.owner_user_id@,
                tenant_id,
                None,
                false,
            ),
    );
    lemma_count_none(
        d.state_items.values(),
        |item: StateItem| crate::usage::summary_item_in_scope(item, tenant_id, None, false),
    );
    lemma_count_none(
        d.structured_summaries.values(),
        |summary: Json| summary_in_scope(summary, tenant_id, None, false),
    );
}

/// An owner counts no more than everyone together.
pub proof fn an_owner_counts_no_more_than_everyone(
    own: UsageSnapshot,
    all: UsageSnapshot,
    d: StoreData,
    resolver: EventIndexResolver,
    tenant_id: Seq<char>,
    owner: Option<Seq<char>>,
    other: Option<Seq<char>>,
)
    requires
        counts_usage(own, d, resolver, tenant_id, owner, false),
        counts_usage(all, d, resolver, tenant_id, other, true),
    ensures
        own.user_event_index_count <= all.user_event_index_count,
        own.trace_count <= all.trace_count,
        own.link_count <= all.link_count,
        own.task_count <= all.task_count,
        own.parse_artifact_count <= all.parse_artifact_count,
        own.session_count <= all.session_count,
        own.company_context_node_count <= all.company_context_node_count,
{
    lemma_count_fewer(
        d.user_indexes.values(),
        |index: UserEventIndex|
            index_in_scope(index, tenant_id, scope_owner_hash(resolver, owner), false),
        |index: UserEventIndex|
            index_in_scope(index, tenant_id, scope_owner_hash(resolver, other), true),
    );
    lemma_count_fewer(
        d.traces.values(),
        |trace: TraceRecord|
            shared_in_scope(
                trace.tenant_id@,
                opt_text(trace.owner_user_id),
                tenant_id,
                owner,
                false,
            ),
        |trace: TraceRecord|
            shared_in_scope(
                trace.tenant_id@,
                opt_text(trace.owner_user_id),
                tenant_id,
                other,
                true,
            ),
    );
    lemma_count_fewer(
        d.links.values(),
        |link: KnowledgeLink|
            shared_in_scope(link.tenant_id@, opt_text(link.owner_user_id), tenant_id, owner, false),
        |link: KnowledgeLink|
            shared_in_scope(link.tenant_id@, opt_text(link.owner_user_id), tenant_id, other, true),
    );
    lemma_count_fewer(
        d.ingest_tasks.values(),
        |task: IngestTask| task_in_scope(task, tenant_id, owner, false),
        |task: IngestTask| task_in_scope(task, tenant_id, other, true),
    );
    lemma_count_fewer(
        d.parse_artifacts.values(),
        |artifact: ParseArtifact|
            shared_in_scope(
                artifact.tenant_id@,
                opt_text(artifact.owner_user_id),
                tenant_id,
                owner,
                false,
            ),
        |artifact: ParseArtifact|
            shared_in_scope(
                artifact.tenant_id@,
                opt_text(artifact.owner_user_id),
                tenant_id,
                other,
                true,
            ),
    );
    lemma_count_fewer(
        d.sessions.values(),
        |session: SessionRecord|
            private_in_scope(session.tenant_id@, session.owner_user_id@, tenant_id, owner, false),
        |session: SessionRecord|
            private_in_scope(session.tenant_id@, session.owner_user_id@, tenant_id, other, true),
    );
}

proof fn lemma_nothing_left<T>(s: Seq<T>, p: spec_fn(T) -> bool)
    ensures
        s.filter(p).len() == 0 <==> forall|i: int| 0 <= i < s.len() ==> !p(#[trigger] s[i]),
{
    a_count_is_of_what_is_accepted(s, p);
    if any_where(s, p) {
        let i = choose|i: int| 0 <= i < s.len() && p(#[trigger] s[i]);
        assert(p(s[i]));
    }
    if !(forall|i: int| 0 <= i < s.len() ==> !p(#[trigger] s[i])) {
        let i = choose|i: int| 0 <= i < s.len() && p(#[trigger] s[i]);
        assert(any_where(s, p));
    }
}

/// Whether an active link leads from a fragment to the document that it is part of.
pub open spec fn is_linked(links: Seq<KnowledgeLink>, tenant_id: Seq<char>, uri: Seq<char>) -> bool {
    exists|k: int|
        0 <= k < links.len() && (#[trigger] links[k]).tenant_id@ == tenant_id && links[k].status@
            == "active"@ && links[k].relation@ == "part_of"@ && links[k].source_uri@ == uri
}

/// Whether the document that stands at an address for an owner is there and is not active.
pub open spec fn stands_put_aside(
    d: StoreData,
    tenant_id: Seq<char>,
    owner: Option<Seq<char>>,
    uri: Seq<char>,
) -> bool {
    match document_for_owner(d.source_documents@, tenant_id, owner, uri) {
        Some(document) => document.status@ != "active"@,
        None => false,
    }
}

/// No fragment lacks its link exactly if an active part-of link leads from every active fragment of
/// the tenant; no link is stale exactly if none of the tenant's active part-of links leads to a
/// document that was put aside.
pub proof fn links_are_whole_if_each_fragment_has_one(d: StoreData, tenant_id: Seq<char>)
    ensures
        missing_links(d, tenant_id).len() == 0 <==> forall|i: int|
            0 <= i < all_nodes(d).len() && (#[trigger] all_nodes(d)[i]).tenant_id@ == tenant_id
                && all_nodes(d)[i].node_kind@ == "fragment"@ && all_nodes(
                d,
            )[i].source_document_uri is Some && all_nodes(d)[i].status@ == "active"@ ==> is_linked(
                d.links.values(),
                tenant_id,
                all_nodes(d)[i].uri@,
            ),
        stale_links(d, tenant_id).len() == 0 <==> forall|i: int|
            0 <= i < d.links.values().len() && (#[trigger] d.links.values()[i]).tenant_id@
                == tenant_id && d.links.values()[i].status@ == "active"@
                && d.links.values()[i].relation@ == "part_of"@ ==> !stands_put_aside(
                d,
                tenant_id,
                opt_text(d.links.values()[i].owner_user_id),
                d.links.values()[i].target_uri@,
            ),
{
    let p = lacks_link(d.links.values(), tenant_id);
    let q = leads_to_old(d, tenant_id);
    lemma_nothing_left(all_nodes(d), p);
    lemma_nothing_left(d.links.values(), q);
    assert forall|uri: Seq<char>| is_linked(d.links.values(), tenant_id, uri) == #[trigger] any_where(
        d.links.values(),
        is_part_of_link(tenant_id, uri),
    ) by {
        let links = d.links.values();
        let l = is_part_of_link(tenant_id, uri);
        if is_linked(links, tenant_id, uri) {
            let k = choose|k: int|
                0 <= k < links.len() && (#[trigger] links[k]).tenant_id@ == tenant_id
                    && links[k].status@ == "active"@ && links[k].relation@ == "part_of"@
                    && links[k].source_uri@ == uri;
            assert(l(links[k]));
        }
        if any_where(links, l) {
            let k = choose|k: int| 0 <= k < links.len() && l(#[trigger] links[k]);
            assert(links[k].tenant_id@ == tenant_id);
        }
    }
    assert forall|i: int| 0 <= i < all_nodes(d).len() implies p(#[trigger] all_nodes(d)[i]) == (
    all_nodes(d)[i].tenant_id@ == tenant_id && all_nodes(d)[i].node_kind@ == "fragment"@
        && all_nodes(d)[i].source_document_uri is Some && all_nodes(d)[i].status@ == "active"@
        && !is_linked(d.links.values(), tenant_id, all_nodes(d)[i].uri@)) by {
        assert(is_linked(d.links.values(), tenant_id, all_nodes(d)[i].uri@) == any_where(
            d.links.values(),
            is_part_of_link(tenant_id, all_nodes(d)[i].uri@),
        ));
    }
}

/// No fragment is unsafe exactly if none of the tenant's that was put aside can be retrieved and none
/// that is active stands in a document that was put aside.
pub proof fn fragments_are_safe_if_put_aside_with_their_document(d: StoreData, tenant_id: Seq<char>)
    ensures
        unsafe_fragments(d, tenant_id).len() == 0 <==> forall|i: int|
            0 <= i < all_nodes(d).len() && (#[trigger] all_nodes(d)[i]).tenant_id@ == tenant_id
                && all_nodes(d)[i].node_kind@ == "fragment"@ && all_nodes(
                d,
            )[i].source_document_uri is Some ==> (all_nodes(d)[i].status@ == "superseded"@
                ==> all_nodes(d)[i].retrieval_enabled == false) && (all_nodes(d)[i].status@
                == "active"@ ==> !stands_put_aside(
                d,
                tenant_id,
                opt_text(all_nodes(d)[i].owner_user_id),
                all_nodes(d)[i].source_document_uri->0@,
            )),
{
    let p = is_unsafe(d, tenant_id);
    lemma_nothing_left(all_nodes(d), p);
    assert forall|i: int| 0 <= i < all_nodes(d).len() implies !p(#[trigger] all_nodes(d)[i]) == ((
    all_nodes(d)[i].tenant_id@ == tenant_id && all_nodes(d)[i].node_kind@ == "fragment"@
        && all_nodes(d)[i].source_document_uri is Some) ==> (all_nodes(d)[i].status@
        == "superseded"@ ==> all_nodes(d)[i].retrieval_enabled == false) && (all_nodes(d)[i].status@
        == "active"@ ==> !stands_put_aside(
        d,
        tenant_id,
        opt_text(all_nodes(d)[i].owner_user_id),
        all_nodes(d)[i].source_document_uri->0@,
    ))) by {
    }
}

/// Whether the history tells of a fact: an event of its owner about it that says it was changed.
pub open spec fn is_told_of(events: Seq<HistoryEvent>, tenant_id: Seq<char>, item: StateItem) -> bool {
    exists|k: int|
        {
            &&& 0 <= k < events.len()
            &&& (#[trigger] events[k]).tenant_id@ == tenant_id
            &&& events[k].owner_user_id@ == item.owner_user_id@
            &&& events[k].entity_type@ == "state_item"@
            &&& events[k].entity_id@ == item.id@
            &&& events[k].event_type@ == "state.changed"@ || events[k].event_type@
                == "state.patched"@
        }
}

/// No fact is untold exactly if the history tells of every active fact of the tenant.
pub proof fn every_fact_is_told_of(d: StoreData, tenant_id: Seq<char>)
    ensures
        untold_facts(d, tenant_id).len() == 0 <==> forall|i: int|
            0 <= i < d.state_items.values().len() && (
            #[trigger] d.state_items.values()[i]).tenant_id@ == tenant_id
                && d.state_items.values()[i].status@ == "active"@ ==> is_told_of(
                d.event_by_id.values(),
                tenant_id,
                d.state_items.values()[i],
            ),
{
    let events = d.event_by_id.values();
    let p = lacks_history(events, tenant_id);
    let values = d.state_items.values();
    lemma_nothing_left(values, p);
    assert forall|i: int| 0 <= i < values.len() implies p(#[trigger] values[i]) == (
    values[i].tenant_id@ == tenant_id && values[i].status@ == "active"@ && !is_told_of(
        events,
        tenant_id,
        values[i],
    )) by {
        let l = tells_of(tenant_id, values[i]);
        if any_where(events, l) {
            let k = choose|k: int| 0 <= k < events.len() && l(#[trigger] events[k]);
            assert(events[k].tenant_id@ == tenant_id);
        }
        if is_told_of(events, tenant_id, values[i]) {
            let k = choose|k: int|
                {
                    &&& 0 <= k < events.len()
                    &&& (#[trigger] events[k]).tenant_id@ == tenant_id
                    &&& events[k].owner_user_id@ == values[i].owner_user_id@
                    &&& events[k].entity_type@ == "state_item"@
                    &&& events[k].entity_id@ == values[i].id@
                    &&& events[k].event_type@ == "state.changed"@ || events[k].event_type@
                        == "state.patched"@
                };
            assert(l(events[k]));
        }
    }
}

/// The guards hold exactly if nothing breaks them: no case names the guard, and the data is as it has
/// to be.
pub proof fn a_guard_holds_if_nothing_breaks_it(
    g: Seq<RegressionGuardResult>,
    d: StoreData,
    tenant_id: Seq<char>,
    results: Seq<RagEvalCaseResult>,
    false_ready: bool,
)
    requires
        are_guards(g, d, tenant_id, results, false_ready),
    ensures
        g.len() == 8,
        g[0].passed <==> forall|i: int|
            0 <= i < results.len() ==> !texts((#[trigger] results[i]).guard_failures@).contains(
                "source_doc_not_default_retrieved"@,
            ),
        g[1].passed <==> forall|i: int|
            0 <= i < results.len() ==> !texts((#[trigger] results[i]).guard_failures@).contains(
                "fragment_traceback_required"@,
            ),
        g[2].passed <==> forall|i: int|
            0 <= i < results.len() ==> !texts((#[trigger] results[i]).guard_failures@).contains(
                "owner_acl_never_leaks"@,
            ),
        g[3].passed <==> unsafe_fragments(d, tenant_id).len() == 0 && forall|i: int|
            0 <= i < results.len() ==> !texts((#[trigger] results[i]).guard_failures@).contains(
                "superseded_fragments_not_active"@,
            ),
        g[4].passed <==> missing_links(d, tenant_id).len() == 0 && stale_links(d, tenant_id).len()
            == 0,
        g[5].passed <==> !false_ready,
        g[6].passed <==> untold_facts(d, tenant_id).len() == 0,
        g[7].passed <==> untold_facts(d, tenant_id).len() == 0,
        g[0].name@ == "source_doc_not_default_retrieved"@,
        g[1].name@ == "fragment_traceback_required"@,
        g[2].name@ == "owner_acl_never_leaks"@,
        g[3].name@ == "superseded_fragments_not_active"@,
        g[4].name@ == "part_of_links_superseded_on_revision_update"@,
        g[5].name@ == "llm_health_controls_ready"@,
        g[6].name@ == "state_change_writes_history_event"@,
        g[7].name@ == "current_state_has_history_evidence"@,
{
    lemma_case_guard(results, "source_doc_not_default_retrieved"@);
    lemma_case_guard(results, "fragment_traceback_required"@);
    lemma_case_guard(results, "owner_acl_never_leaks"@);
    lemma_case_guard(results, "superseded_fragments_not_active"@);
}

proof fn lemma_case_guard(results: Seq<RagEvalCaseResult>, name: Seq<char>)
    ensures
        results.filter(broke(name)).len() == 0 <==> forall|i: int|
            0 <= i < results.len() ==> !texts((#[trigger] results[i]).guard_failures@).contains(name),
{
    lemma_nothing_left(results, broke(name));
    assert forall|i: int| 0 <= i < results.len() implies broke(name)(#[trigger] results[i]) == texts(
        results[i].guard_failures@,
    ).contains(name) by {
    }
}

/// The order of a listing is strict: the later time first, then the greater id.
pub proof fn listings_are_ordered()
    ensures
        strict_order(|a: OperationRecord, b: OperationRecord| operation_lt(a, b)),
{
    let lt = |a: OperationRecord, b: OperationRecord| operation_lt(a, b);
    assert forall|a: OperationRecord, b: OperationRecord| lt(a, b) implies !#[trigger] lt(b, a) by {
        text_lt_irreflexive(a.id@);
        if text_lt(b.id@, a.id@) && text_lt(a.id@, b.id@) {
            text_lt_transitive(a.id@, b.id@, a.id@);
        }
    }
    assert forall|a: OperationRecord, b: OperationRecord, c: OperationRecord|
        !#[trigger] lt(b, a) && !#[trigger] lt(c, b) implies !lt(c, a) by {
        if lt(c, a) {
            text_lt_total(a.id@, b.id@);
            text_lt_total(b.id@, c.id@);
            if text_lt(b.id@, a.id@) && text_lt(a.id@, c.id@) {
                text_lt_transitive(b.id@, a.id@, c.id@);
            }
            if text_lt(c.id@, b.id@) && text_lt(a.id@, c.id@) {
                text_lt_transitive(a.id@, c.id@, b.id@);
            }
        }
    }
}

/// A listing holds the operations of the tenant with a status and a kind that are asked for, and no
/// others, the latest first.
pub proof fn a_listing_holds_what_was_asked_for(
    operations: Seq<OperationRecord>,
    tenant_id: Seq<char>,
    statuses: Seq<OperationStatus>,
    kinds: Seq<Seq<char>>,
    i: int,
    j: int,
    x: OperationRecord,
)
    ensures
        ({
            let list = operation_list(operations, tenant_id, statuses, kinds);
            &&& list.contains(x) <==> {
                &&& operations.contains(x)
                &&& x.tenant_id@ == tenant_id
                &&& statuses.len() > 0 ==> statuses.contains(x.status)
                &&& kinds.len() > 0 ==> kinds.contains(x.operation_kind@)
            }
            &&& 0 <= i < j < list.len() ==> list[i].created_at >= list[j].created_at
        }),
{
    let p = |operation: OperationRecord| operation_wanted(operation, tenant_id, statuses, kinds);
    let lt = |a: OperationRecord, b: OperationRecord| operation_lt(a, b);
    let list = operation_list(operations, tenant_id, statuses, kinds);
    listings_are_ordered();
    what_is_sorted_out(operations, p, lt);
    if list.contains(x) {
        let k = choose|k: int| 0 <= k < list.len() && list[k] == x;
        assert(operations.contains(list[k]) && p(list[k]));
    }
    if operations.contains(x) && p(x) {
        assert(list.contains(x));
    }
    if 0 <= i < j < list.len() {
        assert(!lt(list[j], list[i]));
    }
}

/// A page begins where the one before it ended, holds as much as the limit allows, tells each
/// operation as it is, and says that there is more exactly if there is.
pub proof fn a_page_begins_where_the_last_ended(
    page: OperationListPage,
    list: Seq<OperationRecord>,
    cursor: Option<OperationListCursor>,
    limit: nat,
    include_plan: bool,
    i: int,
)
    requires
        is_page(page, list, cursor, limit, include_plan),
        cursor is Some ==> cursor->0.offset <= list.len(),
    ensures
        ({
            let from = if cursor is Some {
                cursor->0.offset as int
            } else {
                0
            };
            let shown = page.operations@;
            &&& shown.len() <= limit
            &&& page.has_more <==> from + shown.len() < list.len()
            &&& !page.has_more ==> from + shown.len() == list.len()
            &&& 0 <= i < shown.len() ==> {
                let record = list[from + i];
                &&& shown[i].summary.id == record.id
                &&& shown[i].summary.tenant_id == record.tenant_id
                &&& shown[i].summary.operation_kind == record.operation_kind
                &&& shown[i].summary.status == record.status
                &&& shown[i].summary.indexing_state == record.indexing_state
                &&& shown[i].summary.progress == record.progress
                &&& shown[i].summary.created_at == record.created_at
                &&& shown[i].summary.updated_at == record.updated_at
                &&& shown[i].plan == (if include_plan {
                    Some(record.plan)
                } else {
                    None
                })
            }
        }),
{
    let rest = behind(list, cursor);
    crate::laws::choosing::a_bound_keeps_the_front(rest, limit, i);
}

/// What is looked at in an index is what the tenant has in it.
pub proof fn an_index_shows_the_tenants_nodes(
    d: StoreData,
    tenant_id: Seq<char>,
    index_uid: Seq<char>,
    node: ContextNode,
)
    ensures
        nodes_in_index(d, tenant_id, index_uid).contains(node) <==> node.tenant_id@ == tenant_id && (
        if index_uid == "rag_company_context"@ {
            d.company_context@.contains(node)
        } else {
            crate::table::list_at(
                crate::table::lists(d.personal_context@),
                index_uid,
            ).contains(node)
        }),
{
    assert(crate::publish::COMPANY_CONTEXT_INDEX@ == "rag_company_context"@);
    let p = crate::accessors::of_tenant(tenant_id);
    a_filter_keeps_what_it_accepts(d.company_context@, p, node);
    a_filter_keeps_what_it_accepts(
        crate::table::list_at(crate::table::lists(d.personal_context@), index_uid),
        p,
        node,
    );
}

/// A state is counted under its own label, and under the last where it has none.
pub proof fn a_state_is_counted_under_its_label(labels: Seq<Seq<char>>, state: Seq<char>)
    requires
        labels.len() > 0,
    ensures
        0 <= state_place(labels, state) < labels.len(),
        labels.contains(state) ==> labels[state_place(labels, state)] == state,
        !labels.contains(state) ==> state_place(labels, state) == labels.len() - 1,
{
    let p = crate::accessors::label_is(state);
    first_where_facts(labels, p);
    if labels.contains(state) {
        let i = choose|i: int| 0 <= i < labels.len() && labels[i] == state;
        assert(p(labels[i]));
    }
}

proof fn lemma_numbers(members: Seq<(String, Json)>, name: Seq<char>, n: Seq<char>)
    ensures
        numbers_in(members, name).contains(n) <==> exists|i: int|
            0 <= i < members.len() && members[i].0@ == name && match (#[trigger] members[i]).1 {
                Json::Number(number) => number@ == n,
                _ => false,
            },
    decreases members.len(),
{
    if members.len() > 0 {
        let front = members.drop_last();
        lemma_numbers(front, name, n);
        let a = numbers_in(front, name);
        let b = numbers_in(members, name);
        let last = members.len() - 1;
        assert(members[last] == members.last());
        if b.contains(n) {
            let k = choose|k: int| 0 <= k < b.len() && b[k] == n;
            if k < a.len() {
                assert(a[k] == n);
                let i = choose|i: int|
                    0 <= i < front.len() && front[i].0@ == name && match (#[trigger] front[i]).1 {
                        Json::Number(number) => number@ == n,
                        _ => false,
                    };
                assert(members[i] == front[i]);
            } else {
                assert(members[last].0@ == name);
            }
        }
        if exists|i: int|
            0 <= i < members.len() && members[i].0@ == name && match (#[trigger] members[i]).1 {
                Json::Number(number) => number@ == n,
                _ => false,
            } {
            let i = choose|i: int|
                0 <= i < members.len() && members[i].0@ == name && match (#[trigger] members[i]).1 {
                    Json::Number(number) => number@ == n,
                    _ => false,
                };
            if i < last {
                assert(front[i] == members[i]);
                let k = choose|k: int| 0 <= k < a.len() && a[k] == n;
                assert(b[k] == n);
            } else {
                assert(b[b.len() - 1] == n);
            }
        }
    }
}

/// A column holds the numbers that the rows have under its name, and nothing else.
pub proof fn a_column_holds_its_numbers(rows: Seq<Json>, name: Seq<char>, n: Seq<char>)
    ensures
        column(rows, name).contains(n) <==> exists|i: int|
            0 <= i < rows.len() && row_numbers(#[trigger] rows[i], name).contains(n),
    decreases rows.len(),
{
    if rows.len() > 0 {
        let front = rows.drop_last();
        a_column_holds_its_numbers(front, name, n);
        let a = column(front, name);
        let c = row_numbers(rows.last(), name);
        let b = column(rows, name);
        let last = rows.len() - 1;
        assert(rows[last] == rows.last());
        if b.contains(n) {
            let k = choose|k: int| 0 <= k < b.len() && b[k] == n;
            if k < a.len() {
                assert(a[k] == n);
                let i = choose|i: int|
                    0 <= i < front.len() && row_numbers(#[trigger] front[i], name).contains(n);
                assert(row_numbers(rows[i], name).contains(n));
            } else {
                assert(c[k - a.len()] == n);
                assert(row_numbers(rows[last], name).contains(n));
            }
        }
        if exists|i: int| 0 <= i < rows.len() && row_numbers(#[trigger] rows[i], name).contains(n) {
            let i = choose|i: int|
                0 <= i < rows.len() && row_numbers(#[trigger] rows[i], name).contains(n);
            if i < last {
                assert(row_numbers(front[i], name).contains(n));
                let k = choose|k: int| 0 <= k < a.len() && a[k] == n;
                assert(b[k] == n);
            } else {
                let k = choose|k: int| 0 <= k < c.len() && c[k] == n;
                assert(b[a.len() + k] == n);
            }
        }
    }
}

/// A row has a number under a name exactly if it is an object with that member.
pub proof fn a_row_has_its_numbers(row: Json, name: Seq<char>, n: Seq<char>)
    ensures
        row_numbers(row, name).contains(n) <==> match row {
            Json::Object(members) => exists|i: int|
                0 <= i < members@.len() && members@[i].0@ == name && match (
                #[trigger] members@[i]).1 {
                    Json::Number(number) => number@ == n,
                    _ => false,
                },
            _ => false,
        },
{
    match row {
        Json::Object(members) => {
            lemma_numbers(members@, name, n);
        },
        _ => {},
    }
}

} // verus!
