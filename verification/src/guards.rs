//! Guards against regressions: what must hold of every run and of what is stored.

use vstd::prelude::*;
use vstd::string::*;

use crate::data::StoreData;
use crate::documents::{document_for_owner, is_active, source_document_for_owner};
use crate::hits::{all_context_nodes, all_nodes};
use crate::json::{is_text_list, text_list, Json};
use crate::model::harness::{RagEvalCaseResult, RegressionGuardResult};
use crate::model::knowledge::{ContextNode, HistoryEvent, KnowledgeLink, StateItem};
use crate::order::any_where;
use crate::reading::is_part_of_link;
use crate::record::{any_value, select, select_values};
use crate::text::{as_deref, opt_text, text_eq, texts, texts_contain};

verus! {

/// The ids of cases.
pub open spec fn case_ids(results: Seq<RagEvalCaseResult>) -> Seq<Seq<char>> {
    Seq::new(results.len(), |i: int| results[i].case_id@)
}

/// Whether a case broke a guard.
pub open spec fn broke(guard_name: Seq<char>) -> spec_fn(RagEvalCaseResult) -> bool {
    |result: RagEvalCaseResult| texts(result.guard_failures@).contains(guard_name)
}

/// The cases that broke a guard.
pub fn guard_case_ids(results: &Vec<RagEvalCaseResult>, guard_name: &str) -> (r: Vec<String>)
    ensures
        texts(r@) == case_ids(results@.filter(broke(guard_name@))),
{
    let ghost p = broke(guard_name@);
    let broken = |result: &RagEvalCaseResult| -> (b: bool)
        ensures
            b == p(*result),
        { texts_contain(&result.guard_failures, guard_name) };
    let found: Vec<RagEvalCaseResult> = select(results, broken, Ghost(p));
    let mut out: Vec<String> = Vec::new();
    let mut i: usize = 0;
    while i < found.len()
        invariant
            i <= found.len(),
            out@.len() == i,
            forall|j: int| 0 <= j < i ==> (#[trigger] out@[j])@ == found@[j].case_id@,
        decreases found.len() - i,
    {
        out.push(found[i].case_id.clone());
        i += 1;
    }
    assert(texts(out@) =~= case_ids(found@));
    out
}

/// The URIs of nodes.
pub open spec fn node_uris(nodes: Seq<ContextNode>) -> Seq<Seq<char>> {
    Seq::new(nodes.len(), |i: int| nodes[i].uri@)
}

fn list_node_uris(nodes: &Vec<ContextNode>) -> (r: Vec<String>)
    ensures
        texts(r@) == node_uris(nodes@),
{
    let mut out: Vec<String> = Vec::new();
    let mut i: usize = 0;
    while i < nodes.len()
        invariant
            i <= nodes.len(),
            out@.len() == i,
            forall|j: int| 0 <= j < i ==> (#[trigger] out@[j])@ == nodes@[j].uri@,
        decreases nodes.len() - i,
    {
        out.push(nodes[i].uri.clone());
        i += 1;
    }
    assert(texts(out@) =~= node_uris(nodes@));
    out
}

/// Whether a node is a fragment of a document of a tenant.
pub open spec fn is_fragment_of(node: ContextNode, tenant_id: Seq<char>) -> bool {
    node.tenant_id@ == tenant_id && node.node_kind@ == "fragment"@ && node.source_document_uri is Some
}

fn check_fragment_of(node: &ContextNode, tenant_id: &str) -> (r: bool)
    ensures
        r == is_fragment_of(*node, tenant_id@),
{
    text_eq(node.tenant_id.as_str(), tenant_id) && text_eq(node.node_kind.as_str(), "fragment")
        && node.source_document_uri.is_some()
}

/// Whether a fragment has no link to its document.
pub open spec fn lacks_link(links: Seq<KnowledgeLink>, tenant_id: Seq<char>) -> spec_fn(
    ContextNode,
) -> bool {
    |node: ContextNode|
        is_fragment_of(node, tenant_id) && node.status@ == "active"@ && !any_where(
            links,
            is_part_of_link(tenant_id, node.uri@),
        )
}

/// Whether the document that a link or a node names is no longer active.
pub open spec fn document_is_old(
    d: StoreData,
    tenant_id: Seq<char>,
    owner: Option<Seq<char>>,
    uri: Seq<char>,
) -> bool {
    let document = document_for_owner(d.source_documents@, tenant_id, owner, uri);
    document is Some && !is_active(document->Some_0)
}

fn check_document_is_old(
    data: &StoreData,
    tenant_id: &str,
    owner: &Option<String>,
    uri: &str,
) -> (r: bool)
    ensures
        r == document_is_old(*data, tenant_id@, opt_text(*owner), uri@),
{
    match source_document_for_owner(data, tenant_id, as_deref(owner), uri) {
        Some(document) => !text_eq(document.status.as_str(), "active"),
        None => false,
    }
}

/// Whether an active link leads to a document that is no longer active.
pub open spec fn leads_to_old(d: StoreData, tenant_id: Seq<char>) -> spec_fn(KnowledgeLink) -> bool {
    |link: KnowledgeLink|
        link.tenant_id@ == tenant_id && link.status@ == "active"@ && link.relation@ == "part_of"@
            && document_is_old(d, tenant_id, opt_text(link.owner_user_id), link.target_uri@)
}

/// The ids of links.
pub open spec fn link_ids(links: Seq<KnowledgeLink>) -> Seq<Seq<char>> {
    Seq::new(links.len(), |i: int| links[i].id@)
}

fn list_link_ids(links: &Vec<KnowledgeLink>) -> (r: Vec<String>)
    ensures
        texts(r@) == link_ids(links@),
{
    let mut out: Vec<String> = Vec::new();
    let mut i: usize = 0;
    while i < links.len()
        invariant
            i <= links.len(),
            out@.len() == i,
            forall|j: int| 0 <= j < i ==> (#[trigger] out@[j])@ == links@[j].id@,
        decreases links.len() - i,
    {
        out.push(links[i].id.clone());
        i += 1;
    }
    assert(texts(out@) =~= link_ids(links@));
    out
}

/// Whether `j` is an object of lists of texts, one by one.
pub open spec fn is_evidence(j: Json, members: Seq<(Seq<char>, Seq<Seq<char>>)>) -> bool {
    match j {
        Json::Object(m) => {
            &&& m@.len() == members.len()
            &&& forall|i: int|
                0 <= i < members.len() ==> (#[trigger] m@[i]).0@ == members[i].0 && is_text_list(
                    m@[i].1,
                    members[i].1,
                )
        },
        _ => false,
    }
}

fn one_list(name: &str, values: &Vec<String>) -> (r: Json)
    ensures
        is_evidence(r, seq![(name@, texts(values@))]),
{
    let mut m: Vec<(String, Json)> = Vec::new();
    m.push((name.to_owned(), text_list(values)));
    Json::Object(std::sync::Arc::new(m))
}

/// The fragments without a link to their document.
pub open spec fn missing_links(d: StoreData, tenant_id: Seq<char>) -> Seq<Seq<char>> {
    node_uris(all_nodes(d).filter(lacks_link(d.links.values(), tenant_id)))
}

/// The active links to documents that are no longer active.
pub open spec fn stale_links(d: StoreData, tenant_id: Seq<char>) -> Seq<Seq<char>> {
    link_ids(d.links.values().filter(leads_to_old(d, tenant_id)))
}

fn has_part_of_link(data: &StoreData, tenant_id: &str, uri: &str) -> (r: bool)
    ensures
        r == any_where(data.links.values(), is_part_of_link(tenant_id@, uri@)),
{
    let ghost p = is_part_of_link(tenant_id@, uri@);
    let accept = |link: &KnowledgeLink| -> (b: bool)
        ensures
            b == p(*link),
        {
            text_eq(link.tenant_id.as_str(), tenant_id) && text_eq(link.status.as_str(), "active")
                && text_eq(link.relation.as_str(), "part_of") && text_eq(
                link.source_uri.as_str(),
                uri,
            )
        };
    any_value(&data.links, accept, Ghost(p))
}

/// Whether every fragment leads to its document, and no link to an old one.
pub fn part_of_links_guard(data: &StoreData, tenant_id: &str) -> (r: (bool, Json))
    ensures
        r.0 == (missing_links(*data, tenant_id@).len() == 0 && stale_links(
            *data,
            tenant_id@,
        ).len() == 0),
        is_evidence(
            r.1,
            seq![
                ("missing_links"@, missing_links(*data, tenant_id@)),
                ("stale_links"@, stale_links(*data, tenant_id@)),
            ],
        ),
{
    let nodes: Vec<ContextNode> = all_context_nodes(data);
    let ghost p = lacks_link(data.links.values(), tenant_id@);
    let lacking = |node: &ContextNode| -> (b: bool)
        ensures
            b == p(*node),
        {
            check_fragment_of(node, tenant_id) && text_eq(node.status.as_str(), "active")
                && !has_part_of_link(data, tenant_id, node.uri.as_str())
        };
    let missing: Vec<String> = list_node_uris(&select(&nodes, lacking, Ghost(p)));
    let ghost q = leads_to_old(*data, tenant_id@);
    let old_one = |link: &KnowledgeLink| -> (b: bool)
        ensures
            b == q(*link),
        {
            text_eq(link.tenant_id.as_str(), tenant_id) && text_eq(link.status.as_str(), "active")
                && text_eq(link.relation.as_str(), "part_of") && check_document_is_old(
                data,
                tenant_id,
                &link.owner_user_id,
                link.target_uri.as_str(),
            )
        };
    let stale: Vec<String> = list_link_ids(&select_values(&data.links, old_one, Ghost(q)));
    assert(texts(missing@).len() == missing@.len());
    assert(texts(stale@).len() == stale@.len());
    let mut m: Vec<(String, Json)> = Vec::new();
    m.push(("missing_links".to_owned(), text_list(&missing)));
    m.push(("stale_links".to_owned(), text_list(&stale)));
    (missing.len() == 0 && stale.len() == 0, Json::Object(std::sync::Arc::new(m)))
}

/// Whether a fragment that is superseded, or whose document is, could be retrieved.
pub open spec fn is_unsafe(d: StoreData, tenant_id: Seq<char>) -> spec_fn(ContextNode) -> bool {
    |node: ContextNode|
        is_fragment_of(node, tenant_id) && ((node.status@ == "superseded"@
            && node.retrieval_enabled) || (node.status@ == "active"@ && document_is_old(
            d,
            tenant_id,
            opt_text(node.owner_user_id),
            node.source_document_uri->Some_0@,
        )))
}

/// The fragments that could be retrieved though they or their documents are superseded.
pub open spec fn unsafe_fragments(d: StoreData, tenant_id: Seq<char>) -> Seq<Seq<char>> {
    node_uris(all_nodes(d).filter(is_unsafe(d, tenant_id)))
}

/// Whether no fragment can be retrieved that is superseded, or whose document is.
pub fn superseded_fragments_guard(data: &StoreData, tenant_id: &str) -> (r: (bool, Json))
    ensures
        r.0 == (unsafe_fragments(*data, tenant_id@).len() == 0),
        is_evidence(
            r.1,
            seq![("unsafe_fragments"@, unsafe_fragments(*data, tenant_id@))],
        ),
{
    let nodes: Vec<ContextNode> = all_context_nodes(data);
    let ghost p = is_unsafe(*data, tenant_id@);
    let bad = |node: &ContextNode| -> (b: bool)
        ensures
            b == p(*node),
        {
            check_fragment_of(node, tenant_id) && ((text_eq(node.status.as_str(), "superseded")
                && node.retrieval_enabled) || (text_eq(node.status.as_str(), "active")
                && match &node.source_document_uri {
                Some(uri) => check_document_is_old(
                    data,
                    tenant_id,
                    &node.owner_user_id,
                    uri.as_str(),
                ),
                None => false,
            }))
        };
    let found: Vec<String> = list_node_uris(&select(&nodes, bad, Ghost(p)));
    assert(texts(found@).len() == found@.len());
    (found.len() == 0, one_list("unsafe_fragments", &found))
}

/// Whether an event tells of a change of a fact.
pub open spec fn tells_of(tenant_id: Seq<char>, item: StateItem) -> spec_fn(HistoryEvent) -> bool {
    |event: HistoryEvent|
        event.tenant_id@ == tenant_id && event.owner_user_id@ == item.owner_user_id@
            && event.entity_type@ == "state_item"@ && event.entity_id@ == item.id@ && (
        event.event_type@ == "state.changed"@ || event.event_type@ == "state.patched"@)
}

/// Whether no event tells of a fact.
pub open spec fn lacks_history(events: Seq<HistoryEvent>, tenant_id: Seq<char>) -> spec_fn(
    StateItem,
) -> bool {
    |item: StateItem|
        item.tenant_id@ == tenant_id && item.status@ == "active"@ && !any_where(
            events,
            tells_of(tenant_id, item),
        )
}

/// The ids of facts.
pub open spec fn item_ids(items: Seq<StateItem>) -> Seq<Seq<char>> {
    Seq::new(items.len(), |i: int| items[i].id@)
}

/// The facts of which no event tells.
pub open spec fn untold_facts(d: StoreData, tenant_id: Seq<char>) -> Seq<Seq<char>> {
    item_ids(d.state_items.values().filter(lacks_history(d.event_by_id.values(), tenant_id)))
}

fn is_told(data: &StoreData, tenant_id: &str, item: &StateItem) -> (r: bool)
    ensures
        r == any_where(data.event_by_id.values(), tells_of(tenant_id@, *item)),
{
    let ghost p = tells_of(tenant_id@, *item);
    let tells = |event: &HistoryEvent| -> (b: bool)
        ensures
            b == p(*event),
        {
            text_eq(event.tenant_id.as_str(), tenant_id) && text_eq(
                event.owner_user_id.as_str(),
                item.owner_user_id.as_str(),
            ) && text_eq(event.entity_type.as_str(), "state_item") && text_eq(
                event.entity_id.as_str(),
                item.id.as_str(),
            ) && (text_eq(event.event_type.as_str(), "state.changed") || text_eq(
                event.event_type.as_str(),
                "state.patched",
            ))
        };
    any_value(&data.event_by_id, tells, Ghost(p))
}

/// Whether an event tells of every active fact.
pub fn state_history_guard(data: &StoreData, tenant_id: &str) -> (r: (bool, Json))
    ensures
        r.0 == (untold_facts(*data, tenant_id@).len() == 0),
        is_evidence(r.1, seq![("missing_state_items"@, untold_facts(*data, tenant_id@))]),
{
    let ghost p = lacks_history(data.event_by_id.values(), tenant_id@);
    let untold = |item: &StateItem| -> (b: bool)
        ensures
            b == p(*item),
        {
            text_eq(item.tenant_id.as_str(), tenant_id) && text_eq(item.status.as_str(), "active")
                && !is_told(data, tenant_id, item)
        };
    let found: Vec<StateItem> = select_values(&data.state_items, untold, Ghost(p));
    let mut ids: Vec<String> = Vec::new();
    let mut i: usize = 0;
    while i < found.len()
        invariant
            i <= found.len(),
            ids@.len() == i,
            forall|j: int| 0 <= j < i ==> (#[trigger] ids@[j])@ == found@[j].id@,
        decreases found.len() - i,
    {
        ids.push(found[i].id.clone());
        i += 1;
    }
    assert(texts(ids@) =~= item_ids(found@));
    (ids.len() == 0, one_list("missing_state_items", &ids))
}

/// Whether `j` says whether a model was ready in vain.
pub open spec fn is_health(j: Json, false_ready: bool) -> bool {
    match j {
        Json::Object(m) => m@.len() == 1 && m@[0].0@ == "llm_health_false_ready"@ && m@[0].1
            == Json::Bool(false_ready),
        _ => false,
    }
}

/// Whether `g` says whether the cases kept a guard.
pub open spec fn is_case_guard(
    g: RegressionGuardResult,
    name: Seq<char>,
    results: Seq<RagEvalCaseResult>,
) -> bool {
    &&& g.name@ == name
    &&& g.passed == (results.filter(broke(name)).len() == 0)
    &&& is_evidence(
        g.evidence,
        seq![("failing_cases"@, case_ids(results.filter(broke(name))))],
    )
}

/// Whether the guards say what they have to say of a run.
pub open spec fn are_guards(
    g: Seq<RegressionGuardResult>,
    d: StoreData,
    tenant_id: Seq<char>,
    results: Seq<RagEvalCaseResult>,
    false_ready: bool,
) -> bool {
    &&& g.len() == 8
    &&& is_case_guard(g[0], "source_doc_not_default_retrieved"@, results)
    &&& is_case_guard(g[1], "fragment_traceback_required"@, results)
    &&& is_case_guard(g[2], "owner_acl_never_leaks"@, results)
    &&& g[3].name@ == "superseded_fragments_not_active"@
    &&& g[3].passed == (results.filter(broke("superseded_fragments_not_active"@)).len() == 0
        && unsafe_fragments(d, tenant_id).len() == 0)
    &&& is_evidence(
        g[3].evidence,
        seq![("unsafe_fragments"@, unsafe_fragments(d, tenant_id))],
    )
    &&& g[4].name@ == "part_of_links_superseded_on_revision_update"@
    &&& g[4].passed == (missing_links(d, tenant_id).len() == 0 && stale_links(d, tenant_id).len()
        == 0)
    &&& is_evidence(
        g[4].evidence,
        seq![
            ("missing_links"@, missing_links(d, tenant_id)),
            ("stale_links"@, stale_links(d, tenant_id)),
        ],
    )
    &&& g[5].name@ == "llm_health_controls_ready"@
    &&& g[5].passed == !false_ready
    &&& is_health(g[5].evidence, false_ready)
    &&& g[6].name@ == "state_change_writes_history_event"@
    &&& g[6].passed == (untold_facts(d, tenant_id).len() == 0)
    &&& is_evidence(g[6].evidence, seq![("missing_state_items"@, untold_facts(d, tenant_id))])
    &&& g[7].name@ == "current_state_has_history_evidence"@
    &&& g[7].passed == g[6].passed
    &&& is_evidence(g[7].evidence, seq![("missing_state_items"@, untold_facts(d, tenant_id))])
}

fn case_guard(results: &Vec<RagEvalCaseResult>, name: &str) -> (r: RegressionGuardResult)
    ensures
        is_case_guard(r, name@, results@),
{
    let ids: Vec<String> = guard_case_ids(results, name);
    assert(texts(ids@).len() == ids@.len());
    RegressionGuardResult {
        name: name.to_owned(),
        passed: ids.len() == 0,
        evidence: one_list("failing_cases", &ids),
    }
}

/// What the guards say of a run.
pub fn regression_guard_results(
    data: &StoreData,
    tenant_id: &str,
    results: &Vec<RagEvalCaseResult>,
    llm_health_false_ready: bool,
) -> (r: Vec<RegressionGuardResult>)
    ensures
        are_guards(r@, *data, tenant_id@, results@, llm_health_false_ready),
{
    let part_of: (bool, Json) = part_of_links_guard(data, tenant_id);
    let superseded: (bool, Json) = superseded_fragments_guard(data, tenant_id);
    let history: (bool, Json) = state_history_guard(data, tenant_id);
    let stale_cases: Vec<String> = guard_case_ids(results, "superseded_fragments_not_active");
    assert(texts(stale_cases@).len() == stale_cases@.len());
    let mut health: Vec<(String, Json)> = Vec::new();
    health.push(("llm_health_false_ready".to_owned(), Json::Bool(llm_health_false_ready)));
    let mut out: Vec<RegressionGuardResult> = Vec::new();
    out.push(case_guard(results, "source_doc_not_default_retrieved"));
    out.push(case_guard(results, "fragment_traceback_required"));
    out.push(case_guard(results, "owner_acl_never_leaks"));
    out.push(
        RegressionGuardResult {
            name: "superseded_fragments_not_active".to_owned(),
            passed: stale_cases.len() == 0 && superseded.0,
            evidence: superseded.1,
        },
    );
    out.push(
        RegressionGuardResult {
            name: "part_of_links_superseded_on_revision_update".to_owned(),
            passed: part_of.0,
            evidence: part_of.1,
        },
    );
    out.push(
        RegressionGuardResult {
            name: "llm_health_controls_ready".to_owned(),
            passed: !llm_health_false_ready,
            evidence: Json::Object(std::sync::Arc::new(health)),
        },
    );
    out.push(
        RegressionGuardResult {
            name: "state_change_writes_history_event".to_owned(),
            passed: history.0,
            evidence: history.1.clone(),
        },
    );
    out.push(
        RegressionGuardResult {
            name: "current_state_has_history_evidence".to_owned(),
            passed: history.0,
            evidence: history.1,
        },
    );
    out
}

} // verus!
