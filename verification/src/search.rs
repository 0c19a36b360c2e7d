//! Searching the context: which nodes come into question, how they are ranked, and what is
//! answered.

use vstd::prelude::*;
use vstd::string::*;

use crate::data::StoreData;
use crate::documents::{document_for_owner, is_active, source_document_for_owner};
use crate::error::{fails_with, ApiError, ErrorView};
use crate::facts::is_required;
use crate::float::{float_before, float_lt};
use crate::history::missing;
use crate::history_search::limited;
use crate::hits::{
    are_groups, are_shaped, citation_from_hit, cites, context_hit_from_node,
    context_source_groups, enrich_hit, is_enriched, is_hit, shape_context_hits, ContextHit,
    ContextSourceGroup,
};
use crate::json::{is_text, Json};
use crate::model::harness::Citation;
use crate::model::knowledge::{ContextNode, TraceRecord};
use crate::nodes::{document_vector_key, is_candidate, retrieval_candidate, vector_doc_key};
use crate::operations::at_most;
use crate::order::{
    any_where, find_where, put_first, put_where, sort_by, sorted_by, sorted_by_keeps_elements,
};
use crate::query::{
    are_filters, filters_fault, first_unknown, is_asked_set, named_profile, parse_context_filters,
    passes, resolve_context_owner, searched_owner, ContextIncludeSet, ContextReturnProfile,
    ContextStructuredFilters,
};
use crate::reading::{
    a_scope_holds_nothing_of_others, acl_scope, context_scope, in_requested_scope, require_string,
    scope_of, validate_repository_context_node,
};
use crate::record::{select, List};
use crate::resolver::EventIndexResolver;
use crate::stages::{are_shown_stages, sanitize_context_stages};
use crate::text::{
    as_deref, decimal, decimal_text, join, joined, opt_str, opt_text, text_eq, texts,
    texts_contain, texts_push,
};

verus! {

/// A search of the context.
pub struct ContextSearchRequest {
    pub query: Option<String>,
    pub mode: String,
    pub owner_user_id: Option<String>,
    pub filters: Json,
    pub limit: usize,
    /// What is to be shown with the hits.
    pub extras: Vec<String>,
    pub return_profile: String,
    pub debug: bool,
}

/// A search once it was read.
pub struct SearchPlan {
    pub query: String,
    pub owner_user_id: Option<String>,
    pub limit: usize,
    pub filters: ContextStructuredFilters,
    pub wanted: ContextIncludeSet,
    pub profile: ContextReturnProfile,
}

/// Why a search is refused.
pub open spec fn search_refusal(req: ContextSearchRequest) -> Option<ErrorView> {
    let owner = searched_owner(opt_text(req.owner_user_id), req.filters);
    if missing(opt_text(req.query)) {
        Some(is_required("query"@))
    } else if owner is Err {
        Some(owner->Err_0)
    } else if filters_fault(req.filters) is Some {
        filters_fault(req.filters)
    } else if first_unknown(texts(req.extras@)) is Some {
        Some(
            ErrorView::BadRequest(
                "unsupported include value: "@ + first_unknown(texts(req.extras@))->Some_0,
            ),
        )
    } else if named_profile(req.return_profile@) is Err {
        Some(named_profile(req.return_profile@)->Err_0)
    } else {
        None
    }
}

/// Whether a plan is what a request asks for.
pub open spec fn is_plan(plan: SearchPlan, req: ContextSearchRequest) -> bool {
    &&& Some(plan.query@) == opt_text(req.query)
    &&& searched_owner(opt_text(req.owner_user_id), req.filters) is Ok
    &&& opt_text(plan.owner_user_id) == searched_owner(
        opt_text(req.owner_user_id),
        req.filters,
    )->Ok_0
    &&& plan.limit == (if req.limit == 0 {
        1
    } else {
        req.limit
    })
    &&& are_filters(plan.filters, req.filters)
    &&& is_asked_set(plan.wanted, texts(req.extras@))
    &&& named_profile(req.return_profile@) == Ok::<ContextReturnProfile, ErrorView>(plan.profile)
}

/// Reads a search.
pub fn plan_search(req: &ContextSearchRequest) -> (r: Result<SearchPlan, ApiError>)
    ensures
        match search_refusal(*req) {
            Some(e) => fails_with(r, e),
            None => r is Ok && is_plan(r->Ok_0, *req),
        },
{
    let query: String = match require_string(as_deref(&req.query), "query") {
        Ok(query) => query,
        Err(error) => {
            return Err(error);
        },
    };
    let owner_user_id: Option<String> = match resolve_context_owner(
        as_deref(&req.owner_user_id),
        &req.filters,
    ) {
        Ok(owner) => owner,
        Err(error) => {
            return Err(error);
        },
    };
    let filters: ContextStructuredFilters = match parse_context_filters(&req.filters) {
        Ok(filters) => filters,
        Err(error) => {
            return Err(error);
        },
    };
    let wanted: ContextIncludeSet = match ContextIncludeSet::from_request(&req.extras) {
        Ok(wanted) => wanted,
        Err(error) => {
            return Err(error);
        },
    };
    let profile: ContextReturnProfile = match ContextReturnProfile::from_request(
        req.return_profile.as_str(),
    ) {
        Ok(profile) => profile,
        Err(error) => {
            return Err(error);
        },
    };
    Ok(
        SearchPlan {
            query,
            owner_user_id,
            limit: if req.limit == 0 {
                1
            } else {
                req.limit
            },
            filters,
            wanted,
            profile,
        },
    )
}

/// Whether a node comes into question.
pub open spec fn eligible(filters: ContextStructuredFilters) -> spec_fn(ContextNode) -> bool {
    |node: ContextNode| is_candidate(node) && passes(filters, node)
}

/// The nodes that come into question.
pub open spec fn candidates(
    d: StoreData,
    resolver: EventIndexResolver,
    tenant_id: Seq<char>,
    plan: SearchPlan,
) -> Seq<ContextNode> {
    scope_of(d, resolver, tenant_id, opt_text(plan.owner_user_id)).filter(eligible(plan.filters))
}

/// The nodes that come into question.
pub fn search_candidates(
    data: &StoreData,
    resolver: &EventIndexResolver,
    tenant_id: &str,
    plan: &SearchPlan,
) -> (r: Vec<ContextNode>)
    ensures
        r@ == candidates(*data, *resolver, tenant_id@, *plan),
{
    let nodes: Vec<ContextNode> = context_scope(
        data,
        resolver,
        tenant_id,
        as_deref(&plan.owner_user_id),
    );
    let ghost p = eligible(plan.filters);
    let accept = |node: &ContextNode| -> (b: bool)
        ensures
            b == p(*node),
        { retrieval_candidate(node) && plan.filters.matches_node(node) };
    select(&nodes, accept, Ghost(p))
}

/// Whether a node is at the place of another.
pub open spec fn at_place(uri: Seq<char>, layer: u8) -> spec_fn(ContextNode) -> bool {
    |node: ContextNode| node.uri@ == uri && node.layer == layer
}

/// The nodes with the last one at each place alone.
pub open spec fn latest_nodes(nodes: Seq<ContextNode>) -> Seq<ContextNode>
    decreases nodes.len(),
{
    if nodes.len() == 0 {
        Seq::empty()
    } else {
        put_first(
            latest_nodes(nodes.drop_last()),
            nodes.last(),
            at_place(nodes.last().uri@, nodes.last().layer),
        )
    }
}

fn keep_latest(nodes: &Vec<ContextNode>) -> (r: Vec<ContextNode>)
    ensures
        r@ == latest_nodes(nodes@),
{
    let mut out: Vec<ContextNode> = Vec::new();
    let mut i: usize = 0;
    assert(latest_nodes(nodes@.take(0)) =~= out@);
    while i < nodes.len()
        invariant
            i <= nodes.len(),
            out@ == latest_nodes(nodes@.take(i as int)),
        decreases nodes.len() - i,
    {
        assert(nodes@.take(i + 1).drop_last() =~= nodes@.take(i as int));
        let node: &ContextNode = &nodes[i];
        let ghost p = at_place(node.uri@, node.layer);
        let same = |x: &ContextNode| -> (b: bool)
            ensures
                b == p(*x),
            { text_eq(x.uri.as_str(), node.uri.as_str()) && x.layer == node.layer };
        put_where(&mut out, node.clone(), same, Ghost(p));
        i += 1;
    }
    assert(nodes@.take(i as int) =~= nodes@);
    out
}

/// Whether a node that was found elsewhere is not here as well.
pub open spec fn not_among(local: Seq<ContextNode>) -> spec_fn(ContextNode) -> bool {
    |node: ContextNode| !any_where(local, at_place(node.uri@, node.layer))
}

/// Whether a node that was found elsewhere is in the scope that was asked for.
pub open spec fn scoped_to(
    resolver: EventIndexResolver,
    tenant_id: Seq<char>,
    owner: Option<Seq<char>>,
) -> spec_fn(ContextNode) -> bool {
    |node: ContextNode| in_requested_scope(resolver, node, tenant_id, owner)
}

/// The nodes that come into question once others were found elsewhere: what is here as well is
/// taken from here where a caller has to read what it wrote.
pub open spec fn merged_candidates(
    d: StoreData,
    resolver: EventIndexResolver,
    tenant_id: Seq<char>,
    plan: SearchPlan,
    found: Seq<ContextNode>,
    own_writes: bool,
) -> Seq<ContextNode> {
    let owner = opt_text(plan.owner_user_id);
    let scoped = found.filter(scoped_to(resolver, tenant_id, owner));
    if own_writes {
        let local = latest_nodes(scope_of(d, resolver, tenant_id, owner));
        scoped.filter(not_among(local)) + local.filter(eligible(plan.filters))
    } else {
        scoped
    }
}

/// The nodes that come into question once others were found elsewhere.
pub fn merge_candidates(
    data: &StoreData,
    resolver: &EventIndexResolver,
    tenant_id: &str,
    plan: &SearchPlan,
    found: &Vec<ContextNode>,
    own_writes: bool,
) -> (r: Vec<ContextNode>)
    ensures
        r@ == merged_candidates(*data, *resolver, tenant_id@, *plan, found@, own_writes),
{
    let owner: Option<&str> = as_deref(&plan.owner_user_id);
    let ghost s = scoped_to(*resolver, tenant_id@, opt_text(plan.owner_user_id));
    let in_scope = |node: &ContextNode| -> (b: bool)
        ensures
            b == s(*node),
        { validate_repository_context_node(resolver, node, tenant_id, owner).is_ok() };
    let scoped: Vec<ContextNode> = select(found, in_scope, Ghost(s));
    if !own_writes {
        return scoped;
    }
    let local: Vec<ContextNode> = keep_latest(&context_scope(data, resolver, tenant_id, owner));
    let ghost n = not_among(local@);
    let absent = |node: &ContextNode| -> (b: bool)
        ensures
            b == n(*node),
        { is_absent(&local, node) };
    let mut out: Vec<ContextNode> = select(&scoped, absent, Ghost(n));
    let ghost p = eligible(plan.filters);
    let accept = |node: &ContextNode| -> (b: bool)
        ensures
            b == p(*node),
        { retrieval_candidate(node) && plan.filters.matches_node(node) };
    let mut own: Vec<ContextNode> = select(&local, accept, Ghost(p));
    out.append(&mut own);
    out
}

fn is_absent(local: &Vec<ContextNode>, node: &ContextNode) -> (r: bool)
    ensures
        r == !any_where(local@, at_place(node.uri@, node.layer)),
{
    let ghost p = at_place(node.uri@, node.layer);
    let same = |x: &ContextNode| -> (b: bool)
        ensures
            b == p(*x),
        { text_eq(x.uri.as_str(), node.uri.as_str()) && x.layer == node.layer };
    find_where(local, same, Ghost(p)) >= local.len()
}

/// The keys of the documents of nodes.
pub open spec fn document_keys(nodes: Seq<ContextNode>) -> Seq<Seq<char>>
    decreases nodes.len(),
{
    if nodes.len() == 0 {
        Seq::empty()
    } else {
        let front = document_keys(nodes.drop_last());
        match opt_text(nodes.last().source_document_uri) {
            Some(uri) => front.push(document_vector_key(nodes.last().index_uid@, uri)),
            None => front,
        }
    }
}

/// The documents of nodes that may be matched as a whole, each once: keys, and titles with
/// contents.
pub open spec fn document_texts(d: StoreData, nodes: Seq<ContextNode>) -> Seq<(Seq<char>, Seq<char>)>
    decreases nodes.len(),
{
    if nodes.len() == 0 {
        Seq::empty()
    } else {
        let front = document_texts(d, nodes.drop_last());
        let node = nodes.last();
        match opt_text(node.source_document_uri) {
            Some(uri) => {
                let key = document_vector_key(node.index_uid@, uri);
                let document = document_for_owner(
                    d.source_documents@,
                    node.tenant_id@,
                    opt_text(node.owner_user_id),
                    uri,
                );
                if !document_keys(nodes.drop_last()).contains(key) && document is Some && is_active(
                    document->Some_0,
                ) {
                    front.push(
                        (key, document->Some_0.title@ + " "@ + document->Some_0.content@),
                    )
                } else {
                    front
                }
            },
            None => front,
        }
    }
}

/// Pairs of texts by content.
pub open spec fn pair_views(s: Seq<(String, String)>) -> Seq<(Seq<char>, Seq<char>)> {
    Seq::new(s.len(), |i: int| (s[i].0@, s[i].1@))
}

/// The documents of nodes that may be matched as a whole.
pub fn doc_candidates(data: &StoreData, nodes: &Vec<ContextNode>) -> (r: Vec<(String, String)>)
    ensures
        pair_views(r@) == document_texts(*data, nodes@),
{
    let mut seen: Vec<String> = Vec::new();
    let mut out: Vec<(String, String)> = Vec::new();
    let mut i: usize = 0;
    assert(pair_views(out@) =~= document_texts(*data, nodes@.take(0)));
    assert(texts(seen@) =~= document_keys(nodes@.take(0)));
    while i < nodes.len()
        invariant
            i <= nodes.len(),
            pair_views(out@) == document_texts(*data, nodes@.take(i as int)),
            texts(seen@) == document_keys(nodes@.take(i as int)),
        decreases nodes.len() - i,
    {
        assert(nodes@.take(i + 1).drop_last() =~= nodes@.take(i as int));
        let node: &ContextNode = &nodes[i];
        match &node.source_document_uri {
            Some(uri) => {
                let key: String = vector_doc_key(node.index_uid.as_str(), uri.as_str());
                let known: bool = texts_contain(&seen, key.as_str());
                proof {
                    texts_push(seen@, key);
                }
                seen.push(key.clone());
                if !known {
                    match source_document_for_owner(
                        data,
                        node.tenant_id.as_str(),
                        as_deref(&node.owner_user_id),
                        uri.as_str(),
                    ) {
                        Some(document) => {
                            if text_eq(document.status.as_str(), "active") {
                                let mut text: String = document.title.clone();
                                text.append(" ");
                                text.append(document.content.as_str());
                                let ghost before = out@;
                                out.push((key, text));
                                assert(pair_views(out@) =~= pair_views(before).push(
                                    (out@.last().0@, out@.last().1@),
                                ));
                            }
                        },
                        None => {},
                    }
                }
            },
            None => {},
        }
        i += 1;
    }
    assert(nodes@.take(i as int) =~= nodes@);
    out
}

/// How well a node matches.
pub struct Score {
    /// The bits of a 32-bit float.
    pub bits: u32,
    /// The score as it is written.
    pub written: Json,
    /// How the score came about.
    pub breakdown: Json,
}

impl Clone for Score {
    fn clone(&self) -> (r: Self)
        ensures
            r == *self,
    {
        Score {
            bits: self.bits,
            written: self.written.clone(),
            breakdown: self.breakdown.clone(),
        }
    }
}

/// Whether a score is above zero.
pub open spec fn scores(score: Option<Score>) -> bool {
    score is Some && float_lt(0, score->Some_0.bits)
}

/// The nodes that match, with their scores.
pub open spec fn matched(nodes: Seq<ContextNode>, scores_of: Seq<Option<Score>>) -> Seq<
    (ContextNode, Score),
>
    decreases nodes.len(),
{
    if nodes.len() == 0 {
        Seq::empty()
    } else {
        let at = nodes.len() - 1;
        let front = matched(nodes.drop_last(), scores_of);
        if scores(scores_of[at]) {
            front.push((nodes.last(), scores_of[at]->Some_0))
        } else {
            front
        }
    }
}

/// The order of nodes with the best first.
pub open spec fn best_first() -> spec_fn((ContextNode, Score), (ContextNode, Score)) -> bool {
    |a: (ContextNode, Score), b: (ContextNode, Score)| float_lt(b.1.bits, a.1.bits)
}

/// The nodes that match best, the best first.
pub open spec fn ranked(
    nodes: Seq<ContextNode>,
    scores_of: Seq<Option<Score>>,
    limit: nat,
) -> Seq<(ContextNode, Score)> {
    at_most(sorted_by(matched(nodes, scores_of), best_first()), limit)
}

/// The nodes that match best, the best first.
pub fn rank_nodes(
    nodes: &Vec<ContextNode>,
    scores_of: &Vec<Option<Score>>,
    limit: usize,
) -> (r: Vec<(ContextNode, Score)>)
    requires
        scores_of@.len() == nodes@.len(),
    ensures
        r@ == ranked(nodes@, scores_of@, limit as nat),
{
    let mut found: Vec<(ContextNode, Score)> = Vec::new();
    let mut i: usize = 0;
    assert(matched(nodes@.take(0), scores_of@) =~= found@);
    while i < nodes.len()
        invariant
            i <= nodes@.len() == scores_of@.len(),
            found@ == matched(nodes@.take(i as int), scores_of@),
        decreases nodes.len() - i,
    {
        assert(nodes@.take(i + 1).drop_last() =~= nodes@.take(i as int));
        match &scores_of[i] {
            Some(score) => {
                if float_before(0, score.bits) {
                    found.push((nodes[i].clone(), score.clone()));
                }
            },
            None => {},
        }
        i += 1;
    }
    assert(nodes@.take(i as int) =~= nodes@);
    let ghost lt = best_first();
    let better = |a: &(ContextNode, Score), b: &(ContextNode, Score)| -> (c: bool)
        ensures
            c == lt(*a, *b),
        { float_before(b.1.bits, a.1.bits) };
    let mut r: Vec<(ContextNode, Score)> = sort_by(found, better, Ghost(lt));
    if r.len() > limit {
        let ghost all = r@;
        r.truncate(limit);
        assert(r@ =~= all.take(limit as int));
    }
    r
}

proof fn lemma_matched_from(nodes: Seq<ContextNode>, scores_of: Seq<Option<Score>>, i: int)
    requires
        0 <= i < matched(nodes, scores_of).len(),
    ensures
        nodes.contains(matched(nodes, scores_of)[i].0),
        float_lt(0, matched(nodes, scores_of)[i].1.bits),
    decreases nodes.len(),
{
    let front = matched(nodes.drop_last(), scores_of);
    if i < front.len() {
        lemma_matched_from(nodes.drop_last(), scores_of, i);
        let j = choose|j: int|
            0 <= j < nodes.drop_last().len() && nodes.drop_last()[j] == front[i].0;
        assert(nodes[j] == front[i].0);
    } else {
        assert(nodes[nodes.len() - 1] == nodes.last());
    }
}

/// What is ranked came into question and matches.
pub proof fn ranked_nodes_match(
    nodes: Seq<ContextNode>,
    scores_of: Seq<Option<Score>>,
    limit: nat,
    i: int,
)
    requires
        0 <= i < ranked(nodes, scores_of, limit).len(),
    ensures
        nodes.contains(ranked(nodes, scores_of, limit)[i].0),
        float_lt(0, ranked(nodes, scores_of, limit)[i].1.bits),
{
    broadcast use vstd::seq_lib::group_to_multiset_ensures;

    let found = matched(nodes, scores_of);
    let sorted = sorted_by(found, best_first());
    sorted_by_keeps_elements(found, best_first());
    let x = ranked(nodes, scores_of, limit)[i];
    assert(sorted[i] == x);
    assert(sorted.contains(x));
    assert(sorted.to_multiset().count(x) > 0);
    assert(found.contains(x));
    let j = choose|j: int| 0 <= j < found.len() && found[j] == x;
    lemma_matched_from(nodes, scores_of, j);
}

/// A search of a caller finds what is of the company or its own, and no document as a whole.
pub proof fn a_search_finds_nothing_of_others(
    d: StoreData,
    resolver: EventIndexResolver,
    tenant_id: Seq<char>,
    plan: SearchPlan,
    scores_of: Seq<Option<Score>>,
    limit: nat,
    i: int,
)
    requires
        0 <= i < ranked(candidates(d, resolver, tenant_id, plan), scores_of, limit).len(),
    ensures
        ({
            let node = ranked(candidates(d, resolver, tenant_id, plan), scores_of, limit)[i].0;
            &&& node.tenant_id@ == tenant_id
            &&& node.owner_user_id is None || opt_text(node.owner_user_id) == opt_text(
                plan.owner_user_id,
            )
            &&& is_candidate(node)
            &&& passes(plan.filters, node)
        }),
{
    broadcast use vstd::seq_lib::group_filter_ensures;

    let owner = opt_text(plan.owner_user_id);
    let scope = scope_of(d, resolver, tenant_id, owner);
    let p = eligible(plan.filters);
    let nodes = candidates(d, resolver, tenant_id, plan);
    ranked_nodes_match(nodes, scores_of, limit, i);
    let node = ranked(nodes, scores_of, limit)[i].0;
    let j = choose|j: int| 0 <= j < nodes.len() && nodes[j] == node;
    assert(p(nodes[j]));
    scope.lemma_filter_contains_rev(p, node);
    let k = choose|k: int| 0 <= k < scope.len() && scope[k] == node;
    assert(acl_scope(d, resolver, tenant_id, owner, false) == scope);
    a_scope_holds_nothing_of_others(d, resolver, tenant_id, owner, k);
}

/// Whether `j` tells of a hit in a stage.
pub open spec fn is_stage_hit(j: Json, hit: (ContextNode, Score)) -> bool {
    match j {
        Json::Object(m) => {
            &&& m@.len() == 4
            &&& m@[0].0@ == "index_alias"@
            &&& is_text(m@[0].1, hit.0.index_kind@)
            &&& m@[1].0@ == "layer"@
            &&& m@[1].1 is Number
            &&& m@[1].1->Number_0@ == decimal(hit.0.layer as nat)
            &&& m@[2].0@ == "score"@
            &&& m@[2].1 == hit.1.written
            &&& m@[3].0@ == "uri"@
            &&& is_text(m@[3].1, hit.0.uri@)
        },
        _ => false,
    }
}

/// Whether `j` tells of the hits in a stage, one by one.
pub open spec fn are_stage_hits(j: Json, hits: Seq<(ContextNode, Score)>) -> bool {
    match j {
        Json::Array(items) => items@.len() == hits.len() && forall|i: int|
            0 <= i < hits.len() ==> is_stage_hit(#[trigger] items@[i], hits[i]),
        _ => false,
    }
}

/// Whether `j` is a stage of a search.
pub open spec fn is_stage(
    j: Json,
    name: Seq<char>,
    hits: Seq<(ContextNode, Score)>,
    owner_scoped: bool,
) -> bool {
    match j {
        Json::Object(m) => {
            &&& m@.len() == 3
            &&& m@[0].0@ == "hits"@
            &&& are_stage_hits(m@[0].1, hits)
            &&& m@[1].0@ == "owner_scoped"@
            &&& m@[1].1 == Json::Bool(owner_scoped)
            &&& m@[2].0@ == "stage"@
            &&& is_text(m@[2].1, name)
        },
        _ => false,
    }
}

fn stage_hit(hit: &(ContextNode, Score)) -> (r: Json)
    ensures
        is_stage_hit(r, *hit),
{
    let mut m: Vec<(String, Json)> = Vec::new();
    m.push(("index_alias".to_owned(), Json::Text(hit.0.index_kind.clone())));
    m.push(("layer".to_owned(), Json::Number(decimal_text(hit.0.layer as u64))));
    m.push(("score".to_owned(), hit.1.written.clone()));
    m.push(("uri".to_owned(), Json::Text(hit.0.uri.clone())));
    Json::Object(std::sync::Arc::new(m))
}

/// A stage of a search.
pub fn stage_value(stage: &str, hits: &Vec<(ContextNode, Score)>, owner_scoped: bool) -> (r: Json)
    ensures
        is_stage(r, stage@, hits@, owner_scoped),
{
    let mut items: Vec<Json> = Vec::new();
    let mut i: usize = 0;
    while i < hits.len()
        invariant
            i <= hits.len(),
            items@.len() == i,
            forall|j: int| 0 <= j < i ==> is_stage_hit(#[trigger] items@[j], hits@[j]),
        decreases hits.len() - i,
    {
        items.push(stage_hit(&hits[i]));
        i += 1;
    }
    let mut m: Vec<(String, Json)> = Vec::new();
    m.push(("hits".to_owned(), Json::Array(std::sync::Arc::new(items))));
    m.push(("owner_scoped".to_owned(), Json::Bool(owner_scoped)));
    m.push(("stage".to_owned(), Json::Text(stage.to_owned())));
    Json::Object(std::sync::Arc::new(m))
}

/// What a search is answered.
pub struct ContextSearchResponse {
    pub trace_id: String,
    pub hits: Vec<ContextHit>,
    pub groups: Vec<ContextSourceGroup>,
    pub stages: List<Json>,
}

/// What a search leads to.
pub struct ContextSearchOutcome {
    pub response: ContextSearchResponse,
    pub trace: TraceRecord,
    pub nodes: Vec<ContextNode>,
}

/// The nodes of what was ranked.
pub open spec fn ranked_nodes(s: Seq<(ContextNode, Score)>) -> Seq<ContextNode> {
    Seq::new(s.len(), |i: int| s[i].0)
}

/// Whether `h` is the hit of a node, with what is shown with it.
pub open spec fn is_full_hit(
    h: ContextHit,
    found: (ContextNode, Score),
    d: StoreData,
    tenant_id: Seq<char>,
    plan: SearchPlan,
    nodes: Seq<ContextNode>,
    secrets: Seq<Seq<char>>,
) -> bool {
    exists|plain: ContextHit|
        {
            &&& is_hit(plain, found.0, found.1.bits, Some(found.1.breakdown), secrets)
            &&& #[trigger] is_enriched(
                h,
                plain,
                d,
                tenant_id,
                opt_text(plan.owner_user_id),
                nodes,
                plan.wanted,
                plan.profile,
                found.1.written,
            )
        }
}

/// Whether hits are those of what was ranked, one by one.
pub open spec fn are_full_hits(
    hits: Seq<ContextHit>,
    found: Seq<(ContextNode, Score)>,
    d: StoreData,
    tenant_id: Seq<char>,
    plan: SearchPlan,
    secrets: Seq<Seq<char>>,
) -> bool {
    hits.len() == found.len() && forall|i: int|
        0 <= i < found.len() ==> is_full_hit(
            #[trigger] hits[i],
            found[i],
            d,
            tenant_id,
            plan,
            ranked_nodes(found),
            secrets,
        )
}

/// The URIs of hits.
pub open spec fn hit_uris(hits: Seq<ContextHit>) -> Seq<Seq<char>> {
    Seq::new(hits.len(), |i: int| hits[i].uri@)
}

/// Whether a trace tells of a search.
pub open spec fn is_trace(
    t: TraceRecord,
    id: Seq<char>,
    tenant_id: Seq<char>,
    plan: SearchPlan,
    mode: Seq<char>,
    response: ContextSearchResponse,
    now: i64,
) -> bool {
    &&& t.id@ == id
    &&& t.tenant_id@ == tenant_id
    &&& t.owner_user_id == plan.owner_user_id
    &&& t.query == plan.query
    &&& t.mode@ == mode
    &&& t.stages == response.stages
    &&& texts(t.context_uris@) == hit_uris(response.hits@)
    &&& t.created_at == now
}

/// The stages of a search: those that were told, else that of the fragments.
pub open spec fn told_stages(
    stages: Seq<Json>,
    told: Option<Vec<Json>>,
    found: Seq<(ContextNode, Score)>,
    owner_scoped: bool,
    debug: bool,
    is_admin: bool,
) -> bool {
    match told {
        Some(all) => are_shown_stages(stages, all@, debug, is_admin),
        None => exists|stage: Json|
            is_stage(stage, "fragments"@, found, owner_scoped) && #[trigger] are_shown_stages(
                stages,
                seq![stage],
                debug,
                is_admin,
            ),
    }
}

/// What a search leads to once its candidates have scores: the best are shown, and a trace of the
/// search is kept.
pub open spec fn search_outcome(
    before: StoreData,
    after: StoreData,
    o: ContextSearchOutcome,
    tenant_id: Seq<char>,
    plan: SearchPlan,
    mode: Seq<char>,
    debug: bool,
    is_admin: bool,
    found: Seq<(ContextNode, Score)>,
    told: Option<Vec<Json>>,
    secrets: Seq<Seq<char>>,
    trace_id: Seq<char>,
    now: i64,
) -> bool {
    &&& o.nodes@ == ranked_nodes(found)
    &&& exists|full: Seq<ContextHit>|
        {
            &&& #[trigger] are_full_hits(full, found, before, tenant_id, plan, secrets)
            &&& if plan.profile == ContextReturnProfile::Compact {
                o.response.groups@.len() == 0
            } else {
                are_groups(o.response.groups@, full)
            }
            &&& are_shaped(o.response.hits@, full, plan.profile, plan.wanted)
        }
    &&& told_stages(
        o.response.stages@,
        told,
        found,
        plan.owner_user_id is Some,
        debug,
        is_admin,
    )
    &&& o.response.trace_id@ == trace_id
    &&& is_trace(o.trace, trace_id, tenant_id, plan, mode, o.response, now)
    &&& after == (StoreData { traces: after.traces, ..before })
    &&& after.traces@ == before.traces@.insert(trace_id, o.trace)
}

fn full_hits(
    data: &StoreData,
    tenant_id: &str,
    plan: &SearchPlan,
    found: &Vec<(ContextNode, Score)>,
    nodes: &Vec<ContextNode>,
    secrets: &Vec<String>,
) -> (r: Vec<ContextHit>)
    requires
        nodes@ == ranked_nodes(found@),
    ensures
        are_full_hits(r@, found@, *data, tenant_id@, *plan, texts(secrets@)),
{
    let mut out: Vec<ContextHit> = Vec::new();
    let mut i: usize = 0;
    while i < found.len()
        invariant
            i <= found.len(),
            out@.len() == i,
            nodes@ == ranked_nodes(found@),
            forall|j: int|
                0 <= j < i ==> is_full_hit(
                    #[trigger] out@[j],
                    found@[j],
                    *data,
                    tenant_id@,
                    *plan,
                    nodes@,
                    texts(secrets@),
                ),
        decreases found.len() - i,
    {
        let one: &(ContextNode, Score) = &found[i];
        let plain: ContextHit = context_hit_from_node(
            &one.0,
            one.1.bits,
            Some(one.1.breakdown.clone()),
            secrets,
        );
        let hit: ContextHit = enrich_hit(
            data,
            tenant_id,
            as_deref(&plan.owner_user_id),
            nodes,
            &plain,
            &plan.wanted,
            plan.profile,
            &one.1.written,
        );
        out.push(hit);
        i += 1;
    }
    out
}

fn nodes_of(found: &Vec<(ContextNode, Score)>) -> (r: Vec<ContextNode>)
    ensures
        r@ == ranked_nodes(found@),
{
    let mut out: Vec<ContextNode> = Vec::new();
    let mut i: usize = 0;
    while i < found.len()
        invariant
            i <= found.len(),
            out@.len() == i,
            forall|j: int| 0 <= j < i ==> #[trigger] out@[j] == found@[j].0,
        decreases found.len() - i,
    {
        out.push(found[i].0.clone());
        i += 1;
    }
    assert(out@ =~= ranked_nodes(found@));
    out
}

fn uris_of(hits: &Vec<ContextHit>) -> (r: Vec<String>)
    ensures
        texts(r@) == hit_uris(hits@),
{
    let mut out: Vec<String> = Vec::new();
    let mut i: usize = 0;
    while i < hits.len()
        invariant
            i <= hits.len(),
            out@.len() == i,
            forall|j: int| 0 <= j < i ==> (#[trigger] out@[j])@ == hits@[j].uri@,
        decreases hits.len() - i,
    {
        out.push(hits[i].uri.clone());
        i += 1;
    }
    assert(texts(out@) =~= hit_uris(hits@));
    out
}

fn tell_stages(
    told: &Option<Vec<Json>>,
    found: &Vec<(ContextNode, Score)>,
    owner_scoped: bool,
    debug: bool,
    is_admin: bool,
) -> (r: Vec<Json>)
    ensures
        told_stages(r@, *told, found@, owner_scoped, debug, is_admin),
{
    match told {
        Some(all) => sanitize_context_stages(all, debug, is_admin),
        None => {
            let mut all: Vec<Json> = Vec::new();
            all.push(stage_value("fragments", found, owner_scoped));
            assert(all@ =~= seq![all@[0]]);
            let r: Vec<Json> = sanitize_context_stages(&all, debug, is_admin);
            assert(are_shown_stages(r@, seq![all@[0]], debug, is_admin));
            r
        },
    }
}

/// Answers a search once its candidates have scores. `told` are the stages of a search that was
/// made elsewhere.
pub fn finish_search(
    data: &mut StoreData,
    tenant_id: &str,
    plan: &SearchPlan,
    mode: &str,
    debug: bool,
    is_admin: bool,
    nodes: &Vec<ContextNode>,
    scores_of: &Vec<Option<Score>>,
    told: &Option<Vec<Json>>,
    secrets: &Vec<String>,
    trace_id: &str,
    now: i64,
) -> (r: ContextSearchOutcome)
    requires
        scores_of@.len() == nodes@.len(),
    ensures
        search_outcome(
            *old(data),
            *final(data),
            r,
            tenant_id@,
            *plan,
            mode@,
            debug,
            is_admin,
            ranked(nodes@, scores_of@, plan.limit as nat),
            *told,
            texts(secrets@),
            trace_id@,
            now,
        ),
{
    let found: Vec<(ContextNode, Score)> = rank_nodes(nodes, scores_of, plan.limit);
    let selected: Vec<ContextNode> = nodes_of(&found);
    let full: Vec<ContextHit> = full_hits(data, tenant_id, plan, &found, &selected, secrets);
    let ghost all_hits = full@;
    let stages: List<Json> = std::sync::Arc::new(
        tell_stages(told, &found, plan.owner_user_id.is_some(), debug, is_admin),
    );
    let groups: Vec<ContextSourceGroup> = context_source_groups(plan.profile, &full);
    let hits: Vec<ContextHit> = shape_context_hits(full, plan.profile, &plan.wanted);
    let trace: TraceRecord = TraceRecord {
        id: trace_id.to_owned(),
        tenant_id: tenant_id.to_owned(),
        owner_user_id: plan.owner_user_id.clone(),
        query: plan.query.clone(),
        mode: mode.to_owned(),
        stages: stages.clone(),
        context_uris: std::sync::Arc::new(uris_of(&hits)),
        created_at: now,
    };
    data.traces.insert(trace_id.to_owned(), trace.clone());
    assert(are_full_hits(
        all_hits,
        found@,
        *old(data),
        tenant_id@,
        *plan,
        texts(secrets@),
    ));
    ContextSearchOutcome {
        response: ContextSearchResponse { trace_id: trace_id.to_owned(), hits, groups, stages },
        trace,
        nodes: selected,
    }
}

/// The most citations that an answer has.
pub const ANSWER_CITATIONS: usize = 5;

/// The first hits that are cited.
pub open spec fn cited(hits: Seq<ContextHit>) -> Seq<ContextHit> {
    limited(hits, ANSWER_CITATIONS as nat)
}

/// The snippets of hits.
pub open spec fn snippets(hits: Seq<ContextHit>) -> Seq<Seq<char>> {
    Seq::new(hits.len(), |i: int| hits[i].snippet@)
}

/// What is answered from hits.
pub open spec fn answer_text(hits: Seq<ContextHit>) -> Seq<char> {
    if hits.len() == 0 {
        "I do not have enough indexed context to answer that yet."@
    } else {
        "Based on staged ContextFS retrieval, the strongest matching context is: "@ + joined(
            snippets(hits),
            "\n"@,
        )
    }
}

/// Whether citations cite hits, one by one.
pub open spec fn cites_all(c: Seq<Citation>, hits: Seq<ContextHit>) -> bool {
    c.len() == hits.len() && forall|i: int| 0 <= i < hits.len() ==> cites(#[trigger] c[i], hits[i])
}

/// Whether `j` tells what an answer used.
pub open spec fn is_usage(j: Json, backend: Seq<char>) -> bool {
    match j {
        Json::Object(m) => {
            &&& m@.len() == 3
            &&& m@[0].0@ == "backend"@
            &&& is_text(m@[0].1, backend)
            &&& m@[1].0@ == "provider"@
            &&& is_text(m@[1].1, "none"@)
            &&& m@[2].0@ == "stages"@
            &&& crate::json::is_text_list(m@[2].1, seq!["fragments"@])
        },
        _ => false,
    }
}

/// An answer with what it rests on.
pub struct RagAnswerResponse {
    pub answer_id: String,
    pub trace_id: String,
    pub answer: String,
    pub citations: List<Citation>,
    pub usage: Json,
}

/// Answers from what a search found.
pub fn answer_from_context(
    outcome: &ContextSearchOutcome,
    backend: &str,
    answer_id: &str,
) -> (r: RagAnswerResponse)
    ensures
        r.answer_id@ == answer_id@,
        r.trace_id == outcome.response.trace_id,
        r.answer@ == answer_text(cited(outcome.response.hits@)),
        cites_all(r.citations@, cited(outcome.response.hits@)),
        is_usage(r.usage, backend@),
{
    let hits: &Vec<ContextHit> = &outcome.response.hits;
    let n: usize = if hits.len() < ANSWER_CITATIONS {
        hits.len()
    } else {
        ANSWER_CITATIONS
    };
    let ghost first = cited(hits@);
    assert(first =~= hits@.take(n as int));
    let mut citations: Vec<Citation> = Vec::new();
    let mut quotes: Vec<String> = Vec::new();
    let mut i: usize = 0;
    while i < n
        invariant
            i <= n <= hits@.len(),
            first == hits@.take(n as int),
            citations@.len() == i,
            quotes@.len() == i,
            forall|j: int| 0 <= j < i ==> cites(#[trigger] citations@[j], hits@[j]),
            forall|j: int| 0 <= j < i ==> (#[trigger] quotes@[j])@ == hits@[j].snippet@,
        decreases n - i,
    {
        citations.push(citation_from_hit(&hits[i]));
        quotes.push(hits[i].snippet.clone());
        i += 1;
    }
    assert(texts(quotes@) =~= snippets(first));
    let answer: String = if n == 0 {
        "I do not have enough indexed context to answer that yet.".to_owned()
    } else {
        "Based on staged ContextFS retrieval, the strongest matching context is: ".to_owned().concat(
            join(&quotes, "\n").as_str(),
        )
    };
    let mut stages: Vec<String> = Vec::new();
    stages.push("fragments".to_owned());
    assert(texts(stages@) =~= seq!["fragments"@]);
    let mut m: Vec<(String, Json)> = Vec::new();
    m.push(("backend".to_owned(), Json::Text(backend.to_owned())));
    m.push(("provider".to_owned(), Json::Text("none".to_owned())));
    m.push(("stages".to_owned(), crate::json::text_list(&stages)));
    RagAnswerResponse {
        answer_id: answer_id.to_owned(),
        trace_id: outcome.response.trace_id.clone(),
        answer,
        citations: std::sync::Arc::new(citations),
        usage: Json::Object(std::sync::Arc::new(m)),
    }
}

/// The owner for whom an answer is: the one that is named, else that of the session.
pub open spec fn answered_owner(
    d: StoreData,
    owner: Option<Seq<char>>,
    session_id: Option<Seq<char>>,
) -> Option<Seq<char>> {
    match (owner, session_id) {
        (Some(o), _) => Some(o),
        (None, Some(id)) => if d.sessions@.dom().contains(id) {
            Some(d.sessions@[id].owner_user_id@)
        } else {
            None
        },
        (None, None) => None,
    }
}

/// The owner for whom an answer is.
pub fn answer_owner(data: &StoreData, owner_user_id: Option<&str>, session_id: Option<&str>) -> (r:
    Option<String>)
    ensures
        opt_text(r) == answered_owner(*data, opt_str(owner_user_id), opt_str(session_id)),
{
    match (owner_user_id, session_id) {
        (Some(owner), _) => Some(owner.to_owned()),
        (None, Some(id)) => {
            let key: String = id.to_owned();
            match data.sessions.get(&key) {
                Some(session) => Some(session.owner_user_id.clone()),
                None => None,
            }
        },
        (None, None) => None,
    }
}

} // verus!
