//! What an answer can be relied on for: its hits are the best of what was found, and what is told
//! of them is so.

use vstd::prelude::*;

use crate::data::StoreData;
use crate::float::{float_lt, is_nan, place};
use crate::history_search::limited;
use crate::hits::{
    all_nodes, are_groups, are_shaped, block_types, cites, has_source, hit_document,
    in_document_order, is_compact, is_group, is_neighbor, links_by_confidence, neighbors,
    one_per_uri, page_range, says_otherwise, says_part_of, shown_links, source_key, source_keys,
    top_score, ContextHit, ContextSourceGroup,
};
use crate::json::Json;
use crate::laws::choosing::{
    a_bound_keeps_the_front, a_filter_keeps_what_it_accepts, a_limit_keeps_the_front,
    sorting_keeps_members,
};
use crate::laws::publishing::{reads, same_but};
use crate::model::harness::Citation;
use crate::model::knowledge::{ContextNode, KnowledgeLink};
use crate::order::{
    insert_sorted, sorted_by, sorted_by_is_in_order, sorted_by_keeps_elements, strict_order,
};
use crate::query::ContextReturnProfile;
use crate::search::{
    are_full_hits, best_first, cited, cites_all, is_full_hit, matched, ranked, scores,
    search_outcome, ContextSearchOutcome, Score, SearchPlan,
};
use crate::text::{opt_text, texts};

verus! {

proof fn lemma_insert_alike<T>(
    s: Seq<T>,
    x: T,
    a: spec_fn(T, T) -> bool,
    b: spec_fn(T, T) -> bool,
)
    requires
        forall|i: int| 0 <= i < s.len() ==> a(x, #[trigger] s[i]) == b(x, s[i]),
    ensures
        insert_sorted(s, x, a) == insert_sorted(s, x, b),
    decreases s.len(),
{
    if s.len() > 0 {
        assert(s.last() == s[s.len() - 1]);
        let front = s.drop_last();
        assert forall|i: int| 0 <= i < front.len() implies a(x, #[trigger] front[i]) == b(
            x,
            front[i],
        ) by {
            assert(front[i] == s[i]);
        }
        lemma_insert_alike(front, x, a, b);
    }
}

/// Two orders that agree on what is in a list sort it alike.
pub proof fn like_orders_sort_alike<T>(
    s: Seq<T>,
    a: spec_fn(T, T) -> bool,
    b: spec_fn(T, T) -> bool,
)
    requires
        forall|x: T, y: T| s.contains(x) && s.contains(y) ==> #[trigger] a(x, y) == b(x, y),
    ensures
        sorted_by(s, a) == sorted_by(s, b),
    decreases s.len(),
{
    if s.len() > 0 {
        let front = s.drop_last();
        assert forall|x: T, y: T| front.contains(x) && front.contains(y) implies #[trigger] a(x, y)
            == b(x, y) by {
            let i = choose|i: int| 0 <= i < front.len() && front[i] == x;
            let j = choose|j: int| 0 <= j < front.len() && front[j] == y;
            assert(s[i] == x && s[j] == y);
        }
        like_orders_sort_alike(front, a, b);
        let sorted = sorted_by(front, a);
        assert forall|i: int| 0 <= i < sorted.len() implies a(s.last(), #[trigger] sorted[i]) == b(
            s.last(),
            sorted[i],
        ) by {
            assert(sorted.contains(sorted[i]));
            sorting_keeps_members(front, a, sorted[i]);
            let k = choose|k: int| 0 <= k < front.len() && front[k] == sorted[i];
            assert(s[k] == sorted[i]);
            assert(s[s.len() - 1] == s.last());
        }
        lemma_insert_alike(sorted, s.last(), a, b);
    }
}

proof fn lemma_matched(nodes: Seq<ContextNode>, scores_of: Seq<Option<Score>>, x: (ContextNode, Score))
    requires
        scores_of.len() >= nodes.len(),
    ensures
        matched(nodes, scores_of).contains(x) <==> exists|k: int|
            0 <= k < nodes.len() && nodes[k] == x.0 && scores(#[trigger] scores_of[k])
                && scores_of[k]->0 == x.1,
    decreases nodes.len(),
{
    if nodes.len() > 0 {
        let front = nodes.drop_last();
        let at = nodes.len() - 1;
        lemma_matched(front, scores_of, x);
        let all = matched(nodes, scores_of);
        let some = matched(front, scores_of);
        if all.contains(x) {
            let i = choose|i: int| 0 <= i < all.len() && all[i] == x;
            if i < some.len() {
                assert(some[i] == x);
                let k = choose|k: int|
                    0 <= k < front.len() && front[k] == x.0 && scores(#[trigger] scores_of[k])
                        && scores_of[k]->0 == x.1;
                assert(nodes[k] == x.0 && scores(scores_of[k]));
            } else {
                assert(nodes[at] == x.0 && scores(scores_of[at]));
            }
        }
        if exists|k: int|
            0 <= k < nodes.len() && nodes[k] == x.0 && scores(#[trigger] scores_of[k])
                && scores_of[k]->0 == x.1 {
            let k = choose|k: int|
                0 <= k < nodes.len() && nodes[k] == x.0 && scores(#[trigger] scores_of[k])
                    && scores_of[k]->0 == x.1;
            if k < at {
                assert(front[k] == x.0 && scores(scores_of[k]));
                let i = choose|i: int| 0 <= i < some.len() && some[i] == x;
                assert(all[i] == x);
            } else {
                assert(all[all.len() - 1] == x);
            }
        }
    }
}

/// What is ranked is the nodes with a score above zero, each with its own score, the best first; one
/// is left out only where the limit is reached by those that are not worse.
pub proof fn the_best_are_ranked_first(
    nodes: Seq<ContextNode>,
    scores_of: Seq<Option<Score>>,
    limit: nat,
    i: int,
    j: int,
    k: int,
)
    requires
        scores_of.len() == nodes.len(),
    ensures
        ({
            let r = ranked(nodes, scores_of, limit);
            &&& r.len() <= limit
            &&& 0 <= i < r.len() ==> float_lt(0, r[i].1.bits) && exists|n: int|
                0 <= n < nodes.len() && nodes[n] == r[i].0 && #[trigger] scores_of[n] == Some(
                    r[i].1,
                )
            &&& 0 <= i < j < r.len() ==> place(r[i].1.bits) >= place(r[j].1.bits)
            &&& 0 <= k < nodes.len() && scores_of[k] is Some && float_lt(0, scores_of[k]->0.bits)
                ==> r.contains((nodes[k], scores_of[k]->0)) || (r.len() == limit && (0 <= i
                < r.len() ==> place(r[i].1.bits) >= place(scores_of[k]->0.bits)))
        }),
{
    let m = matched(nodes, scores_of);
    let lt = best_first();
    let by_place = |a: (ContextNode, Score), b: (ContextNode, Score)|
        place(b.1.bits) < place(a.1.bits);
    let all = sorted_by(m, lt);
    let r = ranked(nodes, scores_of, limit);
    assert forall|x: (ContextNode, Score), y: (ContextNode, Score)|
        m.contains(x) && m.contains(y) implies #[trigger] lt(x, y) == by_place(x, y) by {
        lemma_matched(nodes, scores_of, x);
        lemma_matched(nodes, scores_of, y);
    }
    like_orders_sort_alike(m, lt, by_place);
    assert(strict_order(by_place));
    sorted_by_is_in_order(m, by_place);
    sorted_by_keeps_elements(m, lt);
    a_bound_keeps_the_front(all, limit, i);
    a_bound_keeps_the_front(all, limit, j);
    if 0 <= i < r.len() {
        assert(all.contains(all[i]));
        sorting_keeps_members(m, lt, all[i]);
        lemma_matched(nodes, scores_of, all[i]);
        let n = choose|n: int|
            0 <= n < nodes.len() && nodes[n] == all[i].0 && scores(#[trigger] scores_of[n])
                && scores_of[n]->0 == all[i].1;
        assert(scores_of[n] == Some(r[i].1));
    }
    if 0 <= i < j < r.len() {
        assert(!by_place(all[j], all[i]));
    }
    if 0 <= k < nodes.len() && scores(scores_of[k]) {
        let x = (nodes[k], scores_of[k]->0);
        lemma_matched(nodes, scores_of, x);
        sorting_keeps_members(m, lt, x);
        let at = choose|at: int| 0 <= at < all.len() && all[at] == x;
        if at < r.len() {
            a_bound_keeps_the_front(all, limit, at);
            assert(r[at] == x);
        } else if 0 <= i < r.len() {
            assert(!by_place(all[at], all[i]));
        }
    }
}

/// Every hit tells of the node that was ranked in its place: its address, title, layer and score. The
/// search is remembered under its id with the addresses of its hits, and nothing else changes.
pub proof fn every_hit_is_of_a_ranked_node(
    before: StoreData,
    after: StoreData,
    o: ContextSearchOutcome,
    tenant_id: Seq<char>,
    plan: SearchPlan,
    mode: Seq<char>,
    debug: bool,
    is_admin: bool,
    found: Seq<(ContextNode, Score)>,
    told: Option<Vec<Json>>,
    secrets: Seq<Seq<char>>,
    trace_id: Seq<char>,
    now: i64,
    i: int,
)
    requires
        search_outcome(
            before,
            after,
            o,
            tenant_id,
            plan,
            mode,
            debug,
            is_admin,
            found,
            told,
            secrets,
            trace_id,
            now,
        ),
    ensures
        o.response.hits@.len() == found.len(),
        o.nodes@.len() == found.len(),
        0 <= i < found.len() ==> {
            let hit = o.response.hits@[i];
            let node = found[i].0;
            &&& o.nodes@[i] == node
            &&& hit.uri@ == node.uri@
            &&& hit.title@ == node.title@
            &&& hit.layer == node.layer
            &&& hit.score == found[i].1.bits
            &&& hit.snippet@.len() <= 240
            &&& plan.profile != ContextReturnProfile::Compact ==> {
                &&& hit.fragment_index == node.fragment_index
                &&& hit.block_type == node.block_type
                &&& hit.page_idx == node.page_idx
                &&& hit.bbox == node.bbox
                &&& hit.section_path == node.section_path
                &&& hit.heading_level == node.heading_level
                &&& hit.char_start == node.char_start
                &&& hit.char_end == node.char_end
                &&& hit.checksum == node.checksum
                &&& hit.asset_refs == node.asset_refs
                &&& hit.artifact_refs == node.artifact_refs
                &&& hit.node_kind == Some(node.node_kind)
            }
            &&& plan.profile == ContextReturnProfile::Compact ==> {
                &&& hit.block_type is None
                &&& hit.page_idx is None
                &&& hit.checksum is None
                &&& hit.source_title is Some ==> plan.wanted.traceback || plan.wanted.source_summary
                &&& hit.related_links@.len() > 0 ==> plan.wanted.links
                &&& hit.neighbor_fragments@.len() > 0 ==> plan.wanted.neighbor_fragments
            }
            &&& texts(o.trace.context_uris@)[i] == hit.uri@
        },
        o.response.trace_id@ == trace_id,
        o.trace.query@ == plan.query@,
        o.trace.tenant_id@ == tenant_id,
        o.trace.owner_user_id == plan.owner_user_id,
        reads(after.traces@, trace_id, o.trace),
        same_but(before.traces@, after.traces@, trace_id),
        after == (StoreData { traces: after.traces, ..before }),
{
    let full = choose|full: Seq<ContextHit>|
        {
            &&& #[trigger] are_full_hits(full, found, before, tenant_id, plan, secrets)
            &&& if plan.profile == ContextReturnProfile::Compact {
                o.response.groups@.len() == 0
            } else {
                are_groups(o.response.groups@, full)
            }
            &&& are_shaped(o.response.hits@, full, plan.profile, plan.wanted)
        };
    if 0 <= i < found.len() {
        assert(is_full_hit(
            full[i],
            found[i],
            before,
            tenant_id,
            plan,
            crate::search::ranked_nodes(found),
            secrets,
        ));
        if plan.profile == ContextReturnProfile::Compact {
            assert(is_compact(o.response.hits@[i], full[i], plan.wanted));
        }
    }
}

/// The document that a hit is traced to is active and belongs to the tenant's map at the address that
/// the hit names, else at the one that an active part-of link from the hit leads to.
pub proof fn a_hit_is_traced_to_an_active_document(
    d: StoreData,
    tenant_id: Seq<char>,
    owner: Option<Seq<char>>,
    hit: ContextHit,
)
    requires
        hit_document(d, tenant_id, owner, hit) is Some,
    ensures
        hit_document(d, tenant_id, owner, hit)->0.status@ == "active"@,
        exists|k: crate::data::DocumentKeyView|
            {
                &&& #[trigger] d.source_documents@.dom().contains(k)
                &&& d.source_documents@[k] == hit_document(d, tenant_id, owner, hit)->0
                &&& k.tenant_id == tenant_id
                &&& k.owner_user_id is None || k.owner_user_id == owner
                &&& hit.source_document_uri is Some ==> k.uri == hit.source_document_uri->0@
            },
{
    let uri = if hit.source_document_uri is Some {
        hit.source_document_uri->0@
    } else {
        crate::reading::first_of(
            d.links.values(),
            says_part_of(tenant_id, owner, hit.uri@),
        )->0.target_uri@
    };
    let own = crate::documents::key_of(tenant_id, owner, uri);
    let shared = crate::documents::key_of(tenant_id, None, uri);
    assert(d.source_documents@.dom().contains(own) || d.source_documents@.dom().contains(shared));
}

/// The links that are shown with a hit are active links of the tenant that the caller may see: those
/// by which the hit is part of something, and of the others that touch it at most five.
pub proof fn the_links_of_a_hit_touch_it(
    d: StoreData,
    tenant_id: Seq<char>,
    owner: Option<Seq<char>>,
    uri: Seq<char>,
    others: bool,
    i: int,
    link: KnowledgeLink,
)
    ensures
        ({
            let shown = shown_links(d, tenant_id, owner, uri, others);
            &&& 0 <= i < shown.len() ==> {
                let l = shown[i];
                &&& d.links.values().contains(l)
                &&& l.tenant_id@ == tenant_id
                &&& l.status@ == "active"@
                &&& l.owner_user_id is Some ==> opt_text(l.owner_user_id) == owner
                &&& l.source_uri@ == uri || (l.target_uri@ == uri && others)
                &&& l.relation@ == "part_of"@ ==> l.source_uri@ == uri
                &&& l.relation@ != "part_of"@ ==> others
            }
            &&& d.links.values().contains(link) && link.tenant_id@ == tenant_id && link.status@
                == "active"@ && (link.owner_user_id is None || opt_text(link.owner_user_id) == owner)
                && link.relation@ == "part_of"@ && link.source_uri@ == uri ==> shown.contains(link)
            &&& shown.len() <= d.links.values().filter(says_part_of(tenant_id, owner, uri)).len() + (
            if others {
                5int
            } else {
                0
            })
        }),
{
    let lt = links_by_confidence();
    let values = d.links.values();
    let p = says_part_of(tenant_id, owner, uri);
    let q = says_otherwise(tenant_id, owner, uri);
    let part_of = sorted_by(values.filter(p), lt);
    let rest = sorted_by(values.filter(q), lt);
    let shown = shown_links(d, tenant_id, owner, uri, others);
    sorted_by_keeps_elements(values.filter(p), lt);
    a_limit_keeps_the_front(rest, 5, i - part_of.len());
    if 0 <= i < shown.len() {
        if i < part_of.len() {
            assert(part_of.contains(part_of[i]));
            sorting_keeps_members(values.filter(p), lt, part_of[i]);
            a_filter_keeps_what_it_accepts(values, p, part_of[i]);
        } else {
            let x = limited(rest, 5)[i - part_of.len()];
            assert(rest.contains(rest[i - part_of.len()]));
            sorting_keeps_members(values.filter(q), lt, x);
            a_filter_keeps_what_it_accepts(values, q, x);
        }
    }
    if values.contains(link) && p(link) {
        a_filter_keeps_what_it_accepts(values, p, link);
        sorting_keeps_members(values.filter(p), lt, link);
        let k = choose|k: int| 0 <= k < part_of.len() && part_of[k] == link;
        assert(shown[k] == link);
    }
}

proof fn lemma_one_per_uri(s: Seq<ContextNode>, i: int)
    requires
        0 <= i < one_per_uri(s).len(),
    ensures
        s.contains(one_per_uri(s)[i]),
    decreases s.len(),
{
    let front = s.drop_last();
    let d = one_per_uri(front);
    if i < d.len() {
        lemma_one_per_uri(front, i);
        let k = choose|k: int| 0 <= k < front.len() && front[k] == d[i];
        assert(s[k] == d[i]);
    } else {
        assert(s[s.len() - 1] == s.last());
    }
}

/// The neighbors of a hit are other fragments of the same document, at most one place away, that the
/// caller may see.
pub proof fn neighbors_stand_beside_the_hit(
    d: StoreData,
    scoped: Seq<ContextNode>,
    tenant_id: Seq<char>,
    owner: Option<Seq<char>>,
    uri: Seq<char>,
    document_uri: Option<Seq<char>>,
    at: Option<usize>,
    i: int,
)
    requires
        0 <= i < neighbors(d, scoped, tenant_id, owner, uri, document_uri, at).len(),
    ensures
        ({
            let node = neighbors(d, scoped, tenant_id, owner, uri, document_uri, at)[i];
            &&& at is Some && document_uri is Some
            &&& (scoped + all_nodes(d)).contains(node)
            &&& node.uri@ != uri
            &&& node.tenant_id@ == tenant_id
            &&& opt_text(node.source_document_uri) == document_uri
            &&& node.owner_user_id is Some ==> opt_text(node.owner_user_id) == owner
            &&& node.fragment_index is Some
            &&& -1 <= node.fragment_index->0 - at->0 <= 1
            &&& node.status@ == "active"@
            &&& node.retrieval_enabled
        }),
{
    let p = is_neighbor(tenant_id, owner, uri, document_uri->0, at->0);
    let all = scoped + all_nodes(d);
    let sorted = sorted_by(all.filter(p), in_document_order());
    lemma_one_per_uri(sorted, i);
    let node = one_per_uri(sorted)[i];
    sorting_keeps_members(all.filter(p), in_document_order(), node);
    a_filter_keeps_what_it_accepts(all, p, node);
}

proof fn lemma_keys(hits: Seq<ContextHit>, key: Seq<char>)
    ensures
        source_keys(hits).contains(key) <==> exists|i: int|
            0 <= i < hits.len() && source_key(#[trigger] hits[i]) == key,
    decreases hits.len(),
{
    if hits.len() > 0 {
        let front = hits.drop_last();
        lemma_keys(front, key);
        let a = source_keys(front);
        let b = source_keys(hits);
        if b.contains(key) {
            let n = choose|n: int| 0 <= n < b.len() && b[n] == key;
            if n < a.len() {
                assert(a[n] == key);
                let i = choose|i: int| 0 <= i < front.len() && source_key(#[trigger] front[i]) == key;
                assert(source_key(hits[i]) == key);
            } else {
                assert(source_key(hits[hits.len() - 1]) == key);
            }
        }
        if exists|i: int| 0 <= i < hits.len() && source_key(#[trigger] hits[i]) == key {
            let i = choose|i: int| 0 <= i < hits.len() && source_key(#[trigger] hits[i]) == key;
            if i < front.len() {
                assert(source_key(front[i]) == key);
                let n = choose|n: int| 0 <= n < a.len() && a[n] == key;
                assert(b[n] == key);
            } else if !a.contains(key) {
                assert(b[b.len() - 1] == key);
            } else {
                assert(b == a);
            }
        }
    }
}

proof fn lemma_pages(hits: Seq<ContextHit>, i: int)
    ensures
        0 <= i < hits.len() && hits[i].page_idx is Some ==> {
            &&& page_range(hits) is Some
            &&& page_range(hits)->0.start <= hits[i].page_idx->0 <= page_range(hits)->0.end
        },
        page_range(hits) is Some ==> {
            &&& exists|k: int|
                0 <= k < hits.len() && (#[trigger] hits[k]).page_idx == Some(
                    page_range(hits)->0.start,
                )
            &&& exists|k: int|
                0 <= k < hits.len() && (#[trigger] hits[k]).page_idx == Some(page_range(hits)->0.end)
        },
    decreases hits.len(),
{
    if hits.len() > 0 {
        let front = hits.drop_last();
        lemma_pages(front, i);
        let was = page_range(front);
        let is = page_range(hits);
        assert(hits[hits.len() - 1] == hits.last());
        if 0 <= i < front.len() {
            assert(front[i] == hits[i]);
        }
        if was is Some {
            let a = choose|k: int|
                0 <= k < front.len() && (#[trigger] front[k]).page_idx == Some(was->0.start);
            let b = choose|k: int|
                0 <= k < front.len() && (#[trigger] front[k]).page_idx == Some(was->0.end);
            assert(hits[a].page_idx == Some(was->0.start));
            assert(hits[b].page_idx == Some(was->0.end));
        }
    }
}

proof fn lemma_kinds(hits: Seq<ContextHit>, kind: Seq<char>)
    ensures
        block_types(hits).contains(kind) <==> exists|i: int|
            0 <= i < hits.len() && opt_text((#[trigger] hits[i]).block_type) == Some(kind),
    decreases hits.len(),
{
    if hits.len() > 0 {
        let front = hits.drop_last();
        lemma_kinds(front, kind);
        let a = block_types(front);
        let b = block_types(hits);
        assert(hits[hits.len() - 1] == hits.last());
        if b.contains(kind) {
            let n = choose|n: int| 0 <= n < b.len() && b[n] == kind;
            if n < a.len() {
                assert(a[n] == kind);
                let i = choose|i: int|
                    0 <= i < front.len() && opt_text((#[trigger] front[i]).block_type) == Some(kind);
                assert(opt_text(hits[i].block_type) == Some(kind));
            } else {
                assert(opt_text(hits[hits.len() - 1].block_type) == Some(kind));
            }
        }
        if exists|i: int|
            0 <= i < hits.len() && opt_text((#[trigger] hits[i]).block_type) == Some(kind) {
            let i = choose|i: int|
                0 <= i < hits.len() && opt_text((#[trigger] hits[i]).block_type) == Some(kind);
            if i < front.len() {
                assert(opt_text(front[i].block_type) == Some(kind));
                let n = choose|n: int| 0 <= n < a.len() && a[n] == kind;
                assert(b[n] == kind);
            } else if a.contains(kind) {
                assert(b == a);
            } else {
                assert(b[b.len() - 1] == kind);
            }
        }
    }
}

proof fn lemma_top(hits: Seq<ContextHit>, i: int)
    requires
        0 <= i < hits.len(),
        forall|k: int| 0 <= k < hits.len() ==> !is_nan((#[trigger] hits[k]).score),
    ensures
        place(top_score(hits)) >= place(hits[i].score),
        !is_nan(top_score(hits)),
        exists|k: int| 0 <= k < hits.len() && (#[trigger] hits[k]).score == top_score(hits),
    decreases hits.len(),
{
    assert(!is_nan(hits[hits.len() - 1].score));
    if hits.len() == 1 {
        assert(hits[0].score == top_score(hits));
    } else {
        let front = hits.drop_last();
        assert forall|k: int| 0 <= k < front.len() implies !is_nan((#[trigger] front[k]).score) by {
            assert(!is_nan(hits[k].score));
        }
        if i < front.len() {
            lemma_top(front, i);
            assert(front[i] == hits[i]);
        } else {
            lemma_top(front, 0);
        }
        let k = choose|k: int| 0 <= k < front.len() && (#[trigger] front[k]).score == top_score(front);
        assert(hits[k].score == top_score(front));
    }
}

/// A group tells of the hits from one source: how many there are, the pages between which they stand,
/// the kinds of block that they have and the score of the best. Every hit belongs to a group.
pub proof fn a_group_tells_of_its_hits(
    groups: Seq<ContextSourceGroup>,
    hits: Seq<ContextHit>,
    g: int,
    i: int,
    kind: Seq<char>,
)
    requires
        are_groups(groups, hits),
        0 <= i < hits.len(),
    ensures
        exists|n: int|
            0 <= n < groups.len() && (#[trigger] groups[n]).source_document_uri@ == (
            match hits[i].source_document_uri {
                Some(uri) => uri@,
                None => hits[i].uri@,
            }),
        0 <= g < groups.len() ==> {
            let key = groups[g].source_document_uri@;
            let mine = hits.filter(has_source(key));
            &&& groups[g].hit_count == mine.len()
            &&& mine.len() > 0
            &&& groups[g].top_hit_uri@ == mine[0].uri@
            &&& mine.contains(hits[i]) <==> source_key(hits[i]) == key
            &&& source_key(hits[i]) == key && hits[i].page_idx is Some ==> {
                &&& groups[g].page_range is Some
                &&& groups[g].page_range->0.start <= hits[i].page_idx->0
                &&& hits[i].page_idx->0 <= groups[g].page_range->0.end
            }
            &&& source_key(hits[i]) == key && hits[i].block_type is Some ==> texts(
                groups[g].block_types@,
            ).contains(hits[i].block_type->0@)
            &&& texts(groups[g].block_types@).contains(kind) ==> exists|k: int|
                0 <= k < mine.len() && opt_text((#[trigger] mine[k]).block_type) == Some(kind)
            &&& source_key(hits[i]) == key && (forall|k: int|
                0 <= k < mine.len() ==> !is_nan((#[trigger] mine[k]).score)) ==> place(
                groups[g].top_score,
            ) >= place(hits[i].score)
        },
{
    lemma_keys(hits, source_key(hits[i]));
    let keys = source_keys(hits);
    let n = choose|n: int| 0 <= n < keys.len() && keys[n] == source_key(hits[i]);
    assert(is_group(groups[n], keys[n], hits.filter(has_source(keys[n]))));
    if 0 <= g < groups.len() {
        let key = keys[g];
        let p = has_source(key);
        let mine = hits.filter(p);
        assert(is_group(groups[g], key, mine));
        assert(hits.contains(hits[i]));
        a_filter_keeps_what_it_accepts(hits, p, hits[i]);
        lemma_kinds(mine, kind);
        if source_key(hits[i]) == key {
            let k = choose|k: int| 0 <= k < mine.len() && mine[k] == hits[i];
            lemma_pages(mine, k);
            if hits[i].block_type is Some {
                lemma_kinds(mine, hits[i].block_type->0@);
                assert(opt_text(mine[k].block_type) == Some(hits[i].block_type->0@));
            }
            if forall|k: int| 0 <= k < mine.len() ==> !is_nan((#[trigger] mine[k]).score) {
                lemma_top(mine, k);
            }
        }
    }
}

/// The pages of a group are pages of its hits, and its best score is the score of one of them.
pub proof fn a_group_tells_only_of_its_hits(
    groups: Seq<ContextSourceGroup>,
    hits: Seq<ContextHit>,
    g: int,
)
    requires
        are_groups(groups, hits),
        0 <= g < groups.len(),
    ensures
        ({
            let mine = hits.filter(has_source(groups[g].source_document_uri@));
            &&& groups[g].page_range is Some ==> {
                &&& exists|k: int|
                    0 <= k < mine.len() && (#[trigger] mine[k]).page_idx == Some(
                        groups[g].page_range->0.start,
                    )
                &&& exists|k: int|
                    0 <= k < mine.len() && (#[trigger] mine[k]).page_idx == Some(
                        groups[g].page_range->0.end,
                    )
            }
            &&& (forall|k: int| 0 <= k < mine.len() ==> !is_nan((#[trigger] mine[k]).score))
                ==> exists|k: int|
                0 <= k < mine.len() && (#[trigger] mine[k]).score == groups[g].top_score
        }),
{
    let keys = source_keys(hits);
    let mine = hits.filter(has_source(keys[g]));
    assert(is_group(groups[g], keys[g], mine));
    lemma_pages(mine, 0);
    if forall|k: int| 0 <= k < mine.len() ==> !is_nan((#[trigger] mine[k]).score) {
        lemma_top(mine, 0);
    }
}

/// An answer cites its first hits, five at most, word for word and with their scores.
pub proof fn an_answer_cites_its_first_hits(c: Seq<Citation>, hits: Seq<ContextHit>, i: int)
    requires
        cites_all(c, cited(hits)),
    ensures
        c.len() <= 5,
        c.len() < hits.len() ==> c.len() == 5,
        0 <= i < c.len() ==> {
            &&& c[i].uri@ == hits[i].uri@
            &&& c[i].quote@ == hits[i].snippet@
            &&& c[i].title@ == hits[i].title@
            &&& c[i].score == hits[i].score
            &&& c[i].source_id == hits[i].source_id
            &&& c[i].source_document_uri == hits[i].source_document_uri
            &&& c[i].page_idx == hits[i].page_idx
            &&& c[i].fragment_index == hits[i].fragment_index
        },
{
    a_limit_keeps_the_front(hits, 5, i);
    if 0 <= i < c.len() {
        assert(cites(c[i], cited(hits)[i]));
    }
}

} // verus!
