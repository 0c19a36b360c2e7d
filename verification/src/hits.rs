//! The hits of a search: what is shown of a node, what is shown with it, and how hits are grouped.

use vstd::prelude::*;
use vstd::string::*;

use crate::data::StoreData;
use crate::documents::{document_for_owner, is_active, source_document_for_owner};
use crate::float::{float_before, float_lt, float_max, greater_float};
use crate::history_search::{limit_to, limited};
use crate::json::Json;
use crate::links::{
    context_related_link, link_visible_to_owner, owner_can_see_optional, seen_by, shows_link,
    ContextRelatedLink,
};
use crate::masking::{fragment_masked, mask_secret_fragment_projection_preserving_chars};
use crate::model::harness::Citation;
use crate::model::ingest::SourceDocument;
use crate::model::knowledge::{ContextNode, KnowledgeLink, ParseArtifactRef};
use crate::naming::{first_chars, owner_or_empty, owner_text, truncate_chars};
use crate::nodes::{is_candidate, retrieval_candidate};
use crate::order::{sort_by, sorted_by};
use crate::query::{ContextIncludeSet, ContextReturnProfile};
use crate::reading::{first_of, first_value};
use crate::record::{copy_all, select, select_values, List};
use crate::table::Table;
use crate::text::{
    as_deref, opt_is, opt_str, opt_text, text_eq, texts, texts_contain, texts_push,
};

verus! {

/// Where the source of a hit is.
pub struct ContextSourceSummary {
    pub source_document_uri: String,
    pub source_id: String,
    pub revision_id: String,
    pub source_title: String,
}

impl Clone for ContextSourceSummary {
    fn clone(&self) -> (r: Self)
        ensures
            r == *self,
    {
        ContextSourceSummary {
            source_document_uri: self.source_document_uri.clone(),
            source_id: self.source_id.clone(),
            revision_id: self.revision_id.clone(),
            source_title: self.source_title.clone(),
        }
    }
}

/// A fragment beside a hit.
pub struct ContextNeighborFragment {
    pub uri: String,
    pub title: String,
    pub fragment_index: Option<usize>,
    pub page_idx: Option<usize>,
    pub block_type: Option<String>,
}

/// A hit of a search.
pub struct ContextHit {
    pub uri: String,
    pub title: String,
    pub layer: u8,
    /// The bits of a 32-bit float.
    pub score: u32,
    pub node_kind: Option<String>,
    pub retrieval_role: Option<String>,
    pub source_id: Option<String>,
    pub revision_id: Option<String>,
    pub source_document_uri: Option<String>,
    pub source_title: Option<String>,
    pub source_relation: Option<String>,
    pub fragment_index: Option<usize>,
    pub char_start: Option<usize>,
    pub char_end: Option<usize>,
    pub block_type: Option<String>,
    pub page_idx: Option<usize>,
    pub bbox: Option<Json>,
    pub section_path: List<String>,
    pub heading_level: Option<usize>,
    pub asset_refs: List<String>,
    pub artifact_refs: List<ParseArtifactRef>,
    pub checksum: Option<String>,
    pub source_summary: Option<ContextSourceSummary>,
    pub neighbor_fragments: List<ContextNeighborFragment>,
    pub related_links: List<ContextRelatedLink>,
    pub score_breakdown: Option<Json>,
    pub snippet: String,
}

impl Clone for ContextHit {
    fn clone(&self) -> (r: Self)
        ensures
            r == *self,
    {
        ContextHit {
            uri: self.uri.clone(),
            title: self.title.clone(),
            layer: self.layer,
            score: self.score,
            node_kind: self.node_kind.clone(),
            retrieval_role: self.retrieval_role.clone(),
            source_id: self.source_id.clone(),
            revision_id: self.revision_id.clone(),
            source_document_uri: self.source_document_uri.clone(),
            source_title: self.source_title.clone(),
            source_relation: self.source_relation.clone(),
            fragment_index: self.fragment_index,
            char_start: self.char_start,
            char_end: self.char_end,
            block_type: self.block_type.clone(),
            page_idx: self.page_idx,
            bbox: self.bbox.clone(),
            section_path: self.section_path.clone(),
            heading_level: self.heading_level,
            asset_refs: self.asset_refs.clone(),
            artifact_refs: self.artifact_refs.clone(),
            checksum: self.checksum.clone(),
            source_summary: self.source_summary.clone(),
            neighbor_fragments: self.neighbor_fragments.clone(),
            related_links: self.related_links.clone(),
            score_breakdown: self.score_breakdown.clone(),
            snippet: self.snippet.clone(),
        }
    }
}

/// The most characters that a snippet has.
pub const SNIPPET_CHARS: usize = 240;

/// Whether `h` shows a node with its score: the snippet is short and shows no secret.
pub open spec fn is_hit(
    h: ContextHit,
    node: ContextNode,
    score: u32,
    breakdown: Option<Json>,
    secrets: Seq<Seq<char>>,
) -> bool {
    &&& h.uri == node.uri
    &&& h.title == node.title
    &&& h.layer == node.layer
    &&& h.score == score
    &&& h.node_kind == Some(node.node_kind)
    &&& h.retrieval_role == Some(node.retrieval_role)
    &&& h.source_id == node.source_id
    &&& h.revision_id == node.revision_id
    &&& h.source_document_uri == node.source_document_uri
    &&& h.source_title is None
    &&& h.source_relation is None
    &&& h.fragment_index == node.fragment_index
    &&& h.char_start == node.char_start
    &&& h.char_end == node.char_end
    &&& h.block_type == node.block_type
    &&& h.page_idx == node.page_idx
    &&& h.bbox == node.bbox
    &&& h.section_path == node.section_path
    &&& h.heading_level == node.heading_level
    &&& h.asset_refs == node.asset_refs
    &&& h.artifact_refs == node.artifact_refs
    &&& h.checksum == node.checksum
    &&& h.source_summary is None
    &&& h.neighbor_fragments@.len() == 0
    &&& h.related_links@.len() == 0
    &&& h.score_breakdown == breakdown
    &&& h.snippet@ == first_chars(fragment_masked(node.body@, secrets), SNIPPET_CHARS as nat)
}

/// A node as a hit, with its score and how it came about.
pub fn context_hit_from_node(
    node: &ContextNode,
    score: u32,
    breakdown: Option<Json>,
    secrets: &Vec<String>,
) -> (r: ContextHit)
    ensures
        is_hit(r, *node, score, breakdown, texts(secrets@)),
{
    let masked: String = mask_secret_fragment_projection_preserving_chars(
        node.body.as_str(),
        secrets,
    );
    ContextHit {
        uri: node.uri.clone(),
        title: node.title.clone(),
        layer: node.layer,
        score,
        node_kind: Some(node.node_kind.clone()),
        retrieval_role: Some(node.retrieval_role.clone()),
        source_id: node.source_id.clone(),
        revision_id: node.revision_id.clone(),
        source_document_uri: node.source_document_uri.clone(),
        source_title: None,
        source_relation: None,
        fragment_index: node.fragment_index,
        char_start: node.char_start,
        char_end: node.char_end,
        block_type: node.block_type.clone(),
        page_idx: node.page_idx,
        bbox: node.bbox.clone(),
        section_path: node.section_path.clone(),
        heading_level: node.heading_level,
        asset_refs: node.asset_refs.clone(),
        artifact_refs: node.artifact_refs.clone(),
        checksum: node.checksum.clone(),
        source_summary: None,
        neighbor_fragments: std::sync::Arc::new(Vec::new()),
        related_links: std::sync::Arc::new(Vec::new()),
        score_breakdown: breakdown,
        snippet: truncate_chars(masked.as_str(), SNIPPET_CHARS),
    }
}

/// Whether `c` cites a hit.
pub open spec fn cites(c: Citation, hit: ContextHit) -> bool {
    &&& c.uri == hit.uri
    &&& c.node_kind == hit.node_kind
    &&& c.retrieval_role == hit.retrieval_role
    &&& c.source_id == hit.source_id
    &&& c.revision_id == hit.revision_id
    &&& c.source_document_uri == hit.source_document_uri
    &&& c.source_title == hit.source_title
    &&& c.block_type == hit.block_type
    &&& c.page_idx == hit.page_idx
    &&& c.bbox == hit.bbox
    &&& c.section_path == hit.section_path
    &&& c.heading_level == hit.heading_level
    &&& c.asset_refs == hit.asset_refs
    &&& c.artifact_refs == hit.artifact_refs
    &&& c.fragment_index == hit.fragment_index
    &&& c.char_start == hit.char_start
    &&& c.char_end == hit.char_end
    &&& c.checksum == hit.checksum
    &&& c.title == hit.title
    &&& c.quote == hit.snippet
    &&& c.score == hit.score
}

/// The citation of a hit.
pub fn citation_from_hit(hit: &ContextHit) -> (r: Citation)
    ensures
        cites(r, *hit),
{
    Citation {
        uri: hit.uri.clone(),
        node_kind: hit.node_kind.clone(),
        retrieval_role: hit.retrieval_role.clone(),
        source_id: hit.source_id.clone(),
        revision_id: hit.revision_id.clone(),
        source_document_uri: hit.source_document_uri.clone(),
        source_title: hit.source_title.clone(),
        block_type: hit.block_type.clone(),
        page_idx: hit.page_idx,
        bbox: hit.bbox.clone(),
        section_path: hit.section_path.clone(),
        heading_level: hit.heading_level,
        asset_refs: hit.asset_refs.clone(),
        artifact_refs: hit.artifact_refs.clone(),
        fragment_index: hit.fragment_index,
        char_start: hit.char_start,
        char_end: hit.char_end,
        checksum: hit.checksum.clone(),
        title: hit.title.clone(),
        quote: hit.snippet.clone(),
        score: hit.score,
    }
}

/// Whether a caller sees an active link of a tenant.
pub open spec fn visible_link(
    link: KnowledgeLink,
    tenant_id: Seq<char>,
    owner: Option<Seq<char>>,
) -> bool {
    link.tenant_id@ == tenant_id && link.status@ == "active"@ && seen_by(
        opt_text(link.owner_user_id),
        owner,
    )
}

fn check_visible_link(link: &KnowledgeLink, tenant_id: &str, owner: Option<&str>) -> (r: bool)
    ensures
        r == visible_link(*link, tenant_id@, opt_str(owner)),
{
    text_eq(link.tenant_id.as_str(), tenant_id) && text_eq(link.status.as_str(), "active")
        && link_visible_to_owner(link, owner)
}

/// Whether a link says of what an entry is a part.
pub open spec fn says_part_of(tenant_id: Seq<char>, owner: Option<Seq<char>>, uri: Seq<char>) -> spec_fn(
    KnowledgeLink,
) -> bool {
    |link: KnowledgeLink|
        visible_link(link, tenant_id, owner) && link.relation@ == "part_of"@ && link.source_uri@
            == uri
}

/// Whether a link connects an entry with another in some other way.
pub open spec fn says_otherwise(
    tenant_id: Seq<char>,
    owner: Option<Seq<char>>,
    uri: Seq<char>,
) -> spec_fn(KnowledgeLink) -> bool {
    |link: KnowledgeLink|
        visible_link(link, tenant_id, owner) && link.relation@ != "part_of"@ && (
        link.source_uri@ == uri || link.target_uri@ == uri)
}

/// The order of links by confidence, then with the one that was changed last first.
pub open spec fn links_by_confidence() -> spec_fn(KnowledgeLink, KnowledgeLink) -> bool {
    |a: KnowledgeLink, b: KnowledgeLink|
        float_lt(b.confidence, a.confidence) || (!float_lt(a.confidence, b.confidence)
            && a.updated_at > b.updated_at)
}

fn sort_by_confidence(v: Vec<KnowledgeLink>) -> (r: Vec<KnowledgeLink>)
    ensures
        r@ == sorted_by(v@, links_by_confidence()),
{
    let ghost lt = links_by_confidence();
    let before = |a: &KnowledgeLink, b: &KnowledgeLink| -> (c: bool)
        ensures
            c == lt(*a, *b),
        {
            float_before(b.confidence, a.confidence) || (!float_before(a.confidence, b.confidence)
                && a.updated_at > b.updated_at)
        };
    sort_by(v, before, Ghost(lt))
}

/// The most links of other kinds that are shown with a hit.
pub const OTHER_LINKS: usize = 5;

/// The links that are shown with a hit: of what it is a part, and some others where they are asked
/// for.
pub open spec fn shown_links(
    d: StoreData,
    tenant_id: Seq<char>,
    owner: Option<Seq<char>>,
    uri: Seq<char>,
    others: bool,
) -> Seq<KnowledgeLink> {
    let part_of = sorted_by(
        d.links.values().filter(says_part_of(tenant_id, owner, uri)),
        links_by_confidence(),
    );
    if others {
        part_of + limited(
            sorted_by(
                d.links.values().filter(says_otherwise(tenant_id, owner, uri)),
                links_by_confidence(),
            ),
            OTHER_LINKS as nat,
        )
    } else {
        part_of
    }
}

/// Whether links are shown one by one.
pub open spec fn shows_links(r: Seq<ContextRelatedLink>, links: Seq<KnowledgeLink>) -> bool {
    r.len() == links.len() && forall|i: int|
        0 <= i < links.len() ==> shows_link(#[trigger] r[i], links[i])
}

/// The links that are shown with a hit.
pub fn related_links_for_hit(
    data: &StoreData,
    tenant_id: &str,
    owner_user_id: Option<&str>,
    uri: &str,
    include_non_part_of: bool,
) -> (r: Vec<ContextRelatedLink>)
    ensures
        shows_links(
            r@,
            shown_links(*data, tenant_id@, opt_str(owner_user_id), uri@, include_non_part_of),
        ),
{
    let ghost p = says_part_of(tenant_id@, opt_str(owner_user_id), uri@);
    let part_of = |link: &KnowledgeLink| -> (b: bool)
        ensures
            b == p(*link),
        {
            check_visible_link(link, tenant_id, owner_user_id) && text_eq(
                link.relation.as_str(),
                "part_of",
            ) && text_eq(link.source_uri.as_str(), uri)
        };
    let mut links: Vec<KnowledgeLink> = sort_by_confidence(
        select_values(&data.links, part_of, Ghost(p)),
    );
    if include_non_part_of {
        let ghost q = says_otherwise(tenant_id@, opt_str(owner_user_id), uri@);
        let otherwise = |link: &KnowledgeLink| -> (b: bool)
            ensures
                b == q(*link),
            {
                check_visible_link(link, tenant_id, owner_user_id) && !text_eq(
                    link.relation.as_str(),
                    "part_of",
                ) && (text_eq(link.source_uri.as_str(), uri) || text_eq(
                    link.target_uri.as_str(),
                    uri,
                ))
            };
        let mut others: Vec<KnowledgeLink> = sort_by_confidence(
            select_values(&data.links, otherwise, Ghost(q)),
        );
        limit_to(&mut others, OTHER_LINKS);
        links.append(&mut others);
    }
    let mut out: Vec<ContextRelatedLink> = Vec::new();
    let mut i: usize = 0;
    while i < links.len()
        invariant
            i <= links.len(),
            out@.len() == i,
            forall|j: int| 0 <= j < i ==> shows_link(#[trigger] out@[j], links@[j]),
        decreases links.len() - i,
    {
        out.push(context_related_link(&links[i]));
        i += 1;
    }
    out
}

/// The document of a hit: the one that it names, else the one that a link names.
pub open spec fn hit_document(
    d: StoreData,
    tenant_id: Seq<char>,
    owner: Option<Seq<char>>,
    hit: ContextHit,
) -> Option<SourceDocument> {
    let uri = if hit.source_document_uri is Some {
        opt_text(hit.source_document_uri)
    } else {
        match first_of(d.links.values(), says_part_of(tenant_id, owner, hit.uri@)) {
            Some(link) => Some(link.target_uri@),
            None => None,
        }
    };
    match uri {
        Some(u) => match document_for_owner(d.source_documents@, tenant_id, owner, u) {
            Some(document) => if is_active(document) {
                Some(document)
            } else {
                None
            },
            None => None,
        },
        None => None,
    }
}

/// The document of a hit.
pub fn source_document_for_hit(
    data: &StoreData,
    tenant_id: &str,
    owner_user_id: Option<&str>,
    hit: &ContextHit,
) -> (r: Option<SourceDocument>)
    ensures
        r == hit_document(*data, tenant_id@, opt_str(owner_user_id), *hit),
{
    let uri: Option<String> = if hit.source_document_uri.is_some() {
        hit.source_document_uri.clone()
    } else {
        let ghost p = says_part_of(tenant_id@, opt_str(owner_user_id), hit.uri@);
        let part_of = |link: &KnowledgeLink| -> (b: bool)
            ensures
                b == p(*link),
            {
                check_visible_link(link, tenant_id, owner_user_id) && text_eq(
                    link.relation.as_str(),
                    "part_of",
                ) && text_eq(link.source_uri.as_str(), hit.uri.as_str())
            };
        match first_value(&data.links, part_of, Ghost(p)) {
            Some(link) => Some(link.target_uri.clone()),
            None => None,
        }
    };
    match uri {
        Some(u) => match source_document_for_owner(data, tenant_id, owner_user_id, u.as_str()) {
            Some(document) => if text_eq(document.status.as_str(), "active") {
                Some(document.clone())
            } else {
                None
            },
            None => None,
        },
        None => None,
    }
}

/// Lists of nodes one behind the other.
pub open spec fn joined_nodes(lists: Seq<Vec<ContextNode>>) -> Seq<ContextNode>
    decreases lists.len(),
{
    if lists.len() == 0 {
        Seq::empty()
    } else {
        joined_nodes(lists.drop_last()) + lists.last()@
    }
}

/// Every node: those of the company, then those of the owners.
pub open spec fn all_nodes(d: StoreData) -> Seq<ContextNode> {
    d.company_context@ + joined_nodes(d.personal_context.values())
}

/// Every node: those of the company, then those of the owners.
pub fn all_context_nodes(data: &StoreData) -> (r: Vec<ContextNode>)
    ensures
        r@ == all_nodes(*data),
{
    let mut out: Vec<ContextNode> = copy_all(&data.company_context);
    let t: &Table<String, Vec<ContextNode>> = &data.personal_context;
    let n: usize = t.len();
    let ghost all = t.values();
    let ghost head = out@;
    let mut i: usize = 0;
    assert(head + joined_nodes(all.take(0)) =~= head);
    while i < n
        invariant
            i <= n == t.rows().len(),
            all == t.values(),
            all.len() == n,
            out@ == head + joined_nodes(all.take(i as int)),
        decreases n - i,
    {
        assert(all.take(i + 1).drop_last() =~= all.take(i as int));
        let mut list: Vec<ContextNode> = copy_all(t.value_at(i));
        out.append(&mut list);
        assert(out@ =~= head + joined_nodes(all.take(i + 1)));
        i += 1;
    }
    assert(all.take(i as int) =~= all);
    out
}

/// Whether two places in a document are the same or beside each other.
pub open spec fn beside(a: usize, b: usize) -> bool {
    a <= b + 1 && b <= a + 1
}

/// Whether a node is a fragment beside a hit.
pub open spec fn is_neighbor(
    tenant_id: Seq<char>,
    owner: Option<Seq<char>>,
    uri: Seq<char>,
    document_uri: Seq<char>,
    at: usize,
) -> spec_fn(ContextNode) -> bool {
    |node: ContextNode|
        node.uri@ != uri && node.tenant_id@ == tenant_id && is_candidate(node) && opt_text(
            node.source_document_uri,
        ) == Some(document_uri) && seen_by(opt_text(node.owner_user_id), owner)
            && node.fragment_index is Some && beside(node.fragment_index->Some_0, at)
}

/// The place of a node in its document.
pub open spec fn place_in_document(node: ContextNode) -> int {
    match node.fragment_index {
        Some(i) => i as int,
        None => u32::MAX as int,
    }
}

/// The order of nodes in their document.
pub open spec fn in_document_order() -> spec_fn(ContextNode, ContextNode) -> bool {
    |a: ContextNode, b: ContextNode| place_in_document(a) < place_in_document(b)
}

/// Nodes with each run of neighbours at the same URI made one.
pub open spec fn one_per_uri(s: Seq<ContextNode>) -> Seq<ContextNode>
    decreases s.len(),
{
    if s.len() == 0 {
        s
    } else {
        let d = one_per_uri(s.drop_last());
        if d.len() > 0 && d.last().uri@ == s.last().uri@ {
            d
        } else {
            d.push(s.last())
        }
    }
}

/// The fragments beside a hit.
pub open spec fn neighbors(
    d: StoreData,
    scoped: Seq<ContextNode>,
    tenant_id: Seq<char>,
    owner: Option<Seq<char>>,
    uri: Seq<char>,
    document_uri: Option<Seq<char>>,
    at: Option<usize>,
) -> Seq<ContextNode> {
    match (document_uri, at) {
        (Some(document), Some(place)) => one_per_uri(
            sorted_by(
                (scoped + all_nodes(d)).filter(
                    is_neighbor(tenant_id, owner, uri, document, place),
                ),
                in_document_order(),
            ),
        ),
        _ => Seq::empty(),
    }
}

/// Whether a fragment is shown beside a hit.
pub open spec fn shows_neighbor(f: ContextNeighborFragment, node: ContextNode) -> bool {
    &&& f.uri == node.uri
    &&& f.title == node.title
    &&& f.fragment_index == node.fragment_index
    &&& f.page_idx == node.page_idx
    &&& f.block_type == node.block_type
}

/// Whether fragments are shown one by one.
pub open spec fn shows_neighbors(r: Seq<ContextNeighborFragment>, nodes: Seq<ContextNode>) -> bool {
    r.len() == nodes.len() && forall|i: int|
        0 <= i < nodes.len() ==> shows_neighbor(#[trigger] r[i], nodes[i])
}

fn place_of(node: &ContextNode) -> (r: usize)
    ensures
        r == place_in_document(*node),
{
    match node.fragment_index {
        Some(i) => i,
        None => 0xffff_ffff,
    }
}

fn drop_repeats(v: &Vec<ContextNode>) -> (r: Vec<ContextNode>)
    ensures
        r@ == one_per_uri(v@),
{
    let mut out: Vec<ContextNode> = Vec::new();
    let mut i: usize = 0;
    assert(one_per_uri(v@.take(0)) =~= out@);
    while i < v.len()
        invariant
            i <= v.len(),
            out@ == one_per_uri(v@.take(i as int)),
        decreases v.len() - i,
    {
        assert(v@.take(i + 1).drop_last() =~= v@.take(i as int));
        let repeated: bool = out.len() > 0 && text_eq(
            out[out.len() - 1].uri.as_str(),
            v[i].uri.as_str(),
        );
        if !repeated {
            out.push(v[i].clone());
        }
        i += 1;
    }
    assert(v@.take(i as int) =~= v@);
    out
}

fn find_neighbors(
    data: &StoreData,
    scoped: &Vec<ContextNode>,
    tenant_id: &str,
    owner_user_id: Option<&str>,
    uri: &str,
    document_uri: &str,
    at: usize,
) -> (r: Vec<ContextNode>)
    ensures
        r@ == neighbors(
            *data,
            scoped@,
            tenant_id@,
            opt_str(owner_user_id),
            uri@,
            Some(document_uri@),
            Some(at),
        ),
{
    let mut all: Vec<ContextNode> = copy_all(scoped);
    let mut stored: Vec<ContextNode> = all_context_nodes(data);
    all.append(&mut stored);
    let ghost p = is_neighbor(tenant_id@, opt_str(owner_user_id), uri@, document_uri@, at);
    let near = |node: &ContextNode| -> (b: bool)
        ensures
            b == p(*node),
        {
            !text_eq(node.uri.as_str(), uri) && text_eq(node.tenant_id.as_str(), tenant_id)
                && retrieval_candidate(node) && opt_is(&node.source_document_uri, document_uri)
                && owner_can_see_optional(as_deref(&node.owner_user_id), owner_user_id)
                && match node.fragment_index {
                Some(i) => (if i <= at {
                    at - i <= 1
                } else {
                    i - at <= 1
                }),
                None => false,
            }
        };
    let found: Vec<ContextNode> = select(&all, near, Ghost(p));
    let ghost lt = in_document_order();
    let before = |a: &ContextNode, b: &ContextNode| -> (c: bool)
        ensures
            c == lt(*a, *b),
        { place_of(a) < place_of(b) };
    let sorted: Vec<ContextNode> = sort_by(found, before, Ghost(lt));
    drop_repeats(&sorted)
}

/// The fragments beside a hit.
pub fn neighbor_fragments_for_hit(
    data: &StoreData,
    tenant_id: &str,
    owner_user_id: Option<&str>,
    scoped_nodes: &Vec<ContextNode>,
    hit: &ContextHit,
) -> (r: Vec<ContextNeighborFragment>)
    ensures
        shows_neighbors(
            r@,
            neighbors(
                *data,
                scoped_nodes@,
                tenant_id@,
                opt_str(owner_user_id),
                hit.uri@,
                opt_text(hit.source_document_uri),
                hit.fragment_index,
            ),
        ),
{
    let mut out: Vec<ContextNeighborFragment> = Vec::new();
    match (&hit.source_document_uri, hit.fragment_index) {
        (Some(document_uri), Some(at)) => {
            let found: Vec<ContextNode> = find_neighbors(
                data,
                scoped_nodes,
                tenant_id,
                owner_user_id,
                hit.uri.as_str(),
                document_uri.as_str(),
                at,
            );
            let mut i: usize = 0;
            while i < found.len()
                invariant
                    i <= found.len(),
                    out@.len() == i,
                    forall|j: int| 0 <= j < i ==> shows_neighbor(#[trigger] out@[j], found@[j]),
                decreases found.len() - i,
            {
                let node: &ContextNode = &found[i];
                out.push(
                    ContextNeighborFragment {
                        uri: node.uri.clone(),
                        title: node.title.clone(),
                        fragment_index: node.fragment_index,
                        page_idx: node.page_idx,
                        block_type: node.block_type.clone(),
                    },
                );
                i += 1;
            }
            out
        },
        _ => out,
    }
}

/// Whether a summary says where a document is.
pub open spec fn summarizes(s: ContextSourceSummary, document: SourceDocument) -> bool {
    &&& s.source_document_uri == document.uri
    &&& s.source_id == document.source_id
    &&& s.revision_id == document.revision_id
    &&& s.source_title == document.title
}

/// Whether a hit is told where its source is.
pub open spec fn tells_source(profile: ContextReturnProfile, wanted: ContextIncludeSet) -> bool {
    profile != ContextReturnProfile::Compact || wanted.traceback
}

/// What a hit says of its source once it was told.
pub open spec fn sourced(
    h: ContextHit,
    before: ContextHit,
    document: Option<SourceDocument>,
    wanted: ContextIncludeSet,
    profile: ContextReturnProfile,
) -> bool {
    let full = profile == ContextReturnProfile::Full;
    if tells_source(profile, wanted) && document is Some {
        let source = document->Some_0;
        &&& h.source_document_uri == Some(source.uri)
        &&& h.source_id == Some(source.source_id)
        &&& h.revision_id == Some(source.revision_id)
        &&& h.source_title == Some(source.title)
        &&& if wanted.traceback || full {
            opt_text(h.source_relation) == Some("part_of"@)
        } else {
            h.source_relation == before.source_relation
        }
        &&& if wanted.source_summary || full {
            h.source_summary is Some && summarizes(h.source_summary->Some_0, source)
        } else {
            h.source_summary == before.source_summary
        }
    } else {
        &&& h.source_document_uri == before.source_document_uri
        &&& h.source_id == before.source_id
        &&& h.revision_id == before.revision_id
        &&& h.source_title == before.source_title
        &&& h.source_relation == before.source_relation
        &&& h.source_summary == before.source_summary
    }
}

/// Whether `j` says how a score came about that is of words alone.
pub open spec fn is_lexical(j: Json, score: Json) -> bool {
    match j {
        Json::Object(m) => m@.len() == 1 && m@[0].0@ == "lexical"@ && m@[0].1 == score,
        _ => false,
    }
}

/// Whether `h` is a hit with what is shown with it.
pub open spec fn is_enriched(
    h: ContextHit,
    before: ContextHit,
    d: StoreData,
    tenant_id: Seq<char>,
    owner: Option<Seq<char>>,
    nodes: Seq<ContextNode>,
    wanted: ContextIncludeSet,
    profile: ContextReturnProfile,
    score: Json,
) -> bool {
    let full = profile == ContextReturnProfile::Full;
    &&& h == (ContextHit {
        source_document_uri: h.source_document_uri,
        source_id: h.source_id,
        revision_id: h.revision_id,
        source_title: h.source_title,
        source_relation: h.source_relation,
        source_summary: h.source_summary,
        related_links: h.related_links,
        neighbor_fragments: h.neighbor_fragments,
        score_breakdown: h.score_breakdown,
        ..before
    })
    &&& sourced(h, before, hit_document(d, tenant_id, owner, before), wanted, profile)
    &&& if wanted.links || full {
        shows_links(
            h.related_links@,
            shown_links(d, tenant_id, owner, before.uri@, wanted.links),
        )
    } else {
        h.related_links == before.related_links
    }
    &&& if wanted.neighbor_fragments {
        shows_neighbors(
            h.neighbor_fragments@,
            neighbors(
                d,
                nodes,
                tenant_id,
                owner,
                before.uri@,
                opt_text(h.source_document_uri),
                before.fragment_index,
            ),
        )
    } else {
        h.neighbor_fragments == before.neighbor_fragments
    }
    &&& if wanted.score_breakdown && before.score_breakdown is None {
        h.score_breakdown is Some && is_lexical(h.score_breakdown->Some_0, score)
    } else {
        h.score_breakdown == before.score_breakdown
    }
}

fn tell_source(
    hit: &mut ContextHit,
    document: SourceDocument,
    wanted: &ContextIncludeSet,
    profile: ContextReturnProfile,
)
    requires
        tells_source(profile, *wanted),
    ensures
        sourced(*final(hit), *old(hit), Some(document), *wanted, profile),
        *final(hit) == (ContextHit {
            source_document_uri: final(hit).source_document_uri,
            source_id: final(hit).source_id,
            revision_id: final(hit).revision_id,
            source_title: final(hit).source_title,
            source_relation: final(hit).source_relation,
            source_summary: final(hit).source_summary,
            ..*old(hit)
        }),
{
    let full: bool = profile == ContextReturnProfile::Full;
    if wanted.traceback || full {
        hit.source_relation = Some("part_of".to_owned());
    }
    if wanted.source_summary || full {
        hit.source_summary = Some(
            ContextSourceSummary {
                source_document_uri: document.uri.clone(),
                source_id: document.source_id.clone(),
                revision_id: document.revision_id.clone(),
                source_title: document.title.clone(),
            },
        );
    }
    hit.source_document_uri = Some(document.uri);
    hit.source_id = Some(document.source_id);
    hit.revision_id = Some(document.revision_id);
    hit.source_title = Some(document.title);
}

/// Adds to a hit what is shown with it.
pub fn enrich_hit(
    data: &StoreData,
    tenant_id: &str,
    owner_user_id: Option<&str>,
    nodes: &Vec<ContextNode>,
    before: &ContextHit,
    wanted: &ContextIncludeSet,
    profile: ContextReturnProfile,
    score: &Json,
) -> (r: ContextHit)
    ensures
        is_enriched(
            r,
            *before,
            *data,
            tenant_id@,
            opt_str(owner_user_id),
            nodes@,
            *wanted,
            profile,
            *score,
        ),
{
    let mut hit: ContextHit = before.clone();
    let full: bool = profile == ContextReturnProfile::Full;
    if profile != ContextReturnProfile::Compact || wanted.traceback {
        match source_document_for_hit(data, tenant_id, owner_user_id, before) {
            Some(document) => {
                tell_source(&mut hit, document, wanted, profile);
            },
            None => {},
        }
    }
    if wanted.links || full {
        hit.related_links =
        std::sync::Arc::new(
            related_links_for_hit(
                data,
                tenant_id,
                owner_user_id,
                before.uri.as_str(),
                wanted.links,
            ),
        );
    }
    if wanted.neighbor_fragments {
        let found: Vec<ContextNeighborFragment> = neighbor_fragments_for_hit(
            data,
            tenant_id,
            owner_user_id,
            nodes,
            &hit,
        );
        hit.neighbor_fragments = std::sync::Arc::new(found);
    }
    if wanted.score_breakdown && hit.score_breakdown.is_none() {
        let mut m: Vec<(String, Json)> = Vec::new();
        m.push(("lexical".to_owned(), score.clone()));
        hit.score_breakdown = Some(Json::Object(std::sync::Arc::new(m)));
    }
    hit
}

/// Whether `h` is a hit as a compact answer shows it: only what was asked for is left of what goes
/// beyond the text itself.
pub open spec fn is_compact(h: ContextHit, before: ContextHit, wanted: ContextIncludeSet) -> bool {
    let source = wanted.traceback || wanted.source_summary;
    &&& h == (ContextHit {
        node_kind: None,
        retrieval_role: None,
        source_id: if source {
            before.source_id
        } else {
            None
        },
        revision_id: if source {
            before.revision_id
        } else {
            None
        },
        source_document_uri: if source {
            before.source_document_uri
        } else {
            None
        },
        source_title: if source {
            before.source_title
        } else {
            None
        },
        source_relation: if source {
            before.source_relation
        } else {
            None
        },
        fragment_index: None,
        char_start: None,
        char_end: None,
        block_type: None,
        page_idx: None,
        bbox: None,
        section_path: h.section_path,
        heading_level: None,
        asset_refs: h.asset_refs,
        artifact_refs: h.artifact_refs,
        checksum: None,
        source_summary: if wanted.source_summary {
            before.source_summary
        } else {
            None
        },
        neighbor_fragments: h.neighbor_fragments,
        related_links: h.related_links,
        score_breakdown: if wanted.score_breakdown {
            before.score_breakdown
        } else {
            None
        },
        ..before
    })
    &&& h.section_path@.len() == 0
    &&& h.asset_refs@.len() == 0
    &&& if wanted.artifact_refs {
        h.artifact_refs == before.artifact_refs
    } else {
        h.artifact_refs@.len() == 0
    }
    &&& if wanted.neighbor_fragments {
        h.neighbor_fragments == before.neighbor_fragments
    } else {
        h.neighbor_fragments@.len() == 0
    }
    &&& if wanted.links {
        h.related_links == before.related_links
    } else {
        h.related_links@.len() == 0
    }
}

fn compact_hit(before: &ContextHit, wanted: &ContextIncludeSet) -> (r: ContextHit)
    ensures
        is_compact(r, *before, *wanted),
{
    let mut hit: ContextHit = before.clone();
    hit.node_kind = None;
    hit.retrieval_role = None;
    if !(wanted.traceback || wanted.source_summary) {
        hit.source_id = None;
        hit.revision_id = None;
        hit.source_document_uri = None;
        hit.source_title = None;
        hit.source_relation = None;
    }
    hit.fragment_index = None;
    hit.char_start = None;
    hit.char_end = None;
    hit.block_type = None;
    hit.page_idx = None;
    hit.bbox = None;
    hit.section_path = std::sync::Arc::new(Vec::new());
    hit.heading_level = None;
    hit.asset_refs = std::sync::Arc::new(Vec::new());
    if !wanted.artifact_refs {
        hit.artifact_refs = std::sync::Arc::new(Vec::new());
    }
    hit.checksum = None;
    if !wanted.source_summary {
        hit.source_summary = None;
    }
    if !wanted.neighbor_fragments {
        hit.neighbor_fragments = std::sync::Arc::new(Vec::new());
    }
    if !wanted.links {
        hit.related_links = std::sync::Arc::new(Vec::new());
    }
    if !wanted.score_breakdown {
        hit.score_breakdown = None;
    }
    hit
}

/// Whether hits are as a profile shows them.
pub open spec fn are_shaped(
    r: Seq<ContextHit>,
    hits: Seq<ContextHit>,
    profile: ContextReturnProfile,
    wanted: ContextIncludeSet,
) -> bool {
    if profile != ContextReturnProfile::Compact {
        r == hits
    } else {
        r.len() == hits.len() && forall|i: int|
            0 <= i < hits.len() ==> is_compact(#[trigger] r[i], hits[i], wanted)
    }
}

/// Hits as a profile shows them.
pub fn shape_context_hits(
    hits: Vec<ContextHit>,
    profile: ContextReturnProfile,
    wanted: &ContextIncludeSet,
) -> (r: Vec<ContextHit>)
    ensures
        are_shaped(r@, hits@, profile, *wanted),
{
    if profile != ContextReturnProfile::Compact {
        return hits;
    }
    let mut out: Vec<ContextHit> = Vec::new();
    let mut i: usize = 0;
    while i < hits.len()
        invariant
            i <= hits.len(),
            out@.len() == i,
            forall|j: int| 0 <= j < i ==> is_compact(#[trigger] out@[j], hits@[j], *wanted),
        decreases hits.len() - i,
    {
        out.push(compact_hit(&hits[i], wanted));
        i += 1;
    }
    out
}

/// A range of pages.
#[derive(Debug, Clone, Copy, PartialEq, Eq, Structural)]
pub struct ContextPageRange {
    pub start: usize,
    pub end: usize,
}

/// The hits of one source.
pub struct ContextSourceGroup {
    pub source_document_uri: String,
    pub source_id: String,
    pub revision_id: String,
    pub source_title: String,
    /// The bits of a 32-bit float.
    pub top_score: u32,
    pub hit_count: usize,
    pub page_range: Option<ContextPageRange>,
    pub block_types: Vec<String>,
    pub top_hit_uri: String,
}

/// The source of a hit: its document, else itself.
pub open spec fn source_key(hit: ContextHit) -> Seq<char> {
    match opt_text(hit.source_document_uri) {
        Some(uri) => uri,
        None => hit.uri@,
    }
}

fn source_key_of(hit: &ContextHit) -> (r: &str)
    ensures
        r@ == source_key(*hit),
{
    match &hit.source_document_uri {
        Some(uri) => uri.as_str(),
        None => hit.uri.as_str(),
    }
}

/// The sources of hits, each once, in the order in which they come.
pub open spec fn source_keys(hits: Seq<ContextHit>) -> Seq<Seq<char>>
    decreases hits.len(),
{
    if hits.len() == 0 {
        Seq::empty()
    } else {
        let front = source_keys(hits.drop_last());
        if front.contains(source_key(hits.last())) {
            front
        } else {
            front.push(source_key(hits.last()))
        }
    }
}

/// Whether a hit has a source.
pub open spec fn has_source(key: Seq<char>) -> spec_fn(ContextHit) -> bool {
    |hit: ContextHit| source_key(hit) == key
}

/// The greatest score of hits.
pub open spec fn top_score(hits: Seq<ContextHit>) -> u32
    decreases hits.len(),
{
    if hits.len() == 0 {
        0
    } else if hits.len() == 1 {
        float_max(hits[0].score, hits[0].score)
    } else {
        float_max(top_score(hits.drop_last()), hits.last().score)
    }
}

/// A range of pages with one page more.
pub open spec fn with_page(range: Option<ContextPageRange>, page: Option<usize>) -> Option<
    ContextPageRange,
> {
    match (range, page) {
        (None, None) => None,
        (None, Some(p)) => Some(ContextPageRange { start: p, end: p }),
        (Some(r), None) => Some(r),
        (Some(r), Some(p)) => Some(
            ContextPageRange {
                start: if p < r.start {
                    p
                } else {
                    r.start
                },
                end: if p > r.end {
                    p
                } else {
                    r.end
                },
            },
        ),
    }
}

/// The pages of hits, from the first to the last.
pub open spec fn page_range(hits: Seq<ContextHit>) -> Option<ContextPageRange>
    decreases hits.len(),
{
    if hits.len() == 0 {
        None
    } else {
        with_page(page_range(hits.drop_last()), hits.last().page_idx)
    }
}

/// The kinds of blocks of hits, each once.
pub open spec fn block_types(hits: Seq<ContextHit>) -> Seq<Seq<char>>
    decreases hits.len(),
{
    if hits.len() == 0 {
        Seq::empty()
    } else {
        let front = block_types(hits.drop_last());
        match opt_text(hits.last().block_type) {
            Some(kind) => if front.contains(kind) {
                front
            } else {
                front.push(kind)
            },
            None => front,
        }
    }
}

/// Whether a group is that of its hits: the first of them gives it its names.
pub open spec fn is_group(g: ContextSourceGroup, key: Seq<char>, hits: Seq<ContextHit>) -> bool {
    &&& hits.len() > 0
    &&& g.source_document_uri@ == key
    &&& g.source_id@ == owner_text(opt_text(hits[0].source_id))
    &&& g.revision_id@ == owner_text(opt_text(hits[0].revision_id))
    &&& g.source_title@ == (match opt_text(hits[0].source_title) {
        Some(title) => title,
        None => hits[0].title@,
    })
    &&& g.top_score == top_score(hits)
    &&& g.hit_count == hits.len()
    &&& g.page_range == page_range(hits)
    &&& texts(g.block_types@) == block_types(hits)
    &&& g.top_hit_uri == hits[0].uri
}

/// Whether groups are those of hits, one for each source.
pub open spec fn are_groups(groups: Seq<ContextSourceGroup>, hits: Seq<ContextHit>) -> bool {
    let keys = source_keys(hits);
    groups.len() == keys.len() && forall|i: int|
        0 <= i < keys.len() ==> is_group(
            #[trigger] groups[i],
            keys[i],
            hits.filter(has_source(keys[i])),
        )
}

fn new_group(hit: &ContextHit) -> (r: ContextSourceGroup)
    ensures
        is_group(r, source_key(*hit), seq![*hit]),
{
    let title: String = match &hit.source_title {
        Some(t) => t.clone(),
        None => hit.title.clone(),
    };
    let mut block_types_seen: Vec<String> = Vec::new();
    let ghost one = seq![*hit];
    assert(one.drop_last() =~= Seq::<ContextHit>::empty());
    assert(texts(block_types_seen@) =~= block_types(one.drop_last()));
    assert(page_range(one.drop_last()) is None);
    assert(page_range(one) == with_page(None, hit.page_idx));
    match &hit.block_type {
        Some(kind) => {
            let ghost was = block_types_seen@;
            block_types_seen.push(kind.clone());
            assert(texts(block_types_seen@) =~= texts(was).push(kind@));
        },
        None => {},
    }
    assert(texts(block_types_seen@) == block_types(one));
    ContextSourceGroup {
        source_document_uri: source_key_of(hit).to_owned(),
        source_id: owner_or_empty(as_deref(&hit.source_id)).to_owned(),
        revision_id: owner_or_empty(as_deref(&hit.revision_id)).to_owned(),
        source_title: title,
        top_score: greater_float(hit.score, hit.score),
        hit_count: 1,
        page_range: match hit.page_idx {
            Some(p) => Some(ContextPageRange { start: p, end: p }),
            None => None,
        },
        block_types: block_types_seen,
        top_hit_uri: hit.uri.clone(),
    }
}

fn widen(range: Option<ContextPageRange>, page: Option<usize>) -> (r: Option<ContextPageRange>)
    ensures
        r == with_page(range, page),
{
    match (range, page) {
        (None, None) => None,
        (None, Some(p)) => Some(ContextPageRange { start: p, end: p }),
        (Some(r), None) => Some(r),
        (Some(r), Some(p)) => Some(
            ContextPageRange {
                start: if p < r.start {
                    p
                } else {
                    r.start
                },
                end: if p > r.end {
                    p
                } else {
                    r.end
                },
            },
        ),
    }
}

fn add_to_group(
    group: ContextSourceGroup,
    hit: &ContextHit,
    Ghost(key): Ghost<Seq<char>>,
    Ghost(hits): Ghost<Seq<ContextHit>>,
) -> (r: ContextSourceGroup)
    requires
        is_group(group, key, hits),
        hits.len() < usize::MAX,
    ensures
        is_group(r, key, hits.push(*hit)),
{
    let ghost more = hits.push(*hit);
    assert(more.drop_last() =~= hits);
    let mut g: ContextSourceGroup = group;
    g.top_score = greater_float(g.top_score, hit.score);
    g.hit_count = g.hit_count + 1;
    g.page_range = widen(g.page_range, hit.page_idx);
    match &hit.block_type {
        Some(kind) => {
            if !texts_contain(&g.block_types, kind.as_str()) {
                let k: String = kind.clone();
                proof {
                    texts_push(g.block_types@, k);
                }
                let mut kinds: Vec<String> = g.block_types;
                kinds.push(k);
                g.block_types = kinds;
            }
        },
        None => {},
    }
    g
}

proof fn lemma_filter_step(hits: Seq<ContextHit>, i: int, key: Seq<char>)
    requires
        0 <= i < hits.len(),
    ensures
        hits.take(i + 1).filter(has_source(key)) == (if source_key(hits[i]) == key {
            hits.take(i).filter(has_source(key)).push(hits[i])
        } else {
            hits.take(i).filter(has_source(key))
        }),
{
    assert(hits.take(i + 1).drop_last() =~= hits.take(i));
    reveal(Seq::filter);
}

proof fn lemma_filter_len(hits: Seq<ContextHit>, key: Seq<char>)
    ensures
        hits.filter(has_source(key)).len() <= hits.len(),
    decreases hits.len(),
{
    reveal(Seq::filter);
    if hits.len() > 0 {
        lemma_filter_len(hits.drop_last(), key);
    }
}

proof fn lemma_no_source(hits: Seq<ContextHit>, key: Seq<char>)
    requires
        !source_keys(hits).contains(key),
    ensures
        hits.filter(has_source(key)) == Seq::<ContextHit>::empty(),
    decreases hits.len(),
{
    reveal(Seq::filter);
    if hits.len() > 0 {
        let front = source_keys(hits.drop_last());
        if front.contains(key) {
            let j = choose|j: int| 0 <= j < front.len() && front[j] == key;
            assert(source_keys(hits)[j] == key);
        }
        if source_key(hits.last()) == key {
            if front.contains(key) {
            } else {
                assert(source_keys(hits)[front.len() as int] == key);
            }
        }
        lemma_no_source(hits.drop_last(), key);
    } else {
        assert(hits.filter(has_source(key)) =~= Seq::<ContextHit>::empty());
    }
}

proof fn lemma_distinct_sources(hits: Seq<ContextHit>)
    ensures
        source_keys(hits).no_duplicates(),
    decreases hits.len(),
{
    if hits.len() > 0 {
        lemma_distinct_sources(hits.drop_last());
    }
}

fn find_group(keys: &Vec<String>, key: &str) -> (r: usize)
    ensures
        r <= keys@.len(),
        r < keys@.len() ==> keys@[r as int]@ == key@,
        r == keys@.len() <==> !texts(keys@).contains(key@),
{
    let mut i: usize = 0;
    while i < keys.len()
        invariant
            i <= keys.len(),
            forall|j: int| 0 <= j < i ==> (#[trigger] keys@[j])@ != key@,
        decreases keys.len() - i,
    {
        if text_eq(keys[i].as_str(), key) {
            assert(texts(keys@)[i as int] == key@);
            return i;
        }
        i += 1;
    }
    proof {
        if texts(keys@).contains(key@) {
            let j = choose|j: int| 0 <= j < texts(keys@).len() && texts(keys@)[j] == key@;
            assert(keys@[j]@ == key@);
        }
    }
    i
}

fn replace_group(
    groups: Vec<ContextSourceGroup>,
    at: usize,
    hit: &ContextHit,
    Ghost(key): Ghost<Seq<char>>,
    Ghost(hits): Ghost<Seq<ContextHit>>,
) -> (r: Vec<ContextSourceGroup>)
    requires
        at < groups@.len(),
        is_group(groups@[at as int], key, hits),
        hits.len() < usize::MAX,
    ensures
        r@.len() == groups@.len(),
        is_group(r@[at as int], key, hits.push(*hit)),
        forall|j: int| 0 <= j < r@.len() && j != at ==> r@[j] == groups@[j],
{
    let mut all: Vec<ContextSourceGroup> = groups;
    let group: ContextSourceGroup = all.remove(at);
    let changed: ContextSourceGroup = add_to_group(group, hit, Ghost(key), Ghost(hits));
    all.insert(at, changed);
    all
}

/// The hits by source; a compact answer has no groups.
pub fn context_source_groups(profile: ContextReturnProfile, hits: &Vec<ContextHit>) -> (r: Vec<
    ContextSourceGroup,
>)
    ensures
        if profile == ContextReturnProfile::Compact {
            r@.len() == 0
        } else {
            are_groups(r@, hits@)
        },
{
    let mut groups: Vec<ContextSourceGroup> = Vec::new();
    if profile == ContextReturnProfile::Compact {
        return groups;
    }
    let mut keys: Vec<String> = Vec::new();
    let mut i: usize = 0;
    assert(texts(keys@) =~= source_keys(hits@.take(0)));
    while i < hits.len()
        invariant
            i <= hits.len(),
            texts(keys@) == source_keys(hits@.take(i as int)),
            groups@.len() == keys@.len(),
            are_groups(groups@, hits@.take(i as int)),
        decreases hits.len() - i,
    {
        let ghost before = hits@.take(i as int);
        let ghost after = hits@.take(i + 1);
        let ghost names = source_keys(before);
        let ghost earlier = groups@;
        proof {
            assert(after.drop_last() =~= before);
            assert(after.last() == hits@[i as int]);
            lemma_distinct_sources(before);
            assert forall|j: int| 0 <= j < names.len() implies is_group(
                #[trigger] earlier[j],
                names[j],
                before.filter(has_source(names[j])),
            ) by {
            }
        }
        let hit: &ContextHit = &hits[i];
        let key: &str = source_key_of(hit);
        let at: usize = find_group(&keys, key);
        if at < keys.len() {
            let ghost old_hits = before.filter(has_source(key@));
            proof {
                assert(names[at as int] == texts(keys@)[at as int]);
                lemma_filter_len(before, key@);
                lemma_filter_step(hits@, i as int, key@);
            }
            groups = replace_group(groups, at, hit, Ghost(key@), Ghost(old_hits));
            proof {
                assert(source_keys(after) == names);
                assert forall|j: int| 0 <= j < names.len() implies is_group(
                    #[trigger] groups@[j],
                    names[j],
                    after.filter(has_source(names[j])),
                ) by {
                    lemma_filter_step(hits@, i as int, names[j]);
                    if j != at {
                        assert(names[j] != names[at as int]);
                        assert(is_group(
                            earlier[j],
                            names[j],
                            before.filter(has_source(names[j])),
                        ));
                    }
                }
            }
        } else {
            let name: String = key.to_owned();
            groups.push(new_group(hit));
            proof {
                texts_push(keys@, name);
                lemma_no_source(before, key@);
                assert(source_keys(after) == names.push(key@));
                assert forall|j: int| 0 <= j < names.len() + 1 implies is_group(
                    #[trigger] groups@[j],
                    names.push(key@)[j],
                    after.filter(has_source(names.push(key@)[j])),
                ) by {
                    lemma_filter_step(hits@, i as int, names.push(key@)[j]);
                    if j < names.len() {
                        assert(names.push(key@)[j] == names[j]);
                        assert(names.contains(names[j]));
                        assert(is_group(
                            earlier[j],
                            names[j],
                            before.filter(has_source(names[j])),
                        ));
                    } else {
                        assert(Seq::<ContextHit>::empty().push(*hit) =~= seq![*hit]);
                    }
                }
            }
            keys.push(name);
        }
        i += 1;
    }
    assert(hits@.take(i as int) =~= hits@);
    groups
}

/// Each source has one group.
pub proof fn a_source_has_one_group(groups: Seq<ContextSourceGroup>, hits: Seq<ContextHit>, i: int, j: int)
    requires
        are_groups(groups, hits),
        0 <= i < groups.len(),
        0 <= j < groups.len(),
        i != j,
    ensures
        groups[i].source_document_uri@ != groups[j].source_document_uri@,
{
    lemma_distinct_sources(hits);
    let keys = source_keys(hits);
    assert(is_group(groups[i], keys[i], hits.filter(has_source(keys[i]))));
    assert(is_group(groups[j], keys[j], hits.filter(has_source(keys[j]))));
}

} // verus!
