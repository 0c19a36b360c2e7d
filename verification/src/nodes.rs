//! Context nodes: the layers of an entry, the fragments of a document, and documents themselves.

use vstd::prelude::*;
use vstd::string::*;

use crate::json::Json;
use crate::masking::{
    all_egress_masked, egress_masked, fragment_masked,
    mask_secret_egress_projection_preserving_chars,
    mask_secret_fragment_projection_preserving_chars,
};
use crate::model::ingest::{ParsedBlock, SourceDocument};
use crate::model::knowledge::{ContextNode, ParseArtifactRef};
use crate::naming::{ancestor_uris, ancestors};
use crate::record::List;
use crate::text::{
    blank, chars_of, decimal, decimal_text, is_blank, opt_str, opt_text, padded4, padded4_text,
    text_eq, text_of, text_range, texts, trim, trimmed, trimmed_has_bare_ends,
    trimming_takes_the_ends,
};

verus! {

/// What kind of node a layer has.
pub open spec fn layer_kind(layer: u8) -> Seq<char> {
    if layer == 0 {
        "abstract"@
    } else if layer == 1 {
        "overview"@
    } else {
        "fragment"@
    }
}

/// What kind of node a layer has.
pub fn node_kind_for_layer(layer: u8) -> (r: &'static str)
    ensures
        r@ == layer_kind(layer),
{
    if layer == 0 {
        "abstract"
    } else if layer == 1 {
        "overview"
    } else {
        "fragment"
    }
}

/// What part a layer has in retrieval.
pub open spec fn layer_role(layer: u8) -> Seq<char> {
    if layer == 2 {
        "fragment"@
    } else if layer == 1 {
        "overview"@
    } else {
        "none"@
    }
}

/// What part a layer has in retrieval.
pub fn retrieval_role_for_layer(layer: u8) -> (r: &'static str)
    ensures
        r@ == layer_role(layer),
{
    if layer == 2 {
        "fragment"
    } else if layer == 1 {
        "overview"
    } else {
        "none"
    }
}

/// Whether `s` ends in `suffix`.
pub open spec fn has_suffix(s: Seq<char>, suffix: Seq<char>) -> bool {
    suffix.len() <= s.len() && s.skip(s.len() - suffix.len()) == suffix
}

fn ends_with(s: &Vec<char>, suffix: &str) -> (r: bool)
    ensures
        r == has_suffix(s@, suffix@),
        r ==> suffix@.len() <= s@.len(),
{
    let y: Vec<char> = chars_of(suffix);
    if y.len() > s.len() {
        return false;
    }
    let from: usize = s.len() - y.len();
    let mut i: usize = 0;
    let ghost tail = s@.skip(from as int);
    while i < y.len()
        invariant
            i <= y.len(),
            y@ == suffix@,
            from + y.len() == s.len(),
            tail == s@.skip(from as int),
            forall|j: int| 0 <= j < i ==> #[trigger] tail[j] == y@[j],
        decreases y.len() - i,
    {
        assert(tail[i as int] == s@[from + i]);
        if s[from + i] != y[i] {
            return false;
        }
        i += 1;
    }
    assert(tail =~= y@);
    true
}

/// A URI without the name of a layer at its end.
pub open spec fn without_layer(uri: Seq<char>) -> Seq<char> {
    if has_suffix(uri, "/.abstract"@) {
        uri.take(uri.len() - "/.abstract"@.len())
    } else if has_suffix(uri, "/.overview"@) {
        uri.take(uri.len() - "/.overview"@.len())
    } else if has_suffix(uri, "/detail"@) {
        uri.take(uri.len() - "/detail"@.len())
    } else if has_suffix(uri, "/chunks/0001"@) {
        uri.take(uri.len() - "/chunks/0001"@.len())
    } else {
        uri
    }
}

fn cut(x: &Vec<char>, suffix: &str) -> (r: String)
    requires
        suffix@.len() <= x@.len(),
    ensures
        r@ == x@.take(x@.len() - suffix@.len()),
{
    let n: usize = chars_of(suffix).len();
    let end: usize = x.len() - n;
    assert(x@.subrange(0, end as int) =~= x@.take(end as int));
    text_range(x, 0, end)
}

/// A URI without the name of a layer at its end.
pub fn strip_layer_suffix(uri: &str) -> (r: String)
    ensures
        r@ == without_layer(uri@),
{
    let x: Vec<char> = chars_of(uri);
    if ends_with(&x, "/.abstract") {
        cut(&x, "/.abstract")
    } else if ends_with(&x, "/.overview") {
        cut(&x, "/.overview")
    } else if ends_with(&x, "/detail") {
        cut(&x, "/detail")
    } else if ends_with(&x, "/chunks/0001") {
        cut(&x, "/chunks/0001")
    } else {
        text_of(&x)
    }
}

/// The URI by which a link knows what it connects.
pub open spec fn link_uri(uri: Seq<char>) -> Seq<char> {
    without_layer(trimmed(uri))
}

/// The URI by which a link knows what it connects.
pub fn canonical_link_uri(uri: &str) -> (r: String)
    ensures
        r@ == link_uri(uri@),
{
    strip_layer_suffix(trim(uri).as_str())
}

/// Whether a text is the name of a layer at the end of a URI.
pub open spec fn is_layer_suffix(s: Seq<char>) -> bool {
    s == "/.abstract"@ || s == "/.overview"@ || s == "/detail"@ || s == "/chunks/0001"@
}

proof fn lemma_without_layer(uri: Seq<char>, suffix: Seq<char>)
    requires
        is_layer_suffix(suffix),
    ensures
        without_layer(uri + suffix) == uri,
{
    let all = uri + suffix;
    reveal_strlit("/.abstract");
    reveal_strlit("/.overview");
    reveal_strlit("/detail");
    reveal_strlit("/chunks/0001");
    assert(all.last() == suffix.last());
    assert(all.subrange(all.len() - suffix.len(), all.len() as int) =~= suffix);
    assert(all.skip(all.len() - suffix.len()) =~= suffix);
    assert(all.take(all.len() - suffix.len()) =~= uri);
    assert forall|other: Seq<char>|
        is_layer_suffix(other) && other != suffix implies !#[trigger] has_suffix(all, other) by {
        assert(other.last() != suffix.last());
        if has_suffix(all, other) {
            assert(all.skip(all.len() - other.len()).last() == all.last());
        }
    }
}

/// A URI, the same with white space round it and the same with the name of a layer at its end are
/// one to a link.
pub proof fn one_uri_for_every_layer(
    front: Seq<char>,
    uri: Seq<char>,
    suffix: Seq<char>,
    back: Seq<char>,
)
    requires
        trimmed(uri) == uri,
        forall|s: Seq<char>| is_layer_suffix(s) ==> !#[trigger] has_suffix(uri, s),
        is_layer_suffix(suffix) || suffix.len() == 0,
        blank(front),
        blank(back),
    ensures
        link_uri(front + uri + suffix + back) == uri,
{
    trimmed_has_bare_ends(uri);
    let named = uri + suffix;
    if suffix.len() == 0 {
        assert(named =~= uri);
        assert(is_layer_suffix("/.abstract"@) && is_layer_suffix("/.overview"@));
        assert(is_layer_suffix("/detail"@) && is_layer_suffix("/chunks/0001"@));
    } else {
        reveal_strlit("/.abstract");
        reveal_strlit("/.overview");
        reveal_strlit("/detail");
        reveal_strlit("/chunks/0001");
        assert(named.last() == suffix.last());
        assert(uri.len() == 0 ==> named[0] == suffix[0]);
        assert(uri.len() > 0 ==> named[0] == uri[0]);
        lemma_without_layer(uri, suffix);
    }
    assert(front + uri + suffix + back =~= front + named + back);
    trimming_takes_the_ends(front, named, back);
}

/// Who may see a node of a kind of index.
pub open spec fn privacy_of(index_kind: Seq<char>) -> Seq<char> {
    if index_kind == "company"@ {
        "company"@
    } else {
        "private"@
    }
}

/// What a node is made of.
pub struct NodeParts<'a> {
    pub uri: &'a str,
    pub title: &'a str,
    pub layer: u8,
    pub body: &'a str,
    pub index_kind: &'a str,
    pub index_uid: &'a str,
    pub tenant_id: &'a str,
    pub owner_user_id: Option<&'a str>,
    pub source_id: Option<&'a str>,
    pub revision_id: Option<&'a str>,
}

/// What a node is made of, by content.
pub struct PartsView {
    pub uri: Seq<char>,
    pub title: Seq<char>,
    pub layer: u8,
    pub body: Seq<char>,
    pub index_kind: Seq<char>,
    pub index_uid: Seq<char>,
    pub tenant_id: Seq<char>,
    pub owner_user_id: Option<Seq<char>>,
    pub source_id: Option<Seq<char>>,
    pub revision_id: Option<Seq<char>>,
}

impl<'a> View for NodeParts<'a> {
    type V = PartsView;

    open spec fn view(&self) -> PartsView {
        PartsView {
            uri: self.uri@,
            title: self.title@,
            layer: self.layer,
            body: self.body@,
            index_kind: self.index_kind@,
            index_uid: self.index_uid@,
            tenant_id: self.tenant_id@,
            owner_user_id: opt_str(self.owner_user_id),
            source_id: opt_str(self.source_id),
            revision_id: opt_str(self.revision_id),
        }
    }
}

/// Whether `n` is the node made of `parts`.
pub open spec fn is_node(n: ContextNode, parts: PartsView, now: i64) -> bool {
    &&& n.uri@ == parts.uri
    &&& n.title@ == parts.title
    &&& n.layer == parts.layer
    &&& n.body@ == parts.body
    &&& n.tenant_id@ == parts.tenant_id
    &&& opt_text(n.owner_user_id) == parts.owner_user_id
    &&& n.index_uid@ == parts.index_uid
    &&& n.index_kind@ == parts.index_kind
    &&& texts(n.ancestor_uris@) == ancestors(parts.uri, parts.uri.len() as int)
    &&& n.node_kind@ == layer_kind(parts.layer)
    &&& n.retrieval_role@ == layer_role(parts.layer)
    &&& n.retrieval_enabled == (parts.layer == 2)
    &&& n.parent_uri is None
    &&& n.source_document_uri is None
    &&& n.fragment_index is None
    &&& n.char_start is None
    &&& n.char_end is None
    &&& n.token_estimate is None
    &&& n.checksum is None
    &&& opt_text(n.source_id) == parts.source_id
    &&& opt_text(n.revision_id) == parts.revision_id
    &&& n.block_type is None
    &&& n.page_idx is None
    &&& n.bbox is None
    &&& n.section_path@.len() == 0
    &&& n.heading_level is None
    &&& n.asset_refs@.len() == 0
    &&& n.artifact_refs@.len() == 0
    &&& n.status@ == "active"@
    &&& n.privacy@ == privacy_of(parts.index_kind)
    &&& n.updated_at == now
}

/// The node made of `parts`.
pub fn context_node(parts: &NodeParts<'_>, now: i64) -> (r: ContextNode)
    ensures
        is_node(r, parts@, now),
{
    ContextNode {
        uri: parts.uri.to_owned(),
        title: parts.title.to_owned(),
        layer: parts.layer,
        body: parts.body.to_owned(),
        tenant_id: parts.tenant_id.to_owned(),
        owner_user_id: crate::text::opt_owned(parts.owner_user_id),
        index_uid: parts.index_uid.to_owned(),
        index_kind: parts.index_kind.to_owned(),
        ancestor_uris: std::sync::Arc::new(ancestor_uris(parts.uri)),
        node_kind: node_kind_for_layer(parts.layer).to_owned(),
        retrieval_role: retrieval_role_for_layer(parts.layer).to_owned(),
        retrieval_enabled: parts.layer == 2,
        parent_uri: None,
        source_document_uri: None,
        fragment_index: None,
        char_start: None,
        char_end: None,
        token_estimate: None,
        checksum: None,
        source_id: crate::text::opt_owned(parts.source_id),
        revision_id: crate::text::opt_owned(parts.revision_id),
        block_type: None,
        page_idx: None,
        bbox: None,
        section_path: std::sync::Arc::new(Vec::new()),
        heading_level: None,
        asset_refs: std::sync::Arc::new(Vec::new()),
        artifact_refs: std::sync::Arc::new(Vec::new()),
        status: "active".to_owned(),
        privacy: if text_eq(parts.index_kind, "company") {
            "company".to_owned()
        } else {
            "private".to_owned()
        },
        updated_at: now,
    }
}

/// A part of a document that is retrieved on its own.
pub struct FragmentChunk {
    pub fragment_index: usize,
    pub content: String,
    pub char_start: Option<usize>,
    pub char_end: Option<usize>,
    pub token_estimate: usize,
    pub checksum: String,
    pub block_type: Option<String>,
    pub page_idx: Option<usize>,
    pub bbox: Option<Json>,
    pub section_path: List<String>,
    pub heading_level: Option<usize>,
    pub asset_refs: List<String>,
}

/// The URI of a fragment.
pub open spec fn fragment_uri(source_document_uri: Seq<char>, fragment_index: nat) -> Seq<char> {
    source_document_uri + "/fragments/"@ + padded4(fragment_index + 1)
}

/// The URI of a fragment.
pub fn fragment_uri_of(source_document_uri: &str, fragment_index: usize) -> (r: String)
    requires
        fragment_index < usize::MAX,
    ensures
        r@ == fragment_uri(source_document_uri@, fragment_index as nat),
{
    let mut out: String = source_document_uri.to_owned();
    out.append("/fragments/");
    out.append(padded4_text((fragment_index + 1) as u64).as_str());
    out
}

/// The title of a fragment.
pub open spec fn fragment_title(title: Seq<char>, fragment_index: nat) -> Seq<char> {
    title + " fragment "@ + decimal(fragment_index + 1)
}

/// The title of a fragment.
pub fn fragment_title_of(title: &str, fragment_index: usize) -> (r: String)
    requires
        fragment_index < usize::MAX,
    ensures
        r@ == fragment_title(title@, fragment_index as nat),
{
    let mut out: String = title.to_owned();
    out.append(" fragment ");
    out.append(decimal_text((fragment_index + 1) as u64).as_str());
    out
}

/// Where a fragment belongs.
pub struct FragmentHome<'a> {
    pub title: &'a str,
    pub index_kind: &'a str,
    pub index_uid: &'a str,
    pub tenant_id: &'a str,
    pub owner_user_id: Option<&'a str>,
    pub source_id: &'a str,
    pub revision_id: &'a str,
    pub source_document_uri: &'a str,
}

/// Where a fragment belongs, by content.
pub struct HomeView {
    pub title: Seq<char>,
    pub index_kind: Seq<char>,
    pub index_uid: Seq<char>,
    pub tenant_id: Seq<char>,
    pub owner_user_id: Option<Seq<char>>,
    pub source_id: Seq<char>,
    pub revision_id: Seq<char>,
    pub source_document_uri: Seq<char>,
}

impl<'a> View for FragmentHome<'a> {
    type V = HomeView;

    open spec fn view(&self) -> HomeView {
        HomeView {
            title: self.title@,
            index_kind: self.index_kind@,
            index_uid: self.index_uid@,
            tenant_id: self.tenant_id@,
            owner_user_id: opt_str(self.owner_user_id),
            source_id: self.source_id@,
            revision_id: self.revision_id@,
            source_document_uri: self.source_document_uri@,
        }
    }
}

/// Whether `n` is the node of a fragment.
pub open spec fn is_fragment_node(
    n: ContextNode,
    home: HomeView,
    fragment: FragmentChunk,
    artifact_refs: List<ParseArtifactRef>,
    now: i64,
) -> bool {
    let uri = fragment_uri(home.source_document_uri, fragment.fragment_index as nat);
    &&& n.uri@ == uri
    &&& n.title@ == fragment_title(home.title, fragment.fragment_index as nat)
    &&& n.layer == 2
    &&& n.body@ == fragment.content@
    &&& n.tenant_id@ == home.tenant_id
    &&& opt_text(n.owner_user_id) == home.owner_user_id
    &&& n.index_uid@ == home.index_uid
    &&& n.index_kind@ == home.index_kind
    &&& texts(n.ancestor_uris@) == ancestors(uri, uri.len() as int)
    &&& n.node_kind@ == "fragment"@
    &&& n.retrieval_role@ == "fragment"@
    &&& n.retrieval_enabled
    &&& opt_text(n.parent_uri) == Some(home.source_document_uri)
    &&& opt_text(n.source_document_uri) == Some(home.source_document_uri)
    &&& n.fragment_index == Some(fragment.fragment_index)
    &&& n.char_start == fragment.char_start
    &&& n.char_end == fragment.char_end
    &&& n.token_estimate == Some(fragment.token_estimate)
    &&& opt_text(n.checksum) == Some(fragment.checksum@)
    &&& opt_text(n.source_id) == Some(home.source_id)
    &&& opt_text(n.revision_id) == Some(home.revision_id)
    &&& n.block_type == fragment.block_type
    &&& n.page_idx == fragment.page_idx
    &&& n.bbox == fragment.bbox
    &&& n.section_path == fragment.section_path
    &&& n.heading_level == fragment.heading_level
    &&& n.asset_refs == fragment.asset_refs
    &&& n.artifact_refs == artifact_refs
    &&& n.status@ == "active"@
    &&& n.privacy@ == privacy_of(home.index_kind)
    &&& n.updated_at == now
}

/// The node of a fragment.
pub fn fragment_context_node(
    home: &FragmentHome<'_>,
    fragment: &FragmentChunk,
    artifact_refs: &List<ParseArtifactRef>,
    now: i64,
) -> (r: ContextNode)
    requires
        fragment.fragment_index < usize::MAX,
    ensures
        is_fragment_node(r, home@, *fragment, *artifact_refs, now),
{
    let uri: String = fragment_uri_of(home.source_document_uri, fragment.fragment_index);
    let title: String = fragment_title_of(home.title, fragment.fragment_index);
    let parts: NodeParts<'_> = NodeParts {
        uri: uri.as_str(),
        title: title.as_str(),
        layer: 2,
        body: fragment.content.as_str(),
        index_kind: home.index_kind,
        index_uid: home.index_uid,
        tenant_id: home.tenant_id,
        owner_user_id: home.owner_user_id,
        source_id: Some(home.source_id),
        revision_id: Some(home.revision_id),
    };
    let mut node: ContextNode = context_node(&parts, now);
    node.node_kind = "fragment".to_owned();
    node.retrieval_role = "fragment".to_owned();
    node.retrieval_enabled = true;
    node.parent_uri = Some(home.source_document_uri.to_owned());
    node.source_document_uri = Some(home.source_document_uri.to_owned());
    node.fragment_index = Some(fragment.fragment_index);
    node.char_start = fragment.char_start;
    node.char_end = fragment.char_end;
    node.token_estimate = Some(fragment.token_estimate);
    node.checksum = Some(fragment.checksum.clone());
    node.block_type = fragment.block_type.clone();
    node.page_idx = fragment.page_idx;
    node.bbox = fragment.bbox.clone();
    node.section_path = fragment.section_path.clone();
    node.heading_level = fragment.heading_level;
    node.asset_refs = fragment.asset_refs.clone();
    node.artifact_refs = artifact_refs.clone();
    node
}

/// A quarter of the characters of a text, rounded up, and at least one.
pub open spec fn token_estimate(content: Seq<char>) -> nat {
    if content.len() == 0 {
        1
    } else {
        ((content.len() + 3) / 4) as nat
    }
}

/// Whether `n` is the node by which a document itself is read.
pub open spec fn is_document_node(n: ContextNode, document: SourceDocument) -> bool {
    &&& n.uri == document.uri
    &&& n.title == document.title
    &&& n.layer == 2
    &&& n.body == document.content
    &&& n.tenant_id == document.tenant_id
    &&& n.owner_user_id == document.owner_user_id
    &&& n.index_uid@ == "rag_source_documents"@
    &&& n.index_kind@ == (if document.owner_user_id is Some {
        "personal"@
    } else {
        "company"@
    })
    &&& texts(n.ancestor_uris@) == ancestors(document.uri@, document.uri@.len() as int)
    &&& n.node_kind@ == "source_doc"@
    &&& n.retrieval_role@ == "none"@
    &&& !n.retrieval_enabled
    &&& n.parent_uri is None
    &&& n.source_document_uri == Some(document.uri)
    &&& n.fragment_index is None
    &&& n.char_start is None
    &&& n.char_end is None
    &&& n.token_estimate is Some
    &&& n.token_estimate->Some_0 == token_estimate(document.content@)
    &&& n.checksum == Some(document.checksum)
    &&& n.source_id == Some(document.source_id)
    &&& n.revision_id == Some(document.revision_id)
    &&& n.block_type is None
    &&& n.page_idx is None
    &&& n.bbox is None
    &&& n.section_path@.len() == 0
    &&& n.heading_level is None
    &&& n.asset_refs@.len() == 0
    &&& n.artifact_refs@.len() == 0
    &&& n.status == document.status
    &&& n.privacy@ == (if document.owner_user_id is Some {
        "private"@
    } else {
        "company"@
    })
    &&& n.updated_at == document.updated_at
}

/// The node by which a document itself is read.
pub fn source_document_context_node(document: SourceDocument) -> (r: ContextNode)
    ensures
        is_document_node(r, document),
{
    let private: bool = document.owner_user_id.is_some();
    let chars: usize = chars_of(document.content.as_str()).len();
    let tokens: usize = if chars == 0 {
        1
    } else if chars % 4 == 0 {
        chars / 4
    } else {
        chars / 4 + 1
    };
    ContextNode {
        uri: document.uri.clone(),
        title: document.title,
        layer: 2,
        body: document.content,
        tenant_id: document.tenant_id,
        owner_user_id: document.owner_user_id,
        index_uid: "rag_source_documents".to_owned(),
        index_kind: if private {
            "personal".to_owned()
        } else {
            "company".to_owned()
        },
        ancestor_uris: std::sync::Arc::new(ancestor_uris(document.uri.as_str())),
        node_kind: "source_doc".to_owned(),
        retrieval_role: "none".to_owned(),
        retrieval_enabled: false,
        parent_uri: None,
        source_document_uri: Some(document.uri),
        fragment_index: None,
        char_start: None,
        char_end: None,
        token_estimate: Some(tokens),
        checksum: Some(document.checksum),
        source_id: Some(document.source_id),
        revision_id: Some(document.revision_id),
        block_type: None,
        page_idx: None,
        bbox: None,
        section_path: std::sync::Arc::new(Vec::new()),
        heading_level: None,
        asset_refs: std::sync::Arc::new(Vec::new()),
        artifact_refs: std::sync::Arc::new(Vec::new()),
        status: document.status,
        privacy: if private {
            "private".to_owned()
        } else {
            "company".to_owned()
        },
        updated_at: document.updated_at,
    }
}

/// Whether a node may be retrieved by default.
pub open spec fn is_candidate(node: ContextNode) -> bool {
    node.status@ == "active"@ && node.retrieval_enabled && node.retrieval_role@ == "fragment"@
}

/// Whether a node may be retrieved by default.
pub fn retrieval_candidate(node: &ContextNode) -> (r: bool)
    ensures
        r == is_candidate(*node),
{
    text_eq(node.status.as_str(), "active") && node.retrieval_enabled && text_eq(
        node.retrieval_role.as_str(),
        "fragment",
    )
}

/// A document itself is never retrieved by default.
pub proof fn documents_are_no_candidates(n: ContextNode, document: SourceDocument)
    requires
        is_document_node(n, document),
    ensures
        !is_candidate(n),
{
}

/// The key of a node among vectors: what an index holds cannot collide with another index.
pub open spec fn node_key(node: ContextNode) -> Seq<char> {
    node.index_uid@ + "|"@ + node.uri@
}

/// The key of a node among vectors.
pub fn vector_match_key(node: &ContextNode) -> (r: String)
    ensures
        r@ == node_key(*node),
{
    let mut out: String = node.index_uid.clone();
    out.append("|");
    out.append(node.uri.as_str());
    out
}

/// The text by which a node is found.
pub open spec fn node_text(node: ContextNode) -> Seq<char> {
    node.title@ + " "@ + node.body@
}

/// The text by which a node is found.
pub fn node_match_text(node: &ContextNode) -> (r: String)
    ensures
        r@ == node_text(*node),
{
    let mut out: String = node.title.clone();
    out.append(" ");
    out.append(node.body.as_str());
    out
}

/// The key of a document among vectors.
pub open spec fn document_vector_key(index_uid: Seq<char>, uri: Seq<char>) -> Seq<char> {
    "doc|"@ + index_uid + "|"@ + uri
}

/// The key of a document among vectors.
pub fn vector_doc_key(index_uid: &str, source_document_uri: &str) -> (r: String)
    ensures
        r@ == document_vector_key(index_uid@, source_document_uri@),
{
    let mut out: String = "doc|".to_owned();
    out.append(index_uid);
    out.append("|");
    out.append(source_document_uri);
    out
}

/// The text of a block: the first of its texts, unless that is blank.
pub open spec fn block_text(block: ParsedBlock) -> Option<Seq<char>> {
    let first = if block.text is Some {
        opt_text(block.text)
    } else if block.html is Some {
        opt_text(block.html)
    } else if block.latex is Some {
        opt_text(block.latex)
    } else {
        opt_text(block.caption)
    };
    match first {
        Some(value) => if blank(value) {
            None
        } else {
            Some(value)
        },
        None => None,
    }
}

/// The text of a block.
pub fn parsed_block_text(block: &ParsedBlock) -> (r: Option<String>)
    ensures
        opt_text(r) == block_text(*block),
{
    let first: &Option<String> = if block.text.is_some() {
        &block.text
    } else if block.html.is_some() {
        &block.html
    } else if block.latex.is_some() {
        &block.latex
    } else {
        &block.caption
    };
    match first {
        Some(value) => if is_blank(value.as_str()) {
            None
        } else {
            Some(value.clone())
        },
        None => None,
    }
}

/// Whether a node holds the text of an excerpt.
pub open spec fn is_excerpt(node: ContextNode) -> bool {
    node.node_kind@ == "fragment"@ || node.node_kind@ == "abstract"@
}

/// Whether `r` is a node without the configured secrets: excerpts hide parts of a secret too.
pub open spec fn is_egress_node(r: ContextNode, node: ContextNode, secrets: Seq<Seq<char>>) -> bool {
    &&& r == (ContextNode {
        title: r.title,
        body: r.body,
        section_path: r.section_path,
        ..node
    })
    &&& r.title@ == egress_masked(node.title@, secrets)
    &&& r.body@ == (if is_excerpt(node) {
        fragment_masked(node.body@, secrets)
    } else {
        egress_masked(node.body@, secrets)
    })
    &&& texts(r.section_path@) == all_egress_masked(texts(node.section_path@), secrets)
}

/// Texts with every whole secret masked.
pub fn mask_all(v: &Vec<String>, secrets: &Vec<String>) -> (r: Vec<String>)
    ensures
        texts(r@) == all_egress_masked(texts(v@), texts(secrets@)),
{
    let mut out: Vec<String> = Vec::new();
    let mut i: usize = 0;
    while i < v.len()
        invariant
            i <= v@.len(),
            out@.len() == i,
            forall|j: int|
                0 <= j < i ==> (#[trigger] out@[j])@ == egress_masked(v@[j]@, texts(secrets@)),
        decreases v@.len() - i,
    {
        out.push(mask_secret_egress_projection_preserving_chars(v[i].as_str(), secrets));
        i += 1;
    }
    assert(texts(out@) =~= all_egress_masked(texts(v@), texts(secrets@)));
    out
}

/// A node without the configured secrets.
pub fn sanitize_context_node_for_egress(node: ContextNode, secrets: &Vec<String>) -> (r: ContextNode)
    ensures
        is_egress_node(r, node, texts(secrets@)),
{
    let title: String = mask_secret_egress_projection_preserving_chars(
        node.title.as_str(),
        secrets,
    );
    let body: String = if text_eq(node.node_kind.as_str(), "fragment") || text_eq(
        node.node_kind.as_str(),
        "abstract",
    ) {
        mask_secret_fragment_projection_preserving_chars(node.body.as_str(), secrets)
    } else {
        mask_secret_egress_projection_preserving_chars(node.body.as_str(), secrets)
    };
    let section_path: Vec<String> = mask_all(&node.section_path, secrets);
    ContextNode { title, body, section_path: std::sync::Arc::new(section_path), ..node }
}

/// A layer of an entry in the personal context of an owner.
pub open spec fn personal_part(
    uri: Seq<char>,
    title: Seq<char>,
    layer: u8,
    body: Seq<char>,
    index_uid: Seq<char>,
    tenant_id: Seq<char>,
    owner_user_id: Seq<char>,
) -> PartsView {
    PartsView {
        uri,
        title,
        layer,
        body,
        index_kind: "personal"@,
        index_uid,
        tenant_id,
        owner_user_id: Some(owner_user_id),
        source_id: None,
        revision_id: None,
    }
}

/// A layer of an entry in the personal context of an owner.
pub fn personal_node(
    base: &str,
    suffix: &str,
    title: &str,
    layer: u8,
    body: &str,
    index_uid: &str,
    tenant_id: &str,
    owner_user_id: &str,
    now: i64,
) -> (r: ContextNode)
    ensures
        is_node(
            r,
            personal_part(
                base@ + suffix@,
                title@,
                layer,
                body@,
                index_uid@,
                tenant_id@,
                owner_user_id@,
            ),
            now,
        ),
{
    let uri: String = base.to_owned().concat(suffix);
    let parts: NodeParts<'_> = NodeParts {
        uri: uri.as_str(),
        title,
        layer,
        body,
        index_kind: "personal",
        index_uid,
        tenant_id,
        owner_user_id: Some(owner_user_id),
        source_id: None,
        revision_id: None,
    };
    context_node(&parts, now)
}

} // verus!
