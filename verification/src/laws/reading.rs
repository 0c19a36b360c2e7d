//! What reading can be relied on for: who reads what, and that what is read is what was asked for.

use vstd::prelude::*;

use crate::data::{DocumentKeyView, StoreData};
use crate::documents::readable_document;
use crate::error::ApiError;
use crate::laws::choosing::{
    a_filter_keeps_what_it_accepts, the_first_is_accepted, what_is_sorted_out,
};
use crate::model::ingest::SourceDocument;
use crate::model::knowledge::{ContextNode, KnowledgeLink};
use crate::nodes::without_layer;
use crate::order::{sorted_by, strict_order};
use crate::reading::{
    acl_scope, active_at_layer, active_at_uri, by_uri, document_uri_of, is_part_of_link,
    listed_under, lists_nodes, matching, node_is_ambiguous, owned, owned_by, readable_node,
    traceback_result, unowned, ContextTracebackResponse, ListedNode,
};
use crate::resolver::EventIndexResolver;
use crate::text::{
    has_prefix, opt_text, text_lt, text_lt_irreflexive, text_lt_total, text_lt_transitive,
};

verus! {

/// What is read is one of the nodes that are there. A reader with a name reads its own node before
/// the shared one and never that of another; one without a name reads the shared one, and a private
/// one only with leave to, and only if it is the only one.
pub proof fn a_reader_reads_its_own_first(
    nodes: Seq<ContextNode>,
    owner: Option<Seq<char>>,
    include_all_private: bool,
    other: ContextNode,
)
    ensures
        ({
            let node = readable_node(nodes, owner, include_all_private);
            &&& node is Some ==> nodes.contains(node->0)
            &&& node is Some && owner is Some && node->0.owner_user_id is Some ==> opt_text(
                node->0.owner_user_id,
            ) == owner
            &&& node is Some && owner is None && node->0.owner_user_id is Some
                ==> include_all_private
            &&& nodes.contains(other) && owner is Some && opt_text(other.owner_user_id) == owner
                ==> node is Some && opt_text(node->0.owner_user_id) == owner
            &&& nodes.contains(other) && other.owner_user_id is None ==> node is Some
            &&& nodes.contains(other) && other.owner_user_id is None && owner is None
                ==> node->0.owner_user_id is None
            &&& nodes.contains(other) && owner is None && include_all_private && node is None
                ==> node_is_ambiguous(nodes, owner, include_all_private)
        }),
{
    the_first_is_accepted(nodes, unowned());
    the_first_is_accepted(nodes, owned());
    let o = owner->0;
    the_first_is_accepted(nodes, owned_by(o));
    a_filter_keeps_what_it_accepts(nodes, owned(), other);
    let private = nodes.filter(owned());
    if private.len() > 0 {
        assert(private.contains(private[0]));
        a_filter_keeps_what_it_accepts(nodes, owned(), private[0]);
    }
    if nodes.contains(other) {
        let i = choose|i: int| 0 <= i < nodes.len() && nodes[i] == other;
        if other.owner_user_id is None {
            assert(unowned()(nodes[i]));
        } else {
            assert(owned()(nodes[i]));
            if opt_text(other.owner_user_id) == owner && owner is Some {
                assert(owned_by(o)(nodes[i]));
            }
        }
    }
}

/// What is read at an address is an active node at that address that the reader may read; what stands
/// there for the reader is read.
pub proof fn what_is_read_at_an_address(
    d: StoreData,
    resolver: EventIndexResolver,
    tenant_id: Seq<char>,
    owner: Option<Seq<char>>,
    include_all_private: bool,
    uri: Seq<char>,
    other: ContextNode,
)
    ensures
        ({
            let scope = acl_scope(d, resolver, tenant_id, owner, include_all_private);
            let nodes = matching(
                d,
                resolver,
                tenant_id,
                owner,
                include_all_private,
                active_at_uri(uri),
            );
            let node = readable_node(nodes, owner, include_all_private);
            &&& node is Some ==> scope.contains(node->0) && node->0.uri@ == uri && node->0.status@
                == "active"@
            &&& scope.contains(other) && other.uri@ == uri && other.status@ == "active"@ && (
            other.owner_user_id is None || (owner is Some && opt_text(other.owner_user_id)
                == owner)) ==> node is Some
        }),
{
    let scope = acl_scope(d, resolver, tenant_id, owner, include_all_private);
    let p = active_at_uri(uri);
    let nodes = matching(d, resolver, tenant_id, owner, include_all_private, p);
    let node = readable_node(nodes, owner, include_all_private);
    a_reader_reads_its_own_first(nodes, owner, include_all_private, other);
    a_filter_keeps_what_it_accepts(scope, p, other);
    if node is Some {
        a_filter_keeps_what_it_accepts(scope, p, node->0);
    }
}

/// What is read of an entry on a layer is an active node of that entry on that layer that the reader
/// may read; what stands there for the reader is read.
pub proof fn what_is_read_on_a_layer(
    d: StoreData,
    resolver: EventIndexResolver,
    tenant_id: Seq<char>,
    owner: Option<Seq<char>>,
    include_all_private: bool,
    uri: Seq<char>,
    layer: u8,
    other: ContextNode,
)
    ensures
        ({
            let scope = acl_scope(d, resolver, tenant_id, owner, include_all_private);
            let nodes = matching(
                d,
                resolver,
                tenant_id,
                owner,
                include_all_private,
                active_at_layer(without_layer(uri), layer),
            );
            let node = readable_node(nodes, owner, include_all_private);
            &&& node is Some ==> {
                &&& scope.contains(node->0)
                &&& without_layer(node->0.uri@) == without_layer(uri)
                &&& node->0.layer == layer
                &&& node->0.status@ == "active"@
            }
            &&& scope.contains(other) && without_layer(other.uri@) == without_layer(uri)
                && other.layer == layer && other.status@ == "active"@ && (other.owner_user_id is None
                || (owner is Some && opt_text(other.owner_user_id) == owner)) ==> node is Some
        }),
{
    let scope = acl_scope(d, resolver, tenant_id, owner, include_all_private);
    let p = active_at_layer(without_layer(uri), layer);
    let nodes = matching(d, resolver, tenant_id, owner, include_all_private, p);
    let node = readable_node(nodes, owner, include_all_private);
    a_reader_reads_its_own_first(nodes, owner, include_all_private, other);
    a_filter_keeps_what_it_accepts(scope, p, other);
    if node is Some {
        a_filter_keeps_what_it_accepts(scope, p, node->0);
    }
}

/// The order by address is strict.
pub proof fn addresses_are_ordered()
    ensures
        strict_order(by_uri()),
{
    let lt = by_uri();
    assert forall|a: ContextNode, b: ContextNode| lt(a, b) implies !#[trigger] lt(b, a) by {
        text_lt_irreflexive(a.uri@);
        if text_lt(b.uri@, a.uri@) {
            text_lt_transitive(a.uri@, b.uri@, a.uri@);
        }
    }
    assert forall|a: ContextNode, b: ContextNode, c: ContextNode|
        !#[trigger] lt(b, a) && !#[trigger] lt(c, b) implies !lt(c, a) by {
        if lt(c, a) {
            text_lt_total(a.uri@, b.uri@);
            text_lt_total(b.uri@, c.uri@);
            if text_lt(a.uri@, b.uri@) {
                text_lt_transitive(c.uri@, a.uri@, b.uri@);
            }
        }
    }
}

/// A listing names the active nodes that the reader may read and whose address begins as asked, and
/// no others, in the order of their addresses.
pub proof fn a_listing_names_what_is_there(
    children: Seq<ListedNode>,
    d: StoreData,
    resolver: EventIndexResolver,
    tenant_id: Seq<char>,
    owner: Option<Seq<char>>,
    include_all_private: bool,
    prefix: Seq<char>,
    i: int,
    j: int,
    node: ContextNode,
)
    requires
        lists_nodes(
            children,
            sorted_by(
                acl_scope(d, resolver, tenant_id, owner, include_all_private).filter(
                    listed_under(prefix),
                ),
                by_uri(),
            ),
        ),
    ensures
        0 <= i < children.len() ==> {
            &&& has_prefix(children[i].uri@, prefix)
            &&& exists|n: ContextNode|
                {
                    &&& #[trigger] acl_scope(
                        d,
                        resolver,
                        tenant_id,
                        owner,
                        include_all_private,
                    ).contains(n)
                    &&& n.status@ == "active"@
                    &&& n.uri == children[i].uri
                    &&& n.title == children[i].title
                    &&& n.layer == children[i].layer
                    &&& n.index_kind == children[i].index_kind
                }
        },
        0 <= i < j < children.len() ==> !text_lt(children[j].uri@, children[i].uri@),
        acl_scope(d, resolver, tenant_id, owner, include_all_private).contains(node)
            && node.status@ == "active"@ && has_prefix(node.uri@, prefix) ==> exists|k: int|
            0 <= k < children.len() && (#[trigger] children[k]).uri == node.uri && children[k].layer
                == node.layer && children[k].title == node.title,
{
    let scope = acl_scope(d, resolver, tenant_id, owner, include_all_private);
    let p = listed_under(prefix);
    let lt = by_uri();
    let nodes = sorted_by(scope.filter(p), lt);
    addresses_are_ordered();
    what_is_sorted_out(scope, p, lt);
    if 0 <= i < children.len() {
        assert(scope.contains(nodes[i]) && p(nodes[i]));
        assert(children[i].uri == nodes[i].uri);
    }
    if 0 <= i < j < children.len() {
        assert(!lt(nodes[j], nodes[i]));
        assert(children[i].uri == nodes[i].uri);
        assert(children[j].uri == nodes[j].uri);
    }
    if scope.contains(node) && p(node) {
        assert(nodes.contains(node));
        let k = choose|k: int| 0 <= k < nodes.len() && nodes[k] == node;
        assert(children[k].uri == node.uri);
    }
}

/// A fragment that is traced back is the one that was asked for, is one that the reader may read, and
/// leads to the document that it names, else to the one that its part-of link leads to.
pub proof fn a_fragment_is_traced_to_its_document(
    r: Result<ContextTracebackResponse, ApiError>,
    d: StoreData,
    resolver: EventIndexResolver,
    tenant_id: Seq<char>,
    uri: Seq<char>,
    owner: Option<Seq<char>>,
    include_all_private: bool,
)
    requires
        traceback_result(r, d, resolver, tenant_id, uri, owner, include_all_private),
        r is Ok,
    ensures
        exists|fragment: ContextNode, document: SourceDocument|
            {
                &&& #[trigger] is_traced(r->Ok_0, fragment, document)
                &&& acl_scope(d, resolver, tenant_id, owner, include_all_private).contains(fragment)
                &&& fragment.uri@ == uri
                &&& fragment.node_kind@ == "fragment"@
                &&& fragment.status@ == "active"@
                &&& document.status@ == "active"@
                &&& exists|document_uri: Seq<char>|
                    {
                        &&& #[trigger] readable_document(
                            d,
                            tenant_id,
                            document_uri,
                            owner,
                            include_all_private,
                        ) == Some(document)
                        &&& fragment.source_document_uri is Some
                            ==> fragment.source_document_uri->0@ == document_uri
                        &&& fragment.source_document_uri is None ==> exists|link: KnowledgeLink|
                            {
                                &&& #[trigger] d.links.values().contains(link)
                                &&& link.tenant_id@ == tenant_id
                                &&& link.status@ == "active"@
                                &&& link.relation@ == "part_of"@
                                &&& link.source_uri@ == uri
                                &&& link.target_uri@ == document_uri
                            }
                    }
            },
{
    let scope = acl_scope(d, resolver, tenant_id, owner, include_all_private);
    let p = active_at_uri(uri);
    let nodes = matching(d, resolver, tenant_id, owner, include_all_private, p);
    let fragment = readable_node(nodes, owner, include_all_private)->0;
    a_reader_reads_its_own_first(nodes, owner, include_all_private, fragment);
    a_filter_keeps_what_it_accepts(scope, p, fragment);
    let document_uri = document_uri_of(d, tenant_id, fragment)->0;
    let document = readable_document(d, tenant_id, document_uri, owner, include_all_private)->0;
    lemma_readable_is_active(d, tenant_id, document_uri, owner, include_all_private);
    assert(is_traced(r->Ok_0, fragment, document));
    if fragment.source_document_uri is None {
        the_first_is_accepted(d.links.values(), is_part_of_link(tenant_id, fragment.uri@));
        let link = crate::reading::first_of(
            d.links.values(),
            is_part_of_link(tenant_id, fragment.uri@),
        )->0;
        assert(d.links.values().contains(link));
    }
    assert(readable_document(d, tenant_id, document_uri, owner, include_all_private) == Some(
        document,
    ));
}

/// Whether an answer tells where a fragment of a document comes from.
pub open spec fn is_traced(
    r: ContextTracebackResponse,
    fragment: ContextNode,
    document: SourceDocument,
) -> bool {
    &&& r.fragment_uri@ == fragment.uri@
    &&& r.fragment_title@ == fragment.title@
    &&& r.fragment_index == fragment.fragment_index
    &&& r.page_idx == fragment.page_idx
    &&& r.block_type == fragment.block_type
    &&& r.char_start == fragment.char_start
    &&& r.char_end == fragment.char_end
    &&& r.checksum == fragment.checksum
    &&& r.source_document_uri@ == document.uri@
    &&& r.source_id@ == document.source_id@
    &&& r.revision_id@ == document.revision_id@
    &&& r.source_title@ == document.title@
}

proof fn lemma_private_is_active(
    rows: Seq<(crate::data::SourceDocumentKey, SourceDocument)>,
    tenant_id: Seq<char>,
    uri: Seq<char>,
    i: int,
)
    requires
        0 <= i < crate::documents::private_at(rows, tenant_id, uri).len(),
    ensures
        crate::documents::private_at(rows, tenant_id, uri)[i].status@ == "active"@,
    decreases rows.len(),
{
    let rest = crate::documents::private_at(rows.drop_last(), tenant_id, uri);
    if i < rest.len() {
        lemma_private_is_active(rows.drop_last(), tenant_id, uri, i);
    }
}

proof fn lemma_readable_is_active(
    d: StoreData,
    tenant_id: Seq<char>,
    uri: Seq<char>,
    owner: Option<Seq<char>>,
    include_all_private: bool,
)
    ensures
        readable_document(d, tenant_id, uri, owner, include_all_private) is Some
            ==> readable_document(d, tenant_id, uri, owner, include_all_private)->0.status@
            == "active"@,
{
    let private = crate::documents::private_at(d.source_documents.rows(), tenant_id, uri);
    if private.len() == 1 {
        lemma_private_is_active(d.source_documents.rows(), tenant_id, uri, 0);
    }
}

/// A reader with a name reads its own active document before the shared one; without one of its own
/// it reads the shared one, and a document that is not active is not read.
pub proof fn a_reader_reads_its_own_document_first(
    d: StoreData,
    tenant_id: Seq<char>,
    uri: Seq<char>,
    owner: Option<Seq<char>>,
)
    ensures
        ({
            let m = d.source_documents@;
            let own = DocumentKeyView { tenant_id, owner_user_id: owner, uri };
            let shared = DocumentKeyView { tenant_id, owner_user_id: None, uri };
            let has_own = owner is Some && m.dom().contains(own) && m[own].status@ == "active"@;
            let has_shared = m.dom().contains(shared) && m[shared].status@ == "active"@;
            let r = readable_document(d, tenant_id, uri, owner, false);
            &&& has_own ==> r == Some(m[own])
            &&& !has_own && has_shared ==> r == Some(m[shared])
            &&& !has_own && !has_shared ==> r is None
        }),
{
}

} // verus!
