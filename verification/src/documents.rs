//! Source documents: which one is read, and how a new revision of one replaces the old.

use vstd::prelude::*;
use vstd::string::*;

use crate::data::{DocumentKeyView, SourceDocumentKey, StoreData};
use crate::error::{fails_with, ApiError, ErrorView};
use crate::json::Json;
use crate::masking::{
    egress_masked, fragment_masked, fragment_masking_leaves_no_window,
    mask_parsed_block_for_retrieval, mask_secret_egress_projection_preserving_chars,
    mask_secret_fragment_projection_preserving_chars, window_secret, FRAGMENT_WINDOW, MASK,
};
use crate::merge::{insert_rows, inserted_all, upsert_context_nodes, with_nodes};
use crate::model::ingest::{ParsedBlock, SourceDocument, SourceRevision};
use crate::model::knowledge::{ContextNode, KnowledgeLink, ParseArtifactRef};
use crate::naming::{
    company_revision_source_document_uri, document_id, part_of_id, part_of_link_id,
    revision_document_uri, source_document_id,
};
use crate::nodes::{
    document_vector_key, fragment_context_node, fragment_title, fragment_title_of, fragment_uri,
    fragment_uri_of, is_fragment_node, node_key, node_match_text, node_text, vector_doc_key,
    vector_match_key, FragmentChunk, FragmentHome, HomeView,
};
use crate::order::{find_where, first_where, pairwise, update_list};
use crate::publish::COMPANY_CONTEXT_INDEX;
use crate::record::{copy_all, select, select_values, List, Row};
use crate::table::{list_at, lists, lists_replaced, related, take_list, Table};
use crate::text::{opt_eq_str, opt_is, opt_str, opt_text, text_eq, texts, texts_contain};

verus! {

/// The key of a document.
pub open spec fn key_of(
    tenant_id: Seq<char>,
    owner_user_id: Option<Seq<char>>,
    uri: Seq<char>,
) -> DocumentKeyView {
    DocumentKeyView { tenant_id, owner_user_id, uri }
}

/// The document of an owner where there is one, else that of the company.
pub open spec fn document_for_owner(
    m: Map<DocumentKeyView, SourceDocument>,
    tenant_id: Seq<char>,
    owner_user_id: Option<Seq<char>>,
    uri: Seq<char>,
) -> Option<SourceDocument> {
    let own = key_of(tenant_id, owner_user_id, uri);
    let shared = key_of(tenant_id, None, uri);
    if owner_user_id is Some && m.dom().contains(own) {
        Some(m[own])
    } else if m.dom().contains(shared) {
        Some(m[shared])
    } else {
        None
    }
}

/// A document that may be absent.
pub open spec fn opt_document(o: Option<&SourceDocument>) -> Option<SourceDocument> {
    match o {
        Some(document) => Some(*document),
        None => None,
    }
}

/// The document of an owner where there is one, else that of the company.
pub fn source_document_for_owner<'a>(
    data: &'a StoreData,
    tenant_id: &str,
    owner_user_id: Option<&str>,
    uri: &str,
) -> (r: Option<&'a SourceDocument>)
    ensures
        opt_document(r) == document_for_owner(
            data.source_documents@,
            tenant_id@,
            opt_str(owner_user_id),
            uri@,
        ),
{
    if owner_user_id.is_some() {
        let found: Option<&SourceDocument> = data.source_documents.get(
            &SourceDocumentKey::new(tenant_id, owner_user_id, uri),
        );
        if found.is_some() {
            return found;
        }
    }
    data.source_documents.get(&SourceDocumentKey::new(tenant_id, None, uri))
}

/// Whether a document is active.
pub open spec fn is_active(document: SourceDocument) -> bool {
    document.status@ == "active"@
}

/// The document under a key, where it is active.
pub open spec fn active_at(m: Map<DocumentKeyView, SourceDocument>, k: DocumentKeyView) -> Option<
    SourceDocument,
> {
    if m.dom().contains(k) && is_active(m[k]) {
        Some(m[k])
    } else {
        None
    }
}

fn find_active<'a>(data: &'a StoreData, k: &SourceDocumentKey) -> (r: Option<&'a SourceDocument>)
    ensures
        opt_document(r) == active_at(data.source_documents@, k@),
{
    match data.source_documents.get(k) {
        Some(document) => if text_eq(document.status.as_str(), "active") {
            Some(document)
        } else {
            None
        },
        None => None,
    }
}

/// Whether a document of the company is active.
pub open spec fn active_shared(document: SourceDocument) -> bool {
    document.owner_user_id is None && is_active(document)
}

/// Whether a document of an owner is active.
pub open spec fn active_private(document: SourceDocument) -> bool {
    document.owner_user_id is Some && is_active(document)
}

/// The documents of owners that are active.
pub open spec fn private_ones(documents: Seq<SourceDocument>) -> Seq<SourceDocument> {
    documents.filter(|document: SourceDocument| active_private(document))
}

/// The error where an administrator asks for a URI that several owners have.
pub open spec fn ambiguous_document() -> ErrorView {
    ErrorView::BadRequest(
        "owner_user_id is required because the source-document uri is ambiguous"@,
    )
}

/// The document that an administrator reads: that of the company, else the only one of an owner;
/// several owners are refused.
pub fn select_admin_source_document(documents: Vec<SourceDocument>) -> (r: Result<
    Option<SourceDocument>,
    ApiError,
>)
    ensures
        ({
            let at = first_where(documents@, |document: SourceDocument| active_shared(document));
            let mine = private_ones(documents@);
            if at < documents@.len() {
                r == Ok::<Option<SourceDocument>, ApiError>(Some(documents@[at]))
            } else if mine.len() == 0 {
                r == Ok::<Option<SourceDocument>, ApiError>(None)
            } else if mine.len() == 1 {
                r == Ok::<Option<SourceDocument>, ApiError>(Some(mine[0]))
            } else {
                fails_with(r, ambiguous_document())
            }
        }),
{
    let ghost p = |document: SourceDocument| active_shared(document);
    let shared = |document: &SourceDocument| -> (b: bool)
        ensures
            b == p(*document),
        { document.owner_user_id.is_none() && text_eq(document.status.as_str(), "active") };
    let at: usize = find_where(&documents, shared, Ghost(p));
    if at < documents.len() {
        return Ok(Some(documents[at].clone()));
    }
    let ghost q = |document: SourceDocument| active_private(document);
    let private = |document: &SourceDocument| -> (b: bool)
        ensures
            b == q(*document),
        { document.owner_user_id.is_some() && text_eq(document.status.as_str(), "active") };
    let mine: Vec<SourceDocument> = select(&documents, private, Ghost(q));
    if mine.len() == 0 {
        Ok(None)
    } else if mine.len() == 1 {
        Ok(Some(mine[0].clone()))
    } else {
        Err(
            ApiError::bad_request(
                "owner_user_id is required because the source-document uri is ambiguous",
            ),
        )
    }
}

/// The active documents that owners of a tenant have under a URI, in the order of the table.
pub open spec fn private_at(
    rows: Seq<(SourceDocumentKey, SourceDocument)>,
    tenant_id: Seq<char>,
    uri: Seq<char>,
) -> Seq<SourceDocument>
    decreases rows.len(),
{
    if rows.len() == 0 {
        Seq::empty()
    } else {
        let row = rows.last();
        let rest = private_at(rows.drop_last(), tenant_id, uri);
        if row.0.tenant_id@ == tenant_id && row.0.uri@ == uri && row.0.owner_user_id is Some
            && is_active(row.1) {
            rest.push(row.1)
        } else {
            rest
        }
    }
}

fn find_private(data: &StoreData, tenant_id: &str, uri: &str) -> (r: Vec<SourceDocument>)
    ensures
        r@ == private_at(data.source_documents.rows(), tenant_id@, uri@),
{
    let t: &Table<SourceDocumentKey, SourceDocument> = &data.source_documents;
    let n: usize = t.len();
    let mut out: Vec<SourceDocument> = Vec::new();
    let ghost rows = t.rows();
    let mut i: usize = 0;
    while i < n
        invariant
            i <= n == rows.len(),
            rows == t.rows(),
            out@ == private_at(rows.take(i as int), tenant_id@, uri@),
        decreases n - i,
    {
        assert(rows.take(i + 1).drop_last() =~= rows.take(i as int));
        let key: &SourceDocumentKey = t.key_at(i);
        let document: &SourceDocument = t.value_at(i);
        if text_eq(key.tenant_id.as_str(), tenant_id) && text_eq(key.uri.as_str(), uri)
            && key.owner_user_id.is_some() && text_eq(document.status.as_str(), "active") {
            out.push(document.clone());
        }
        i += 1;
    }
    assert(rows.take(i as int) =~= rows);
    out
}

/// What a caller may read of a source document: an owner reads its own and else that of the
/// company, everyone reads that of the company, and an administrator also the only one that an
/// owner has.
pub open spec fn readable_document(
    d: StoreData,
    tenant_id: Seq<char>,
    uri: Seq<char>,
    owner_user_id: Option<Seq<char>>,
    include_all_private: bool,
) -> Option<SourceDocument> {
    let m = d.source_documents@;
    let shared = active_at(m, key_of(tenant_id, None, uri));
    let own = active_at(m, key_of(tenant_id, owner_user_id, uri));
    let private = private_at(d.source_documents.rows(), tenant_id, uri);
    if owner_user_id is Some {
        if own is Some {
            own
        } else {
            shared
        }
    } else if include_all_private && shared is None && private.len() == 1 {
        Some(private[0])
    } else {
        shared
    }
}

/// Whether an administrator has to name the owner of a document.
pub open spec fn document_is_ambiguous(
    d: StoreData,
    tenant_id: Seq<char>,
    uri: Seq<char>,
    owner_user_id: Option<Seq<char>>,
    include_all_private: bool,
) -> bool {
    &&& owner_user_id is None
    &&& include_all_private
    &&& active_at(d.source_documents@, key_of(tenant_id, None, uri)) is None
    &&& private_at(d.source_documents.rows(), tenant_id, uri).len() > 1
}

/// What a caller may read of a source document.
pub fn source_document_for_acl(
    data: &StoreData,
    tenant_id: &str,
    uri: &str,
    owner_user_id: Option<&str>,
    include_all_private: bool,
) -> (r: Result<Option<SourceDocument>, ApiError>)
    ensures
        if document_is_ambiguous(
            *data,
            tenant_id@,
            uri@,
            opt_str(owner_user_id),
            include_all_private,
        ) {
            fails_with(r, ambiguous_document())
        } else {
            r == Ok::<Option<SourceDocument>, ApiError>(
                readable_document(
                    *data,
                    tenant_id@,
                    uri@,
                    opt_str(owner_user_id),
                    include_all_private,
                ),
            )
        },
{
    if owner_user_id.is_some() {
        match find_active(data, &SourceDocumentKey::new(tenant_id, owner_user_id, uri)) {
            Some(document) => {
                return Ok(Some(document.clone()));
            },
            None => {},
        }
    }
    match find_active(data, &SourceDocumentKey::new(tenant_id, None, uri)) {
        Some(document) => {
            return Ok(Some(document.clone()));
        },
        None => {},
    }
    if owner_user_id.is_some() || !include_all_private {
        return Ok(None);
    }
    let private: Vec<SourceDocument> = find_private(data, tenant_id, uri);
    if private.len() > 1 {
        return Err(
            ApiError::bad_request(
                "owner_user_id is required because the source-document uri is ambiguous",
            ),
        );
    }
    if private.len() == 1 {
        Ok(Some(private[0].clone()))
    } else {
        Ok(None)
    }
}

/// A caller who is no administrator never reads a document of someone else.
pub proof fn documents_of_others_are_not_read(
    d: StoreData,
    tenant_id: Seq<char>,
    uri: Seq<char>,
    owner_user_id: Option<Seq<char>>,
)
    requires
        forall|k: DocumentKeyView| #[trigger]
            d.source_documents@.dom().contains(k) ==> d.source_documents@[k].key() == k,
    ensures
        match readable_document(d, tenant_id, uri, owner_user_id, false) {
            Some(document) => {
                &&& document.tenant_id@ == tenant_id
                &&& document.uri@ == uri
                &&& is_active(document)
                &&& document.owner_user_id is None || opt_text(document.owner_user_id)
                    == owner_user_id
            },
            None => true,
        },
{
    let m = d.source_documents@;
    let shared = key_of(tenant_id, None, uri);
    let own = key_of(tenant_id, owner_user_id, uri);
    if m.dom().contains(shared) {
        assert(m[shared].key() == shared);
    }
    if m.dom().contains(own) {
        assert(m[own].key() == own);
    }
}

/// Stores a document that was read, unless a newer one is there; gives the one that stays.
pub fn cache_source_document(data: &mut StoreData, document: SourceDocument) -> (r: SourceDocument)
    ensures
        *final(data) == (StoreData {
            source_documents: final(data).source_documents,
            ..*old(data)
        }),
        final(data).source_documents@ == crate::merge::merged::<SourceDocumentKey, SourceDocument>(
            old(data).source_documents@,
            document,
        ),
        final(data).source_documents@.dom().contains(document.key()),
        r == final(data).source_documents@[document.key()],
{
    let key: SourceDocumentKey = SourceDocumentKey::from_document(&document);
    match data.source_documents.get(&key) {
        Some(existing) => {
            if existing.updated_at > document.updated_at {
                return existing.clone();
            }
        },
        None => {},
    }
    data.source_documents.insert(key, document.clone());
    document
}

/// Whether something of a tenant and owner is part of a source.
pub open spec fn of_source(
    document: SourceDocument,
    tenant_id: Seq<char>,
    owner_user_id: Option<Seq<char>>,
    source_id: Seq<char>,
) -> bool {
    document.tenant_id@ == tenant_id && opt_text(document.owner_user_id) == owner_user_id
        && document.source_id@ == source_id && is_active(document)
}

/// A document after its source was superseded.
pub open spec fn document_superseded(
    before: SourceDocument,
    after: SourceDocument,
    tenant_id: Seq<char>,
    owner_user_id: Option<Seq<char>>,
    source_id: Seq<char>,
    now: i64,
) -> bool {
    if of_source(before, tenant_id, owner_user_id, source_id) {
        &&& after == (SourceDocument { status: after.status, updated_at: now, ..before })
        &&& after.status@ == "superseded"@
    } else {
        after == before
    }
}

/// Whether a node is an active part of a source.
pub open spec fn node_of_source(
    node: ContextNode,
    tenant_id: Seq<char>,
    owner_user_id: Option<Seq<char>>,
    source_id: Seq<char>,
) -> bool {
    node.tenant_id@ == tenant_id && opt_text(node.owner_user_id) == owner_user_id && opt_text(
        node.source_id,
    ) == Some(source_id) && node.status@ == "active"@
}

/// A node after its source was superseded: it is not retrieved any more.
pub open spec fn node_superseded(
    before: ContextNode,
    after: ContextNode,
    tenant_id: Seq<char>,
    owner_user_id: Option<Seq<char>>,
    source_id: Seq<char>,
    now: i64,
) -> bool {
    if node_of_source(before, tenant_id, owner_user_id, source_id) {
        &&& after == (ContextNode {
            status: after.status,
            retrieval_enabled: false,
            updated_at: now,
            ..before
        })
        &&& after.status@ == "superseded"@
    } else {
        after == before
    }
}

/// The URIs of the active documents of a source.
pub open spec fn active_uris(
    values: Seq<SourceDocument>,
    tenant_id: Seq<char>,
    owner_user_id: Option<Seq<char>>,
    source_id: Seq<char>,
) -> Seq<Seq<char>> {
    let s = values.filter(
        |document: SourceDocument| of_source(document, tenant_id, owner_user_id, source_id),
    );
    Seq::new(s.len(), |i: int| s[i].uri@)
}

/// A link after documents were superseded: one that says what they consist of is superseded too.
pub open spec fn link_superseded(
    before: KnowledgeLink,
    after: KnowledgeLink,
    tenant_id: Seq<char>,
    owner_user_id: Option<Seq<char>>,
    uris: Seq<Seq<char>>,
    now: i64,
) -> bool {
    if before.tenant_id@ == tenant_id && opt_text(before.owner_user_id) == owner_user_id
        && before.relation@ == "part_of"@ && before.status@ == "active"@ && uris.contains(
        before.target_uri@,
    ) {
        &&& after == (KnowledgeLink { status: after.status, updated_at: now, ..before })
        &&& after.status@ == "superseded"@
    } else {
        after == before
    }
}

/// The state after a source was superseded.
pub open spec fn source_superseded(
    before: StoreData,
    after: StoreData,
    tenant_id: Seq<char>,
    owner_user_id: Option<Seq<char>>,
    source_id: Seq<char>,
    now: i64,
) -> bool {
    let uris = active_uris(
        before.source_documents.values(),
        tenant_id,
        owner_user_id,
        source_id,
    );
    &&& after == (StoreData {
        source_documents: after.source_documents,
        company_context: after.company_context,
        personal_context: after.personal_context,
        links: after.links,
        ..before
    })
    &&& related(
        before.source_documents@,
        after.source_documents@,
        |a: SourceDocument, b: SourceDocument|
            document_superseded(a, b, tenant_id, owner_user_id, source_id, now),
    )
    &&& pairwise(
        before.company_context@,
        after.company_context@,
        |a: ContextNode, b: ContextNode|
            node_superseded(a, b, tenant_id, owner_user_id, source_id, now),
    )
    &&& related(
        before.personal_context@,
        after.personal_context@,
        |a: Vec<ContextNode>, b: Vec<ContextNode>|
            pairwise(
                a@,
                b@,
                |x: ContextNode, y: ContextNode|
                    node_superseded(x, y, tenant_id, owner_user_id, source_id, now),
            ),
    )
    &&& related(
        before.links@,
        after.links@,
        |a: KnowledgeLink, b: KnowledgeLink|
            link_superseded(a, b, tenant_id, owner_user_id, uris, now),
    )
}

fn supersede_nodes(
    nodes: &mut Vec<ContextNode>,
    tenant_id: &str,
    owner_user_id: Option<&str>,
    source_id: &str,
    now: i64,
)
    ensures
        pairwise(
            old(nodes)@,
            final(nodes)@,
            |a: ContextNode, b: ContextNode|
                node_superseded(a, b, tenant_id@, opt_str(owner_user_id), source_id@, now),
        ),
{
    let ghost owner = opt_str(owner_user_id);
    let ghost rel = |a: ContextNode, b: ContextNode|
        node_superseded(a, b, tenant_id@, owner, source_id@, now);
    let change = |node: &ContextNode| -> (r: Option<ContextNode>)
        ensures
            match r {
                Some(b) => rel(*node, b),
                None => rel(*node, *node),
            },
        {
            if text_eq(node.tenant_id.as_str(), tenant_id) && opt_eq_str(
                &node.owner_user_id,
                owner_user_id,
            ) && opt_is(&node.source_id, source_id) && text_eq(node.status.as_str(), "active") {
                let mut b: ContextNode = node.clone();
                b.status = "superseded".to_owned();
                b.retrieval_enabled = false;
                b.updated_at = now;
                Some(b)
            } else {
                None
            }
        };
    update_list(nodes, change, Ghost(rel));
}

fn superseded_copy(
    nodes: &Vec<ContextNode>,
    tenant_id: &str,
    owner_user_id: Option<&str>,
    source_id: &str,
    now: i64,
) -> (r: Vec<ContextNode>)
    ensures
        pairwise(
            nodes@,
            r@,
            |a: ContextNode, b: ContextNode|
                node_superseded(a, b, tenant_id@, opt_str(owner_user_id), source_id@, now),
        ),
{
    let mut out: Vec<ContextNode> = copy_all(nodes);
    supersede_nodes(&mut out, tenant_id, owner_user_id, source_id, now);
    out
}

fn supersede_documents(
    data: &mut StoreData,
    tenant_id: &str,
    owner_user_id: Option<&str>,
    source_id: &str,
    now: i64,
) -> (r: Vec<String>)
    ensures
        *final(data) == (StoreData {
            source_documents: final(data).source_documents,
            ..*old(data)
        }),
        related(
            old(data).source_documents@,
            final(data).source_documents@,
            |a: SourceDocument, b: SourceDocument|
                document_superseded(a, b, tenant_id@, opt_str(owner_user_id), source_id@, now),
        ),
        texts(r@) == active_uris(
            old(data).source_documents.values(),
            tenant_id@,
            opt_str(owner_user_id),
            source_id@,
        ),
{
    let ghost owner = opt_str(owner_user_id);
    let ghost p = |document: SourceDocument|
        of_source(document, tenant_id@, owner, source_id@);
    let accept = |document: &SourceDocument| -> (b: bool)
        ensures
            b == p(*document),
        {
            text_eq(document.tenant_id.as_str(), tenant_id) && opt_eq_str(
                &document.owner_user_id,
                owner_user_id,
            ) && text_eq(document.source_id.as_str(), source_id) && text_eq(
                document.status.as_str(),
                "active",
            )
        };
    let found: Vec<SourceDocument> = select_values(&data.source_documents, accept, Ghost(p));
    let mut uris: Vec<String> = Vec::new();
    let mut i: usize = 0;
    while i < found.len()
        invariant
            i <= found.len(),
            uris@.len() == i,
            forall|j: int| 0 <= j < i ==> (#[trigger] uris@[j])@ == found@[j].uri@,
        decreases found.len() - i,
    {
        uris.push(found[i].uri.clone());
        i += 1;
    }
    assert(texts(uris@) =~= active_uris(
        data.source_documents.values(),
        tenant_id@,
        owner,
        source_id@,
    ));
    let ghost rel = |a: SourceDocument, b: SourceDocument|
        document_superseded(a, b, tenant_id@, owner, source_id@, now);
    let change = |document: &SourceDocument| -> (r: Option<SourceDocument>)
        ensures
            match r {
                Some(b) => rel(*document, b),
                None => rel(*document, *document),
            },
        {
            if text_eq(document.tenant_id.as_str(), tenant_id) && opt_eq_str(
                &document.owner_user_id,
                owner_user_id,
            ) && text_eq(document.source_id.as_str(), source_id) && text_eq(
                document.status.as_str(),
                "active",
            ) {
                let mut b: SourceDocument = document.clone();
                b.status = "superseded".to_owned();
                b.updated_at = now;
                Some(b)
            } else {
                None
            }
        };
    data.source_documents.update_each(change, Ghost(rel));
    uris
}

fn supersede_links(
    links: &mut Table<String, KnowledgeLink>,
    tenant_id: &str,
    owner_user_id: Option<&str>,
    uris: &Vec<String>,
    now: i64,
)
    ensures
        related(
            old(links)@,
            final(links)@,
            |a: KnowledgeLink, b: KnowledgeLink|
                link_superseded(a, b, tenant_id@, opt_str(owner_user_id), texts(uris@), now),
        ),
{
    let ghost owner = opt_str(owner_user_id);
    let ghost names = texts(uris@);
    let ghost rel = |a: KnowledgeLink, b: KnowledgeLink|
        link_superseded(a, b, tenant_id@, owner, names, now);
    let change = |link: &KnowledgeLink| -> (r: Option<KnowledgeLink>)
        ensures
            match r {
                Some(b) => rel(*link, b),
                None => rel(*link, *link),
            },
        {
            if text_eq(link.tenant_id.as_str(), tenant_id) && opt_eq_str(
                &link.owner_user_id,
                owner_user_id,
            ) && text_eq(link.relation.as_str(), "part_of") && text_eq(
                link.status.as_str(),
                "active",
            ) && texts_contain(uris, link.target_uri.as_str()) {
                let mut b: KnowledgeLink = link.clone();
                b.status = "superseded".to_owned();
                b.updated_at = now;
                Some(b)
            } else {
                None
            }
        };
    links.update_each(change, Ghost(rel));
}

/// Supersedes the active documents of a source, their nodes and the links that say what they
/// consist of.
pub fn supersede_source_artifacts(
    data: &mut StoreData,
    tenant_id: &str,
    owner_user_id: Option<&str>,
    source_id: &str,
    now: i64,
)
    ensures
        source_superseded(
            *old(data),
            *final(data),
            tenant_id@,
            opt_str(owner_user_id),
            source_id@,
            now,
        ),
{
    let ghost owner = opt_str(owner_user_id);
    let uris: Vec<String> = supersede_documents(data, tenant_id, owner_user_id, source_id, now);
    supersede_nodes(&mut data.company_context, tenant_id, owner_user_id, source_id, now);
    let ghost rel = |a: Vec<ContextNode>, b: Vec<ContextNode>|
        pairwise(
            a@,
            b@,
            |x: ContextNode, y: ContextNode|
                node_superseded(x, y, tenant_id@, owner, source_id@, now),
        );
    let change = |nodes: &Vec<ContextNode>| -> (r: Option<Vec<ContextNode>>)
        ensures
            match r {
                Some(b) => rel(*nodes, b),
                None => rel(*nodes, *nodes),
            },
        { Some(superseded_copy(nodes, tenant_id, owner_user_id, source_id, now)) };
    data.personal_context.update_each(change, Ghost(rel));
    supersede_links(&mut data.links, tenant_id, owner_user_id, &uris, now);
}

/// After a source was superseded none of its documents is active.
pub proof fn superseding_leaves_no_active_document(
    before: StoreData,
    after: StoreData,
    tenant_id: Seq<char>,
    owner_user_id: Option<Seq<char>>,
    source_id: Seq<char>,
    now: i64,
    k: DocumentKeyView,
)
    requires
        source_superseded(before, after, tenant_id, owner_user_id, source_id, now),
        after.source_documents@.dom().contains(k),
    ensures
        !of_source(after.source_documents@[k], tenant_id, owner_user_id, source_id),
        before.source_documents@.dom().contains(k),
{
    reveal_strlit("superseded");
    reveal_strlit("active");
    assert(before.source_documents@.dom().contains(k));
    assert(document_superseded(
        before.source_documents@[k],
        after.source_documents@[k],
        tenant_id,
        owner_user_id,
        source_id,
        now,
    ));
    assert("superseded"@.len() != "active"@.len());
}

/// After a source was superseded none of its nodes in the company context is active.
pub proof fn superseding_leaves_no_active_node(
    before: StoreData,
    after: StoreData,
    tenant_id: Seq<char>,
    owner_user_id: Option<Seq<char>>,
    source_id: Seq<char>,
    now: i64,
    i: int,
)
    requires
        source_superseded(before, after, tenant_id, owner_user_id, source_id, now),
        0 <= i < after.company_context@.len(),
    ensures
        !node_of_source(after.company_context@[i], tenant_id, owner_user_id, source_id),
{
    reveal_strlit("superseded");
    reveal_strlit("active");
    assert(node_superseded(
        before.company_context@[i],
        after.company_context@[i],
        tenant_id,
        owner_user_id,
        source_id,
        now,
    ));
    assert("superseded"@.len() != "active"@.len());
}

/// What of a document is cut into fragments: its content and blocks without the configured
/// secrets. `policy` says how it is to be cut, where anything says so.
pub struct RetrievalText {
    pub content: String,
    pub blocks: Vec<ParsedBlock>,
    pub policy: Option<Json>,
}

/// Whether `r` is a block without the configured secrets.
pub open spec fn is_masked_block(r: ParsedBlock, block: ParsedBlock, secrets: Seq<Seq<char>>) -> bool {
    &&& r == (ParsedBlock {
        text: r.text,
        html: r.html,
        latex: r.latex,
        image_ref: r.image_ref,
        caption: r.caption,
        footnote: r.footnote,
        section_path: r.section_path,
        ..block
    })
    &&& opt_text(r.text) == crate::masking::opt_masked(opt_text(block.text), secrets)
    &&& opt_text(r.html) == crate::masking::opt_masked(opt_text(block.html), secrets)
    &&& opt_text(r.latex) == crate::masking::opt_masked(opt_text(block.latex), secrets)
    &&& opt_text(r.image_ref) == crate::masking::opt_masked(opt_text(block.image_ref), secrets)
    &&& opt_text(r.caption) == crate::masking::opt_masked(opt_text(block.caption), secrets)
    &&& opt_text(r.footnote) == crate::masking::opt_masked(opt_text(block.footnote), secrets)
    &&& texts(r.section_path@) == crate::masking::all_egress_masked(
        texts(block.section_path@),
        secrets,
    )
}

/// Whether `t` is what is cut of a document with this content and these blocks.
pub open spec fn is_retrieval_text(
    t: RetrievalText,
    content: Seq<char>,
    blocks: Seq<ParsedBlock>,
    policy: Option<Json>,
    secrets: Seq<Seq<char>>,
) -> bool {
    &&& t.content@ == fragment_masked(content, secrets)
    &&& t.blocks@.len() == blocks.len()
    &&& forall|i: int|
        0 <= i < blocks.len() ==> is_masked_block(#[trigger] t.blocks@[i], blocks[i], secrets)
    &&& t.policy == policy
}

/// What of a document is cut into fragments.
pub fn retrieval_text(
    content: &str,
    blocks: &Vec<ParsedBlock>,
    policy: &Option<Json>,
    secrets: &Vec<String>,
) -> (r: RetrievalText)
    ensures
        is_retrieval_text(r, content@, blocks@, *policy, texts(secrets@)),
{
    let mut out: Vec<ParsedBlock> = Vec::new();
    let mut i: usize = 0;
    while i < blocks.len()
        invariant
            i <= blocks.len(),
            out@.len() == i,
            forall|j: int|
                0 <= j < i ==> is_masked_block(#[trigger] out@[j], blocks@[j], texts(secrets@)),
        decreases blocks.len() - i,
    {
        out.push(mask_parsed_block_for_retrieval(blocks[i].clone(), secrets));
        i += 1;
    }
    RetrievalText {
        content: mask_secret_fragment_projection_preserving_chars(content, secrets),
        blocks: out,
        policy: match policy {
            Some(policy) => Some(policy.clone()),
            None => None,
        },
    }
}

/// What is cut of a document keeps the length of its content, and shows nothing but masks wherever
/// a part of a secret as wide as a fragment window stood.
pub proof fn what_is_cut_holds_no_secret(
    t: RetrievalText,
    content: Seq<char>,
    blocks: Seq<ParsedBlock>,
    policy: Option<Json>,
    secrets: Seq<Seq<char>>,
    a: int,
    i: int,
)
    requires
        is_retrieval_text(t, content, blocks, policy, secrets),
        window_secret(content, a, secrets, FRAGMENT_WINDOW as int),
        a <= i < a + FRAGMENT_WINDOW,
    ensures
        t.content@.len() == content.len(),
        0 <= i < content.len(),
        t.content@[i] == MASK,
{
    fragment_masking_leaves_no_window(content, secrets, a);
}

/// Whether `cut` cuts every text into fragments whose numbers leave room for one more.
pub open spec fn is_cutter<C: Fn(&RetrievalText) -> Vec<FragmentChunk>>(cut: C) -> bool {
    &&& forall|t: RetrievalText| #[trigger] cut.requires((&t,))
    &&& forall|t: RetrievalText, fragments: Vec<FragmentChunk>| #[trigger]
        cut.ensures((&t,), fragments) ==> numbered(fragments@)
}

/// Whether `fragments` is what `cut` makes of a document without the configured secrets.
pub open spec fn cut_from<C: Fn(&RetrievalText) -> Vec<FragmentChunk>>(
    cut: C,
    fragments: Vec<FragmentChunk>,
    content: Seq<char>,
    blocks: Seq<ParsedBlock>,
    policy: Option<Json>,
    secrets: Seq<Seq<char>>,
) -> bool {
    exists|t: RetrievalText| #[trigger]
        is_retrieval_text(t, content, blocks, policy, secrets) && cut.ensures((&t,), fragments)
}

/// A document to be stored with its fragments.
pub struct NewDocument<'a> {
    pub tenant_id: &'a str,
    pub owner_user_id: Option<&'a str>,
    pub source_kind: &'a str,
    pub source_id: &'a str,
    pub revision_id: &'a str,
    pub uri: &'a str,
    pub title: &'a str,
    pub content: &'a str,
    pub checksum: &'a str,
    pub index_kind: &'a str,
    pub index_uid: &'a str,
}

/// A document to be stored, by content.
pub struct NewDocumentView {
    pub tenant_id: Seq<char>,
    pub owner_user_id: Option<Seq<char>>,
    pub source_kind: Seq<char>,
    pub source_id: Seq<char>,
    pub revision_id: Seq<char>,
    pub uri: Seq<char>,
    pub title: Seq<char>,
    pub content: Seq<char>,
    pub checksum: Seq<char>,
    pub index_kind: Seq<char>,
    pub index_uid: Seq<char>,
}

impl<'a> View for NewDocument<'a> {
    type V = NewDocumentView;

    open spec fn view(&self) -> NewDocumentView {
        NewDocumentView {
            tenant_id: self.tenant_id@,
            owner_user_id: opt_str(self.owner_user_id),
            source_kind: self.source_kind@,
            source_id: self.source_id@,
            revision_id: self.revision_id@,
            uri: self.uri@,
            title: self.title@,
            content: self.content@,
            checksum: self.checksum@,
            index_kind: self.index_kind@,
            index_uid: self.index_uid@,
        }
    }
}

/// Whether `d` is the document that is stored for `new`.
pub open spec fn is_stored_document(
    d: SourceDocument,
    new: NewDocumentView,
    created_at: i64,
    now: i64,
) -> bool {
    &&& d.id@ == document_id(
        new.tenant_id,
        new.owner_user_id,
        new.source_id,
        new.revision_id,
    )
    &&& d.tenant_id@ == new.tenant_id
    &&& opt_text(d.owner_user_id) == new.owner_user_id
    &&& d.source_kind@ == new.source_kind
    &&& d.source_id@ == new.source_id
    &&& d.revision_id@ == new.revision_id
    &&& d.uri@ == new.uri
    &&& d.title@ == new.title
    &&& d.content@ == new.content
    &&& d.checksum@ == new.checksum
    &&& d.status@ == "active"@
    &&& !d.retrieval_enabled
    &&& d.created_at == created_at
    &&& d.updated_at == now
}

/// The bits of the 32-bit float one.
pub const CONFIDENCE_ONE: u32 = 0x3f80_0000;

/// Whether `l` is the link from a fragment to its document.
pub open spec fn is_fragment_link(
    l: KnowledgeLink,
    new: NewDocumentView,
    title: Seq<char>,
    fragment_index: usize,
    now: i64,
) -> bool {
    let uri = fragment_uri(new.uri, fragment_index as nat);
    &&& l.id@ == part_of_id(new.tenant_id, new.owner_user_id, uri, new.uri)
    &&& l.tenant_id@ == new.tenant_id
    &&& opt_text(l.owner_user_id) == new.owner_user_id
    &&& l.source_uri@ == uri
    &&& l.target_uri@ == new.uri
    &&& opt_text(l.source_title) == Some(fragment_title(title, fragment_index as nat))
    &&& opt_text(l.target_title) == Some(title)
    &&& l.relation@ == "part_of"@
    &&& opt_text(l.rationale) == Some("fragment generated from source document"@)
    &&& l.evidence_text is None
    &&& l.confidence == CONFIDENCE_ONE
    &&& l.created_by@ == "system_fragmenter"@
    &&& l.status@ == "active"@
    &&& texts(l.tags@) == seq![new.source_kind]
    &&& l.created_at == now
    &&& l.updated_at == now
}

/// What is answered about a document that was stored.
pub struct DocumentIngestResult {
    pub source_id: String,
    pub source_document_uri: String,
    pub fragment_uris: Vec<String>,
    /// What may be embedded ahead of the first search: keys and texts.
    pub warm_entries: Vec<(String, String)>,
}

/// The home of the fragments of a document.
pub open spec fn home_of(new: NewDocumentView, title: Seq<char>) -> HomeView {
    HomeView {
        title,
        index_kind: new.index_kind,
        index_uid: new.index_uid,
        tenant_id: new.tenant_id,
        owner_user_id: new.owner_user_id,
        source_id: new.source_id,
        revision_id: new.revision_id,
        source_document_uri: new.uri,
    }
}

/// Whether `nodes` are the nodes of the fragments.
pub open spec fn are_fragment_nodes(
    nodes: Seq<ContextNode>,
    new: NewDocumentView,
    title: Seq<char>,
    fragments: Seq<FragmentChunk>,
    artifact_refs: List<ParseArtifactRef>,
    now: i64,
) -> bool {
    nodes.len() == fragments.len() && forall|i: int|
        0 <= i < fragments.len() ==> is_fragment_node(
            #[trigger] nodes[i],
            home_of(new, title),
            fragments[i],
            artifact_refs,
            now,
        )
}

/// Whether `links` lead from the fragments to the document.
pub open spec fn are_fragment_links(
    links: Seq<KnowledgeLink>,
    new: NewDocumentView,
    title: Seq<char>,
    fragments: Seq<FragmentChunk>,
    now: i64,
) -> bool {
    links.len() == fragments.len() && forall|i: int|
        0 <= i < fragments.len() ==> is_fragment_link(
            #[trigger] links[i],
            new,
            title,
            fragments[i].fragment_index,
            now,
        )
}

/// What is stored of a document once its predecessors are superseded.
pub open spec fn document_stored(
    before: StoreData,
    after: StoreData,
    new: NewDocumentView,
    title: Seq<char>,
    blocks: Seq<ParsedBlock>,
    fragments: Seq<FragmentChunk>,
    artifact_refs: List<ParseArtifactRef>,
    nodes: Seq<ContextNode>,
    links: Seq<KnowledgeLink>,
    now: i64,
) -> bool {
    let key = key_of(new.tenant_id, new.owner_user_id, new.uri);
    let m = before.source_documents@;
    &&& after == (StoreData {
        source_documents: after.source_documents,
        parsed_blocks: after.parsed_blocks,
        company_context: after.company_context,
        personal_context: after.personal_context,
        links: after.links,
        ..before
    })
    &&& after.source_documents@.dom().contains(key)
    &&& after.source_documents@ == m.insert(key, after.source_documents@[key])
    &&& is_stored_document(
        after.source_documents@[key],
        new,
        if m.dom().contains(key) {
            m[key].created_at
        } else {
            now
        },
        now,
    )
    &&& lists(after.parsed_blocks@) == (if blocks.len() > 0 {
        lists(before.parsed_blocks@).insert(key, blocks)
    } else {
        lists(before.parsed_blocks@)
    })
    &&& are_fragment_nodes(nodes, new, title, fragments, artifact_refs, now)
    &&& if new.index_kind == "company"@ {
        &&& after.company_context@ == with_nodes(before.company_context@, nodes)
        &&& after.personal_context == before.personal_context
    } else {
        &&& after.company_context == before.company_context
        &&& lists(after.personal_context@) == lists(before.personal_context@).insert(
            new.index_uid,
            with_nodes(list_at(lists(before.personal_context@), new.index_uid), nodes),
        )
    }
    &&& are_fragment_links(links, new, title, fragments, now)
    &&& after.links@ == inserted_all::<String, KnowledgeLink>(before.links@, links)
}

/// Whether `warm` names the document and its nodes.
pub open spec fn warms(
    warm: Seq<(String, String)>,
    new: NewDocumentView,
    title: Seq<char>,
    content: Seq<char>,
    nodes: Seq<ContextNode>,
) -> bool {
    &&& warm.len() == nodes.len() + 1
    &&& warm[0].0@ == document_vector_key(new.index_uid, new.uri)
    &&& warm[0].1@ == title + " "@ + content
    &&& forall|i: int|
        0 <= i < nodes.len() ==> (#[trigger] warm[i + 1]).0@ == node_key(nodes[i]) && warm[i + 1].1@
            == node_text(nodes[i])
}

fn fragment_link(
    new: &NewDocument<'_>,
    title: &str,
    fragment_index: usize,
    now: i64,
) -> (r: KnowledgeLink)
    requires
        fragment_index < usize::MAX,
    ensures
        is_fragment_link(r, new@, title@, fragment_index, now),
{
    let uri: String = fragment_uri_of(new.uri, fragment_index);
    let mut tags: Vec<String> = Vec::new();
    tags.push(new.source_kind.to_owned());
    assert(texts(tags@) =~= seq![new.source_kind@]);
    KnowledgeLink {
        id: part_of_link_id(new.tenant_id, new.owner_user_id, uri.as_str(), new.uri),
        tenant_id: new.tenant_id.to_owned(),
        owner_user_id: crate::text::opt_owned(new.owner_user_id),
        source_uri: uri,
        target_uri: new.uri.to_owned(),
        source_title: Some(fragment_title_of(title, fragment_index)),
        target_title: Some(title.to_owned()),
        relation: "part_of".to_owned(),
        rationale: Some("fragment generated from source document".to_owned()),
        evidence_text: None,
        confidence: CONFIDENCE_ONE,
        created_by: "system_fragmenter".to_owned(),
        status: "active".to_owned(),
        tags: std::sync::Arc::new(tags),
        created_at: now,
        updated_at: now,
    }
}

/// Whether every fragment can be numbered from one on.
pub open spec fn numbered(fragments: Seq<FragmentChunk>) -> bool {
    forall|i: int| 0 <= i < fragments.len() ==> (#[trigger] fragments[i]).fragment_index < usize::MAX
}

fn nodes_of_fragments(
    new: &NewDocument<'_>,
    title: &str,
    fragments: &Vec<FragmentChunk>,
    artifact_refs: &List<ParseArtifactRef>,
    now: i64,
) -> (r: Vec<ContextNode>)
    requires
        numbered(fragments@),
    ensures
        are_fragment_nodes(r@, new@, title@, fragments@, *artifact_refs, now),
{
    let home: FragmentHome<'_> = FragmentHome {
        title,
        index_kind: new.index_kind,
        index_uid: new.index_uid,
        tenant_id: new.tenant_id,
        owner_user_id: new.owner_user_id,
        source_id: new.source_id,
        revision_id: new.revision_id,
        source_document_uri: new.uri,
    };
    let mut out: Vec<ContextNode> = Vec::new();
    let mut i: usize = 0;
    while i < fragments.len()
        invariant
            i <= fragments.len(),
            numbered(fragments@),
            home@ == home_of(new@, title@),
            out@.len() == i,
            forall|j: int|
                0 <= j < i ==> is_fragment_node(
                    #[trigger] out@[j],
                    home@,
                    fragments@[j],
                    *artifact_refs,
                    now,
                ),
        decreases fragments.len() - i,
    {
        out.push(fragment_context_node(&home, &fragments[i], artifact_refs, now));
        i += 1;
    }
    out
}

fn links_of_fragments(
    new: &NewDocument<'_>,
    title: &str,
    fragments: &Vec<FragmentChunk>,
    now: i64,
) -> (r: Vec<KnowledgeLink>)
    requires
        numbered(fragments@),
    ensures
        are_fragment_links(r@, new@, title@, fragments@, now),
{
    let mut out: Vec<KnowledgeLink> = Vec::new();
    let mut i: usize = 0;
    while i < fragments.len()
        invariant
            i <= fragments.len(),
            numbered(fragments@),
            out@.len() == i,
            forall|j: int|
                0 <= j < i ==> is_fragment_link(
                    #[trigger] out@[j],
                    new@,
                    title@,
                    fragments@[j].fragment_index,
                    now,
                ),
        decreases fragments.len() - i,
    {
        out.push(fragment_link(new, title, fragments[i].fragment_index, now));
        i += 1;
    }
    out
}

fn warm_entries_of(
    new: &NewDocument<'_>,
    title: &str,
    content: &str,
    nodes: &Vec<ContextNode>,
) -> (r: Vec<(String, String)>)
    ensures
        warms(r@, new@, title@, content@, nodes@),
{
    let mut out: Vec<(String, String)> = Vec::new();
    let mut text: String = title.to_owned();
    text.append(" ");
    text.append(content);
    out.push((vector_doc_key(new.index_uid, new.uri), text));
    let ghost head = out@[0];
    let mut i: usize = 0;
    while i < nodes.len()
        invariant
            i <= nodes.len(),
            out@.len() == i + 1,
            out@[0] == head,
            forall|j: int|
                1 <= j < i + 1 ==> (#[trigger] out@[j]).0@ == node_key(nodes@[j - 1]) && out@[j].1@
                    == node_text(nodes@[j - 1]),
        decreases nodes.len() - i,
    {
        out.push((vector_match_key(&nodes[i]), node_match_text(&nodes[i])));
        i += 1;
    }
    out
}

fn store_document(data: &mut StoreData, new: &NewDocument<'_>, blocks: &Vec<ParsedBlock>, now: i64)
    ensures
        *final(data) == (StoreData {
            source_documents: final(data).source_documents,
            parsed_blocks: final(data).parsed_blocks,
            ..*old(data)
        }),
        ({
            let key = key_of(new.tenant_id@, opt_str(new.owner_user_id), new.uri@);
            let m = old(data).source_documents@;
            let m2 = final(data).source_documents@;
            &&& m2.dom().contains(key)
            &&& m2 == m.insert(key, m2[key])
            &&& is_stored_document(
                m2[key],
                new@,
                if m.dom().contains(key) {
                    m[key].created_at
                } else {
                    now
                },
                now,
            )
            &&& lists(final(data).parsed_blocks@) == (if blocks@.len() > 0 {
                lists(old(data).parsed_blocks@).insert(key, blocks@)
            } else {
                lists(old(data).parsed_blocks@)
            })
        }),
{
    let key: SourceDocumentKey = SourceDocumentKey::new(
        new.tenant_id,
        new.owner_user_id,
        new.uri,
    );
    let created_at: i64 = match data.source_documents.get(&key) {
        Some(document) => document.created_at,
        None => now,
    };
    let document: SourceDocument = SourceDocument {
        id: source_document_id(
            new.tenant_id,
            new.owner_user_id,
            new.source_id,
            new.revision_id,
        ),
        tenant_id: new.tenant_id.to_owned(),
        owner_user_id: crate::text::opt_owned(new.owner_user_id),
        source_kind: new.source_kind.to_owned(),
        source_id: new.source_id.to_owned(),
        revision_id: new.revision_id.to_owned(),
        uri: new.uri.to_owned(),
        title: new.title.to_owned(),
        content: new.content.to_owned(),
        checksum: new.checksum.to_owned(),
        status: "active".to_owned(),
        retrieval_enabled: false,
        created_at,
        updated_at: now,
    };
    data.source_documents.insert(key.clone(), document);
    if blocks.len() > 0 {
        let list: Vec<ParsedBlock> = copy_all(blocks);
        let ghost before = data.parsed_blocks@;
        let ghost kv = key@;
        let ghost content = list;
        data.parsed_blocks.insert(key, list);
        assert(lists(data.parsed_blocks@) =~= lists(before).insert(kv, content@));
    }
}

fn store_nodes(data: &mut StoreData, new: &NewDocument<'_>, nodes: &Vec<ContextNode>)
    ensures
        *final(data) == (StoreData {
            company_context: final(data).company_context,
            personal_context: final(data).personal_context,
            ..*old(data)
        }),
        if new.index_kind@ == "company"@ {
            &&& final(data).company_context@ == with_nodes(old(data).company_context@, nodes@)
            &&& final(data).personal_context == old(data).personal_context
        } else {
            &&& final(data).company_context == old(data).company_context
            &&& lists(final(data).personal_context@) == lists(old(data).personal_context@).insert(
                new.index_uid@,
                with_nodes(list_at(lists(old(data).personal_context@), new.index_uid@), nodes@),
            )
        },
{
    if text_eq(new.index_kind, "company") {
        upsert_context_nodes(&mut data.company_context, nodes);
    } else {
        put_personal_nodes(data, new.index_uid, nodes);
    }
}

/// Puts nodes into the personal context of an index.
pub fn put_personal_nodes(data: &mut StoreData, index_uid: &str, nodes: &Vec<ContextNode>)
    ensures
        *final(data) == (StoreData {
            personal_context: final(data).personal_context,
            ..*old(data)
        }),
        lists(final(data).personal_context@) == lists(old(data).personal_context@).insert(
            index_uid@,
            with_nodes(list_at(lists(old(data).personal_context@), index_uid@), nodes@),
        ),
{
    let ghost before = data.personal_context@;
    let key: String = index_uid.to_owned();
    let mut list: Vec<ContextNode> = take_list(&mut data.personal_context, &key);
    upsert_context_nodes(&mut list, nodes);
    proof {
        lists_replaced(before, index_uid@, list);
    }
    data.personal_context.insert(key, list);
}

/// What is stored, what is superseded and what is answered when a document is written.
pub open spec fn document_written(
    before: StoreData,
    after: StoreData,
    r: DocumentIngestResult,
    new: NewDocumentView,
    blocks: Seq<ParsedBlock>,
    fragments: Seq<FragmentChunk>,
    artifact_refs: List<ParseArtifactRef>,
    secrets: Seq<Seq<char>>,
    now: i64,
) -> bool {
    exists|
        mid: StoreData,
        title: Seq<char>,
        nodes: Seq<ContextNode>,
        links: Seq<KnowledgeLink>,
    |
        {
            &&& #[trigger] source_superseded(
                before,
                mid,
                new.tenant_id,
                new.owner_user_id,
                new.source_id,
                now,
            )
            &&& title == egress_masked(new.title, secrets)
            &&& #[trigger] document_stored(
                mid,
                after,
                new,
                title,
                blocks,
                fragments,
                artifact_refs,
                nodes,
                links,
                now,
            )
            &&& warms(
                r.warm_entries@,
                new,
                title,
                fragment_masked(new.content, secrets),
                nodes,
            )
        }
}

/// The URIs of the fragments of a document.
pub open spec fn fragment_uris(uri: Seq<char>, fragments: Seq<FragmentChunk>) -> Seq<Seq<char>> {
    Seq::new(fragments.len(), |i: int| fragment_uri(uri, fragments[i].fragment_index as nat))
}

fn list_fragment_uris(uri: &str, fragments: &Vec<FragmentChunk>) -> (r: Vec<String>)
    requires
        numbered(fragments@),
    ensures
        texts(r@) == fragment_uris(uri@, fragments@),
{
    let mut out: Vec<String> = Vec::new();
    let mut i: usize = 0;
    while i < fragments.len()
        invariant
            i <= fragments.len(),
            numbered(fragments@),
            out@.len() == i,
            forall|j: int|
                0 <= j < i ==> (#[trigger] out@[j])@ == fragment_uri(
                    uri@,
                    fragments@[j].fragment_index as nat,
                ),
        decreases fragments.len() - i,
    {
        out.push(fragment_uri_of(uri, fragments[i].fragment_index));
        i += 1;
    }
    assert(texts(out@) =~= fragment_uris(uri@, fragments@));
    out
}

/// Stores a document and the fragments that `cut` makes of it in the place of what its source held
/// before. What is cut holds none of the configured secrets.
pub fn write_source_document_fragments<C: Fn(&RetrievalText) -> Vec<FragmentChunk>>(
    data: &mut StoreData,
    new: &NewDocument<'_>,
    blocks: &Vec<ParsedBlock>,
    policy: &Option<Json>,
    cut: C,
    artifact_refs: &List<ParseArtifactRef>,
    secrets: &Vec<String>,
    now: i64,
) -> (r: DocumentIngestResult)
    requires
        is_cutter(cut),
    ensures
        r.source_id@ == new.source_id@,
        r.source_document_uri@ == new.uri@,
        exists|fragments: Vec<FragmentChunk>|
            {
                &&& #[trigger] cut_from(
                    cut,
                    fragments,
                    new.content@,
                    blocks@,
                    *policy,
                    texts(secrets@),
                )
                &&& texts(r.fragment_uris@) == fragment_uris(new.uri@, fragments@)
                &&& document_written(
                    *old(data),
                    *final(data),
                    r,
                    new@,
                    blocks@,
                    fragments@,
                    *artifact_refs,
                    texts(secrets@),
                    now,
                )
            },
{
    supersede_source_artifacts(data, new.tenant_id, new.owner_user_id, new.source_id, now);
    let ghost mid = *data;
    store_document(data, new, blocks, now);
    let title: String = mask_secret_egress_projection_preserving_chars(new.title, secrets);
    let text: RetrievalText = retrieval_text(new.content, blocks, policy, secrets);
    let fragments: Vec<FragmentChunk> = cut(&text);
    let nodes: Vec<ContextNode> = nodes_of_fragments(
        new,
        title.as_str(),
        &fragments,
        artifact_refs,
        now,
    );
    let warm_entries: Vec<(String, String)> = warm_entries_of(
        new,
        title.as_str(),
        text.content.as_str(),
        &nodes,
    );
    store_nodes(data, new, &nodes);
    let links: Vec<KnowledgeLink> = links_of_fragments(new, title.as_str(), &fragments, now);
    insert_rows(&mut data.links, &links);
    let r: DocumentIngestResult = DocumentIngestResult {
        source_id: new.source_id.to_owned(),
        source_document_uri: new.uri.to_owned(),
        fragment_uris: list_fragment_uris(new.uri, &fragments),
        warm_entries,
    };
    proof {
        assert(is_retrieval_text(text, new.content@, blocks@, *policy, texts(secrets@)));
        assert(cut_from(cut, fragments, new.content@, blocks@, *policy, texts(secrets@)));
        assert(source_superseded(
            *old(data),
            mid,
            new.tenant_id@,
            opt_str(new.owner_user_id),
            new.source_id@,
            now,
        ));
        assert(document_stored(
            mid,
            *data,
            new@,
            title@,
            blocks@,
            fragments@,
            *artifact_refs,
            nodes@,
            links@,
            now,
        ));
    }
    r
}

/// Once a document is written it is the only active one of its source.
pub proof fn a_source_has_one_active_document(
    before: StoreData,
    after: StoreData,
    r: DocumentIngestResult,
    new: NewDocumentView,
    blocks: Seq<ParsedBlock>,
    fragments: Seq<FragmentChunk>,
    artifact_refs: List<ParseArtifactRef>,
    secrets: Seq<Seq<char>>,
    now: i64,
    k: DocumentKeyView,
)
    requires
        document_written(
            before,
            after,
            r,
            new,
            blocks,
            fragments,
            artifact_refs,
            secrets,
            now,
        ),
        after.source_documents@.dom().contains(k),
    ensures
        of_source(
            after.source_documents@[k],
            new.tenant_id,
            new.owner_user_id,
            new.source_id,
        ) <==> k == key_of(new.tenant_id, new.owner_user_id, new.uri),
{
    let (mid, title, nodes, links): (StoreData, Seq<char>, Seq<ContextNode>, Seq<KnowledgeLink>) =
        choose|mid: StoreData, title: Seq<char>, nodes: Seq<ContextNode>, links: Seq<KnowledgeLink>|
        {
            &&& #[trigger] source_superseded(
                before,
                mid,
                new.tenant_id,
                new.owner_user_id,
                new.source_id,
                now,
            )
            &&& title == egress_masked(new.title, secrets)
            &&& #[trigger] document_stored(
                mid,
                after,
                new,
                title,
                blocks,
                fragments,
                artifact_refs,
                nodes,
                links,
                now,
            )
            &&& warms(
                r.warm_entries@,
                new,
                title,
                fragment_masked(new.content, secrets),
                nodes,
            )
        };
    let key = key_of(new.tenant_id, new.owner_user_id, new.uri);
    if k != key {
        assert(mid.source_documents@.dom().contains(k));
        superseding_leaves_no_active_document(
            before,
            mid,
            new.tenant_id,
            new.owner_user_id,
            new.source_id,
            now,
            k,
        );
    }
}

/// The document in which a revision of the company is stored.
pub open spec fn revision_document(revision: SourceRevision, tenant_id: Seq<char>) -> NewDocumentView {
    NewDocumentView {
        tenant_id,
        owner_user_id: None,
        source_kind: "company_doc"@,
        source_id: revision.source_id@,
        revision_id: revision.id@,
        uri: revision_document_uri(revision.source_id@, revision.id@),
        title: revision.title@,
        content: revision.content@,
        checksum: revision.checksum@,
        index_kind: "company"@,
        index_uid: COMPANY_CONTEXT_INDEX@,
    }
}

/// The state after a document without blocks or artifacts was written with the fragments that
/// `cut` makes of it.
pub open spec fn plain_document_written<C: Fn(&RetrievalText) -> Vec<FragmentChunk>>(
    before: StoreData,
    after: StoreData,
    r: DocumentIngestResult,
    new: NewDocumentView,
    policy: Option<Json>,
    cut: C,
    fragments: Vec<FragmentChunk>,
    secrets: Seq<Seq<char>>,
    now: i64,
) -> bool {
    &&& cut_from(cut, fragments, new.content, Seq::empty(), policy, secrets)
    &&& exists|refs: List<ParseArtifactRef>|
        refs@.len() == 0 && #[trigger] document_written(
            before,
            after,
            r,
            new,
            Seq::empty(),
            fragments@,
            refs,
            secrets,
            now,
        )
}

/// Stores a document without blocks or artifacts and the fragments that `cut` makes of it in the
/// place of what its source held before.
pub fn write_plain_document<C: Fn(&RetrievalText) -> Vec<FragmentChunk>>(
    data: &mut StoreData,
    new: &NewDocument<'_>,
    policy: &Option<Json>,
    cut: C,
    secrets: &Vec<String>,
    now: i64,
) -> (r: DocumentIngestResult)
    requires
        is_cutter(cut),
    ensures
        r.source_id@ == new.source_id@,
        r.source_document_uri@ == new.uri@,
        exists|fragments: Vec<FragmentChunk>|
            texts(r.fragment_uris@) == fragment_uris(new.uri@, fragments@)
                && #[trigger] plain_document_written(
                *old(data),
                *final(data),
                r,
                new@,
                *policy,
                cut,
                fragments,
                texts(secrets@),
                now,
            ),
{
    let blocks: Vec<ParsedBlock> = Vec::new();
    let refs: List<ParseArtifactRef> = std::sync::Arc::new(Vec::new());
    assert(blocks@ =~= Seq::empty());
    let r: DocumentIngestResult = write_source_document_fragments(
        data,
        new,
        &blocks,
        policy,
        cut,
        &refs,
        secrets,
        now,
    );
    proof {
        let fragments = choose|fragments: Vec<FragmentChunk>|
            {
                &&& #[trigger] cut_from(
                    cut,
                    fragments,
                    new.content@,
                    Seq::empty(),
                    *policy,
                    texts(secrets@),
                )
                &&& texts(r.fragment_uris@) == fragment_uris(new.uri@, fragments@)
                &&& document_written(
                    *old(data),
                    *data,
                    r,
                    new@,
                    Seq::empty(),
                    fragments@,
                    refs,
                    texts(secrets@),
                    now,
                )
            };
        assert(plain_document_written(
            *old(data),
            *data,
            r,
            new@,
            *policy,
            cut,
            fragments,
            texts(secrets@),
            now,
        ));
    }
    r
}

/// Stores a revision of the company and the fragments that `cut` makes of it in the place of the
/// one before.
pub fn write_company_revision_context<C: Fn(&RetrievalText) -> Vec<FragmentChunk>>(
    data: &mut StoreData,
    tenant_id: &str,
    revision: &SourceRevision,
    cut: C,
    secrets: &Vec<String>,
    now: i64,
) -> (r: DocumentIngestResult)
    requires
        is_cutter(cut),
    ensures
        r.source_id@ == revision.source_id@,
        r.source_document_uri@ == revision_document_uri(revision.source_id@, revision.id@),
        exists|fragments: Vec<FragmentChunk>|
            texts(r.fragment_uris@) == fragment_uris(r.source_document_uri@, fragments@)
                && #[trigger] plain_document_written(
                *old(data),
                *final(data),
                r,
                revision_document(*revision, tenant_id@),
                None,
                cut,
                fragments,
                texts(secrets@),
                now,
            ),
{
    let uri: String = company_revision_source_document_uri(
        revision.source_id.as_str(),
        revision.id.as_str(),
    );
    let new: NewDocument<'_> = NewDocument {
        tenant_id,
        owner_user_id: None,
        source_kind: "company_doc",
        source_id: revision.source_id.as_str(),
        revision_id: revision.id.as_str(),
        uri: uri.as_str(),
        title: revision.title.as_str(),
        content: revision.content.as_str(),
        checksum: revision.checksum.as_str(),
        index_kind: "company",
        index_uid: COMPANY_CONTEXT_INDEX,
    };
    assert(new@ == revision_document(*revision, tenant_id@));
    write_plain_document(data, &new, &None, cut, secrets, now)
}

} // verus!
