//! What documents can be relied on for: what is written is read, what it replaces is put aside, and
//! its fragments lead back to it.

use vstd::prelude::*;

use crate::company::{
    activation_result, company_revision_result, is_company_revision, made_active, revision_added,
    revision_note, revision_pointed, revision_read, ActivateRevisionResponse, CreateRevisionRequest,
    CreateRevisionResponse,
};
use crate::data::StoreData;
use crate::documents::{
    document_stored, document_written, plain_document_written, readable_document, revision_document,
    source_superseded, DocumentIngestResult, NewDocumentView, RetrievalText,
};
use crate::error::ApiError;
use crate::history::{noted, noting_keeps_other_records, HistoryEventResponse, StampView};
use crate::laws::facts::lemma_writing_keeps_records;
use crate::laws::publishing::{lemma_node_placed, reads, same_but, what_is_put_is_read};
use crate::merge::with_nodes;
use crate::model::ingest::{ParsedBlock, SourceRevision};
use crate::model::knowledge::{ContextNode, KnowledgeLink, ParseArtifactRef};
use crate::nodes::{fragment_uri, is_candidate, FragmentChunk};
use crate::order::first_where_facts;
use crate::record::List;
use crate::resolver::EventIndexResolver;
use crate::table::{list_at, lists};
use crate::text::opt_text;

verus! {

/// Superseding a source puts its active documents aside and leaves every other document alone.
pub proof fn only_the_source_is_put_aside(
    before: StoreData,
    after: StoreData,
    tenant_id: Seq<char>,
    owner_user_id: Option<Seq<char>>,
    source_id: Seq<char>,
    now: i64,
    k: crate::data::DocumentKeyView,
)
    requires
        source_superseded(before, after, tenant_id, owner_user_id, source_id, now),
        before.source_documents@.dom().contains(k),
    ensures
        after.source_documents@.dom().contains(k),
        ({
            let was = before.source_documents@[k];
            let is = after.source_documents@[k];
            if was.tenant_id@ == tenant_id && opt_text(was.owner_user_id) == owner_user_id
                && was.source_id@ == source_id && was.status@ == "active"@ {
                &&& is.status@ == "superseded"@
                &&& is.updated_at == now
                &&& is.content == was.content
                &&& is.title == was.title
                &&& is.uri == was.uri
                &&& is.revision_id == was.revision_id
                &&& is.created_at == was.created_at
            } else {
                is == was
            }
        }),
{
    assert(after.source_documents@.dom().contains(k));
}

/// Superseding a source puts its active nodes in the company's index aside, so that they are
/// retrieved no more, and leaves every other node alone.
pub proof fn superseded_nodes_are_not_retrieved(
    before: StoreData,
    after: StoreData,
    tenant_id: Seq<char>,
    owner_user_id: Option<Seq<char>>,
    source_id: Seq<char>,
    now: i64,
    i: int,
)
    requires
        source_superseded(before, after, tenant_id, owner_user_id, source_id, now),
        0 <= i < before.company_context@.len(),
    ensures
        after.company_context@.len() == before.company_context@.len(),
        ({
            let was = before.company_context@[i];
            let is = after.company_context@[i];
            if was.tenant_id@ == tenant_id && opt_text(was.owner_user_id) == owner_user_id
                && opt_text(was.source_id) == Some(source_id) && was.status@ == "active"@ {
                &&& is.status@ == "superseded"@
                &&& is.retrieval_enabled == false
                &&& !is_candidate(is)
                &&& is.uri == was.uri
                &&& is.body == was.body
            } else {
                is == was
            }
        }),
{
    reveal_strlit("superseded");
    reveal_strlit("active");
    assert("superseded"@[0] != "active"@[0]);
    assert(after.company_context@[i] == after.company_context@[i]);
}

/// Superseding a source puts the active part-of links to its active documents aside and leaves every
/// other link alone.
pub proof fn only_links_to_the_source_are_put_aside(
    before: StoreData,
    after: StoreData,
    tenant_id: Seq<char>,
    owner_user_id: Option<Seq<char>>,
    source_id: Seq<char>,
    now: i64,
    k: Seq<char>,
)
    requires
        source_superseded(before, after, tenant_id, owner_user_id, source_id, now),
        before.links@.dom().contains(k),
    ensures
        reads(after.links@, k, after.links@[k]),
        ({
            let was = before.links@[k];
            let is = after.links@[k];
            &&& is.source_uri == was.source_uri
            &&& is.target_uri == was.target_uri
            &&& is.relation == was.relation
            &&& is != was ==> {
                &&& is.status@ == "superseded"@
                &&& was.status@ == "active"@
                &&& was.relation@ == "part_of"@
                &&& was.tenant_id@ == tenant_id
                &&& opt_text(was.owner_user_id) == owner_user_id
            }
        }),
{
    assert(after.links@.dom().contains(k));
}

/// A document that is written is active with the content, title and checksum that were given, and is
/// what its owner reads at its address.
pub proof fn a_written_document_is_read(
    before: StoreData,
    after: StoreData,
    r: DocumentIngestResult,
    new: NewDocumentView,
    blocks: Seq<ParsedBlock>,
    fragments: Seq<FragmentChunk>,
    artifact_refs: List<ParseArtifactRef>,
    secrets: Seq<Seq<char>>,
    now: i64,
)
    requires
        document_written(
            before,
            after,
            r,
            new,
            blocks,
            fragments,
            artifact_refs,
            secrets,
            now,
        ),
    ensures
        readable_document(after, new.tenant_id, new.uri, new.owner_user_id, false) is Some,
        ({
            let d = readable_document(after, new.tenant_id, new.uri, new.owner_user_id, false)->0;
            &&& d.tenant_id@ == new.tenant_id
            &&& opt_text(d.owner_user_id) == new.owner_user_id
            &&& d.uri@ == new.uri
            &&& d.source_id@ == new.source_id
            &&& d.revision_id@ == new.revision_id
            &&& d.title@ == new.title
            &&& d.content@ == new.content
            &&& d.checksum@ == new.checksum
            &&& d.status@ == "active"@
            &&& d.updated_at == now
        }),
{
    let (mid, title, nodes, links) = lemma_parts(
        before,
        after,
        r,
        new,
        blocks,
        fragments,
        artifact_refs,
        secrets,
        now,
    );
}

proof fn lemma_parts(
    before: StoreData,
    after: StoreData,
    r: DocumentIngestResult,
    new: NewDocumentView,
    blocks: Seq<ParsedBlock>,
    fragments: Seq<FragmentChunk>,
    artifact_refs: List<ParseArtifactRef>,
    secrets: Seq<Seq<char>>,
    now: i64,
) -> (parts: (StoreData, Seq<char>, Seq<ContextNode>, Seq<KnowledgeLink>))
    requires
        document_written(
            before,
            after,
            r,
            new,
            blocks,
            fragments,
            artifact_refs,
            secrets,
            now,
        ),
    ensures
        source_superseded(
            before,
            parts.0,
            new.tenant_id,
            new.owner_user_id,
            new.source_id,
            now,
        ),
        document_stored(
            parts.0,
            after,
            new,
            parts.1,
            blocks,
            fragments,
            artifact_refs,
            parts.2,
            parts.3,
            now,
        ),
{
    choose|mid: StoreData, title: Seq<char>, nodes: Seq<ContextNode>, links: Seq<KnowledgeLink>|
        {
            &&& #[trigger] source_superseded(
                before,
                mid,
                new.tenant_id,
                new.owner_user_id,
                new.source_id,
                now,
            )
            &&& #[trigger] document_stored(
                mid,
                after,
                new,
                title,
                blocks,
                fragments,
                artifact_refs,
                nodes,
                links,
                now,
            )
        }
}

/// The index in which the fragments of a document stand.
pub open spec fn index_of_document(d: StoreData, new: NewDocumentView) -> Seq<ContextNode> {
    if new.index_kind == "company"@ {
        d.company_context@
    } else {
        list_at(lists(d.personal_context@), new.index_uid)
    }
}

/// Every fragment of a document that is written has its place in the document's index, unless a
/// newer one stands there.
pub proof fn every_fragment_has_its_place(
    before: StoreData,
    after: StoreData,
    r: DocumentIngestResult,
    new: NewDocumentView,
    blocks: Seq<ParsedBlock>,
    fragments: Seq<FragmentChunk>,
    artifact_refs: List<ParseArtifactRef>,
    secrets: Seq<Seq<char>>,
    now: i64,
    i: int,
)
    requires
        document_written(
            before,
            after,
            r,
            new,
            blocks,
            fragments,
            artifact_refs,
            secrets,
            now,
        ),
        0 <= i < fragments.len(),
    ensures
        exists|k: int|
            {
                &&& 0 <= k < index_of_document(after, new).len()
                &&& (#[trigger] index_of_document(after, new)[k]).tenant_id@ == new.tenant_id
                &&& index_of_document(after, new)[k].uri@ == fragment_uri(
                    new.uri,
                    fragments[i].fragment_index as nat,
                )
                &&& index_of_document(after, new)[k].layer == 2
                &&& index_of_document(after, new)[k].updated_at >= now
            },
{
    let (mid, title, nodes, links) = lemma_parts(
        before,
        after,
        r,
        new,
        blocks,
        fragments,
        artifact_refs,
        secrets,
        now,
    );
    let target = index_of_document(mid, new);
    let k = lemma_node_placed(target, nodes, i);
    assert(nodes[i].uri@ == fragment_uri(new.uri, fragments[i].fragment_index as nat));
    assert(index_of_document(after, new) == with_nodes(target, nodes));
    assert(index_of_document(after, new)[k].uri@ == nodes[i].uri@);
}

/// A fragment of a document that is written holds what was cut, can be retrieved and leads back to
/// the document by an active part-of link, unless a later fragment has the same link.
pub proof fn a_fragment_leads_back_to_its_document(
    before: StoreData,
    after: StoreData,
    new: NewDocumentView,
    title: Seq<char>,
    blocks: Seq<ParsedBlock>,
    fragments: Seq<FragmentChunk>,
    artifact_refs: List<ParseArtifactRef>,
    nodes: Seq<ContextNode>,
    links: Seq<KnowledgeLink>,
    now: i64,
    i: int,
)
    requires
        document_stored(
            before,
            after,
            new,
            title,
            blocks,
            fragments,
            artifact_refs,
            nodes,
            links,
            now,
        ),
        0 <= i < fragments.len(),
    ensures
        ({
            let node = nodes[i];
            &&& node.body@ == fragments[i].content@
            &&& node.fragment_index == Some(fragments[i].fragment_index)
            &&& opt_text(node.source_document_uri) == Some(new.uri)
            &&& opt_text(node.parent_uri) == Some(new.uri)
            &&& opt_text(node.source_id) == Some(new.source_id)
            &&& opt_text(node.revision_id) == Some(new.revision_id)
            &&& opt_text(node.owner_user_id) == new.owner_user_id
            &&& node.tenant_id@ == new.tenant_id
            &&& node.index_uid@ == new.index_uid
            &&& node.page_idx == fragments[i].page_idx
            &&& node.block_type == fragments[i].block_type
            &&& node.char_start == fragments[i].char_start
            &&& node.char_end == fragments[i].char_end
            &&& is_candidate(node)
            &&& node.privacy@ == (if new.index_kind == "company"@ {
                "company"@
            } else {
                "private"@
            })
        }),
        ({
            let link = links[i];
            &&& link.source_uri@ == nodes[i].uri@
            &&& link.target_uri@ == new.uri
            &&& link.relation@ == "part_of"@
            &&& link.status@ == "active"@
            &&& link.tenant_id@ == new.tenant_id
            &&& opt_text(link.owner_user_id) == new.owner_user_id
            &&& (forall|j: int| i < j < links.len() ==> (#[trigger] links[j]).id@ != link.id@)
                ==> reads(after.links@, link.id@, link)
        }),
{
    assert(crate::nodes::is_fragment_node(
        nodes[i],
        crate::documents::home_of(new, title),
        fragments[i],
        artifact_refs,
        now,
    ));
    assert(crate::documents::is_fragment_link(
        links[i],
        new,
        title,
        fragments[i].fragment_index,
        now,
    ));
    if forall|j: int| i < j < links.len() ==> (#[trigger] links[j]).id@ != links[i].id@ {
        what_is_put_is_read::<String, KnowledgeLink>(before.links@, links, i);
    }
}

/// A revision that is created for a source is staged with the content that was given, comes last of
/// its revisions and takes the place of none; the source is not yet changed by it.
pub proof fn a_created_revision_waits(
    before: StoreData,
    after: StoreData,
    r: Result<CreateRevisionResponse, ApiError>,
    resolver: EventIndexResolver,
    tenant_id: Seq<char>,
    source_id: Seq<char>,
    req: CreateRevisionRequest,
    revision_id: Seq<char>,
    ingest_job_id: Seq<char>,
    stamp: StampView,
    other: Seq<char>,
)
    requires
        company_revision_result(
            before,
            after,
            r,
            resolver,
            tenant_id,
            source_id,
            req,
            revision_id,
            ingest_job_id,
            stamp,
        ),
        r is Ok,
    ensures
        ({
            let had = list_at(lists(before.source_revisions@), source_id);
            let has = list_at(lists(after.source_revisions@), source_id);
            let revision = has[had.len() as int];
            &&& has.len() == had.len() + 1
            &&& has == had.push(revision)
            &&& revision.id@ == revision_id
            &&& revision.source_id@ == source_id
            &&& revision.tenant_id@ == tenant_id
            &&& revision.status@ == "staged"@
            &&& revision.created_at == stamp.now
            &&& req.content is Some ==> revision.content@ == req.content->0@
            &&& req.title is Some ==> revision.title@ == req.title->0@
            &&& req.source_uri is Some ==> revision.source_uri@ == req.source_uri->0@
            &&& req.checksum is Some ==> revision.checksum@ == req.checksum->0@
            &&& other != source_id ==> list_at(lists(after.source_revisions@), other) == list_at(
                lists(before.source_revisions@),
                other,
            )
            &&& after.sources@.dom().contains(source_id)
            &&& same_but(before.sources@, after.sources@, source_id)
            &&& before.sources@.dom().contains(source_id) ==> after.sources == before.sources
            &&& !before.sources@.dom().contains(source_id) ==> {
                &&& after.sources@[source_id].active_revision_id is None
                &&& after.sources@[source_id].id@ == source_id
                &&& after.sources@[source_id].tenant_id@ == tenant_id
                &&& after.sources@[source_id].title@ == revision.title@
                &&& after.sources@[source_id].source_uri@ == revision.source_uri@
            }
            &&& r->Ok_0.revision_id@ == revision_id
            &&& r->Ok_0.source_id@ == source_id
            &&& r->Ok_0.ingest_job_id is Some <==> req.ingest
            &&& after.company_context == before.company_context
            &&& after.source_documents == before.source_documents
        }),
{
    let (mid, revision, history) = choose|
        mid: StoreData,
        revision: SourceRevision,
        history: Result<HistoryEventResponse, ApiError>,
    |
        {
            &&& is_company_revision(revision, tenant_id, source_id, req, revision_id, stamp.now)
            &&& #[trigger] revision_added(before, mid, revision)
            &&& #[trigger] noted(
                mid,
                after,
                history,
                resolver,
                tenant_id,
                "company"@,
                revision_note(
                    "company_doc.revision_created"@,
                    "Company document revision created for "@,
                    source_id,
                    revision_id,
                ),
                stamp,
            )
            &&& match history {
                Ok(h) => {
                    &&& r is Ok
                    &&& r->Ok_0.source_id@ == source_id
                    &&& r->Ok_0.revision_id@ == revision_id
                    &&& r->Ok_0.status@ == "staged"@
                    &&& opt_text(r->Ok_0.history_event_id) == Some(h.event.id@)
                    &&& opt_text(r->Ok_0.ingest_job_id) == (if req.ingest {
                        Some(ingest_job_id)
                    } else {
                        None
                    })
                },
                Err(e) => r == Err::<CreateRevisionResponse, ApiError>(e),
            }
        };
    noting_keeps_other_records(
        mid,
        after,
        history,
        resolver,
        tenant_id,
        "company"@,
        revision_note(
            "company_doc.revision_created"@,
            "Company document revision created for "@,
            source_id,
            revision_id,
        ),
        stamp,
    );
    let had = list_at(lists(before.source_revisions@), source_id);
    let has = list_at(lists(after.source_revisions@), source_id);
    assert(has == had.push(revision));
}

/// A revision that is activated is the one that is read from then on: the source points to it and has
/// its title, and its content is the company's document at its address.
pub proof fn an_activated_revision_is_read<C: Fn(&RetrievalText) -> Vec<FragmentChunk>>(
    before: StoreData,
    after: StoreData,
    r: Result<ActivateRevisionResponse, ApiError>,
    resolver: EventIndexResolver,
    tenant_id: Seq<char>,
    source_id: Seq<char>,
    revision_id: Seq<char>,
    cut: C,
    stamp: StampView,
)
    requires
        activation_result(
            before,
            after,
            r,
            resolver,
            tenant_id,
            source_id,
            revision_id,
            cut,
            stamp,
        ),
        r is Ok,
    ensures
        ({
            let revisions = list_at(lists(after.source_revisions@), source_id);
            let source = after.sources@[source_id];
            let revision = revision_read(revisions, source);
            &&& opt_text(source.active_revision_id) == Some(revision_id)
            &&& revision.id@ == revision_id
            &&& revision.status@ == "active"@
            &&& source.title@ == revision.title@
            &&& source.source_uri@ == revision.source_uri@
            &&& r->Ok_0.source_id@ == source_id
            &&& r->Ok_0.active_revision_id@ == revision_id
            &&& opt_text(r->Ok_0.previous_revision_id) == opt_text(
                before.sources@[source_id].active_revision_id,
            )
            &&& same_but(before.sources@, after.sources@, source_id)
            &&& revisions.len() == list_at(lists(before.source_revisions@), source_id).len()
            &&& list_at(lists(before.source_revisions@), source_id).contains(
                SourceRevision {
                    status: before_status(before, source_id, revision_id),
                    ..revision
                },
            )
            &&& readable_document(after, tenant_id, r->Ok_0.source_document_uri@, None, false)
                is Some
            &&& readable_document(
                after,
                tenant_id,
                r->Ok_0.source_document_uri@,
                None,
                false,
            )->0.content@ == revision.content@
            &&& readable_document(
                after,
                tenant_id,
                r->Ok_0.source_document_uri@,
                None,
                false,
            )->0.revision_id@ == revision_id
            &&& after.state_items == before.state_items
        }),
{
    let (pointed, revision, written, ingest, fragments, history) = choose|
        pointed: StoreData,
        revision: SourceRevision,
        written: StoreData,
        ingest: DocumentIngestResult,
        fragments: Vec<FragmentChunk>,
        history: Result<HistoryEventResponse, ApiError>,
    |
        {
            &&& revision.id@ == revision_id
            &&& #[trigger] revision_pointed(before, pointed, source_id, revision)
            &&& #[trigger] plain_document_written(
                pointed,
                written,
                ingest,
                revision_document(revision, tenant_id),
                None,
                cut,
                fragments,
                stamp.secrets,
                stamp.now,
            )
            &&& #[trigger] noted(
                written,
                after,
                history,
                resolver,
                tenant_id,
                "company"@,
                revision_note(
                    "company_doc.revision_activated"@,
                    "Company document revision activated for "@,
                    source_id,
                    revision_id,
                ),
                stamp,
            )
            &&& match history {
                Ok(h) => {
                    let uri = crate::naming::revision_document_uri(
                        revision.source_id@,
                        revision.id@,
                    );
                    &&& r is Ok
                    &&& r->Ok_0.source_id@ == source_id
                    &&& r->Ok_0.active_revision_id@ == revision_id
                    &&& opt_text(r->Ok_0.previous_revision_id) == opt_text(
                        before.sources@[source_id].active_revision_id,
                    )
                    &&& opt_text(r->Ok_0.history_event_id) == Some(h.event.id@)
                    &&& r->Ok_0.source_document_uri@ == uri
                },
                Err(e) => r == Err::<ActivateRevisionResponse, ApiError>(e),
            }
        };
    let new = revision_document(revision, tenant_id);
    lemma_writing_keeps_records(
        pointed,
        written,
        ingest,
        new,
        None,
        cut,
        fragments,
        stamp.secrets,
        stamp.now,
    );
    noting_keeps_other_records(
        written,
        after,
        history,
        resolver,
        tenant_id,
        "company"@,
        revision_note(
            "company_doc.revision_activated"@,
            "Company document revision activated for "@,
            source_id,
            revision_id,
        ),
        stamp,
    );
    crate::company::what_is_made_active_is_read(before, pointed, source_id, revision);
    let refs = choose|refs: List<ParseArtifactRef>|
        refs@.len() == 0 && #[trigger] document_written(
            pointed,
            written,
            ingest,
            new,
            Seq::empty(),
            fragments@,
            refs,
            stamp.secrets,
            stamp.now,
        );
    a_written_document_is_read(
        pointed,
        written,
        ingest,
        new,
        Seq::empty(),
        fragments@,
        refs,
        stamp.secrets,
        stamp.now,
    );
    let had = list_at(lists(before.source_revisions@), source_id);
    let p = crate::company::company_revision_is(revision_id);
    first_where_facts(had, p);
    let at = crate::order::first_where(had, p);
    assert(made_active(had[at], revision));
    assert(had[at].status == before_status(before, source_id, revision_id));
    assert(had[at] == (SourceRevision {
        status: before_status(before, source_id, revision_id),
        ..revision
    }));
}

/// The status that the first revision of a source with an id has.
pub open spec fn before_status(d: StoreData, source_id: Seq<char>, revision_id: Seq<char>) -> String {
    let revisions = list_at(lists(d.source_revisions@), source_id);
    revisions[crate::order::first_where(
        revisions,
        crate::company::company_revision_is(revision_id),
    )].status
}

} // verus!
