//! What facts can be relied on for: what is saved is read, in the next version, and what is patched
//! keeps what is not given.

use vstd::prelude::*;

use crate::data::StoreData;
use crate::documents::{
    document_stored, document_written, plain_document_written, source_superseded,
    DocumentIngestResult, RetrievalText,
};
use crate::error::ApiError;
use crate::facts::{
    document_policy, fact_answered, fact_at, fact_document, fact_documented, fact_patched, fact_put,
    fact_refusal, fact_saved, is_document_ref, is_patched_fact, is_saved_fact, patched_note,
    requested_fact, saved_decision, saved_note, PatchStateFactRequest, StateItemResponse,
    UpsertStateFactRequest,
};
use crate::history::{noted, noting_keeps_other_records, HistoryEventResponse, StampView};
use crate::laws::publishing::{reads, same_but};
use crate::model::knowledge::{ContextNode, KnowledgeLink, ParseArtifactRef, SourceRef, StateItem};
use crate::naming::slug;
use crate::nodes::FragmentChunk;
use crate::record::List;
use crate::resolver::EventIndexResolver;
use crate::state::fact_context_written;
use crate::text::opt_text;

verus! {

/// Writing a document leaves facts and insights alone.
pub(crate) proof fn lemma_writing_keeps_records<C: Fn(&RetrievalText) -> Vec<FragmentChunk>>(
    before: StoreData,
    after: StoreData,
    r: DocumentIngestResult,
    new: crate::documents::NewDocumentView,
    policy: Option<crate::json::Json>,
    cut: C,
    fragments: Vec<FragmentChunk>,
    secrets: Seq<Seq<char>>,
    now: i64,
)
    requires
        plain_document_written(before, after, r, new, policy, cut, fragments, secrets, now),
    ensures
        after == (StoreData {
            source_documents: after.source_documents,
            parsed_blocks: after.parsed_blocks,
            company_context: after.company_context,
            personal_context: after.personal_context,
            links: after.links,
            ..before
        }),
{
    let refs = choose|refs: List<ParseArtifactRef>|
        refs@.len() == 0 && #[trigger] document_written(
            before,
            after,
            r,
            new,
            Seq::empty(),
            fragments@,
            refs,
            secrets,
            now,
        );
    let (mid, title, nodes, links) = choose|
        mid: StoreData,
        title: Seq<char>,
        nodes: Seq<ContextNode>,
        links: Seq<KnowledgeLink>,
    |
        {
            &&& #[trigger] source_superseded(
                before,
                mid,
                new.tenant_id,
                new.owner_user_id,
                new.source_id,
                now,
            )
            &&& #[trigger] document_stored(
                mid,
                after,
                new,
                title,
                Seq::empty(),
                fragments@,
                refs,
                nodes,
                links,
                now,
            )
        };
}

/// A fact that is saved says what was asked for, is active and is read under its owner and key. The
/// first has version one and every further one the next; a fact keeps its id and the time it was
/// first saved. No other fact is touched.
pub proof fn a_saved_fact_is_as_asked<
    F: Fn(&StateItem) -> String,
    C: Fn(&RetrievalText) -> Vec<FragmentChunk>,
>(
    before: StoreData,
    after: StoreData,
    r: Result<StateItemResponse, ApiError>,
    resolver: EventIndexResolver,
    tenant_id: Seq<char>,
    fact_key: Seq<char>,
    req: UpsertStateFactRequest,
    cut: C,
    overview: F,
    state_id: Seq<char>,
    stamp: StampView,
)
    requires
        fact_refusal(req) is None,
        fact_saved(
            before,
            after,
            r,
            resolver,
            requested_fact(before, resolver, tenant_id, fact_key, req),
            req,
            cut,
            overview,
            state_id,
            stamp,
        ),
        r is Ok,
    ensures
        ({
            let item = r->Ok_0.item;
            let key = (tenant_id, req.owner_user_id->0@, fact_key);
            &&& reads(after.state_items@, key, item)
            &&& same_but(before.state_items@, after.state_items@, key)
            &&& opt_text(req.statement) == Some(item.statement@)
            &&& item.value == req.value
            &&& item.confidence == req.confidence
            &&& item.salience == req.salience
            &&& item.valid_from == req.valid_from
            &&& item.valid_to == req.valid_to
            &&& item.status@ == "active"@
            &&& item.updated_at == stamp.now
            &&& req.title is Some ==> item.title@ == req.title->0@
            &&& item.source_refs@.len() >= req.source_refs@.len()
            &&& forall|i: int|
                0 <= i < req.source_refs@.len() ==> item.source_refs@[i]
                    == #[trigger] req.source_refs@[i]
            &&& req.document is None ==> item.source_refs@.len() == req.source_refs@.len()
            &&& req.document is Some ==> item.source_refs@.len() == req.source_refs@.len() + 1
                && item.source_refs@.last().kind@ == "source_document"@
            &&& r->Ok_0.context_uri@ == "ctx://user/state/"@ + slug(req.state_type->0@) + "/"@
                + slug(fact_key)
            &&& if before.state_items@.dom().contains(key) {
                let was = before.state_items@[key];
                &&& r->Ok_0.decision@ == "updated"@
                &&& item.current_version == was.current_version + 1
                &&& item.id == was.id
                &&& item.tenant_id == was.tenant_id
                &&& item.owner_user_id == was.owner_user_id
                &&& item.state_type == was.state_type
                &&& item.natural_key == was.natural_key
                &&& item.context_uri == was.context_uri
                &&& item.created_at == was.created_at
            } else {
                &&& r->Ok_0.decision@ == "created"@
                &&& item.current_version == 1
                &&& item.id@ == state_id
                &&& item.tenant_id@ == tenant_id
                &&& item.owner_user_id@ == req.owner_user_id->0@
                &&& item.state_type@ == req.state_type->0@
                &&& item.natural_key@ == fact_key
                &&& item.context_uri@ == r->Ok_0.context_uri@
                &&& item.created_at == stamp.now
            }
            &&& after.insights == before.insights
            &&& after.operations == before.operations
            &&& after.sessions == before.sessions
        }),
{
    let fact = requested_fact(before, resolver, tenant_id, fact_key, req);
    let key = (fact.tenant_id, fact.owner, fact.fact_key);
    let existing = fact_at(before, key);
    let decision = saved_decision(existing);
    let (documented, refs, item, put, text, written, e) = choose|
        documented: StoreData,
        refs: Seq<SourceRef>,
        item: StateItem,
        put: StoreData,
        text: String,
        written: StoreData,
        e: Result<HistoryEventResponse, ApiError>,
    |
        {
            &&& #[trigger] fact_documented(before, documented, refs, fact, req, cut, stamp)
            &&& is_saved_fact(item, existing, fact, req, refs, state_id, stamp.now)
            &&& #[trigger] fact_put(documented, put, key, item)
            &&& overview.ensures((&item,), text)
            &&& #[trigger] fact_context_written(
                put,
                written,
                item,
                text@,
                fact.index_uid,
                stamp.secrets,
                stamp.now,
            )
            &&& #[trigger] noted(
                written,
                after,
                e,
                resolver,
                fact.tenant_id,
                fact.owner,
                saved_note(fact, item.id@, decision),
                stamp,
            )
            &&& fact_answered(
                r,
                e,
                item,
                crate::facts::fact_uri(fact.state_type, fact.fact_key),
                decision,
            )
        };
    noting_keeps_other_records(
        written,
        after,
        e,
        resolver,
        fact.tenant_id,
        fact.owner,
        saved_note(fact, item.id@, decision),
        stamp,
    );
    match req.document {
        Some(document) => {
            let new = fact_document(
                fact.tenant_id,
                fact.owner,
                fact.state_type,
                fact.fact_key,
                fact.version,
                fact.title,
                document.content->Some_0@,
                fact.index_uid,
            );
            let (ingest, fragments) = choose|
                ingest: DocumentIngestResult,
                fragments: Vec<FragmentChunk>,
            |
                is_document_ref(refs.last(), document, new, fragments@)
                    && #[trigger] plain_document_written(
                    before,
                    documented,
                    ingest,
                    new,
                    document_policy(document, req),
                    cut,
                    fragments,
                    stamp.secrets,
                    stamp.now,
                );
            lemma_writing_keeps_records(
                before,
                documented,
                ingest,
                new,
                document_policy(document, req),
                cut,
                fragments,
                stamp.secrets,
                stamp.now,
            );
            assert forall|i: int| 0 <= i < req.source_refs@.len() implies refs[i]
                == #[trigger] req.source_refs@[i] by {
                assert(refs.drop_last()[i] == req.source_refs@[i]);
            }
        },
        None => {},
    }
}

/// A patched fact has what the patch gives, keeps everything else and is one version further. No
/// other fact is touched.
pub proof fn a_patched_fact_keeps_what_is_not_given<F: Fn(&StateItem) -> String>(
    before: StoreData,
    after: StoreData,
    r: Result<StateItemResponse, ApiError>,
    resolver: EventIndexResolver,
    tenant_id: Seq<char>,
    fact_key: Seq<char>,
    key: (Seq<char>, Seq<char>, Seq<char>),
    req: PatchStateFactRequest,
    overview: F,
    stamp: StampView,
)
    requires
        fact_patched(
            before,
            after,
            r,
            resolver,
            tenant_id,
            fact_key,
            key,
            req,
            overview,
            stamp,
        ),
        r is Ok,
    ensures
        ({
            let was = before.state_items@[key];
            let is = r->Ok_0.item;
            &&& reads(after.state_items@, key, is)
            &&& same_but(before.state_items@, after.state_items@, key)
            &&& is.current_version == was.current_version + 1
            &&& req.statement is Some ==> is.statement == req.statement->0
            &&& req.statement is None ==> is.statement == was.statement
            &&& req.value is Some ==> is.value == req.value->0
            &&& req.value is None ==> is.value == was.value
            &&& req.confidence is Some ==> is.confidence == req.confidence->0
            &&& req.confidence is None ==> is.confidence == was.confidence
            &&& req.salience is Some ==> is.salience == req.salience->0
            &&& req.salience is None ==> is.salience == was.salience
            &&& req.status is Some ==> is.status == req.status->0
            &&& req.status is None ==> is.status == was.status
            &&& req.valid_to is Some ==> is.valid_to == req.valid_to
            &&& req.valid_to is None ==> is.valid_to == was.valid_to
            &&& is.valid_from == was.valid_from
            &&& is.id == was.id
            &&& is.tenant_id == was.tenant_id
            &&& is.owner_user_id == was.owner_user_id
            &&& is.state_type == was.state_type
            &&& is.natural_key == was.natural_key
            &&& is.title == was.title
            &&& is.context_uri == was.context_uri
            &&& is.source_refs == was.source_refs
            &&& is.created_at == was.created_at
            &&& is.updated_at == stamp.now
            &&& r->Ok_0.decision@ == "patched"@
            &&& r->Ok_0.context_uri@ == was.context_uri@
            &&& after.links == before.links
            &&& after.insights == before.insights
            &&& after.source_documents == before.source_documents
        }),
{
    let owner = before.state_items@[key].owner_user_id@;
    let (item, put, text, written, e) = choose|
        item: StateItem,
        put: StoreData,
        text: String,
        written: StoreData,
        e: Result<HistoryEventResponse, ApiError>,
    |
        {
            &&& is_patched_fact(item, before.state_items@[key], req, stamp.now)
            &&& #[trigger] fact_put(before, put, key, item)
            &&& overview.ensures((&item,), text)
            &&& #[trigger] fact_context_written(
                put,
                written,
                item,
                text@,
                resolver.context_of(tenant_id, owner),
                stamp.secrets,
                stamp.now,
            )
            &&& #[trigger] noted(
                written,
                after,
                e,
                resolver,
                tenant_id,
                owner,
                patched_note(item.id@, fact_key, opt_text(req.patch_reason)),
                stamp,
            )
            &&& fact_answered(r, e, item, item.context_uri@, "patched"@)
        };
    noting_keeps_other_records(
        written,
        after,
        e,
        resolver,
        tenant_id,
        owner,
        patched_note(item.id@, fact_key, opt_text(req.patch_reason)),
        stamp,
    );
}

} // verus!
