//! Saving, changing and finding the facts of an owner.

use vstd::prelude::*;
use vstd::string::*;
use vstd::utf8::*;

use crate::data::StoreData;
use crate::documents::{
    fragment_uris, is_cutter, plain_document_written, write_plain_document, DocumentIngestResult,
    NewDocument, NewDocumentView, RetrievalText,
};
use crate::error::{fails_with, ApiError, ErrorView};
use crate::history::{
    indexes_have_room, missing, note_event, noted, noting_keeps_other_records,
    HistoryEventResponse, Note, NoteView, Stamp, StampView,
};
use crate::history_search::{limit_to, limited};
use crate::laws::choosing::what_is_chosen;
use crate::json::{is_opt_text, is_text, is_text_list, opt_json, text_list, Json};
use crate::model::knowledge::{SourceRef, StateItem};
use crate::naming::{
    bytes_of, fact_source_id, hmac_hex, keyed_digest, sanitize_slug, slug,
    state_document_source_id,
};
use crate::nodes::FragmentChunk;
use crate::order::{sort_by, sorted_by, strict_order};
use crate::reading::require_string;
use crate::record::{copy_all, select_values, List};
use crate::resolver::{EventIndexResolver, EventRouting};
use crate::state::{
    fact_context_written, resolve_state_key, resolved_key, write_state_context, FactKey,
};
use crate::table::Table;
use crate::text::{
    as_deref, decimal, decimal_text, is_empty_text, opt_str, opt_text, replace_chars, text_eq, texts,
    texts_contain, with_chars_replaced,
};

verus! {

/// A document that comes with a fact.
pub struct StateDocumentPayload {
    pub content: Option<String>,
    pub content_type: Option<String>,
    pub source_uri: Option<String>,
    /// How the document is to be cut into fragments.
    pub fragment_policy: Option<Json>,
}

/// A fact to be saved.
pub struct UpsertStateFactRequest {
    pub owner_user_id: Option<String>,
    pub state_type: Option<String>,
    pub statement: Option<String>,
    pub title: Option<String>,
    pub value: Json,
    /// The bits of a 32-bit float.
    pub confidence: u32,
    /// The bits of a 32-bit float.
    pub salience: u32,
    pub valid_from: Option<i64>,
    pub valid_to: Option<i64>,
    pub source_refs: List<SourceRef>,
    pub document: Option<StateDocumentPayload>,
    /// How a document that does not say so itself is to be cut into fragments.
    pub fragment_policy: Option<Json>,
}

/// How the document of a fact is to be cut into fragments: as it says itself, else as the request
/// says.
pub open spec fn document_policy(document: StateDocumentPayload, req: UpsertStateFactRequest) -> Option<
    Json,
> {
    match document.fragment_policy {
        Some(policy) => Some(policy),
        None => req.fragment_policy,
    }
}

fn policy_of(document: &StateDocumentPayload, req: &UpsertStateFactRequest) -> (r: Option<Json>)
    ensures
        r == document_policy(*document, *req),
{
    match &document.fragment_policy {
        Some(policy) => Some(policy.clone()),
        None => match &req.fragment_policy {
            Some(policy) => Some(policy.clone()),
            None => None,
        },
    }
}

/// The error where a field is missing.
pub open spec fn is_required(field: Seq<char>) -> ErrorView {
    ErrorView::BadRequest(field + " is required"@)
}

/// Why a fact is not saved.
pub open spec fn fact_refusal(req: UpsertStateFactRequest) -> Option<ErrorView> {
    if missing(opt_text(req.owner_user_id)) {
        Some(is_required("owner_user_id"@))
    } else if missing(opt_text(req.state_type)) {
        Some(is_required("state_type"@))
    } else if missing(opt_text(req.statement)) {
        Some(is_required("statement"@))
    } else if req.document is Some && missing(opt_text(req.document->Some_0.content)) {
        Some(is_required("document.content"@))
    } else {
        None
    }
}

/// Whether every fact can have one version more.
pub open spec fn versions_have_room(d: StoreData) -> bool {
    forall|k: FactKey| #[trigger]
        d.state_items@.dom().contains(k) ==> d.state_items@[k].current_version < u64::MAX
}

/// Whether every fact can have one version more.
pub fn check_versions_have_room(data: &StoreData) -> (r: bool)
    ensures
        r == versions_have_room(*data),
{
    let t: &Table<(String, String, String), StateItem> = &data.state_items;
    let n: usize = t.len();
    let mut i: usize = 0;
    while i < n
        invariant
            i <= n == t.rows().len(),
            *t == data.state_items,
            t.wf(),
            forall|j: int| 0 <= j < i ==> (#[trigger] t.rows()[j]).1.current_version < u64::MAX,
        decreases n - i,
    {
        if t.value_at(i).current_version == u64::MAX {
            proof {
                t.row_facts(i as int);
                assert(t@.dom().contains(t.rows()[i as int].0@));
            }
            return false;
        }
        i += 1;
    }
    proof {
        assert forall|k: FactKey| #[trigger] t@.dom().contains(k) implies t@[k].current_version
            < u64::MAX by {
            t.key_facts(k);
        }
    }
    true
}

/// The name of a version.
pub open spec fn version_name(version: nat) -> Seq<char> {
    "v"@ + decimal(version)
}

/// The path of a fact.
pub open spec fn fact_uri(state_type: Seq<char>, fact_key: Seq<char>) -> Seq<char> {
    "ctx://user/state/"@ + slug(state_type) + "/"@ + slug(fact_key)
}

fn fact_uri_of(state_type: &str, fact_key: &str) -> (r: String)
    ensures
        r@ == fact_uri(state_type@, fact_key@),
{
    let mut uri: String = "ctx://user/state/".to_owned();
    uri.append(sanitize_slug(state_type).as_str());
    uri.append("/");
    uri.append(sanitize_slug(fact_key).as_str());
    uri
}

/// The document in which what comes with a version of a fact is stored.
pub open spec fn fact_document(
    tenant_id: Seq<char>,
    owner: Seq<char>,
    state_type: Seq<char>,
    fact_key: Seq<char>,
    version: nat,
    title: Seq<char>,
    content: Seq<char>,
    index_uid: Seq<char>,
) -> NewDocumentView {
    let source_id = fact_source_id(owner, state_type, fact_key);
    let revision_id = version_name(version);
    NewDocumentView {
        tenant_id,
        owner_user_id: Some(owner),
        source_kind: "state_doc"@,
        source_id,
        revision_id,
        uri: fact_uri(state_type, fact_key) + "/source/"@ + slug(revision_id),
        title,
        content,
        checksum: keyed_digest(
            encode_utf8(tenant_id),
            "state-document"@,
            source_id + ":"@ + revision_id + ":"@ + content,
            32,
        ),
        index_kind: "personal"@,
        index_uid,
    }
}

/// Stores a document that comes with a fact, with the fragments that `cut` makes of it, in the
/// place of the one before.
pub fn write_state_document_context<C: Fn(&RetrievalText) -> Vec<FragmentChunk>>(
    data: &mut StoreData,
    tenant_id: &str,
    index_uid: &str,
    owner_user_id: &str,
    state_type: &str,
    fact_key: &str,
    version: u64,
    title: &str,
    content: &str,
    policy: &Option<Json>,
    cut: C,
    secrets: &Vec<String>,
    now: i64,
) -> (r: DocumentIngestResult)
    requires
        is_cutter(cut),
    ensures
        ({
            let new = fact_document(
                tenant_id@,
                owner_user_id@,
                state_type@,
                fact_key@,
                version as nat,
                title@,
                content@,
                index_uid@,
            );
            &&& r.source_id@ == new.source_id
            &&& r.source_document_uri@ == new.uri
            &&& exists|fragments: Vec<FragmentChunk>|
                texts(r.fragment_uris@) == fragment_uris(new.uri, fragments@)
                    && #[trigger] plain_document_written(
                    *old(data),
                    *final(data),
                    r,
                    new,
                    *policy,
                    cut,
                    fragments,
                    texts(secrets@),
                    now,
                )
        }),
{
    let source_id: String = state_document_source_id(owner_user_id, state_type, fact_key);
    let mut revision_id: String = "v".to_owned();
    revision_id.append(decimal_text(version).as_str());
    let mut digested: String = source_id.clone();
    digested.append(":");
    digested.append(revision_id.as_str());
    digested.append(":");
    digested.append(content);
    let checksum: String = hmac_hex(
        bytes_of(tenant_id).as_slice(),
        "state-document",
        digested.as_str(),
        32,
    );
    let mut uri: String = fact_uri_of(state_type, fact_key);
    uri.append("/source/");
    uri.append(sanitize_slug(revision_id.as_str()).as_str());
    let new: NewDocument<'_> = NewDocument {
        tenant_id,
        owner_user_id: Some(owner_user_id),
        source_kind: "state_doc",
        source_id: source_id.as_str(),
        revision_id: revision_id.as_str(),
        uri: uri.as_str(),
        title,
        content,
        checksum: checksum.as_str(),
        index_kind: "personal",
        index_uid,
    };
    assert(new@ == fact_document(
        tenant_id@,
        owner_user_id@,
        state_type@,
        fact_key@,
        version as nat,
        title@,
        content@,
        index_uid@,
    ));
    write_plain_document(data, &new, policy, cut, secrets, now)
}

/// Whether `j` says where a document of a fact is.
pub open spec fn is_document_meta(
    j: Json,
    document: StateDocumentPayload,
    uri: Seq<char>,
    fragments: Seq<FragmentChunk>,
) -> bool {
    match j {
        Json::Object(m) => {
            &&& m@.len() == 4
            &&& m@[0].0@ == "content_type"@
            &&& is_opt_text(m@[0].1, opt_text(document.content_type))
            &&& m@[1].0@ == "fragment_uris"@
            &&& is_text_list(m@[1].1, fragment_uris(uri, fragments))
            &&& m@[2].0@ == "source_document_uri"@
            &&& is_text(m@[2].1, uri)
            &&& m@[3].0@ == "source_uri"@
            &&& is_opt_text(m@[3].1, opt_text(document.source_uri))
        },
        _ => false,
    }
}

/// Whether `s` refers to a document of a fact.
pub open spec fn is_document_ref(
    s: SourceRef,
    document: StateDocumentPayload,
    new: NewDocumentView,
    fragments: Seq<FragmentChunk>,
) -> bool {
    &&& s.kind@ == "source_document"@
    &&& s.id@ == new.source_id
    &&& opt_text(s.uri) == Some(new.uri)
    &&& s.meta is Some
    &&& is_document_meta(s.meta->Some_0, document, new.uri, fragments)
}

fn document_ref(
    document: &StateDocumentPayload,
    ingest: &DocumentIngestResult,
    Ghost(new): Ghost<NewDocumentView>,
    Ghost(fragments): Ghost<Seq<FragmentChunk>>,
) -> (r: SourceRef)
    requires
        ingest.source_id@ == new.source_id,
        ingest.source_document_uri@ == new.uri,
        texts(ingest.fragment_uris@) == fragment_uris(new.uri, fragments),
    ensures
        is_document_ref(r, *document, new, fragments),
{
    let mut m: Vec<(String, Json)> = Vec::new();
    m.push(("content_type".to_owned(), opt_json(&document.content_type)));
    m.push(("fragment_uris".to_owned(), text_list(&ingest.fragment_uris)));
    m.push(("source_document_uri".to_owned(), Json::Text(ingest.source_document_uri.clone())));
    m.push(("source_uri".to_owned(), opt_json(&document.source_uri)));
    SourceRef {
        kind: "source_document".to_owned(),
        id: ingest.source_id.clone(),
        uri: Some(ingest.source_document_uri.clone()),
        meta: Some(Json::Object(std::sync::Arc::new(m))),
    }
}

/// A fact to be saved once it was checked, by content.
pub struct FactView {
    pub tenant_id: Seq<char>,
    pub owner: Seq<char>,
    pub state_type: Seq<char>,
    pub fact_key: Seq<char>,
    pub title: Seq<char>,
    pub version: nat,
    pub index_uid: Seq<char>,
}

/// The title of a fact: what the request says, else its name in words.
pub open spec fn fact_title(title: Option<Seq<char>>, fact_key: Seq<char>) -> Seq<char> {
    match title {
        Some(t) => t,
        None => with_chars_replaced(fact_key, |c: char| c == '-' || c == '_', ' '),
    }
}

/// The version that a fact gets when it is saved.
pub open spec fn next_version(d: StoreData, key: FactKey) -> nat {
    if d.state_items@.dom().contains(key) {
        d.state_items@[key].current_version as nat + 1
    } else {
        1
    }
}

/// What is to be saved.
pub open spec fn requested_fact(
    d: StoreData,
    resolver: EventIndexResolver,
    tenant_id: Seq<char>,
    fact_key: Seq<char>,
    req: UpsertStateFactRequest,
) -> FactView {
    let owner = req.owner_user_id->Some_0@;
    FactView {
        tenant_id,
        owner,
        state_type: req.state_type->Some_0@,
        fact_key,
        title: fact_title(opt_text(req.title), fact_key),
        version: next_version(d, (tenant_id, owner, fact_key)),
        index_uid: resolver.context_of(tenant_id, owner),
    }
}

/// The state after the document of a fact was stored, and what the fact refers to then.
pub open spec fn fact_documented<C: Fn(&RetrievalText) -> Vec<FragmentChunk>>(
    before: StoreData,
    after: StoreData,
    refs: Seq<SourceRef>,
    fact: FactView,
    req: UpsertStateFactRequest,
    cut: C,
    stamp: StampView,
) -> bool {
    match req.document {
        None => after == before && refs == req.source_refs@,
        Some(document) => {
            let new = fact_document(
                fact.tenant_id,
                fact.owner,
                fact.state_type,
                fact.fact_key,
                fact.version,
                fact.title,
                document.content->Some_0@,
                fact.index_uid,
            );
            &&& refs.len() == req.source_refs@.len() + 1
            &&& refs.drop_last() == req.source_refs@
            &&& exists|ingest: DocumentIngestResult, fragments: Vec<FragmentChunk>|
                is_document_ref(refs.last(), document, new, fragments@)
                    && #[trigger] plain_document_written(
                    before,
                    after,
                    ingest,
                    new,
                    document_policy(document, req),
                    cut,
                    fragments,
                    stamp.secrets,
                    stamp.now,
                )
        },
    }
}

/// Whether `item` is a fact as it is saved: the identity and age of the one before are kept.
pub open spec fn is_saved_fact(
    item: StateItem,
    existing: Option<StateItem>,
    fact: FactView,
    req: UpsertStateFactRequest,
    refs: Seq<SourceRef>,
    state_id: Seq<char>,
    now: i64,
) -> bool {
    &&& item.title@ == fact.title
    &&& Some(item.statement) == req.statement
    &&& item.value == req.value
    &&& item.confidence == req.confidence
    &&& item.salience == req.salience
    &&& item.valid_from == req.valid_from
    &&& item.valid_to == req.valid_to
    &&& item.source_refs@ == refs
    &&& item.status@ == "active"@
    &&& item.current_version == fact.version
    &&& item.updated_at == now
    &&& match existing {
        Some(e) => item.id == e.id && item.tenant_id == e.tenant_id && item.owner_user_id
            == e.owner_user_id && item.state_type == e.state_type && item.natural_key
            == e.natural_key && item.context_uri == e.context_uri && item.supersedes
            == e.supersedes && item.created_at == e.created_at,
        None => {
            &&& item.id@ == state_id
            &&& item.tenant_id@ == fact.tenant_id
            &&& item.owner_user_id@ == fact.owner
            &&& item.state_type@ == fact.state_type
            &&& item.natural_key@ == fact.fact_key
            &&& item.context_uri@ == fact_uri(fact.state_type, fact.fact_key)
            &&& item.supersedes@.len() == 0
            &&& item.created_at == now
        },
    }
}

/// The fact under a key.
pub open spec fn fact_at(d: StoreData, key: FactKey) -> Option<StateItem> {
    if d.state_items@.dom().contains(key) {
        Some(d.state_items@[key])
    } else {
        None
    }
}

/// The state after a fact was put under its key.
pub open spec fn fact_put(before: StoreData, after: StoreData, key: FactKey, item: StateItem) -> bool {
    &&& after == (StoreData { state_items: after.state_items, ..before })
    &&& after.state_items@ == before.state_items@.insert(key, item)
}

/// What is answered about a fact.
pub struct StateItemResponse {
    pub item: StateItem,
    pub history_event_id: String,
    pub context_uri: String,
    pub decision: String,
}

/// What is answered about a fact that was saved, once that was noted.
pub open spec fn fact_answered(
    r: Result<StateItemResponse, ApiError>,
    e: Result<HistoryEventResponse, ApiError>,
    item: StateItem,
    context_uri: Seq<char>,
    decision: Seq<char>,
) -> bool {
    match e {
        Err(error) => r is Err && r->Err_0 == error,
        Ok(response) => {
            &&& r is Ok
            &&& r->Ok_0.item == item
            &&& r->Ok_0.history_event_id@ == response.event.id@
            &&& r->Ok_0.context_uri@ == context_uri
            &&& r->Ok_0.decision@ == decision
        },
    }
}

/// What the history says of a fact that was saved.
pub open spec fn saved_note(fact: FactView, id: Seq<char>, decision: Seq<char>) -> NoteView {
    NoteView {
        event_type: "state.changed"@,
        entity_type: "state_item"@,
        entity_id: id,
        text: "State fact "@ + fact.fact_key + " was "@ + decision,
        members: seq![
            ("decision"@, decision),
            ("natural_key"@, fact.fact_key),
            ("state_type"@, fact.state_type),
        ],
    }
}

/// What is said to have become of a fact that was saved.
pub open spec fn saved_decision(existing: Option<StateItem>) -> Seq<char> {
    if existing is Some {
        "updated"@
    } else {
        "created"@
    }
}

/// What saving a fact leads to: its document is stored, the fact is put in the place of the one
/// before, its entry is written, and the history says so.
pub open spec fn fact_saved<
    F: Fn(&StateItem) -> String,
    C: Fn(&RetrievalText) -> Vec<FragmentChunk>,
>(
    before: StoreData,
    after: StoreData,
    r: Result<StateItemResponse, ApiError>,
    resolver: EventIndexResolver,
    fact: FactView,
    req: UpsertStateFactRequest,
    cut: C,
    overview: F,
    state_id: Seq<char>,
    stamp: StampView,
) -> bool {
    let key = (fact.tenant_id, fact.owner, fact.fact_key);
    let existing = fact_at(before, key);
    let decision = saved_decision(existing);
    exists|
        documented: StoreData,
        refs: Seq<SourceRef>,
        item: StateItem,
        put: StoreData,
        text: String,
        written: StoreData,
        e: Result<HistoryEventResponse, ApiError>,
    |
        {
            &&& #[trigger] fact_documented(before, documented, refs, fact, req, cut, stamp)
            &&& is_saved_fact(item, existing, fact, req, refs, state_id, stamp.now)
            &&& #[trigger] fact_put(documented, put, key, item)
            &&& overview.ensures((&item,), text)
            &&& #[trigger] fact_context_written(
                put,
                written,
                item,
                text@,
                fact.index_uid,
                stamp.secrets,
                stamp.now,
            )
            &&& #[trigger] noted(
                written,
                after,
                e,
                resolver,
                fact.tenant_id,
                fact.owner,
                saved_note(fact, item.id@, decision),
                stamp,
            )
            &&& fact_answered(
                r,
                e,
                item,
                fact_uri(fact.state_type, fact.fact_key),
                decision,
            )
        }
}

fn saved_item(
    existing: Option<StateItem>,
    tenant_id: &str,
    owner: &str,
    state_type: &str,
    fact_key: &str,
    title: String,
    version: u64,
    req: &UpsertStateFactRequest,
    refs: Vec<SourceRef>,
    state_id: &str,
    now: i64,
    Ghost(fact): Ghost<FactView>,
) -> (r: StateItem)
    requires
        req.statement is Some,
        fact.tenant_id == tenant_id@,
        fact.owner == owner@,
        fact.state_type == state_type@,
        fact.fact_key == fact_key@,
        fact.title == title@,
        fact.version == version,
    ensures
        is_saved_fact(r, existing, fact, *req, refs@, state_id@, now),
{
    let statement: String = req.statement.clone().unwrap();
    match existing {
        Some(item) => StateItem {
            title,
            statement,
            value: req.value.clone(),
            confidence: req.confidence,
            salience: req.salience,
            valid_from: req.valid_from,
            valid_to: req.valid_to,
            source_refs: std::sync::Arc::new(refs),
            status: "active".to_owned(),
            current_version: version,
            updated_at: now,
            ..item
        },
        None => StateItem {
            id: state_id.to_owned(),
            tenant_id: tenant_id.to_owned(),
            owner_user_id: owner.to_owned(),
            state_type: state_type.to_owned(),
            natural_key: fact_key.to_owned(),
            title,
            statement,
            value: req.value.clone(),
            status: "active".to_owned(),
            confidence: req.confidence,
            salience: req.salience,
            valid_from: req.valid_from,
            valid_to: req.valid_to,
            source_refs: std::sync::Arc::new(refs),
            context_uri: fact_uri_of(state_type, fact_key),
            current_version: version,
            supersedes: std::sync::Arc::new(Vec::new()),
            created_at: now,
            updated_at: now,
        },
    }
}

fn document_fact<C: Fn(&RetrievalText) -> Vec<FragmentChunk>>(
    data: &mut StoreData,
    tenant_id: &str,
    owner: &str,
    state_type: &str,
    fact_key: &str,
    title: &str,
    version: u64,
    index_uid: &str,
    req: &UpsertStateFactRequest,
    cut: C,
    stamp: &Stamp<'_>,
    Ghost(fact): Ghost<FactView>,
) -> (r: Vec<SourceRef>)
    requires
        is_cutter(cut),
        req.document is Some ==> req.document->Some_0.content is Some,
        fact.tenant_id == tenant_id@,
        fact.owner == owner@,
        fact.state_type == state_type@,
        fact.fact_key == fact_key@,
        fact.title == title@,
        fact.version == version,
        fact.index_uid == index_uid@,
    ensures
        fact_documented(*old(data), *final(data), r@, fact, *req, cut, stamp@),
        final(data).state_items == old(data).state_items,
        final(data).user_indexes == old(data).user_indexes,
{
    let mut refs: Vec<SourceRef> = copy_all(&req.source_refs);
    match &req.document {
        Some(document) => {
            let content: String = document.content.clone().unwrap();
            let policy: Option<Json> = policy_of(document, req);
            let ingest: DocumentIngestResult = write_state_document_context(
                data,
                tenant_id,
                index_uid,
                owner,
                state_type,
                fact_key,
                version,
                title,
                content.as_str(),
                &policy,
                cut,
                stamp.secrets,
                stamp.now,
            );
            let ghost new = fact_document(
                tenant_id@,
                owner@,
                state_type@,
                fact_key@,
                version as nat,
                title@,
                content@,
                index_uid@,
            );
            let ghost fragments = choose|fragments: Vec<FragmentChunk>|
                texts(ingest.fragment_uris@) == fragment_uris(new.uri, fragments@)
                    && #[trigger] plain_document_written(
                    *old(data),
                    *data,
                    ingest,
                    new,
                    policy,
                    cut,
                    fragments,
                    texts(stamp.secrets@),
                    stamp.now,
                );
            refs.push(document_ref(document, &ingest, Ghost(new), Ghost(fragments@)));
            proof {
                assert(refs@.drop_last() =~= req.source_refs@);
                assert(is_document_ref(refs@.last(), *document, new, fragments@));
                assert(plain_document_written(
                    *old(data),
                    *data,
                    ingest,
                    new,
                    document_policy(*document, *req),
                    cut,
                    fragments,
                    stamp@.secrets,
                    stamp@.now,
                ));
            }
        },
        None => {},
    }
    refs
}

/// Saves a fact. `overview` writes what the overview of its entry says, and `cut` makes the
/// fragments of the document that comes with it.
pub fn upsert_state_fact<
    F: Fn(&StateItem) -> String,
    C: Fn(&RetrievalText) -> Vec<FragmentChunk>,
>(
    data: &mut StoreData,
    resolver: &EventIndexResolver,
    tenant_id: &str,
    fact_key: &str,
    req: &UpsertStateFactRequest,
    cut: C,
    overview: F,
    state_id: &str,
    stamp: &Stamp<'_>,
) -> (r: Result<StateItemResponse, ApiError>)
    requires
        is_cutter(cut),
        indexes_have_room(*old(data), 1),
        versions_have_room(*old(data)),
        forall|i: StateItem| #[trigger] overview.requires((&i,)),
    ensures
        match fact_refusal(*req) {
            Some(e) => *final(data) == *old(data) && fails_with(r, e),
            None => fact_saved(
                *old(data),
                *final(data),
                r,
                *resolver,
                requested_fact(*old(data), *resolver, tenant_id@, fact_key@, *req),
                *req,
                cut,
                overview,
                state_id@,
                stamp@,
            ),
        },
{
    let owner: String = match require_string(as_deref(&req.owner_user_id), "owner_user_id") {
        Ok(owner) => owner,
        Err(error) => {
            return Err(error);
        },
    };
    let state_type: String = match require_string(as_deref(&req.state_type), "state_type") {
        Ok(state_type) => state_type,
        Err(error) => {
            return Err(error);
        },
    };
    match require_string(as_deref(&req.statement), "statement") {
        Ok(_) => {},
        Err(error) => {
            return Err(error);
        },
    }
    match &req.document {
        Some(document) => match require_string(as_deref(&document.content), "document.content") {
            Ok(_) => {},
            Err(error) => {
                return Err(error);
            },
        },
        None => {},
    }
    let title: String = match &req.title {
        Some(t) => t.clone(),
        None => replace_chars(fact_key, '-', '_', ' '),
    };
    let key: (String, String, String) = (
        tenant_id.to_owned(),
        owner.clone(),
        fact_key.to_owned(),
    );
    let existing: Option<StateItem> = match data.state_items.get(&key) {
        Some(item) => Some(item.clone()),
        None => None,
    };
    let version: u64 = match &existing {
        Some(item) => item.current_version + 1,
        None => 1,
    };
    let routing: EventRouting = resolver.resolve(tenant_id, owner.as_str());
    let ghost fact = requested_fact(*data, *resolver, tenant_id@, fact_key@, *req);
    let refs: Vec<SourceRef> = document_fact(
        data,
        tenant_id,
        owner.as_str(),
        state_type.as_str(),
        fact_key,
        title.as_str(),
        version,
        routing.personal_context_index_uid.as_str(),
        req,
        cut,
        stamp,
        Ghost(fact),
    );
    let ghost documented = *data;
    let ghost all_refs = refs@;
    let decision: &str = if existing.is_some() {
        "updated"
    } else {
        "created"
    };
    let item: StateItem = saved_item(
        existing,
        tenant_id,
        owner.as_str(),
        state_type.as_str(),
        fact_key,
        title,
        version,
        req,
        refs,
        state_id,
        stamp.now,
        Ghost(fact),
    );
    data.state_items.insert(key, item.clone());
    let ghost put = *data;
    let text: String = overview(&item);
    write_state_context(
        data,
        routing.personal_context_index_uid.as_str(),
        &item,
        text.as_str(),
        stamp.secrets,
        stamp.now,
    );
    let ghost written = *data;
    assert(written.user_indexes == old(data).user_indexes);
    let mut note_text: String = "State fact ".to_owned();
    note_text.append(fact_key);
    note_text.append(" was ");
    note_text.append(decision);
    let mut members: Vec<(&'static str, String)> = Vec::new();
    members.push(("decision", decision.to_owned()));
    members.push(("natural_key", fact_key.to_owned()));
    members.push(("state_type", state_type));
    let note: Note<'_> = Note {
        event_type: "state.changed",
        entity_type: "state_item",
        entity_id: item.id.as_str(),
        text: note_text.as_str(),
        members,
    };
    assert(note@.members =~= saved_note(fact, item.id@, decision@).members);
    let e: Result<HistoryEventResponse, ApiError> = note_event(
        data,
        resolver,
        tenant_id,
        owner.as_str(),
        &note,
        stamp,
    );
    let ghost outcome = e;
    proof {
        assert(fact_documented(*old(data), documented, all_refs, fact, *req, cut, stamp@));
        assert(fact_put(documented, put, (tenant_id@, owner@, fact_key@), item));
        assert(fact_context_written(
            put,
            written,
            item,
            text@,
            fact.index_uid,
            stamp@.secrets,
            stamp.now,
        ));
        assert(noted(
            written,
            *data,
            outcome,
            *resolver,
            tenant_id@,
            owner@,
            saved_note(fact, item.id@, decision@),
            stamp@,
        ));
    }
    let ghost saved = item;
    let r: Result<StateItemResponse, ApiError> = match e {
        Err(error) => Err(error),
        Ok(response) => Ok(
            StateItemResponse {
                context_uri: fact_uri_of(
                    req.state_type.clone().unwrap().as_str(),
                    fact_key,
                ),
                item,
                history_event_id: response.event.id,
                decision: decision.to_owned(),
            },
        ),
    };
    proof {
        let key = (fact.tenant_id, fact.owner, fact.fact_key);
        assert(decision@ == saved_decision(fact_at(*old(data), key)));
        assert(is_saved_fact(
            saved,
            fact_at(*old(data), key),
            fact,
            *req,
            all_refs,
            state_id@,
            stamp@.now,
        ));
        assert(overview.ensures((&saved,), text));
        assert(fact_answered(
            r,
            outcome,
            saved,
            fact_uri(fact.state_type, fact.fact_key),
            decision@,
        ));
    }
    r
}

/// A change of a fact.
pub struct PatchStateFactRequest {
    pub owner_user_id: Option<String>,
    pub statement: Option<String>,
    pub value: Option<Json>,
    /// The bits of a 32-bit float.
    pub confidence: Option<u32>,
    /// The bits of a 32-bit float.
    pub salience: Option<u32>,
    pub status: Option<String>,
    pub valid_to: Option<i64>,
    pub patch_reason: Option<String>,
}

/// The value of a change where it gives one, else the value before.
pub open spec fn changed_to<T>(change: Option<T>, before: T) -> T {
    match change {
        Some(value) => value,
        None => before,
    }
}

/// Whether `item` is a fact as a change leaves it: what the change does not give stays.
pub open spec fn is_patched_fact(
    item: StateItem,
    before: StateItem,
    req: PatchStateFactRequest,
    now: i64,
) -> bool {
    &&& item.current_version == before.current_version + 1
    &&& item == (StateItem {
        statement: changed_to(req.statement, before.statement),
        value: changed_to(req.value, before.value),
        confidence: changed_to(req.confidence, before.confidence),
        salience: changed_to(req.salience, before.salience),
        status: changed_to(req.status, before.status),
        valid_to: if req.valid_to is Some {
            req.valid_to
        } else {
            before.valid_to
        },
        current_version: item.current_version,
        updated_at: now,
        ..before
    })
}

fn patched_item(before: StateItem, req: &PatchStateFactRequest, now: i64) -> (r: StateItem)
    requires
        before.current_version < u64::MAX,
    ensures
        is_patched_fact(r, before, *req, now),
{
    let mut item: StateItem = before;
    match &req.statement {
        Some(statement) => {
            item.statement = statement.clone();
        },
        None => {},
    }
    match &req.value {
        Some(value) => {
            item.value = value.clone();
        },
        None => {},
    }
    match req.confidence {
        Some(confidence) => {
            item.confidence = confidence;
        },
        None => {},
    }
    match req.salience {
        Some(salience) => {
            item.salience = salience;
        },
        None => {},
    }
    match &req.status {
        Some(status) => {
            item.status = status.clone();
        },
        None => {},
    }
    match req.valid_to {
        Some(valid_to) => {
            item.valid_to = Some(valid_to);
        },
        None => {},
    }
    item.current_version = item.current_version + 1;
    item.updated_at = now;
    item
}

/// What the history says of a fact that was changed.
pub open spec fn patched_note(
    id: Seq<char>,
    fact_key: Seq<char>,
    reason: Option<Seq<char>>,
) -> NoteView {
    NoteView {
        event_type: "state.patched"@,
        entity_type: "state_item"@,
        entity_id: id,
        text: match reason {
            Some(text) => text,
            None => "State fact "@ + fact_key + " was patched"@,
        },
        members: seq![("natural_key"@, fact_key)],
    }
}

/// What changing a fact leads to.
pub open spec fn fact_patched<F: Fn(&StateItem) -> String>(
    before: StoreData,
    after: StoreData,
    r: Result<StateItemResponse, ApiError>,
    resolver: EventIndexResolver,
    tenant_id: Seq<char>,
    fact_key: Seq<char>,
    key: FactKey,
    req: PatchStateFactRequest,
    overview: F,
    stamp: StampView,
) -> bool {
    let owner = before.state_items@[key].owner_user_id@;
    exists|
        item: StateItem,
        put: StoreData,
        text: String,
        written: StoreData,
        e: Result<HistoryEventResponse, ApiError>,
    |
        {
            &&& is_patched_fact(item, before.state_items@[key], req, stamp.now)
            &&& #[trigger] fact_put(before, put, key, item)
            &&& overview.ensures((&item,), text)
            &&& #[trigger] fact_context_written(
                put,
                written,
                item,
                text@,
                resolver.context_of(tenant_id, owner),
                stamp.secrets,
                stamp.now,
            )
            &&& #[trigger] noted(
                written,
                after,
                e,
                resolver,
                tenant_id,
                owner,
                patched_note(item.id@, fact_key, opt_text(req.patch_reason)),
                stamp,
            )
            &&& fact_answered(r, e, item, item.context_uri@, "patched"@)
        }
}

/// Changes a fact. `overview` writes what the overview of its entry says.
pub fn patch_state_fact<F: Fn(&StateItem) -> String>(
    data: &mut StoreData,
    resolver: &EventIndexResolver,
    tenant_id: &str,
    fact_key: &str,
    req: &PatchStateFactRequest,
    overview: F,
    stamp: &Stamp<'_>,
) -> (r: Result<StateItemResponse, ApiError>)
    requires
        indexes_have_room(*old(data), 1),
        versions_have_room(*old(data)),
        forall|i: StateItem| #[trigger] overview.requires((&i,)),
    ensures
        match resolved_key(*old(data), tenant_id@, fact_key@, opt_text(req.owner_user_id)) {
            Err(e) => *final(data) == *old(data) && fails_with(r, e),
            Ok(key) => if !old(data).state_items@.dom().contains(key) {
                &&& *final(data) == *old(data)
                &&& fails_with(r, ErrorView::NotFound("state item not found"@))
            } else {
                fact_patched(
                    *old(data),
                    *final(data),
                    r,
                    *resolver,
                    tenant_id@,
                    fact_key@,
                    key,
                    *req,
                    overview,
                    stamp@,
                )
            },
        },
{
    let key: (String, String, String) = match resolve_state_key(
        data,
        tenant_id,
        fact_key,
        as_deref(&req.owner_user_id),
    ) {
        Ok(key) => key,
        Err(error) => {
            return Err(error);
        },
    };
    let before: StateItem = match data.state_items.get(&key) {
        Some(item) => item.clone(),
        None => {
            return Err(ApiError::not_found("state item not found"));
        },
    };
    let ghost k = key@;
    let item: StateItem = patched_item(before, req, stamp.now);
    data.state_items.insert(key, item.clone());
    let ghost put = *data;
    let owner: String = item.owner_user_id.clone();
    let routing: EventRouting = resolver.resolve(tenant_id, owner.as_str());
    let text: String = overview(&item);
    write_state_context(
        data,
        routing.personal_context_index_uid.as_str(),
        &item,
        text.as_str(),
        stamp.secrets,
        stamp.now,
    );
    let ghost written = *data;
    assert(written.user_indexes == old(data).user_indexes);
    let note_text: String = match &req.patch_reason {
        Some(reason) => reason.clone(),
        None => {
            let mut text: String = "State fact ".to_owned();
            text.append(fact_key);
            text.append(" was patched");
            text
        },
    };
    let mut members: Vec<(&'static str, String)> = Vec::new();
    members.push(("natural_key", fact_key.to_owned()));
    let note: Note<'_> = Note {
        event_type: "state.patched",
        entity_type: "state_item",
        entity_id: item.id.as_str(),
        text: note_text.as_str(),
        members,
    };
    let ghost said = patched_note(item.id@, fact_key@, opt_text(req.patch_reason));
    assert(note@.members =~= said.members);
    let e: Result<HistoryEventResponse, ApiError> = note_event(
        data,
        resolver,
        tenant_id,
        owner.as_str(),
        &note,
        stamp,
    );
    let ghost outcome = e;
    let ghost patched = item;
    let r: Result<StateItemResponse, ApiError> = match e {
        Err(error) => Err(error),
        Ok(response) => Ok(
            StateItemResponse {
                context_uri: item.context_uri.clone(),
                item,
                history_event_id: response.event.id,
                decision: "patched".to_owned(),
            },
        ),
    };
    proof {
        assert(fact_put(*old(data), put, k, patched));
        assert(fact_context_written(
            put,
            written,
            patched,
            text@,
            resolver.context_of(tenant_id@, owner@),
            stamp@.secrets,
            stamp@.now,
        ));
        assert(noted(
            written,
            *data,
            outcome,
            *resolver,
            tenant_id@,
            owner@,
            said,
            stamp@,
        ));
        assert(overview.ensures((&patched,), text));
        assert(fact_answered(r, outcome, patched, patched.context_uri@, "patched"@));
    }
    r
}

/// Reads a fact.
pub fn get_state_fact(
    data: &StoreData,
    tenant_id: &str,
    fact_key: &str,
    owner_user_id: Option<&str>,
) -> (r: Result<StateItemResponse, ApiError>)
    ensures
        match resolved_key(*data, tenant_id@, fact_key@, opt_str(owner_user_id)) {
            Err(e) => fails_with(r, e),
            Ok(key) => match fact_at(*data, key) {
                None => fails_with(r, ErrorView::NotFound("state item not found"@)),
                Some(item) => {
                    &&& r is Ok
                    &&& r->Ok_0.item == item
                    &&& r->Ok_0.history_event_id@ == ""@
                    &&& r->Ok_0.context_uri == item.context_uri
                    &&& r->Ok_0.decision@ == "read"@
                },
            },
        },
{
    let key: (String, String, String) = match resolve_state_key(
        data,
        tenant_id,
        fact_key,
        owner_user_id,
    ) {
        Ok(key) => key,
        Err(error) => {
            return Err(error);
        },
    };
    match data.state_items.get(&key) {
        Some(item) => Ok(
            StateItemResponse {
                history_event_id: "".to_owned(),
                context_uri: item.context_uri.clone(),
                item: item.clone(),
                decision: "read".to_owned(),
            },
        ),
        None => Err(ApiError::not_found("state item not found")),
    }
}

/// Which facts are searched for.
pub struct StateSearchRequest {
    pub owner_user_id: Option<String>,
    pub status: String,
    pub state_types: Vec<String>,
    pub limit: usize,
    /// The ids of the facts whose title and statement match the query, where there is one.
    pub matching_ids: Option<Vec<String>>,
}

/// Whether a fact is searched for.
pub open spec fn fact_matches(item: StateItem, tenant_id: Seq<char>, req: StateSearchRequest) -> bool {
    &&& item.tenant_id@ == tenant_id
    &&& req.owner_user_id is None || opt_text(req.owner_user_id) == Some(item.owner_user_id@)
    &&& req.status@.len() == 0 || item.status@ == req.status@
    &&& req.state_types@.len() == 0 || texts(req.state_types@).contains(item.state_type@)
    &&& req.matching_ids is None || texts(req.matching_ids->Some_0@).contains(item.id@)
}

/// The order of facts with the one that was changed last first.
pub open spec fn facts_latest_first() -> spec_fn(StateItem, StateItem) -> bool {
    |a: StateItem, b: StateItem| a.updated_at > b.updated_at
}

/// The facts of a tenant that are searched for, the one that was changed last first.
pub fn search_state(data: &StoreData, tenant_id: &str, req: &StateSearchRequest) -> (r: Vec<
    StateItem,
>)
    ensures
        r@ == limited(
            sorted_by(
                data.state_items.values().filter(
                    |item: StateItem| fact_matches(item, tenant_id@, *req),
                ),
                facts_latest_first(),
            ),
            req.limit as nat,
        ),
        forall|i: int|
            0 <= i < r@.len() ==> {
                let item = #[trigger] r@[i];
                &&& data.state_items.values().contains(item)
                &&& item.tenant_id@ == tenant_id@
                &&& req.owner_user_id is Some ==> item.owner_user_id@ == req.owner_user_id->0@
                &&& req.status@.len() > 0 ==> item.status@ == req.status@
                &&& req.state_types@.len() > 0 ==> texts(req.state_types@).contains(item.state_type@)
                &&& req.matching_ids is Some ==> texts(req.matching_ids->0@).contains(item.id@)
            },
        forall|i: int, j: int|
            0 <= i < j < r@.len() ==> (#[trigger] r@[i]).updated_at >= (#[trigger] r@[j]).updated_at,
        forall|item: StateItem| #[trigger]
            data.state_items.values().contains(item) && item.tenant_id@ == tenant_id@ && (
            req.owner_user_id is Some ==> item.owner_user_id@ == req.owner_user_id->0@) && (
            req.status@.len() > 0 ==> item.status@ == req.status@) && (req.state_types@.len() > 0
                ==> texts(req.state_types@).contains(item.state_type@)) && (req.matching_ids is Some
                ==> texts(req.matching_ids->0@).contains(item.id@)) && r@.len() < req.limit
                ==> r@.contains(item),
{
    let ghost p = |item: StateItem| fact_matches(item, tenant_id@, *req);
    let accept = |item: &StateItem| -> (b: bool)
        ensures
            b == p(*item),
        {
            text_eq(item.tenant_id.as_str(), tenant_id) && match &req.owner_user_id {
                Some(owner) => text_eq(owner.as_str(), item.owner_user_id.as_str()),
                None => true,
            } && (is_empty_text(req.status.as_str()) || text_eq(
                item.status.as_str(),
                req.status.as_str(),
            )) && (req.state_types.len() == 0 || texts_contain(
                &req.state_types,
                item.state_type.as_str(),
            )) && match &req.matching_ids {
                Some(ids) => texts_contain(ids, item.id.as_str()),
                None => true,
            }
        };
    let found: Vec<StateItem> = select_values(&data.state_items, accept, Ghost(p));
    let ghost lt = facts_latest_first();
    let later = |a: &StateItem, b: &StateItem| -> (c: bool)
        ensures
            c == lt(*a, *b),
        { a.updated_at > b.updated_at };
    let mut hits: Vec<StateItem> = sort_by(found, later, Ghost(lt));
    limit_to(&mut hits, req.limit);
    proof {
        assert(strict_order(lt));
        what_is_chosen(data.state_items.values(), p, lt, req.limit as nat);
        assert forall|i: int, j: int| 0 <= i < j < hits@.len() implies (
        #[trigger] hits@[i]).updated_at >= (#[trigger] hits@[j]).updated_at by {
            assert(!lt(hits@[j], hits@[i]));
        }
        assert forall|item: StateItem| #[trigger]
            data.state_items.values().contains(item) && fact_matches(item, tenant_id@, *req)
                && hits@.len() < req.limit implies hits@.contains(item) by {
            assert(p(item));
        }
    }
    hits
}

/// A fact that was saved is what is read under its key.
pub proof fn what_is_saved_is_read<
    F: Fn(&StateItem) -> String,
    C: Fn(&RetrievalText) -> Vec<FragmentChunk>,
>(
    before: StoreData,
    after: StoreData,
    r: Result<StateItemResponse, ApiError>,
    resolver: EventIndexResolver,
    fact: FactView,
    req: UpsertStateFactRequest,
    cut: C,
    overview: F,
    state_id: Seq<char>,
    stamp: StampView,
)
    requires
        fact_saved(
            before,
            after,
            r,
            resolver,
            fact,
            req,
            cut,
            overview,
            state_id,
            stamp,
        ),
        r is Ok,
    ensures
        fact_at(after, (fact.tenant_id, fact.owner, fact.fact_key)) == Some(r->Ok_0.item),
{
    let key = (fact.tenant_id, fact.owner, fact.fact_key);
    let existing = fact_at(before, key);
    let decision = saved_decision(existing);
    let (documented, refs, item, put, text, written, e) = choose|
        documented: StoreData,
        refs: Seq<SourceRef>,
        item: StateItem,
        put: StoreData,
        text: String,
        written: StoreData,
        e: Result<HistoryEventResponse, ApiError>,
    |
        {
            &&& #[trigger] fact_documented(before, documented, refs, fact, req, cut, stamp)
            &&& is_saved_fact(item, existing, fact, req, refs, state_id, stamp.now)
            &&& #[trigger] fact_put(documented, put, key, item)
            &&& overview.ensures((&item,), text)
            &&& #[trigger] fact_context_written(
                put,
                written,
                item,
                text@,
                fact.index_uid,
                stamp.secrets,
                stamp.now,
            )
            &&& #[trigger] noted(
                written,
                after,
                e,
                resolver,
                fact.tenant_id,
                fact.owner,
                saved_note(fact, item.id@, decision),
                stamp,
            )
            &&& fact_answered(
                r,
                e,
                item,
                fact_uri(fact.state_type, fact.fact_key),
                decision,
            )
        };
    noting_keeps_other_records(
        written,
        after,
        e,
        resolver,
        fact.tenant_id,
        fact.owner,
        saved_note(fact, item.id@, decision),
        stamp,
    );
}

} // verus!
