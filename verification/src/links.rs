//! Links between the entries of the context: saving one, finding those of an entry, and who sees
//! them.

use vstd::prelude::*;
use vstd::string::*;

use crate::data::StoreData;
use crate::error::{fails_with, ApiError, ErrorView};
use crate::facts::is_required;
use crate::history::{
    indexes_have_room, missing, note_event, noted, noting_keeps_other_records,
    HistoryEventResponse, Note, NoteView, Stamp, StampView,
};
use crate::history_search::{limit_to, limited};
use crate::laws::choosing::{
    a_filter_keeps_what_it_accepts, sorting_keeps_members, what_is_chosen,
};
use crate::model::knowledge::KnowledgeLink;
use crate::naming::{
    link_natural_key, natural_key, owner_or_empty, owner_text, sanitize_slug, slug,
};
use crate::nodes::{canonical_link_uri, link_uri};
use crate::order::{sort_by, sorted_by, strict_order};
use crate::reading::{first_of, first_value, require_string};
use crate::record::{select, select_values, List};
use crate::resolver::EventIndexResolver;
use crate::source_delete::{
    ensure_link_not_pending_company_source_delete, link_delete_pending, link_deleting_error,
};
use crate::text::{
    as_deref, is_empty_text, join, joined, opt_str, opt_text, text_eq, texts, texts_contain, trim,
    trimmed,
};

verus! {

/// The name of a relation: what is blank is merely related.
pub open spec fn relation_name(relation: Seq<char>) -> Seq<char> {
    let name = trimmed(relation);
    if name.len() == 0 {
        "related"@
    } else {
        slug(name)
    }
}

/// The name of a relation: what is blank is merely related.
pub fn normalize_relation(relation: &str) -> (r: String)
    ensures
        r@ == relation_name(relation@),
{
    let name: String = trim(relation);
    if is_empty_text(name.as_str()) {
        "related".to_owned()
    } else {
        sanitize_slug(name.as_str())
    }
}

/// What of a link is searched.
pub open spec fn searched_text(link: KnowledgeLink) -> Seq<char> {
    link.source_uri@ + " "@ + link.target_uri@ + " "@ + owner_text(opt_text(link.source_title))
        + " "@ + owner_text(opt_text(link.target_title)) + " "@ + link.relation@ + " "@
        + owner_text(opt_text(link.rationale)) + " "@ + joined(texts(link.tags@), " "@)
}

/// What of a link is searched.
pub fn link_search_text(link: &KnowledgeLink) -> (r: String)
    ensures
        r@ == searched_text(*link),
{
    let mut out: String = link.source_uri.clone();
    out.append(" ");
    out.append(link.target_uri.as_str());
    out.append(" ");
    out.append(owner_or_empty(as_deref(&link.source_title)));
    out.append(" ");
    out.append(owner_or_empty(as_deref(&link.target_title)));
    out.append(" ");
    out.append(link.relation.as_str());
    out.append(" ");
    out.append(owner_or_empty(as_deref(&link.rationale)));
    out.append(" ");
    out.append(join(&link.tags, " ").as_str());
    out
}

/// Whether a caller sees what may have an owner: what has none, and what is its own.
pub open spec fn seen_by(resource_owner: Option<Seq<char>>, owner: Option<Seq<char>>) -> bool {
    resource_owner is None || resource_owner == owner
}

/// Whether a caller sees what may have an owner.
pub fn owner_can_see_optional(resource_owner: Option<&str>, owner_user_id: Option<&str>) -> (r: bool)
    ensures
        r == seen_by(opt_str(resource_owner), opt_str(owner_user_id)),
{
    match (resource_owner, owner_user_id) {
        (None, _) => true,
        (Some(a), Some(b)) => text_eq(a, b),
        (Some(_), None) => false,
    }
}

/// Whether a caller sees a link.
pub fn link_visible_to_owner(link: &KnowledgeLink, owner_user_id: Option<&str>) -> (r: bool)
    ensures
        r == seen_by(opt_text(link.owner_user_id), opt_str(owner_user_id)),
{
    owner_can_see_optional(as_deref(&link.owner_user_id), owner_user_id)
}

/// A link as it is shown with a hit.
pub struct ContextRelatedLink {
    pub id: String,
    pub source_uri: String,
    pub target_uri: String,
    pub relation: String,
    pub source_title: Option<String>,
    pub target_title: Option<String>,
    /// The bits of a 32-bit float.
    pub confidence: u32,
    pub updated_at: i64,
}

/// Whether `r` shows a link.
pub open spec fn shows_link(r: ContextRelatedLink, link: KnowledgeLink) -> bool {
    &&& r.id == link.id
    &&& r.source_uri == link.source_uri
    &&& r.target_uri == link.target_uri
    &&& r.relation == link.relation
    &&& r.source_title == link.source_title
    &&& r.target_title == link.target_title
    &&& r.confidence == link.confidence
    &&& r.updated_at == link.updated_at
}

/// A link as it is shown with a hit.
pub fn context_related_link(link: &KnowledgeLink) -> (r: ContextRelatedLink)
    ensures
        shows_link(r, *link),
{
    ContextRelatedLink {
        id: link.id.clone(),
        source_uri: link.source_uri.clone(),
        target_uri: link.target_uri.clone(),
        relation: link.relation.clone(),
        source_title: link.source_title.clone(),
        target_title: link.target_title.clone(),
        confidence: link.confidence,
        updated_at: link.updated_at,
    }
}

/// A link to be saved.
pub struct LinkUpsertRequest {
    pub owner_user_id: Option<String>,
    pub source_uri: Option<String>,
    pub target_uri: Option<String>,
    pub source_title: Option<String>,
    pub target_title: Option<String>,
    pub relation: String,
    pub rationale: Option<String>,
    pub evidence_text: Option<String>,
    /// The bits of a 32-bit float.
    pub confidence: u32,
    pub created_by: String,
    pub tags: List<String>,
    pub idempotency_key: Option<String>,
}

/// The error where both ends of a link are the same.
pub open spec fn same_ends() -> ErrorView {
    ErrorView::BadRequest("source_uri and target_uri must refer to different context nodes"@)
}

/// Why a link is not saved.
pub open spec fn link_refusal(req: LinkUpsertRequest) -> Option<ErrorView> {
    if missing(opt_text(req.source_uri)) {
        Some(is_required("source_uri"@))
    } else if missing(opt_text(req.target_uri)) {
        Some(is_required("target_uri"@))
    } else if link_uri(req.source_uri->Some_0@) == link_uri(req.target_uri->Some_0@) {
        Some(same_ends())
    } else {
        None
    }
}

/// A link to be saved once it was checked, by content.
pub struct LinkAsk {
    pub tenant_id: Seq<char>,
    pub owner: Option<Seq<char>>,
    pub source_uri: Seq<char>,
    pub target_uri: Seq<char>,
    pub relation: Seq<char>,
}

/// What is to be saved.
pub open spec fn requested_link(tenant_id: Seq<char>, req: LinkUpsertRequest) -> LinkAsk {
    LinkAsk {
        tenant_id,
        owner: opt_text(req.owner_user_id),
        source_uri: link_uri(req.source_uri->Some_0@),
        target_uri: link_uri(req.target_uri->Some_0@),
        relation: relation_name(req.relation@),
    }
}

/// What identifies a link that is to be saved.
pub open spec fn ask_key(ask: LinkAsk) -> Seq<char> {
    natural_key(ask.tenant_id, ask.owner, ask.source_uri, ask.target_uri, ask.relation)
}

/// What identifies a link.
pub open spec fn link_key(link: KnowledgeLink) -> Seq<char> {
    natural_key(
        link.tenant_id@,
        opt_text(link.owner_user_id),
        link.source_uri@,
        link.target_uri@,
        link.relation@,
    )
}

/// What identifies a link.
pub fn natural_key_of(link: &KnowledgeLink) -> (r: String)
    ensures
        r@ == link_key(*link),
{
    link_natural_key(
        link.tenant_id.as_str(),
        as_deref(&link.owner_user_id),
        link.source_uri.as_str(),
        link.target_uri.as_str(),
        link.relation.as_str(),
    )
}

/// Whether a link is identified by a text.
pub open spec fn keyed_by(key: Seq<char>) -> spec_fn(KnowledgeLink) -> bool {
    |link: KnowledgeLink| link_key(link) == key
}

/// The key under which the id of a link is remembered.
pub open spec fn link_memory_key(
    resolver: EventIndexResolver,
    tenant_id: Seq<char>,
    req: LinkUpsertRequest,
) -> Option<(Seq<char>, Seq<char>, Seq<char>)> {
    match opt_text(req.idempotency_key) {
        Some(key) => Some(
            (tenant_id, owner_text(opt_text(req.owner_user_id)), resolver.key_digest(key)),
        ),
        None => None,
    }
}

/// The link that was saved under the idempotency key of a request, and its id.
pub open spec fn remembered_link(
    d: StoreData,
    resolver: EventIndexResolver,
    tenant_id: Seq<char>,
    req: LinkUpsertRequest,
) -> Option<(Seq<char>, KnowledgeLink)> {
    match link_memory_key(resolver, tenant_id, req) {
        Some(key) => if d.link_idempotency@.dom().contains(key) && d.links@.dom().contains(
            d.link_idempotency@[key]@,
        ) {
            let id = d.link_idempotency@[key]@;
            Some((id, d.links@[id]))
        } else {
            None
        },
        None => None,
    }
}

/// The id of the link that is there already.
pub open spec fn existing_link_id(d: StoreData, key: Seq<char>) -> Option<Seq<char>> {
    match first_of(d.links.values(), keyed_by(key)) {
        Some(link) => Some(link.id@),
        None => None,
    }
}

/// Whether `link` is a link as it is saved: the id and age of the one before are kept.
pub open spec fn is_saved_link(
    link: KnowledgeLink,
    d: StoreData,
    ask: LinkAsk,
    req: LinkUpsertRequest,
    new_id: Seq<char>,
    now: i64,
) -> bool {
    let existing = existing_link_id(d, ask_key(ask));
    &&& link.id@ == (match existing {
        Some(id) => id,
        None => new_id,
    })
    &&& link.tenant_id@ == ask.tenant_id
    &&& link.owner_user_id == req.owner_user_id
    &&& link.source_uri@ == ask.source_uri
    &&& link.target_uri@ == ask.target_uri
    &&& link.source_title == req.source_title
    &&& link.target_title == req.target_title
    &&& link.relation@ == ask.relation
    &&& link.rationale == req.rationale
    &&& link.evidence_text == req.evidence_text
    &&& link.confidence == req.confidence
    &&& link.created_by == req.created_by
    &&& link.status@ == "active"@
    &&& link.tags == req.tags
    &&& link.created_at == (if existing is Some && d.links@.dom().contains(existing->Some_0) {
        d.links@[existing->Some_0].created_at
    } else {
        now
    })
    &&& link.updated_at == now
}

/// The state after a link was put under its id, and the id under the idempotency key.
pub open spec fn link_put(
    before: StoreData,
    after: StoreData,
    link: KnowledgeLink,
    memory_key: Option<(Seq<char>, Seq<char>, Seq<char>)>,
) -> bool {
    &&& after == (StoreData {
        links: after.links,
        link_idempotency: after.link_idempotency,
        ..before
    })
    &&& after.links@ == before.links@.insert(link.id@, link)
    &&& match memory_key {
        Some(key) => after.link_idempotency@ == before.link_idempotency@.insert(key, link.id),
        None => after.link_idempotency == before.link_idempotency,
    }
}

/// What is answered about a link.
pub struct LinkResponse {
    pub link: KnowledgeLink,
    pub decision: String,
    pub history_event_id: Option<String>,
}

/// What is said to have become of a link that was saved.
pub open spec fn link_decision(existing: Option<Seq<char>>) -> Seq<char> {
    if existing is Some {
        "updated"@
    } else {
        "created"@
    }
}

/// What the history says of a link that was saved.
pub open spec fn link_note(link: KnowledgeLink, decision: Seq<char>) -> NoteView {
    NoteView {
        event_type: "link.upserted"@,
        entity_type: "knowledge_link"@,
        entity_id: link.id@,
        text: "Link "@ + link.source_uri@ + " "@ + link.relation@ + " "@ + link.target_uri@,
        members: seq![
            ("decision"@, decision),
            ("link_id"@, link.id@),
            ("relation"@, link.relation@),
            ("source_uri"@, link.source_uri@),
            ("target_uri"@, link.target_uri@),
        ],
    }
}

/// What saving a link leads to: it is put in the place of the one before, and the history of its
/// owner, where it has one, says so.
pub open spec fn link_saved(
    before: StoreData,
    after: StoreData,
    r: Result<LinkResponse, ApiError>,
    resolver: EventIndexResolver,
    ask: LinkAsk,
    req: LinkUpsertRequest,
    new_id: Seq<char>,
    stamp: StampView,
) -> bool {
    let decision = link_decision(existing_link_id(before, ask_key(ask)));
    exists|put: StoreData, link: KnowledgeLink|
        {
            &&& is_saved_link(link, before, ask, req, new_id, stamp.now)
            &&& #[trigger] link_put(
                before,
                put,
                link,
                link_memory_key(resolver, ask.tenant_id, req),
            )
            &&& match ask.owner {
                None => {
                    &&& after == put
                    &&& r is Ok
                    &&& r->Ok_0.link == link
                    &&& r->Ok_0.decision@ == decision
                    &&& r->Ok_0.history_event_id is None
                },
                Some(owner) => link_noted(put, after, r, resolver, ask, owner, link, decision, stamp),
            }
        }
}

/// What noting a link in the history of its owner leads to.
pub open spec fn link_noted(
    before: StoreData,
    after: StoreData,
    r: Result<LinkResponse, ApiError>,
    resolver: EventIndexResolver,
    ask: LinkAsk,
    owner: Seq<char>,
    link: KnowledgeLink,
    decision: Seq<char>,
    stamp: StampView,
) -> bool {
    exists|e: Result<HistoryEventResponse, ApiError>|
        {
            &&& #[trigger] noted(
                before,
                after,
                e,
                resolver,
                ask.tenant_id,
                owner,
                link_note(link, decision),
                stamp,
            )
            &&& match e {
                Err(error) => r is Err && r->Err_0 == error,
                Ok(response) => {
                    &&& r is Ok
                    &&& r->Ok_0.link == link
                    &&& r->Ok_0.decision@ == decision
                    &&& opt_text(r->Ok_0.history_event_id) == Some(response.event.id@)
                },
            }
        }
}

/// What a request to save a link leads to once it was checked: one that was made before is
/// answered as before, and a link that a deletion takes with it is left alone.
pub open spec fn link_result(
    before: StoreData,
    after: StoreData,
    r: Result<LinkResponse, ApiError>,
    resolver: EventIndexResolver,
    ask: LinkAsk,
    req: LinkUpsertRequest,
    new_id: Seq<char>,
    stamp: StampView,
) -> bool {
    let operations = before.operations.values();
    match remembered_link(before, resolver, ask.tenant_id, req) {
        Some((id, link)) => {
            &&& after == before
            &&& if link_delete_pending(
                operations,
                ask.tenant_id,
                Some(id),
                link.source_uri@,
                link.target_uri@,
            ) {
                fails_with(r, link_deleting_error())
            } else {
                &&& r is Ok
                &&& r->Ok_0.link == link
                &&& r->Ok_0.decision@ == "duplicate"@
                &&& r->Ok_0.history_event_id is None
            }
        },
        None => if link_delete_pending(
            operations,
            ask.tenant_id,
            existing_link_id(before, ask_key(ask)),
            ask.source_uri,
            ask.target_uri,
        ) {
            after == before && fails_with(r, link_deleting_error())
        } else {
            link_saved(before, after, r, resolver, ask, req, new_id, stamp)
        },
    }
}

fn find_remembered(
    data: &StoreData,
    resolver: &EventIndexResolver,
    tenant_id: &str,
    req: &LinkUpsertRequest,
) -> (r: Option<(String, KnowledgeLink)>)
    ensures
        match (r, remembered_link(*data, *resolver, tenant_id@, *req)) {
            (Some(x), Some(y)) => x.0@ == y.0 && x.1 == y.1,
            (None, None) => true,
            _ => false,
        },
{
    match &req.idempotency_key {
        Some(k) => {
            let key: (String, String, String) = (
                tenant_id.to_owned(),
                owner_or_empty(as_deref(&req.owner_user_id)).to_owned(),
                resolver.idempotency_hash(k.as_str()),
            );
            match data.link_idempotency.get(&key) {
                Some(id) => match data.links.get(id) {
                    Some(link) => Some((id.clone(), link.clone())),
                    None => None,
                },
                None => None,
            }
        },
        None => None,
    }
}

/// The id of the link that is there already.
pub fn find_existing_link(data: &StoreData, key: &str) -> (r: Option<String>)
    ensures
        opt_text(r) == existing_link_id(*data, key@),
{
    let ghost p = keyed_by(key@);
    let accept = |link: &KnowledgeLink| -> (b: bool)
        ensures
            b == p(*link),
        { text_eq(natural_key_of(link).as_str(), key) };
    match first_value(&data.links, accept, Ghost(p)) {
        Some(link) => Some(link.id.clone()),
        None => None,
    }
}

fn put_link(
    data: &mut StoreData,
    resolver: &EventIndexResolver,
    tenant_id: &str,
    req: &LinkUpsertRequest,
    link: &KnowledgeLink,
)
    ensures
        link_put(
            *old(data),
            *final(data),
            *link,
            link_memory_key(*resolver, tenant_id@, *req),
        ),
{
    match &req.idempotency_key {
        Some(k) => {
            let key: (String, String, String) = (
                tenant_id.to_owned(),
                owner_or_empty(as_deref(&req.owner_user_id)).to_owned(),
                resolver.idempotency_hash(k.as_str()),
            );
            data.link_idempotency.insert(key, link.id.clone());
        },
        None => {},
    }
    data.links.insert(link.id.clone(), link.clone());
}

fn note_link(
    data: &mut StoreData,
    resolver: &EventIndexResolver,
    tenant_id: &str,
    owner: &str,
    link: KnowledgeLink,
    decision: &str,
    stamp: &Stamp<'_>,
    Ghost(ask): Ghost<LinkAsk>,
) -> (r: Result<LinkResponse, ApiError>)
    requires
        indexes_have_room(*old(data), 1),
        ask.tenant_id == tenant_id@,
    ensures
        link_noted(
            *old(data),
            *final(data),
            r,
            *resolver,
            ask,
            owner@,
            link,
            decision@,
            stamp@,
        ),
{
    let mut text: String = "Link ".to_owned();
    text.append(link.source_uri.as_str());
    text.append(" ");
    text.append(link.relation.as_str());
    text.append(" ");
    text.append(link.target_uri.as_str());
    let mut members: Vec<(&'static str, String)> = Vec::new();
    members.push(("decision", decision.to_owned()));
    members.push(("link_id", link.id.clone()));
    members.push(("relation", link.relation.clone()));
    members.push(("source_uri", link.source_uri.clone()));
    members.push(("target_uri", link.target_uri.clone()));
    let note: Note<'_> = Note {
        event_type: "link.upserted",
        entity_type: "knowledge_link",
        entity_id: link.id.as_str(),
        text: text.as_str(),
        members,
    };
    assert(note@.members =~= link_note(link, decision@).members);
    let e: Result<HistoryEventResponse, ApiError> = note_event(
        data,
        resolver,
        tenant_id,
        owner,
        &note,
        stamp,
    );
    let ghost outcome = e;
    assert(noted(
        *old(data),
        *data,
        outcome,
        *resolver,
        ask.tenant_id,
        owner@,
        link_note(link, decision@),
        stamp@,
    ));
    match e {
        Err(error) => Err(error),
        Ok(response) => Ok(
            LinkResponse {
                link,
                decision: decision.to_owned(),
                history_event_id: Some(response.event.id),
            },
        ),
    }
}

/// What a request to save a link leads to.
pub open spec fn link_upserted(
    before: StoreData,
    after: StoreData,
    r: Result<LinkResponse, ApiError>,
    resolver: EventIndexResolver,
    tenant_id: Seq<char>,
    req: LinkUpsertRequest,
    new_id: Seq<char>,
    stamp: StampView,
) -> bool {
    match link_refusal(req) {
        Some(e) => after == before && fails_with(r, e),
        None => link_result(
            before,
            after,
            r,
            resolver,
            requested_link(tenant_id, req),
            req,
            new_id,
            stamp,
        ),
    }
}

/// Saves a link.
pub fn upsert_link(
    data: &mut StoreData,
    resolver: &EventIndexResolver,
    tenant_id: &str,
    req: &LinkUpsertRequest,
    new_id: &str,
    stamp: &Stamp<'_>,
) -> (r: Result<LinkResponse, ApiError>)
    requires
        indexes_have_room(*old(data), 1),
    ensures
        link_upserted(
            *old(data),
            *final(data),
            r,
            *resolver,
            tenant_id@,
            *req,
            new_id@,
            stamp@,
        ),
{
    let source_uri: String = match require_string(as_deref(&req.source_uri), "source_uri") {
        Ok(uri) => canonical_link_uri(uri.as_str()),
        Err(error) => {
            return Err(error);
        },
    };
    let target_uri: String = match require_string(as_deref(&req.target_uri), "target_uri") {
        Ok(uri) => canonical_link_uri(uri.as_str()),
        Err(error) => {
            return Err(error);
        },
    };
    if text_eq(source_uri.as_str(), target_uri.as_str()) {
        return Err(
            ApiError::bad_request(
                "source_uri and target_uri must refer to different context nodes",
            ),
        );
    }
    let relation: String = normalize_relation(req.relation.as_str());
    let ghost ask = requested_link(tenant_id@, *req);
    match find_remembered(data, resolver, tenant_id, req) {
        Some((id, link)) => {
            match ensure_link_not_pending_company_source_delete(
                data,
                tenant_id,
                Some(id.as_str()),
                link.source_uri.as_str(),
                link.target_uri.as_str(),
            ) {
                Ok(_) => {},
                Err(error) => {
                    return Err(error);
                },
            }
            return Ok(
                LinkResponse { link, decision: "duplicate".to_owned(), history_event_id: None },
            );
        },
        None => {},
    }
    let key: String = link_natural_key(
        tenant_id,
        as_deref(&req.owner_user_id),
        source_uri.as_str(),
        target_uri.as_str(),
        relation.as_str(),
    );
    let existing: Option<String> = find_existing_link(data, key.as_str());
    match ensure_link_not_pending_company_source_delete(
        data,
        tenant_id,
        as_deref(&existing),
        source_uri.as_str(),
        target_uri.as_str(),
    ) {
        Ok(_) => {},
        Err(error) => {
            return Err(error);
        },
    }
    let created_at: i64 = match &existing {
        Some(id) => match data.links.get(id) {
            Some(link) => link.created_at,
            None => stamp.now,
        },
        None => stamp.now,
    };
    let decision: &str = if existing.is_some() {
        "updated"
    } else {
        "created"
    };
    let link: KnowledgeLink = KnowledgeLink {
        id: match existing {
            Some(id) => id,
            None => new_id.to_owned(),
        },
        tenant_id: tenant_id.to_owned(),
        owner_user_id: req.owner_user_id.clone(),
        source_uri,
        target_uri,
        source_title: req.source_title.clone(),
        target_title: req.target_title.clone(),
        relation,
        rationale: req.rationale.clone(),
        evidence_text: req.evidence_text.clone(),
        confidence: req.confidence,
        created_by: req.created_by.clone(),
        status: "active".to_owned(),
        tags: req.tags.clone(),
        created_at,
        updated_at: stamp.now,
    };
    assert(is_saved_link(link, *data, ask, *req, new_id@, stamp.now));
    put_link(data, resolver, tenant_id, req, &link);
    assert(link_put(*old(data), *data, link, link_memory_key(*resolver, ask.tenant_id, *req)));
    match &req.owner_user_id {
        Some(owner) => note_link(
            data,
            resolver,
            tenant_id,
            owner.as_str(),
            link,
            decision,
            stamp,
            Ghost(ask),
        ),
        None => Ok(
            LinkResponse { link, decision: decision.to_owned(), history_event_id: None },
        ),
    }
}

/// A request to save a link that is made a second time under its idempotency key finds the link of
/// the first time.
pub proof fn saving_a_link_twice_is_saving_it_once(
    before: StoreData,
    after: StoreData,
    r: Result<LinkResponse, ApiError>,
    resolver: EventIndexResolver,
    tenant_id: Seq<char>,
    req: LinkUpsertRequest,
    new_id: Seq<char>,
    stamp: StampView,
)
    requires
        req.idempotency_key is Some,
        link_saved(
            before,
            after,
            r,
            resolver,
            requested_link(tenant_id, req),
            req,
            new_id,
            stamp,
        ),
        r is Ok,
    ensures
        remembered_link(after, resolver, tenant_id, req) == Some((r->Ok_0.link.id@, r->Ok_0.link)),
{
    let ask = requested_link(tenant_id, req);
    let decision = link_decision(existing_link_id(before, ask_key(ask)));
    let (put, link) = choose|put: StoreData, link: KnowledgeLink|
        {
            &&& is_saved_link(link, before, ask, req, new_id, stamp.now)
            &&& #[trigger] link_put(
                before,
                put,
                link,
                link_memory_key(resolver, ask.tenant_id, req),
            )
            &&& match ask.owner {
                None => {
                    &&& after == put
                    &&& r is Ok
                    &&& r->Ok_0.link == link
                    &&& r->Ok_0.decision@ == decision
                    &&& r->Ok_0.history_event_id is None
                },
                Some(owner) => link_noted(put, after, r, resolver, ask, owner, link, decision, stamp),
            }
        };
    match ask.owner {
        Some(owner) => {
            lemma_noted_link_stays(put, after, r, resolver, ask, owner, link, decision, stamp);
        },
        None => {},
    }
}

pub(crate) proof fn lemma_noted_link_stays(
    before: StoreData,
    after: StoreData,
    r: Result<LinkResponse, ApiError>,
    resolver: EventIndexResolver,
    ask: LinkAsk,
    owner: Seq<char>,
    link: KnowledgeLink,
    decision: Seq<char>,
    stamp: StampView,
)
    requires
        link_noted(before, after, r, resolver, ask, owner, link, decision, stamp),
    ensures
        after.links == before.links,
        after.link_idempotency == before.link_idempotency,
        r is Ok ==> r->Ok_0.link == link,
{
    let e = choose|e: Result<HistoryEventResponse, ApiError>|
        {
            &&& #[trigger] noted(
                before,
                after,
                e,
                resolver,
                ask.tenant_id,
                owner,
                link_note(link, decision),
                stamp,
            )
            &&& match e {
                Err(error) => r is Err && r->Err_0 == error,
                Ok(response) => {
                    &&& r is Ok
                    &&& r->Ok_0.link == link
                    &&& r->Ok_0.decision@ == decision
                    &&& opt_text(r->Ok_0.history_event_id) == Some(response.event.id@)
                },
            }
        };
    noting_keeps_other_records(
        before,
        after,
        e,
        resolver,
        ask.tenant_id,
        owner,
        link_note(link, decision),
        stamp,
    );
}

/// Which links are searched for.
pub struct LinkSearchRequest {
    pub owner_user_id: Option<String>,
    pub uri: Option<String>,
    pub direction: String,
    pub relations: Vec<String>,
    pub status: String,
    pub limit: usize,
    /// The ids of the links whose text matches the query, where there is one.
    pub matching_ids: Option<Vec<String>>,
}

/// Whether a link leads where it is asked for.
pub open spec fn leads(link: KnowledgeLink, uri: Seq<char>, direction: Seq<char>) -> bool {
    if direction == "outbound"@ {
        link.source_uri@ == uri
    } else if direction == "backlinks"@ || direction == "backlink"@ {
        link.target_uri@ == uri
    } else {
        link.source_uri@ == uri || link.target_uri@ == uri
    }
}

/// The entry that the links are asked of.
pub open spec fn asked_uri(req: LinkSearchRequest) -> Option<Seq<char>> {
    match opt_text(req.uri) {
        Some(uri) => Some(link_uri(uri)),
        None => None,
    }
}

/// Whether a link is searched for: without an owner the private ones are for administrators.
pub open spec fn link_matches(
    link: KnowledgeLink,
    tenant_id: Seq<char>,
    req: LinkSearchRequest,
    include_all_private: bool,
) -> bool {
    &&& link.tenant_id@ == tenant_id
    &&& if req.owner_user_id is Some {
        seen_by(opt_text(link.owner_user_id), opt_text(req.owner_user_id))
    } else {
        include_all_private || link.owner_user_id is None
    }
    &&& req.status@.len() == 0 || link.status@ == req.status@
    &&& req.relations@.len() == 0 || texts(req.relations@).contains(link.relation@)
    &&& match asked_uri(req) {
        Some(uri) => leads(link, uri, req.direction@),
        None => true,
    }
    &&& req.matching_ids is None || texts(req.matching_ids->Some_0@).contains(link.id@)
}

fn check_leads(link: &KnowledgeLink, uri: &str, direction: &str) -> (r: bool)
    ensures
        r == leads(*link, uri@, direction@),
{
    if text_eq(direction, "outbound") {
        text_eq(link.source_uri.as_str(), uri)
    } else if text_eq(direction, "backlinks") || text_eq(direction, "backlink") {
        text_eq(link.target_uri.as_str(), uri)
    } else {
        text_eq(link.source_uri.as_str(), uri) || text_eq(link.target_uri.as_str(), uri)
    }
}

fn check_link_matches(
    link: &KnowledgeLink,
    tenant_id: &str,
    req: &LinkSearchRequest,
    uri: &Option<String>,
    include_all_private: bool,
) -> (r: bool)
    requires
        opt_text(*uri) == asked_uri(*req),
    ensures
        r == link_matches(*link, tenant_id@, *req, include_all_private),
{
    text_eq(link.tenant_id.as_str(), tenant_id) && (if req.owner_user_id.is_some() {
        link_visible_to_owner(link, as_deref(&req.owner_user_id))
    } else {
        include_all_private || link.owner_user_id.is_none()
    }) && (is_empty_text(req.status.as_str()) || text_eq(
        link.status.as_str(),
        req.status.as_str(),
    )) && (req.relations.len() == 0 || texts_contain(&req.relations, link.relation.as_str()))
        && match uri {
        Some(u) => check_leads(link, u.as_str(), req.direction.as_str()),
        None => true,
    } && match &req.matching_ids {
        Some(ids) => texts_contain(ids, link.id.as_str()),
        None => true,
    }
}

/// The order of links with the one that was changed last first.
pub open spec fn links_latest_first() -> spec_fn(KnowledgeLink, KnowledgeLink) -> bool {
    |a: KnowledgeLink, b: KnowledgeLink| a.updated_at > b.updated_at
}

fn sort_links(v: Vec<KnowledgeLink>) -> (r: Vec<KnowledgeLink>)
    ensures
        r@ == sorted_by(v@, links_latest_first()),
{
    let ghost lt = links_latest_first();
    let later = |a: &KnowledgeLink, b: &KnowledgeLink| -> (c: bool)
        ensures
            c == lt(*a, *b),
        { a.updated_at > b.updated_at };
    sort_by(v, later, Ghost(lt))
}

/// Whether a link starts at a URI.
pub open spec fn starts_at(uri: Seq<char>) -> spec_fn(KnowledgeLink) -> bool {
    |link: KnowledgeLink| link.source_uri@ == uri
}

/// Whether a link ends at a URI.
pub open spec fn ends_at(uri: Seq<char>) -> spec_fn(KnowledgeLink) -> bool {
    |link: KnowledgeLink| link.target_uri@ == uri
}

/// What a search for links is answered.
pub struct LinkSearchResponse {
    pub links: Vec<KnowledgeLink>,
    pub outbound: Vec<KnowledgeLink>,
    pub backlinks: Vec<KnowledgeLink>,
}

/// Whether a link is one that a search asks for: of the tenant, open to the owner that is named or
/// to everyone, with the status and one of the relations that are named, and at the named entry on
/// the side that is asked for.
pub open spec fn is_asked_for(
    link: KnowledgeLink,
    tenant_id: Seq<char>,
    req: LinkSearchRequest,
    include_all_private: bool,
) -> bool {
    &&& link.tenant_id@ == tenant_id
    &&& req.owner_user_id is Some && link.owner_user_id is Some ==> link.owner_user_id->0@
        == req.owner_user_id->0@
    &&& req.owner_user_id is None && link.owner_user_id is Some ==> include_all_private
    &&& req.status@.len() > 0 ==> link.status@ == req.status@
    &&& req.relations@.len() > 0 ==> texts(req.relations@).contains(link.relation@)
    &&& req.matching_ids is Some ==> texts(req.matching_ids->0@).contains(link.id@)
    &&& req.uri is Some ==> {
        let from = link.source_uri@ == link_uri(req.uri->0@);
        let to = link.target_uri@ == link_uri(req.uri->0@);
        &&& from || to
        &&& req.direction@ == "outbound"@ ==> from
        &&& req.direction@ == "backlinks"@ || req.direction@ == "backlink"@ ==> to
    }
}

proof fn lemma_links_are_asked_for(
    d: StoreData,
    tenant_id: Seq<char>,
    req: LinkSearchRequest,
    include_all_private: bool,
)
    ensures
        ({
            let found = limited(
                sorted_by(
                    d.links.values().filter(
                        |link: KnowledgeLink|
                            link_matches(link, tenant_id, req, include_all_private),
                    ),
                    links_latest_first(),
                ),
                req.limit as nat,
            );
            &&& forall|i: int|
                0 <= i < found.len() ==> d.links.values().contains(#[trigger] found[i])
                    && is_asked_for(found[i], tenant_id, req, include_all_private)
            &&& forall|i: int, j: int|
                0 <= i < j < found.len() ==> (#[trigger] found[i]).updated_at >= (
                #[trigger] found[j]).updated_at
            &&& forall|link: KnowledgeLink| #[trigger]
                d.links.values().contains(link) && is_asked_for(
                    link,
                    tenant_id,
                    req,
                    include_all_private,
                ) && found.len() < req.limit ==> found.contains(link)
        }),
{
    let p = |link: KnowledgeLink| link_matches(link, tenant_id, req, include_all_private);
    let lt = links_latest_first();
    let found = limited(sorted_by(d.links.values().filter(p), lt), req.limit as nat);
    reveal_strlit("outbound");
    reveal_strlit("backlinks");
    reveal_strlit("backlink");
    assert("outbound"@[0] != "backlinks"@[0]);
    assert("outbound"@[0] != "backlink"@[0]);
    assert(strict_order(lt));
    what_is_chosen(d.links.values(), p, lt, req.limit as nat);
    assert forall|i: int| 0 <= i < found.len() implies d.links.values().contains(
        #[trigger] found[i],
    ) && is_asked_for(found[i], tenant_id, req, include_all_private) by {
        assert(p(found[i]));
    }
    assert forall|i: int, j: int| 0 <= i < j < found.len() implies (#[trigger] found[i]).updated_at
        >= (#[trigger] found[j]).updated_at by {
        assert(!lt(found[j], found[i]));
    }
    assert forall|link: KnowledgeLink| #[trigger]
        d.links.values().contains(link) && is_asked_for(link, tenant_id, req, include_all_private)
            && found.len() < req.limit implies found.contains(link) by {
        assert(p(link));
    }
}

/// The links of a tenant that are searched for, the one that was changed last first; those of an
/// entry also by direction.
pub fn search_links(
    data: &StoreData,
    tenant_id: &str,
    req: &LinkSearchRequest,
    include_all_private: bool,
) -> (r: LinkSearchResponse)
    ensures
        r.links@ == limited(
            sorted_by(
                data.links.values().filter(
                    |link: KnowledgeLink| link_matches(link, tenant_id@, *req, include_all_private),
                ),
                links_latest_first(),
            ),
            req.limit as nat,
        ),
        match asked_uri(*req) {
            Some(uri) => {
                &&& r.outbound@ == sorted_by(
                    r.links@.filter(starts_at(uri)),
                    links_latest_first(),
                )
                &&& r.backlinks@ == sorted_by(
                    r.links@.filter(ends_at(uri)),
                    links_latest_first(),
                )
            },
            None => r.outbound@.len() == 0 && r.backlinks@.len() == 0,
        },
        forall|i: int|
            0 <= i < r.links@.len() ==> data.links.values().contains(#[trigger] r.links@[i])
                && is_asked_for(r.links@[i], tenant_id@, *req, include_all_private),
        forall|i: int, j: int|
            0 <= i < j < r.links@.len() ==> (#[trigger] r.links@[i]).updated_at >= (
            #[trigger] r.links@[j]).updated_at,
        forall|link: KnowledgeLink| #[trigger]
            data.links.values().contains(link) && is_asked_for(
                link,
                tenant_id@,
                *req,
                include_all_private,
            ) && r.links@.len() < req.limit ==> r.links@.contains(link),
        forall|link: KnowledgeLink|
            #![trigger r.outbound@.contains(link)]
            req.uri is Some ==> (r.outbound@.contains(link) <==> r.links@.contains(link)
                && link.source_uri@ == link_uri(req.uri->0@)),
        forall|link: KnowledgeLink|
            #![trigger r.backlinks@.contains(link)]
            req.uri is Some ==> (r.backlinks@.contains(link) <==> r.links@.contains(link)
                && link.target_uri@ == link_uri(req.uri->0@)),
{
    let uri: Option<String> = match &req.uri {
        Some(u) => Some(canonical_link_uri(u.as_str())),
        None => None,
    };
    let ghost p = |link: KnowledgeLink| link_matches(link, tenant_id@, *req, include_all_private);
    let accept = |link: &KnowledgeLink| -> (b: bool)
        ensures
            b == p(*link),
        { check_link_matches(link, tenant_id, req, &uri, include_all_private) };
    let found: Vec<KnowledgeLink> = select_values(&data.links, accept, Ghost(p));
    let mut links: Vec<KnowledgeLink> = sort_links(found);
    limit_to(&mut links, req.limit);
    proof {
        lemma_links_are_asked_for(*data, tenant_id@, *req, include_all_private);
    }
    match &uri {
        Some(u) => {
            let ghost s = starts_at(u@);
            let starts = |link: &KnowledgeLink| -> (b: bool)
                ensures
                    b == s(*link),
                { text_eq(link.source_uri.as_str(), u.as_str()) };
            let ghost e = ends_at(u@);
            let ends = |link: &KnowledgeLink| -> (b: bool)
                ensures
                    b == e(*link),
                { text_eq(link.target_uri.as_str(), u.as_str()) };
            let outbound: Vec<KnowledgeLink> = sort_links(select(&links, starts, Ghost(s)));
            let backlinks: Vec<KnowledgeLink> = sort_links(select(&links, ends, Ghost(e)));
            proof {
                let lt = links_latest_first();
                assert forall|link: KnowledgeLink| #[trigger]
                    outbound@.contains(link) <==> links@.contains(link) && link.source_uri@
                        == u@ by {
                    sorting_keeps_members(links@.filter(s), lt, link);
                    a_filter_keeps_what_it_accepts(links@, s, link);
                }
                assert forall|link: KnowledgeLink| #[trigger]
                    backlinks@.contains(link) <==> links@.contains(link) && link.target_uri@
                        == u@ by {
                    sorting_keeps_members(links@.filter(e), lt, link);
                    a_filter_keeps_what_it_accepts(links@, e, link);
                }
            }
            LinkSearchResponse { links, outbound, backlinks }
        },
        None => LinkSearchResponse { links, outbound: Vec::new(), backlinks: Vec::new() },
    }
}

/// A search for links shows a caller no private link of another owner.
pub proof fn links_of_others_are_not_found(
    link: KnowledgeLink,
    tenant_id: Seq<char>,
    req: LinkSearchRequest,
)
    requires
        link_matches(link, tenant_id, req, false),
    ensures
        link.tenant_id@ == tenant_id,
        link.owner_user_id is None || opt_text(link.owner_user_id) == opt_text(req.owner_user_id),
{
}

} // verus!
