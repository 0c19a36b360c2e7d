//! Sessions: opening one, adding messages, and archiving it.

use vstd::prelude::*;
use vstd::string::*;

use crate::data::StoreData;
use crate::error::{fails_with, ApiError, ErrorView};
use crate::history::{
    append_internal_event, indexes_have_room, internal_result, is_internal_request, missing,
    AppendHistoryEventRequest, HistoryEventResponse, InternalEvent,
};
use crate::json::{
    is_opt_text, is_text, opt_json, rendered, rfc3339, timestamp_text, Json,
};
use crate::model::knowledge::{ContextNode, SessionRecord};
use crate::naming::{ancestor_uris, ancestors, sanitize_slug, slug};
use crate::reading::require_string;
use crate::resolver::{EventIndexResolver, EventRouting};
use crate::table::{list_at, lists, lists_replaced, take_list};
use crate::text::{opt_str, opt_text, texts};

verus! {

/// Whether `s` is a session as it is opened.
pub open spec fn is_new_session(
    s: SessionRecord,
    id: Seq<char>,
    tenant_id: Seq<char>,
    owner: Seq<char>,
    title: Option<Seq<char>>,
    now: i64,
) -> bool {
    &&& s.id@ == id
    &&& s.tenant_id@ == tenant_id
    &&& s.owner_user_id@ == owner
    &&& s.title@ == (match title {
        Some(t) => t,
        None => "Untitled session"@,
    })
    &&& s.status@ == "active"@
    &&& s.messages@.len() == 0
    &&& s.created_at == now
}

/// What is answered about a session.
pub struct SessionResponse {
    pub session_id: String,
    pub status: String,
}

/// Opens a session.
pub fn create_session(
    data: &mut StoreData,
    tenant_id: &str,
    owner_user_id: Option<&str>,
    title: Option<&str>,
    session_id: &str,
    now: i64,
) -> (r: Result<SessionResponse, ApiError>)
    ensures
        if missing(opt_str(owner_user_id)) {
            &&& *final(data) == *old(data)
            &&& fails_with(r, ErrorView::BadRequest("owner_user_id"@ + " is required"@))
        } else {
            &&& r is Ok
            &&& r->Ok_0.session_id@ == session_id@
            &&& r->Ok_0.status@ == "active"@
            &&& *final(data) == (StoreData { sessions: final(data).sessions, ..*old(data) })
            &&& final(data).sessions@.dom().contains(session_id@)
            &&& final(data).sessions@ == old(data).sessions@.insert(
                session_id@,
                final(data).sessions@[session_id@],
            )
            &&& is_new_session(
                final(data).sessions@[session_id@],
                session_id@,
                tenant_id@,
                opt_str(owner_user_id)->Some_0,
                opt_str(title),
                now,
            )
        },
{
    let owner: String = match require_string(owner_user_id, "owner_user_id") {
        Ok(owner) => owner,
        Err(error) => {
            return Err(error);
        },
    };
    let session: SessionRecord = SessionRecord {
        id: session_id.to_owned(),
        tenant_id: tenant_id.to_owned(),
        owner_user_id: owner,
        title: match title {
            Some(t) => t.to_owned(),
            None => "Untitled session".to_owned(),
        },
        status: "active".to_owned(),
        messages: std::sync::Arc::new(Vec::new()),
        created_at: now,
    };
    data.sessions.insert(session_id.to_owned(), session);
    Ok(SessionResponse { session_id: session_id.to_owned(), status: "active".to_owned() })
}

/// Whether `j` is a message of a session.
pub open spec fn is_message(j: Json, role: Seq<char>, content: Seq<char>, now: i64) -> bool {
    match j {
        Json::Object(members) => {
            &&& members@.len() == 3
            &&& members@[0].0@ == "content"@
            &&& is_text(members@[0].1, content)
            &&& members@[1].0@ == "created_at"@
            &&& is_text(members@[1].1, rfc3339(now))
            &&& members@[2].0@ == "role"@
            &&& is_text(members@[2].1, role)
        },
        _ => false,
    }
}

fn message(role: &str, content: &str, now: i64) -> (r: Json)
    ensures
        is_message(r, role@, content@, now),
{
    let mut members: Vec<(String, Json)> = Vec::new();
    members.push(("content".to_owned(), Json::Text(content.to_owned())));
    members.push(("created_at".to_owned(), Json::Text(timestamp_text(now))));
    members.push(("role".to_owned(), Json::Text(role.to_owned())));
    Json::Object(std::sync::Arc::new(members))
}

/// Whether `j` is an object of one member with a text.
pub open spec fn is_single(j: Json, name: Seq<char>, value: Option<Seq<char>>) -> bool {
    match j {
        Json::Object(members) => {
            &&& members@.len() == 1
            &&& members@[0].0@ == name
            &&& is_opt_text(members@[0].1, value)
        },
        _ => false,
    }
}

fn single(name: &str, value: Json, Ghost(text): Ghost<Option<Seq<char>>>) -> (r: Json)
    requires
        is_opt_text(value, text),
    ensures
        is_single(r, name@, text),
{
    let mut members: Vec<(String, Json)> = Vec::new();
    members.push((name.to_owned(), value));
    Json::Object(std::sync::Arc::new(members))
}

/// The state after a message was added to a session.
pub open spec fn message_added(
    before: StoreData,
    after: StoreData,
    session_id: Seq<char>,
    role: Seq<char>,
    content: Seq<char>,
    now: i64,
) -> bool {
    let s = before.sessions@[session_id];
    let t = after.sessions@[session_id];
    &&& after == (StoreData { sessions: after.sessions, ..before })
    &&& after.sessions@ == before.sessions@.insert(session_id, t)
    &&& t == (SessionRecord { messages: t.messages, ..s })
    &&& t.messages@.len() == s.messages@.len() + 1
    &&& t.messages@.drop_last() == s.messages@
    &&& is_message(t.messages@.last(), role, content, now)
}

/// What is answered about a message.
pub struct MessageResponse {
    pub session_id: String,
    pub history_event_id: Option<String>,
}

/// What adding a message leads to once it has a role, a content and a session.
pub open spec fn message_result(
    before: StoreData,
    after: StoreData,
    r: Result<MessageResponse, ApiError>,
    resolver: EventIndexResolver,
    tenant_id: Seq<char>,
    session_id: Seq<char>,
    role: Seq<char>,
    content: Seq<char>,
    write_history_event: bool,
    secrets: Seq<Seq<char>>,
    event_id: Seq<char>,
    job_id: Seq<char>,
    now: i64,
) -> bool {
    let owner = before.sessions@[session_id].owner_user_id@;
    exists|mid: StoreData|
        {
            &&& #[trigger] message_added(before, mid, session_id, role, content, now)
            &&& if write_history_event {
                exists|req: AppendHistoryEventRequest, e: Result<HistoryEventResponse, ApiError>|
                    {
                        &&& is_single(req.payload, "role"@, Some(role))
                        &&& #[trigger] is_internal_request(
                            req,
                            "session.message"@,
                            "session"@,
                            session_id,
                            content,
                            req.payload,
                            owner,
                            now,
                        )
                        &&& #[trigger] internal_result(
                            mid,
                            after,
                            e,
                            req,
                            resolver,
                            tenant_id,
                            owner,
                            secrets,
                            event_id,
                            job_id,
                            now,
                        )
                        &&& match e {
                            Ok(response) => r is Ok && r->Ok_0.session_id@ == session_id
                                && opt_text(r->Ok_0.history_event_id) == Some(response.event.id@),
                            Err(error) => r is Err && r->Err_0 == error,
                        }
                    }
            } else {
                &&& after == mid
                &&& r is Ok
                &&& r->Ok_0.session_id@ == session_id
                &&& r->Ok_0.history_event_id is None
            }
        }
}

/// Adds a message to a session and, where that is asked for, to the history of its owner.
pub fn add_session_message(
    data: &mut StoreData,
    resolver: &EventIndexResolver,
    tenant_id: &str,
    session_id: &str,
    role: Option<&str>,
    content: Option<&str>,
    write_history_event: bool,
    secrets: &Vec<String>,
    event_id: &str,
    job_id: &str,
    now: i64,
) -> (r: Result<MessageResponse, ApiError>)
    requires
        indexes_have_room(*old(data), 1),
    ensures
        if missing(opt_str(role)) {
            &&& *final(data) == *old(data)
            &&& fails_with(r, ErrorView::BadRequest("role"@ + " is required"@))
        } else if missing(opt_str(content)) {
            &&& *final(data) == *old(data)
            &&& fails_with(r, ErrorView::BadRequest("content"@ + " is required"@))
        } else if !old(data).sessions@.dom().contains(session_id@) {
            &&& *final(data) == *old(data)
            &&& fails_with(r, ErrorView::NotFound("session not found"@))
        } else {
            message_result(
                *old(data),
                *final(data),
                r,
                *resolver,
                tenant_id@,
                session_id@,
                opt_str(role)->Some_0,
                opt_str(content)->Some_0,
                write_history_event,
                texts(secrets@),
                event_id@,
                job_id@,
                now,
            )
        },
{
    let role: String = match require_string(role, "role") {
        Ok(role) => role,
        Err(error) => {
            return Err(error);
        },
    };
    let content: String = match require_string(content, "content") {
        Ok(content) => content,
        Err(error) => {
            return Err(error);
        },
    };
    let key: String = session_id.to_owned();
    let session: SessionRecord = match data.sessions.get(&key) {
        Some(session) => session.clone(),
        None => {
            return Err(ApiError::not_found("session not found"));
        },
    };
    let owner: String = session.owner_user_id.clone();
    let mut messages: Vec<Json> = crate::record::copy_all(&session.messages);
    messages.push(message(role.as_str(), content.as_str(), now));
    assert(messages@.drop_last() =~= session.messages@);
    data.sessions.insert(
        key,
        SessionRecord { messages: std::sync::Arc::new(messages), ..session },
    );
    let ghost mid = *data;
    assert(message_added(*old(data), mid, session_id@, role@, content@, now));
    if !write_history_event {
        return Ok(MessageResponse { session_id: session_id.to_owned(), history_event_id: None });
    }
    let payload: Json = single("role", Json::Text(role.clone()), Ghost(Some(role@)));
    let event: InternalEvent<'_> = InternalEvent {
        event_type: "session.message",
        entity_type: "session",
        entity_id: session_id,
        text: content.as_str(),
        payload,
    };
    match append_internal_event(
        data,
        resolver,
        tenant_id,
        owner.as_str(),
        event,
        secrets,
        event_id,
        job_id,
        now,
    ) {
        Err(error) => Err(error),
        Ok(response) => Ok(
            MessageResponse {
                session_id: session_id.to_owned(),
                history_event_id: Some(response.event.id),
            },
        ),
    }
}

/// Where the messages of a session are archived.
pub open spec fn archive_uri(session_id: Seq<char>) -> Seq<char> {
    "ctx://session/"@ + slug(session_id) + "/history/archive_0001"@
}

/// Whether `n` is the node in which the messages of a session are archived: it is read, never
/// retrieved.
pub open spec fn is_archive_node(
    n: ContextNode,
    session: SessionRecord,
    session_id: Seq<char>,
    tenant_id: Seq<char>,
    index_uid: Seq<char>,
    now: i64,
) -> bool {
    let uri = archive_uri(session_id);
    &&& n.uri@ == uri
    &&& n.title == session.title
    &&& n.layer == 2
    &&& n.body@ == rendered(Json::Array(session.messages))
    &&& n.tenant_id@ == tenant_id
    &&& n.owner_user_id == Some(session.owner_user_id)
    &&& n.index_uid@ == index_uid
    &&& n.index_kind@ == "personal"@
    &&& texts(n.ancestor_uris@) == ancestors(uri, uri.len() as int)
    &&& n.node_kind@ == "source_doc"@
    &&& n.retrieval_role@ == "none"@
    &&& !n.retrieval_enabled
    &&& n.parent_uri is None
    &&& n.source_document_uri is None
    &&& n.fragment_index is None
    &&& n.char_start is None
    &&& n.char_end is None
    &&& n.token_estimate is None
    &&& n.checksum is None
    &&& n.source_id is None
    &&& n.revision_id is None
    &&& n.block_type is None
    &&& n.page_idx is None
    &&& n.bbox is None
    &&& n.section_path@.len() == 0
    &&& n.heading_level is None
    &&& n.asset_refs@.len() == 0
    &&& n.artifact_refs@.len() == 0
    &&& n.status@ == "active"@
    &&& n.privacy@ == "private"@
    &&& n.updated_at == now
}

/// The state after a session was closed.
pub open spec fn session_closed(before: StoreData, after: StoreData, session_id: Seq<char>) -> bool {
    let s = before.sessions@[session_id];
    let t = after.sessions@[session_id];
    &&& after == (StoreData { sessions: after.sessions, ..before })
    &&& after.sessions@ == before.sessions@.insert(session_id, t)
    &&& t == (SessionRecord { status: t.status, ..s })
    &&& t.status@ == "archived"@
}

/// The state after the messages of a session were archived.
pub open spec fn session_archived(
    before: StoreData,
    after: StoreData,
    resolver: EventIndexResolver,
    tenant_id: Seq<char>,
    session_id: Seq<char>,
    now: i64,
) -> bool {
    let session = before.sessions@[session_id];
    let uid = resolver.context_of(tenant_id, session.owner_user_id@);
    let nodes = list_at(lists(before.personal_context@), uid);
    let added = lists(after.personal_context@)[uid];
    &&& after == (StoreData { personal_context: after.personal_context, ..before })
    &&& lists(after.personal_context@) == lists(before.personal_context@).insert(uid, added)
    &&& added.len() == nodes.len() + 1
    &&& added.drop_last() == nodes
    &&& is_archive_node(added.last(), session, session_id, tenant_id, uid, now)
}

/// What is answered about a session that was closed.
pub struct SessionCommitResponse {
    pub session_id: String,
    pub archive_uri: Option<String>,
    pub history_event_ids: Vec<String>,
    pub insight_candidate_ids: Vec<String>,
}

fn archive_session(
    data: &mut StoreData,
    resolver: &EventIndexResolver,
    tenant_id: &str,
    session_id: &str,
    session: &SessionRecord,
    now: i64,
) -> (r: String)
    requires
        old(data).sessions@.dom().contains(session_id@),
        old(data).sessions@[session_id@] == *session,
    ensures
        r@ == archive_uri(session_id@),
        session_archived(*old(data), *final(data), *resolver, tenant_id@, session_id@, now),
{
    let routing: EventRouting = resolver.resolve(tenant_id, session.owner_user_id.as_str());
    let mut uri: String = "ctx://session/".to_owned();
    uri.append(sanitize_slug(session_id).as_str());
    uri.append("/history/archive_0001");
    let node: ContextNode = ContextNode {
        uri: uri.clone(),
        title: session.title.clone(),
        layer: 2,
        body: Json::Array(session.messages.clone()).render(),
        tenant_id: tenant_id.to_owned(),
        owner_user_id: Some(session.owner_user_id.clone()),
        index_uid: routing.personal_context_index_uid.clone(),
        index_kind: "personal".to_owned(),
        ancestor_uris: std::sync::Arc::new(ancestor_uris(uri.as_str())),
        node_kind: "source_doc".to_owned(),
        retrieval_role: "none".to_owned(),
        retrieval_enabled: false,
        parent_uri: None,
        source_document_uri: None,
        fragment_index: None,
        char_start: None,
        char_end: None,
        token_estimate: None,
        checksum: None,
        source_id: None,
        revision_id: None,
        block_type: None,
        page_idx: None,
        bbox: None,
        section_path: std::sync::Arc::new(Vec::new()),
        heading_level: None,
        asset_refs: std::sync::Arc::new(Vec::new()),
        artifact_refs: std::sync::Arc::new(Vec::new()),
        status: "active".to_owned(),
        privacy: "private".to_owned(),
        updated_at: now,
    };
    let ghost raw = data.personal_context@;
    let mut list: Vec<ContextNode> = take_list(
        &mut data.personal_context,
        &routing.personal_context_index_uid,
    );
    let ghost nodes = list@;
    list.push(node);
    assert(list@.drop_last() =~= nodes);
    proof {
        lists_replaced(raw, routing.personal_context_index_uid@, list);
    }
    data.personal_context.insert(routing.personal_context_index_uid, list);
    uri
}

/// What closing a session leads to.
pub open spec fn commit_result(
    before: StoreData,
    after: StoreData,
    r: Result<SessionCommitResponse, ApiError>,
    resolver: EventIndexResolver,
    tenant_id: Seq<char>,
    session_id: Seq<char>,
    archive_context: bool,
    extract_insights: bool,
    secrets: Seq<Seq<char>>,
    event_id: Seq<char>,
    job_id: Seq<char>,
    candidate_id: Seq<char>,
    now: i64,
) -> bool {
    let session = before.sessions@[session_id];
    let archived = if archive_context {
        Some(archive_uri(session_id))
    } else {
        None
    };
    exists|
        closed: StoreData,
        mid: StoreData,
        req: AppendHistoryEventRequest,
        e: Result<HistoryEventResponse, ApiError>,
    |
        {
            &&& #[trigger] session_closed(before, closed, session_id)
            &&& if archive_context {
                session_archived(closed, mid, resolver, tenant_id, session_id, now)
            } else {
                mid == closed
            }
            &&& is_single(req.payload, "archive_uri"@, archived)
            &&& is_internal_request(
                req,
                "session.committed"@,
                "session"@,
                session_id,
                "Session "@ + session.title@ + " committed"@,
                req.payload,
                session.owner_user_id@,
                now,
            )
            &&& #[trigger] internal_result(
                mid,
                after,
                e,
                req,
                resolver,
                tenant_id,
                session.owner_user_id@,
                secrets,
                event_id,
                job_id,
                now,
            )
            &&& match e {
                Err(error) => r is Err && r->Err_0 == error,
                Ok(response) => {
                    &&& r is Ok
                    &&& r->Ok_0.session_id@ == session_id
                    &&& opt_text(r->Ok_0.archive_uri) == archived
                    &&& texts(r->Ok_0.history_event_ids@) == seq![response.event.id@]
                    &&& texts(r->Ok_0.insight_candidate_ids@) == (if extract_insights {
                        seq![candidate_id]
                    } else {
                        Seq::empty()
                    })
                },
            }
        }
}

/// Closes a session: it is archived, its messages too where that is asked for, and the history of
/// its owner says so.
pub fn commit_session(
    data: &mut StoreData,
    resolver: &EventIndexResolver,
    tenant_id: &str,
    session_id: &str,
    archive_context: bool,
    extract_insights: bool,
    secrets: &Vec<String>,
    event_id: &str,
    job_id: &str,
    candidate_id: &str,
    now: i64,
) -> (r: Result<SessionCommitResponse, ApiError>)
    requires
        indexes_have_room(*old(data), 1),
    ensures
        if !old(data).sessions@.dom().contains(session_id@) {
            &&& *final(data) == *old(data)
            &&& fails_with(r, ErrorView::NotFound("session not found"@))
        } else {
            commit_result(
                *old(data),
                *final(data),
                r,
                *resolver,
                tenant_id@,
                session_id@,
                archive_context,
                extract_insights,
                texts(secrets@),
                event_id@,
                job_id@,
                candidate_id@,
                now,
            )
        },
{
    let key: String = session_id.to_owned();
    let mut session: SessionRecord = match data.sessions.get(&key) {
        Some(session) => session.clone(),
        None => {
            return Err(ApiError::not_found("session not found"));
        },
    };
    session.status = "archived".to_owned();
    data.sessions.insert(key, session.clone());
    let ghost closed = *data;
    assert(session_closed(*old(data), closed, session_id@));
    let archived: Option<String> = if archive_context {
        Some(archive_session(data, resolver, tenant_id, session_id, &session, now))
    } else {
        None
    };
    let ghost mid = *data;
    let payload: Json = single("archive_uri", opt_json(&archived), Ghost(opt_text(archived)));
    let mut text: String = "Session ".to_owned();
    text.append(session.title.as_str());
    text.append(" committed");
    let event: InternalEvent<'_> = InternalEvent {
        event_type: "session.committed",
        entity_type: "session",
        entity_id: session_id,
        text: text.as_str(),
        payload,
    };
    match append_internal_event(
        data,
        resolver,
        tenant_id,
        session.owner_user_id.as_str(),
        event,
        secrets,
        event_id,
        job_id,
        now,
    ) {
        Err(error) => Err(error),
        Ok(response) => {
            let mut ids: Vec<String> = Vec::new();
            ids.push(response.event.id);
            assert(texts(ids@) =~= seq![ids@[0]@]);
            let mut candidates: Vec<String> = Vec::new();
            if extract_insights {
                candidates.push(candidate_id.to_owned());
                assert(texts(candidates@) =~= seq![candidate_id@]);
            } else {
                assert(texts(candidates@) =~= Seq::<Seq<char>>::empty());
            }
            Ok(
                SessionCommitResponse {
                    session_id: session_id.to_owned(),
                    archive_uri: archived,
                    history_event_ids: ids,
                    insight_candidate_ids: candidates,
                },
            )
        },
    }
}

} // verus!
