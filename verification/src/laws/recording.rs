//! What the history and the sessions can be relied on for: what happened is written down once, in
//! the history of its owner, and a session keeps its messages.

use vstd::prelude::*;

use crate::data::StoreData;
use crate::error::ApiError;
use crate::history::{
    append_result, earlier_event, event_appended, event_context_written, event_inserted,
    event_owner, index_ensured, AppendHistoryEventRequest, HistoryEventResponse,
};
use crate::json::Json;
use crate::laws::publishing::{reads, same_but};
use crate::resolver::{EVENT_INDEX_SCHEMA_VERSION, EventIndexResolver};
use crate::sessions::{message_added, session_archived, session_closed};
use crate::table::{list_at, lists};
use crate::text::{opt_text, texts};

verus! {

/// An event that is appended says what was asked for. It is read under its id, comes last in the
/// history of its owner and changes no other history; a later request under the same
/// key finds it.
pub proof fn an_appended_event_is_as_asked(
    before: StoreData,
    after: StoreData,
    r: Result<HistoryEventResponse, ApiError>,
    resolver: EventIndexResolver,
    req: AppendHistoryEventRequest,
    path: Option<Seq<char>>,
    tenant_id: Seq<char>,
    owner: Seq<char>,
    secrets: Seq<Seq<char>>,
    event_id: Seq<char>,
    job_id: Seq<char>,
    now: i64,
    other: Seq<char>,
)
    requires
        event_owner(path, req) == Ok::<Seq<char>, crate::error::ErrorView>(owner),
        append_result(
            before,
            after,
            r,
            resolver,
            req,
            tenant_id,
            owner,
            secrets,
            event_id,
            job_id,
            now,
        ),
        r is Ok,
        !r->Ok_0.duplicate,
    ensures
        ({
            let event = r->Ok_0.event;
            let uid = resolver.events_of(tenant_id, owner);
            let had = list_at(lists(before.events_by_index@), uid);
            let has = list_at(lists(after.events_by_index@), uid);
            &&& event.id@ == event_id
            &&& event.tenant_id@ == tenant_id
            &&& event.owner_user_id@ == owner
            &&& event.event_index_uid@ == uid
            &&& opt_text(req.event_type) == Some(event.event_type@)
            &&& opt_text(req.entity_type) == Some(event.entity_type@)
            &&& opt_text(req.entity_id) == Some(event.entity_id@)
            &&& req.occurred_at == Some(event.occurred_at)
            &&& req.observed_at == Some(event.observed_at)
            &&& opt_text(req.source_kind) == Some(event.source_kind@)
            &&& req.source_ref == Some(event.source_ref)
            &&& event.text@ == (match opt_text(req.text) {
                Some(text) => text,
                None => Seq::empty(),
            })
            &&& event.payload == req.payload
            &&& event.tags == req.tags
            &&& event.privacy == req.privacy
            &&& path is Some ==> path->0 == owner
            &&& req.owner_user_id is Some ==> req.owner_user_id->0@ == owner
            &&& reads(after.event_by_id@, event_id, event)
            &&& same_but(before.event_by_id@, after.event_by_id@, event_id)
            &&& has == had.push(event)
            &&& other != uid ==> list_at(lists(after.events_by_index@), other) == list_at(
                lists(before.events_by_index@),
                other,
            )
            &&& match req.idempotency_key {
                Some(key) => {
                    let k = (uid, resolver.key_digest(key@));
                    &&& opt_text(event.idempotency_key_hash) == Some(resolver.key_digest(key@))
                    &&& reads(after.event_idempotency@, k, event.id)
                    &&& same_but(before.event_idempotency@, after.event_idempotency@, k)
                    &&& earlier_event(after, resolver, req, tenant_id, owner) == Some(event)
                },
                None => after.event_idempotency == before.event_idempotency,
            }
            &&& after.state_items == before.state_items
            &&& after.links == before.links
            &&& after.insights == before.insights
            &&& after.company_context == before.company_context
        }),
{
    let mid = choose|mid: StoreData|
        {
            &&& #[trigger] index_ensured(
                before,
                mid,
                resolver,
                tenant_id,
                owner,
                EVENT_INDEX_SCHEMA_VERSION,
                now,
            )
            &&& match earlier_event(mid, resolver, req, tenant_id, owner) {
                Some(event) => if crate::history::same_request(event, req, tenant_id, owner) {
                    &&& after == mid
                    &&& r is Ok
                    &&& r->Ok_0.event == event
                    &&& r->Ok_0.duplicate
                    &&& r->Ok_0.materialization_job_id is None
                    &&& resolver.routes(r->Ok_0.routing, tenant_id, owner)
                } else {
                    after == mid && crate::error::fails_with(r, crate::history::key_conflict())
                },
                None => {
                    &&& r is Ok
                    &&& crate::history::is_requested_event(
                        r->Ok_0.event,
                        req,
                        resolver,
                        tenant_id,
                        owner,
                        event_id,
                    )
                    &&& !r->Ok_0.duplicate
                    &&& opt_text(r->Ok_0.materialization_job_id) == Some(job_id)
                    &&& resolver.routes(r->Ok_0.routing, tenant_id, owner)
                    &&& event_appended(
                        mid,
                        after,
                        r->Ok_0.event,
                        resolver.context_of(tenant_id, owner),
                        secrets,
                        now,
                    )
                },
            }
        };
    let event = r->Ok_0.event;
    let put = choose|put: StoreData|
        #[trigger] event_inserted(mid, put, event) && event_context_written(
            put,
            after,
            event,
            resolver.context_of(tenant_id, owner),
            secrets,
            now,
        );
    let uid = resolver.events_of(tenant_id, owner);
    assert(list_at(lists(mid.events_by_index@), uid) == list_at(lists(before.events_by_index@), uid));
}

/// A request to append an event that was made before under its key is answered with that event and
/// appends none; another request under the same key is refused.
pub proof fn an_event_is_not_appended_twice(
    before: StoreData,
    after: StoreData,
    r: Result<HistoryEventResponse, ApiError>,
    resolver: EventIndexResolver,
    req: AppendHistoryEventRequest,
    tenant_id: Seq<char>,
    owner: Seq<char>,
    secrets: Seq<Seq<char>>,
    event_id: Seq<char>,
    job_id: Seq<char>,
    now: i64,
)
    requires
        append_result(
            before,
            after,
            r,
            resolver,
            req,
            tenant_id,
            owner,
            secrets,
            event_id,
            job_id,
            now,
        ),
        earlier_event(before, resolver, req, tenant_id, owner) is Some,
    ensures
        after.event_by_id == before.event_by_id,
        after.event_idempotency == before.event_idempotency,
        list_at(lists(after.events_by_index@), resolver.events_of(tenant_id, owner)) == list_at(
            lists(before.events_by_index@),
            resolver.events_of(tenant_id, owner),
        ),
        r is Ok ==> {
            let event = earlier_event(before, resolver, req, tenant_id, owner)->0;
            &&& r->Ok_0.duplicate
            &&& r->Ok_0.event == event
            &&& event.event_type@ == req.event_type->0@
            &&& event.entity_type@ == req.entity_type->0@
            &&& event.entity_id@ == req.entity_id->0@
            &&& Some(event.occurred_at) == req.occurred_at
            &&& Some(event.observed_at) == req.observed_at
            &&& event.privacy@ == req.privacy@
            &&& texts(event.tags@) == texts(req.tags@)
            &&& event.tenant_id@ == tenant_id
            &&& event.owner_user_id@ == owner
        },
        r is Err ==> r->Err_0 is Conflict,
{
}

/// A message that is added to a session comes last in it, with its role and content, and everything
/// that the session had stays; no other session is touched.
pub proof fn an_added_message_comes_last(
    before: StoreData,
    after: StoreData,
    session_id: Seq<char>,
    role: Seq<char>,
    content: Seq<char>,
    now: i64,
    i: int,
)
    requires
        message_added(before, after, session_id, role, content, now),
    ensures
        ({
            let s = before.sessions@[session_id];
            let t = after.sessions@[session_id];
            &&& t.messages@.len() == s.messages@.len() + 1
            &&& 0 <= i < s.messages@.len() ==> t.messages@[i] == s.messages@[i]
            &&& message_says(t.messages@[s.messages@.len() as int], "content"@, content)
            &&& message_says(t.messages@[s.messages@.len() as int], "role"@, role)
            &&& t.id == s.id
            &&& t.tenant_id == s.tenant_id
            &&& t.owner_user_id == s.owner_user_id
            &&& t.title == s.title
            &&& t.status == s.status
            &&& t.created_at == s.created_at
            &&& same_but(before.sessions@, after.sessions@, session_id)
            &&& after.events_by_index == before.events_by_index
        }),
{
    let s = before.sessions@[session_id];
    let t = after.sessions@[session_id];
    if 0 <= i < s.messages@.len() {
        assert(t.messages@.drop_last()[i] == s.messages@[i]);
    }
    let last = t.messages@[s.messages@.len() as int];
    assert(last == t.messages@.last());
    match last {
        Json::Object(members) => {
            assert(crate::json::is_text(members@[0].1, content));
            assert(crate::json::is_text(members@[2].1, role));
        },
        _ => {},
    }
}

/// Whether a message has a text under a name.
pub open spec fn message_says(message: Json, name: Seq<char>, text: Seq<char>) -> bool {
    match message {
        Json::Object(members) => exists|i: int|
            0 <= i < members@.len() && members@[i].0@ == name && match (#[trigger] members@[i]).1 {
                Json::Text(s) => s@ == text,
                _ => false,
            },
        _ => false,
    }
}

/// A session that is committed is archived and keeps its messages; no other session is touched.
pub proof fn a_closed_session_keeps_its_messages(
    before: StoreData,
    after: StoreData,
    session_id: Seq<char>,
)
    requires
        session_closed(before, after, session_id),
    ensures
        after.sessions@[session_id].status@ == "archived"@,
        after.sessions@[session_id].messages == before.sessions@[session_id].messages,
        after.sessions@[session_id].owner_user_id == before.sessions@[session_id].owner_user_id,
        after.sessions@[session_id].title == before.sessions@[session_id].title,
        same_but(before.sessions@, after.sessions@, session_id),
{
}

/// The archive of a session stands last in the context of its owner, with all messages, is private
/// and is never retrieved; what stood there before stays.
pub proof fn an_archive_belongs_to_its_owner(
    before: StoreData,
    after: StoreData,
    resolver: EventIndexResolver,
    tenant_id: Seq<char>,
    session_id: Seq<char>,
    now: i64,
    i: int,
    other: Seq<char>,
)
    requires
        session_archived(before, after, resolver, tenant_id, session_id, now),
    ensures
        ({
            let session = before.sessions@[session_id];
            let uid = resolver.context_of(tenant_id, session.owner_user_id@);
            let had = list_at(lists(before.personal_context@), uid);
            let has = list_at(lists(after.personal_context@), uid);
            let node = has[had.len() as int];
            &&& has.len() == had.len() + 1
            &&& 0 <= i < had.len() ==> has[i] == had[i]
            &&& opt_text(node.owner_user_id) == Some(session.owner_user_id@)
            &&& node.tenant_id@ == tenant_id
            &&& node.title@ == session.title@
            &&& node.body@ == crate::json::rendered(Json::Array(session.messages))
            &&& node.privacy@ == "private"@
            &&& !node.retrieval_enabled
            &&& !crate::nodes::is_candidate(node)
            &&& other != uid ==> list_at(lists(after.personal_context@), other) == list_at(
                lists(before.personal_context@),
                other,
            )
            &&& after.sessions == before.sessions
            &&& after.company_context == before.company_context
        }),
{
    let session = before.sessions@[session_id];
    let uid = resolver.context_of(tenant_id, session.owner_user_id@);
    let had = list_at(lists(before.personal_context@), uid);
    let has = list_at(lists(after.personal_context@), uid);
    if 0 <= i < had.len() {
        assert(has.drop_last()[i] == had[i]);
    }
    assert(has[had.len() as int] == has.last());
}

} // verus!
