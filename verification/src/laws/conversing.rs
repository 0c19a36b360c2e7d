//! What happens to a session: how it begins, what a message adds to it, and how it ends.

use vstd::prelude::*;

use crate::data::StoreData;
use crate::error::ApiError;
use crate::model::knowledge::SessionRecord;
use crate::resolver::EventIndexResolver;
use crate::sessions::{
    archive_uri, commit_result, is_new_session, message_added, message_result, session_closed,
    MessageResponse, SessionCommitResponse,
};
use crate::text::texts;

verus! {

/// A session begins with its owner, its title, no message, and open.
pub proof fn a_session_begins_as_asked(
    s: SessionRecord,
    id: Seq<char>,
    tenant_id: Seq<char>,
    owner: Seq<char>,
    title: Option<Seq<char>>,
    now: i64,
)
    requires
        is_new_session(s, id, tenant_id, owner, title, now),
    ensures
        s.id@ == id,
        s.tenant_id@ == tenant_id,
        s.owner_user_id@ == owner,
        title is Some ==> s.title@ == title->0,
        s.status@ == "active"@,
        s.messages@ =~= Seq::empty(),
        s.created_at == now,
{
}

/// A message without an event in the history is answered with the session's id and changes nothing
/// but the session, which has one message more.
pub proof fn a_message_without_an_event_changes_its_session_only(
    before: StoreData,
    after: StoreData,
    r: Result<MessageResponse, ApiError>,
    resolver: EventIndexResolver,
    tenant_id: Seq<char>,
    session_id: Seq<char>,
    role: Seq<char>,
    content: Seq<char>,
    secrets: Seq<Seq<char>>,
    event_id: Seq<char>,
    job_id: Seq<char>,
    now: i64,
)
    requires
        message_result(
            before,
            after,
            r,
            resolver,
            tenant_id,
            session_id,
            role,
            content,
            false,
            secrets,
            event_id,
            job_id,
            now,
        ),
    ensures
        r is Ok,
        r->Ok_0.session_id@ == session_id,
        r->Ok_0.history_event_id is None,
        after == (StoreData { sessions: after.sessions, ..before }),
        after.sessions@[session_id].messages@.len() == before.sessions@[session_id].messages@.len()
            + 1,
        forall|i: int|
            0 <= i < before.sessions@[session_id].messages@.len()
                ==> #[trigger] after.sessions@[session_id].messages@[i]
                == before.sessions@[session_id].messages@[i],
        forall|other: Seq<char>|
            other != session_id ==> (after.sessions@.dom().contains(other)
                <==> #[trigger] before.sessions@.dom().contains(other)),
        forall|other: Seq<char>|
            other != session_id && #[trigger] before.sessions@.dom().contains(other)
                ==> after.sessions@[other] == before.sessions@[other],
{
    let mid = choose|mid: StoreData| #[trigger]
        message_added(before, mid, session_id, role, content, now) && after == mid;
    let s = before.sessions@[session_id];
    let t = after.sessions@[session_id];
    assert forall|i: int| 0 <= i < s.messages@.len() implies #[trigger] t.messages@[i]
        == s.messages@[i] by {
        assert(t.messages@.drop_last()[i] == s.messages@[i]);
    }
}

/// A message with an event in the history is answered, where it is answered well, with the id of
/// that event; the session itself is told in either case.
pub proof fn a_message_with_an_event_tells_it(
    before: StoreData,
    after: StoreData,
    r: Result<MessageResponse, ApiError>,
    resolver: EventIndexResolver,
    tenant_id: Seq<char>,
    session_id: Seq<char>,
    role: Seq<char>,
    content: Seq<char>,
    secrets: Seq<Seq<char>>,
    event_id: Seq<char>,
    job_id: Seq<char>,
    now: i64,
)
    requires
        message_result(
            before,
            after,
            r,
            resolver,
            tenant_id,
            session_id,
            role,
            content,
            true,
            secrets,
            event_id,
            job_id,
            now,
        ),
        r is Ok,
    ensures
        r->Ok_0.session_id@ == session_id,
        r->Ok_0.history_event_id is Some,
{
}

/// A session that is committed is answered with its id, the address of its archive exactly where
/// one was asked for, one event, and a candidate for an insight exactly where one was asked for.
pub proof fn a_commit_tells_what_it_made(
    before: StoreData,
    after: StoreData,
    r: Result<SessionCommitResponse, ApiError>,
    resolver: EventIndexResolver,
    tenant_id: Seq<char>,
    session_id: Seq<char>,
    archive_context: bool,
    extract_insights: bool,
    secrets: Seq<Seq<char>>,
    event_id: Seq<char>,
    job_id: Seq<char>,
    candidate_id: Seq<char>,
    now: i64,
)
    requires
        commit_result(
            before,
            after,
            r,
            resolver,
            tenant_id,
            session_id,
            archive_context,
            extract_insights,
            secrets,
            event_id,
            job_id,
            candidate_id,
            now,
        ),
        r is Ok,
    ensures
        r->Ok_0.session_id@ == session_id,
        r->Ok_0.archive_uri is Some <==> archive_context,
        archive_context ==> r->Ok_0.archive_uri->0@ == archive_uri(session_id),
        r->Ok_0.history_event_ids@.len() == 1,
        extract_insights ==> r->Ok_0.insight_candidate_ids@.len() == 1
            && r->Ok_0.insight_candidate_ids@[0]@ == candidate_id,
        !extract_insights ==> r->Ok_0.insight_candidate_ids@.len() == 0,
{
    let ids = texts(r->Ok_0.history_event_ids@);
    let candidates = texts(r->Ok_0.insight_candidate_ids@);
    assert(ids.len() == r->Ok_0.history_event_ids@.len());
    assert(candidates.len() == r->Ok_0.insight_candidate_ids@.len());
    if extract_insights {
        assert(candidates[0] == r->Ok_0.insight_candidate_ids@[0]@);
    }
}

/// A closed session is what it was but for being archived, and no other session is touched.
pub proof fn a_closed_session_is_archived(
    before: StoreData,
    after: StoreData,
    session_id: Seq<char>,
)
    requires
        session_closed(before, after, session_id),
    ensures
        after.sessions@[session_id].status@ == "archived"@,
        after.sessions@[session_id].messages@ == before.sessions@[session_id].messages@,
        after.sessions@[session_id].owner_user_id@ == before.sessions@[session_id].owner_user_id@,
        after.sessions@[session_id].title@ == before.sessions@[session_id].title@,
        forall|other: Seq<char>|
            other != session_id && #[trigger] before.sessions@.dom().contains(other)
                ==> after.sessions@.dom().contains(other) && after.sessions@[other]
                == before.sessions@[other],
{
}

} // verus!
