//! Finding events again, appending many, and bringing the indexes of owners up to date.

use vstd::prelude::*;
use vstd::string::*;

use crate::data::StoreData;
use crate::error::{fails_with, ApiError, ErrorView};
use crate::grouping::{lists_values, sorted_values};
use crate::history::{
    append_event, append_result, chosen_owner, ensure_user_index_entry, event_appended,
    event_context_written, event_inserted, event_owner, gives_text, index_ensured, index_key,
    index_place, indexes_by_age, indexes_have_room, internal_result, is_internal_request,
    nodes_put, noted, owner_from_path_or_body, validate_append_event_request,
    AppendHistoryEventRequest, HistoryEventResponse, NoteView, StampView,
};
use crate::json::is_object_of;
use crate::laws::choosing::{
    sorting_keeps_members, what_is_accepted_is_chosen, what_is_chosen_is_accepted,
    what_is_chosen_is_in_order,
};
use crate::merge::{insert_rows, inserted_all};
use crate::model::knowledge::{ContextNode, HistoryEvent, UserEventIndex};
use crate::naming::{index_id, user_event_index_id};
use crate::order::{any_where, find_where, sort_by, sorted_by, sorted_by_is_in_order, strict_order};
use crate::reading::first_of;
use crate::record::select;
use crate::resolver::{
    EventIndexResolver, EventRouting, EVENT_INDEX_SCHEMA_VERSION, EVENT_SETTINGS_HASH,
};
use crate::table::{list_at, lists, Table};
use crate::text::{
    as_deref, opt_str, opt_text, text_before, text_eq, text_lt, text_lt_irreflexive,
    text_lt_total, text_lt_transitive, texts, texts_contain, texts_push,
};

verus! {

/// Which events are searched for.
pub struct HistorySearchRequest {
    pub owner_user_id: Option<String>,
    pub event_types: Vec<String>,
    pub entity_type: Option<String>,
    pub entity_id: Option<String>,
    pub from: Option<i64>,
    pub to: Option<i64>,
    pub limit: usize,
    /// The ids of the events whose text matches the query, where there is one.
    pub matching_ids: Option<Vec<String>>,
}

/// Whether an event is searched for.
pub open spec fn event_matches(event: HistoryEvent, req: HistorySearchRequest) -> bool {
    &&& req.event_types@.len() == 0 || texts(req.event_types@).contains(event.event_type@)
    &&& req.entity_type is None || opt_text(req.entity_type) == Some(event.entity_type@)
    &&& req.entity_id is None || opt_text(req.entity_id) == Some(event.entity_id@)
    &&& req.from is None || event.occurred_at >= req.from->Some_0
    &&& req.to is None || event.occurred_at <= req.to->Some_0
    &&& req.matching_ids is None || texts(req.matching_ids->Some_0@).contains(event.id@)
}

fn check_event_matches(event: &HistoryEvent, req: &HistorySearchRequest) -> (r: bool)
    ensures
        r == event_matches(*event, *req),
{
    (req.event_types.len() == 0 || texts_contain(&req.event_types, event.event_type.as_str()))
        && match &req.entity_type {
        Some(v) => text_eq(v.as_str(), event.entity_type.as_str()),
        None => true,
    } && match &req.entity_id {
        Some(v) => text_eq(v.as_str(), event.entity_id.as_str()),
        None => true,
    } && match req.from {
        Some(from) => event.occurred_at >= from,
        None => true,
    } && match req.to {
        Some(to) => event.occurred_at <= to,
        None => true,
    } && match &req.matching_ids {
        Some(ids) => texts_contain(ids, event.id.as_str()),
        None => true,
    }
}

/// The order of events with the latest first.
pub open spec fn latest_first() -> spec_fn(HistoryEvent, HistoryEvent) -> bool {
    |a: HistoryEvent, b: HistoryEvent| a.occurred_at > b.occurred_at
}

/// The order of events with the earliest first.
pub open spec fn earliest_first() -> spec_fn(HistoryEvent, HistoryEvent) -> bool {
    |a: HistoryEvent, b: HistoryEvent| a.occurred_at < b.occurred_at
}

/// The first `limit` elements, but at least one.
pub open spec fn limited<T>(s: Seq<T>, limit: nat) -> Seq<T> {
    let n = if limit == 0 {
        1
    } else {
        limit
    };
    if s.len() <= n {
        s
    } else {
        s.take(n as int)
    }
}

/// Keeps the first `limit` elements, but at least one.
pub fn limit_to<T>(v: &mut Vec<T>, limit: usize)
    ensures
        final(v)@ == limited(old(v)@, limit as nat),
{
    let n: usize = if limit == 0 {
        1
    } else {
        limit
    };
    if v.len() > n {
        v.truncate(n);
        assert(v@ =~= old(v)@.take(n as int));
    }
}

/// The events of an owner that are searched for, the latest first.
pub open spec fn found_events(
    d: StoreData,
    resolver: EventIndexResolver,
    tenant_id: Seq<char>,
    owner: Seq<char>,
    req: HistorySearchRequest,
) -> Seq<HistoryEvent> {
    limited(
        sorted_by(
            list_at(lists(d.events_by_index@), resolver.events_of(tenant_id, owner)).filter(
                |event: HistoryEvent| event_matches(event, req),
            ),
            latest_first(),
        ),
        req.limit as nat,
    )
}

/// What a search for events is answered.
pub struct HistorySearchResponse {
    pub hits: Vec<HistoryEvent>,
    pub routing: EventRouting,
}

/// Searches the history of an owner.
pub fn search_events(
    data: &StoreData,
    resolver: &EventIndexResolver,
    tenant_id: &str,
    path_owner_user_id: Option<&str>,
    req: &HistorySearchRequest,
) -> (r: Result<HistorySearchResponse, ApiError>)
    ensures
        match chosen_owner(opt_str(path_owner_user_id), opt_text(req.owner_user_id)) {
            Err(e) => fails_with(r, e),
            Ok(owner) => {
                &&& r is Ok
                &&& r->Ok_0.hits@ == found_events(*data, *resolver, tenant_id@, owner, *req)
                &&& resolver.routes(r->Ok_0.routing, tenant_id@, owner)
                &&& forall|i: int|
                    0 <= i < r->Ok_0.hits@.len() && req.from is Some ==> (
                    #[trigger] r->Ok_0.hits@[i]).occurred_at >= req.from->0
                &&& forall|i: int|
                    0 <= i < r->Ok_0.hits@.len() && req.to is Some ==> (
                    #[trigger] r->Ok_0.hits@[i]).occurred_at <= req.to->0
                &&& forall|i: int|
                    0 <= i < r->Ok_0.hits@.len() && req.entity_type is Some ==> (
                    #[trigger] r->Ok_0.hits@[i]).entity_type@ == req.entity_type->0@
                &&& forall|i: int|
                    0 <= i < r->Ok_0.hits@.len() && req.entity_id is Some ==> (
                    #[trigger] r->Ok_0.hits@[i]).entity_id@ == req.entity_id->0@
                &&& forall|i: int|
                    0 <= i < r->Ok_0.hits@.len() && req.event_types@.len() > 0 ==> texts(
                        req.event_types@,
                    ).contains((#[trigger] r->Ok_0.hits@[i]).event_type@)
                &&& forall|i: int, j: int|
                    0 <= i < j < r->Ok_0.hits@.len() ==> (
                    #[trigger] r->Ok_0.hits@[i]).occurred_at >= (
                    #[trigger] r->Ok_0.hits@[j]).occurred_at
                &&& forall|event: HistoryEvent| #[trigger]
                    list_at(
                        lists(data.events_by_index@),
                        resolver.events_of(tenant_id@, owner),
                    ).contains(event) && r->Ok_0.hits@.len() < req.limit && (req.from is None
                        || event.occurred_at >= req.from->0) && (req.to is None
                        || event.occurred_at <= req.to->0) && (req.entity_type is None
                        || req.entity_type->0@ == event.entity_type@) && (req.entity_id is None
                        || req.entity_id->0@ == event.entity_id@) && (req.event_types@.len() == 0
                        || texts(req.event_types@).contains(event.event_type@))
                        && req.matching_ids is None ==> r->Ok_0.hits@.contains(event)
            },
        },
{
    let owner: String = match owner_from_path_or_body(
        path_owner_user_id,
        as_deref(&req.owner_user_id),
    ) {
        Ok(owner) => owner,
        Err(error) => {
            return Err(error);
        },
    };
    let routing: EventRouting = resolver.resolve(tenant_id, owner.as_str());
    let ghost p = |event: HistoryEvent| event_matches(event, *req);
    let accept = |event: &HistoryEvent| -> (b: bool)
        ensures
            b == p(*event),
        { check_event_matches(event, req) };
    let found: Vec<HistoryEvent> = match data.events_by_index.get(&routing.event_index_uid) {
        Some(events) => select(events, accept, Ghost(p)),
        None => {
            assert(Seq::<HistoryEvent>::empty().filter(p) =~= Seq::empty()) by {
                reveal(Seq::filter);
            }
            Vec::new()
        },
    };
    let ghost lt = latest_first();
    let later = |a: &HistoryEvent, b: &HistoryEvent| -> (c: bool)
        ensures
            c == lt(*a, *b),
        { a.occurred_at > b.occurred_at };
    let mut hits: Vec<HistoryEvent> = sort_by(found, later, Ghost(lt));
    limit_to(&mut hits, req.limit);
    proof {
        lemma_hits_are_asked_for(*data, *resolver, tenant_id@, owner@, *req);
    }
    Ok(HistorySearchResponse { hits, routing })
}

proof fn lemma_hits_are_asked_for(
    d: StoreData,
    resolver: EventIndexResolver,
    tenant_id: Seq<char>,
    owner: Seq<char>,
    req: HistorySearchRequest,
)
    ensures
        ({
            let found = found_events(d, resolver, tenant_id, owner, req);
            let all = list_at(lists(d.events_by_index@), resolver.events_of(tenant_id, owner));
            &&& forall|i: int|
                0 <= i < found.len() ==> event_matches(#[trigger] found[i], req) && all.contains(
                    found[i],
                )
            &&& forall|i: int, j: int|
                0 <= i < j < found.len() ==> (#[trigger] found[i]).occurred_at >= (
                #[trigger] found[j]).occurred_at
            &&& forall|event: HistoryEvent| #[trigger]
                all.contains(event) && event_matches(event, req) && found.len() < req.limit
                    ==> found.contains(event)
        }),
{
    let found = found_events(d, resolver, tenant_id, owner, req);
    let all = list_at(lists(d.events_by_index@), resolver.events_of(tenant_id, owner));
    let p = |event: HistoryEvent| event_matches(event, req);
    let lt = latest_first();
    assert(strict_order(lt));
    assert forall|i: int| 0 <= i < found.len() implies event_matches(#[trigger] found[i], req)
        && all.contains(found[i]) by {
        what_is_chosen_is_accepted(all, p, lt, req.limit as nat, i);
    }
    assert forall|i: int, j: int| 0 <= i < j < found.len() implies (#[trigger] found[i]).occurred_at
        >= (#[trigger] found[j]).occurred_at by {
        what_is_chosen_is_in_order(all, p, lt, req.limit as nat, i, j);
        assert(!lt(found[j], found[i]));
    }
    assert forall|event: HistoryEvent| #[trigger]
        all.contains(event) && event_matches(event, req) && found.len()
            < req.limit implies found.contains(event) by {
        assert(p(event));
        what_is_accepted_is_chosen(all, p, lt, req.limit as nat, event);
    }
}

/// Whether an event comes before another in a merged answer: the later one, then the one with the
/// greater id.
pub open spec fn merged_lt(a: HistoryEvent, b: HistoryEvent) -> bool {
    a.occurred_at > b.occurred_at || (a.occurred_at == b.occurred_at && text_lt(b.id@, a.id@))
}

/// The order of a merged answer.
pub open spec fn merged_order() -> spec_fn(HistoryEvent, HistoryEvent) -> bool {
    |a: HistoryEvent, b: HistoryEvent| merged_lt(a, b)
}

/// The order of a merged answer is strict.
pub proof fn merged_order_is_strict()
    ensures
        strict_order(merged_order()),
{
    let lt = merged_order();
    assert forall|a: HistoryEvent, b: HistoryEvent| lt(a, b) implies !#[trigger] lt(b, a) by {
        text_lt_irreflexive(a.id@);
        if text_lt(b.id@, a.id@) && text_lt(a.id@, b.id@) {
            text_lt_transitive(a.id@, b.id@, a.id@);
        }
    }
    assert forall|a: HistoryEvent, b: HistoryEvent, c: HistoryEvent|
        !#[trigger] lt(b, a) && !#[trigger] lt(c, b) implies !lt(c, a) by {
        if lt(c, a) {
            text_lt_total(a.id@, b.id@);
            text_lt_total(b.id@, c.id@);
            if text_lt(b.id@, a.id@) && text_lt(a.id@, c.id@) {
                text_lt_transitive(b.id@, a.id@, c.id@);
            }
            if text_lt(c.id@, b.id@) && text_lt(a.id@, c.id@) {
                text_lt_transitive(a.id@, c.id@, b.id@);
            }
        }
    }
}

/// The events that were stored, with those of the cache in the place of older copies, the latest
/// first.
pub fn merge_event_hits(
    stored: &Vec<HistoryEvent>,
    local: &Vec<HistoryEvent>,
    limit: usize,
) -> (r: Vec<HistoryEvent>)
    ensures
        exists|all: Seq<HistoryEvent>| #[trigger]
            lists_values(
                all,
                inserted_all::<String, HistoryEvent>(
                    inserted_all::<String, HistoryEvent>(Map::empty(), stored@),
                    local@,
                ),
                merged_order(),
            ) && r@ == limited(all, limit as nat),
{
    let mut by_id: Table<String, HistoryEvent> = Table::new();
    insert_rows(&mut by_id, stored);
    insert_rows(&mut by_id, local);
    let ghost lt = merged_order();
    let before = |a: &HistoryEvent, b: &HistoryEvent| -> (c: bool)
        ensures
            c == lt(*a, *b),
        {
            a.occurred_at > b.occurred_at || (a.occurred_at == b.occurred_at && text_before(
                b.id.as_str(),
                a.id.as_str(),
            ))
        };
    proof {
        merged_order_is_strict();
    }
    let mut hits: Vec<HistoryEvent> = sorted_values(&by_id, before, Ghost(lt));
    limit_to(&mut hits, limit);
    hits
}

/// An event of an owner.
pub fn get_event(
    data: &StoreData,
    resolver: &EventIndexResolver,
    tenant_id: &str,
    owner_user_id: &str,
    event_id: &str,
) -> (r: Result<HistoryEvent, ApiError>)
    ensures
        match first_of(
            list_at(lists(data.events_by_index@), resolver.events_of(tenant_id@, owner_user_id@)),
            |event: HistoryEvent| event.id@ == event_id@,
        ) {
            Some(event) => r == Ok::<HistoryEvent, ApiError>(event),
            None => fails_with(r, ErrorView::NotFound("history event not found"@)),
        },
{
    let routing: EventRouting = resolver.resolve(tenant_id, owner_user_id);
    let ghost p = |event: HistoryEvent| event.id@ == event_id@;
    let accept = |event: &HistoryEvent| -> (b: bool)
        ensures
            b == p(*event),
        { text_eq(event.id.as_str(), event_id) };
    match data.events_by_index.get(&routing.event_index_uid) {
        Some(events) => {
            let at: usize = find_where(events, accept, Ghost(p));
            if at < events.len() {
                return Ok(events[at].clone());
            }
        },
        None => {},
    }
    Err(ApiError::not_found("history event not found"))
}

/// Events put in order, the earliest first.
pub fn in_time(events: Vec<HistoryEvent>) -> (r: Vec<HistoryEvent>)
    ensures
        r@ == sorted_by(events@, earliest_first()),
{
    let ghost lt = earliest_first();
    let earlier = |a: &HistoryEvent, b: &HistoryEvent| -> (c: bool)
        ensures
            c == lt(*a, *b),
        { a.occurred_at < b.occurred_at };
    sort_by(events, earlier, Ghost(lt))
}

/// Whether `req` searches for all events of a time.
pub open spec fn is_timeline_search(
    req: HistorySearchRequest,
    from: Option<i64>,
    to: Option<i64>,
    limit: usize,
) -> bool {
    &&& req.event_types@.len() == 0
    &&& req.entity_type is None
    &&& req.entity_id is None
    &&& req.from == from
    &&& req.to == to
    &&& req.limit == limit
    &&& req.matching_ids is None
}

/// The latest events of a time, the earliest of them first.
pub fn timeline(
    data: &StoreData,
    resolver: &EventIndexResolver,
    tenant_id: &str,
    path_owner_user_id: Option<&str>,
    body_owner_user_id: Option<&str>,
    from: Option<i64>,
    to: Option<i64>,
    limit: usize,
) -> (r: Result<Vec<HistoryEvent>, ApiError>)
    ensures
        match chosen_owner(opt_str(path_owner_user_id), opt_str(body_owner_user_id)) {
            Err(e) => fails_with(r, e),
            Ok(owner) => r is Ok && exists|req: HistorySearchRequest|
                is_timeline_search(req, from, to, limit) && r->Ok_0@ == sorted_by(
                    #[trigger] found_events(*data, *resolver, tenant_id@, owner, req),
                    earliest_first(),
                ),
        },
        r is Ok && from is Some ==> forall|i: int|
            0 <= i < r->Ok_0@.len() ==> (#[trigger] r->Ok_0@[i]).occurred_at >= from->0,
        r is Ok && to is Some ==> forall|i: int|
            0 <= i < r->Ok_0@.len() ==> (#[trigger] r->Ok_0@[i]).occurred_at <= to->0,
        r is Ok ==> forall|i: int, j: int|
            0 <= i < j < r->Ok_0@.len() ==> (#[trigger] r->Ok_0@[i]).occurred_at <= (
            #[trigger] r->Ok_0@[j]).occurred_at,
        r is Ok ==> forall|event: HistoryEvent| #[trigger]
            list_at(
                lists(data.events_by_index@),
                resolver.events_of(
                    tenant_id@,
                    chosen_owner(opt_str(path_owner_user_id), opt_str(body_owner_user_id))->Ok_0,
                ),
            ).contains(event) && r->Ok_0@.len() < limit && (from is None || event.occurred_at
                >= from->0) && (to is None || event.occurred_at <= to->0) ==> r->Ok_0@.contains(
                event,
            ),
{
    let owner: String = match owner_from_path_or_body(path_owner_user_id, body_owner_user_id) {
        Ok(owner) => owner,
        Err(error) => {
            return Err(error);
        },
    };
    let req: HistorySearchRequest = HistorySearchRequest {
        owner_user_id: Some(owner),
        event_types: Vec::new(),
        entity_type: None,
        entity_id: None,
        from,
        to,
        limit,
        matching_ids: None,
    };
    match search_events(data, resolver, tenant_id, None, &req) {
        Err(error) => Err(error),
        Ok(response) => {
            let ghost hits = response.hits@;
            let events: Vec<HistoryEvent> = in_time(response.hits);
            assert(is_timeline_search(req, from, to, limit));
            proof {
                let lt = earliest_first();
                assert(strict_order(lt));
                sorted_by_is_in_order(hits, lt);
                assert forall|x: HistoryEvent| #[trigger] events@.contains(x) == hits.contains(
                    x,
                ) by {
                    sorting_keeps_members(hits, lt, x);
                }
                sorting_keeps_members(hits, lt, hits[0]);
                assert forall|i: int| 0 <= i < events@.len() implies hits.contains(
                    #[trigger] events@[i],
                ) by {
                    assert(events@.contains(events@[i]));
                }
                assert forall|i: int, j: int| 0 <= i < j < events@.len() implies (
                #[trigger] events@[i]).occurred_at <= (#[trigger] events@[j]).occurred_at by {
                    assert(!lt(events@[j], events@[i]));
                }
            }
            Ok(events)
        },
    }
}

/// The most events that one request may append.
pub const MAX_BULK_EVENTS: usize = 500;

/// Why the first of several requests that is refused is refused.
pub open spec fn first_refusal(
    owner: Seq<char>,
    events: Seq<AppendHistoryEventRequest>,
) -> Option<ErrorView>
    decreases events.len(),
{
    if events.len() == 0 {
        None
    } else {
        match first_refusal(owner, events.drop_last()) {
            Some(e) => Some(e),
            None => match crate::history::event_owner(Some(owner), events.last()) {
                Err(e) => Some(e),
                Ok(_) => None,
            },
        }
    }
}

/// Whether some request has an idempotency key of its own.
pub open spec fn some_key(events: Seq<AppendHistoryEventRequest>) -> bool {
    any_where(events, |req: AppendHistoryEventRequest| req.idempotency_key is Some)
}

/// The owner of several events, or why they are refused. A count is bounded where `bounded` says so.
pub open spec fn bulk_owner(
    path: Option<Seq<char>>,
    events: Seq<AppendHistoryEventRequest>,
    bounded: bool,
) -> Result<Seq<char>, ErrorView> {
    if events.len() == 0 {
        Err(ErrorView::BadRequest("events must not be empty"@))
    } else if bounded && events.len() > MAX_BULK_EVENTS {
        Err(ErrorView::BadRequest("events must contain at most 500 entries"@))
    } else if some_key(events) {
        Err(
            ErrorView::BadRequest(
                "events[].idempotency_key is not supported; use the batch idempotency_key"@,
            ),
        )
    } else {
        match chosen_owner(path, opt_text(events[0].owner_user_id)) {
            Err(e) => Err(e),
            Ok(owner) => match first_refusal(owner, events) {
                Some(e) => Err(e),
                None => Ok(owner),
            },
        }
    }
}

/// Checks a request to append several events and settles their owner.
pub fn validate_bulk_events(
    path_owner_user_id: Option<&str>,
    events: &Vec<AppendHistoryEventRequest>,
    bounded: bool,
) -> (r: Result<String, ApiError>)
    ensures
        gives_text(r, bulk_owner(opt_str(path_owner_user_id), events@, bounded)),
{
    if events.len() == 0 {
        return Err(ApiError::bad_request("events must not be empty"));
    }
    if bounded && events.len() > MAX_BULK_EVENTS {
        return Err(ApiError::bad_request("events must contain at most 500 entries"));
    }
    let ghost p = |req: AppendHistoryEventRequest| req.idempotency_key is Some;
    let keyed = |req: &AppendHistoryEventRequest| -> (b: bool)
        ensures
            b == p(*req),
        { req.idempotency_key.is_some() };
    let at: usize = find_where(events, keyed, Ghost(p));
    if at < events.len() {
        return Err(
            ApiError::bad_request(
                "events[].idempotency_key is not supported; use the batch idempotency_key",
            ),
        );
    }
    let owner: String = match owner_from_path_or_body(
        path_owner_user_id,
        as_deref(&events[0].owner_user_id),
    ) {
        Ok(owner) => owner,
        Err(error) => {
            return Err(error);
        },
    };
    let mut i: usize = 0;
    while i < events.len()
        invariant
            i <= events.len(),
            first_refusal(owner@, events@.take(i as int)) is None,
            events@.len() > 0,
            !(bounded && events@.len() > MAX_BULK_EVENTS),
            !some_key(events@),
            chosen_owner(opt_str(path_owner_user_id), opt_text(events@[0].owner_user_id)) == Ok::<
                Seq<char>,
                ErrorView,
            >(owner@),
        decreases events.len() - i,
    {
        assert(events@.take(i + 1).drop_last() =~= events@.take(i as int));
        match validate_append_event_request(Some(owner.as_str()), &events[i]) {
            Ok(_) => {},
            Err(error) => {
                proof {
                    lemma_refusal_stays(owner@, events@, i + 1);
                }
                return Err(error);
            },
        }
        i += 1;
    }
    assert(events@.take(i as int) =~= events@);
    Ok(owner)
}

proof fn lemma_refusal_stays(owner: Seq<char>, events: Seq<AppendHistoryEventRequest>, n: int)
    requires
        0 <= n <= events.len(),
        first_refusal(owner, events.take(n)) is Some,
    ensures
        first_refusal(owner, events) == first_refusal(owner, events.take(n)),
    decreases events.len() - n,
{
    if n == events.len() {
        assert(events.take(n) =~= events);
    } else {
        assert(events.take(n + 1).drop_last() =~= events.take(n));
        lemma_refusal_stays(owner, events, n + 1);
    }
}

/// One step of appending several events.
pub open spec fn append_step(
    states: Seq<StoreData>,
    i: int,
    events: Seq<AppendHistoryEventRequest>,
    ids: Seq<Seq<char>>,
    resolver: EventIndexResolver,
    tenant_id: Seq<char>,
    owner: Seq<char>,
    secrets: Seq<Seq<char>>,
    job_id: Seq<char>,
    now: i64,
) -> bool {
    exists|r: HistoryEventResponse| #[trigger]
        append_result(
            states[i],
            states[i + 1],
            Ok::<HistoryEventResponse, ApiError>(r),
            resolver,
            events[i],
            tenant_id,
            owner,
            secrets,
            ids[i],
            job_id,
            now,
        )
}

/// The states that a store goes through while several events are appended.
pub open spec fn appends_through(
    states: Seq<StoreData>,
    events: Seq<AppendHistoryEventRequest>,
    ids: Seq<Seq<char>>,
    resolver: EventIndexResolver,
    tenant_id: Seq<char>,
    owner: Seq<char>,
    secrets: Seq<Seq<char>>,
    job_id: Seq<char>,
    now: i64,
) -> bool {
    &&& states.len() == events.len() + 1
    &&& forall|i: int|
        0 <= i < events.len() ==> #[trigger] append_step(
            states,
            i,
            events,
            ids,
            resolver,
            tenant_id,
            owner,
            secrets,
            job_id,
            now,
        )
}

/// What appending several events leads to: each is appended after the one before.
pub open spec fn bulk_appended(
    before: StoreData,
    after: StoreData,
    events: Seq<AppendHistoryEventRequest>,
    ids: Seq<Seq<char>>,
    resolver: EventIndexResolver,
    tenant_id: Seq<char>,
    owner: Seq<char>,
    secrets: Seq<Seq<char>>,
    job_id: Seq<char>,
    now: i64,
) -> bool {
    exists|states: Seq<StoreData>|
        {
            &&& #[trigger] appends_through(
                states,
                events,
                ids,
                resolver,
                tenant_id,
                owner,
                secrets,
                job_id,
                now,
            )
            &&& states[0] == before
            &&& states[events.len() as int] == after
        }
}

/// What is answered about several events.
pub struct BulkHistoryEventsResponse {
    pub inserted: usize,
    pub duplicates: usize,
    pub event_ids: Vec<String>,
    pub routing: EventRouting,
}

proof fn lemma_not_refused(owner: Seq<char>, events: Seq<AppendHistoryEventRequest>, i: int)
    requires
        first_refusal(owner, events) is None,
        0 <= i < events.len(),
    ensures
        crate::history::event_owner(Some(owner), events[i]) == Ok::<Seq<char>, ErrorView>(owner),
    decreases events.len(),
{
    if i < events.len() - 1 {
        lemma_not_refused(owner, events.drop_last(), i);
        assert(events.drop_last()[i] == events[i]);
    } else {
        assert(events.last() == events[i]);
    }
}

pub(crate) proof fn lemma_room_after_append(
    before: StoreData,
    after: StoreData,
    r: Result<HistoryEventResponse, ApiError>,
    resolver: EventIndexResolver,
    req: AppendHistoryEventRequest,
    tenant_id: Seq<char>,
    owner: Seq<char>,
    secrets: Seq<Seq<char>>,
    event_id: Seq<char>,
    job_id: Seq<char>,
    now: i64,
    n: nat,
)
    requires
        indexes_have_room(before, n + 1),
        req.idempotency_key is None,
        append_result(
            before,
            after,
            r,
            resolver,
            req,
            tenant_id,
            owner,
            secrets,
            event_id,
            job_id,
            now,
        ),
        n < u64::MAX,
    ensures
        indexes_have_room(after, n),
        r is Ok,
        !r->Ok_0.duplicate,
        r->Ok_0.event.id@ == event_id,
{
    let mid = choose|mid: StoreData|
        {
            &&& #[trigger] index_ensured(
                before,
                mid,
                resolver,
                tenant_id,
                owner,
                EVENT_INDEX_SCHEMA_VERSION,
                now,
            )
            &&& r is Ok
            &&& !r->Ok_0.duplicate
            &&& event_appended(
                mid,
                after,
                r->Ok_0.event,
                resolver.context_of(tenant_id, owner),
                secrets,
                now,
            )
        };
    let event = r->Ok_0.event;
    let key = index_key(resolver, tenant_id, owner);
    assert forall|k: (Seq<char>, Seq<char>)| #[trigger]
        mid.user_indexes@.dom().contains(k) implies mid.user_indexes@[k].event_count_estimate + (n
        + 1) <= u64::MAX by {
        if before.user_indexes@.dom().contains(k) {
            assert(before.user_indexes@[k].event_count_estimate + (n + 1) <= u64::MAX);
        }
    }
    let inserted = choose|inserted: StoreData|
        #[trigger] event_inserted(mid, inserted, event) && event_context_written(
            inserted,
            after,
            event,
            resolver.context_of(tenant_id, owner),
            secrets,
            now,
        );
    let nodes = choose|nodes: Seq<ContextNode>|
        crate::history::are_event_nodes(
            nodes,
            event,
            resolver.context_of(tenant_id, owner),
            secrets,
            now,
        ) && #[trigger] nodes_put(
            inserted,
            after,
            resolver.context_of(tenant_id, owner),
            nodes,
        );
    assert(after.user_indexes == inserted.user_indexes);
    let rows = mid.user_indexes.rows();
    let at = index_place(mid.user_indexes.values(), event.event_index_uid@);
    if 0 <= at < rows.len() {
        let k = rows[at].0@;
        crate::table::lemma_row_of(rows, k);
        assert(mid.user_indexes@.dom().contains(k));
    }
    assert forall|k: (Seq<char>, Seq<char>)| #[trigger]
        after.user_indexes@.dom().contains(k) implies after.user_indexes@[k].event_count_estimate
        + n <= u64::MAX by {
        assert(mid.user_indexes@.dom().contains(k));
    }
}

/// Appends several events of one owner. None of them has an idempotency key, so each is new.
pub fn append_bulk_events(
    data: &mut StoreData,
    resolver: &EventIndexResolver,
    tenant_id: &str,
    path_owner_user_id: Option<&str>,
    events: &Vec<AppendHistoryEventRequest>,
    secrets: &Vec<String>,
    event_ids: &Vec<String>,
    job_id: &str,
    now: i64,
) -> (r: Result<BulkHistoryEventsResponse, ApiError>)
    requires
        event_ids@.len() == events@.len(),
        indexes_have_room(*old(data), events@.len()),
    ensures
        match bulk_owner(opt_str(path_owner_user_id), events@, false) {
            Err(e) => *final(data) == *old(data) && fails_with(r, e),
            Ok(owner) => {
                &&& r is Ok
                &&& r->Ok_0.inserted == events@.len()
                &&& r->Ok_0.duplicates == 0
                &&& texts(r->Ok_0.event_ids@) == texts(event_ids@)
                &&& resolver.routes(r->Ok_0.routing, tenant_id@, owner)
                &&& bulk_appended(
                    *old(data),
                    *final(data),
                    events@,
                    texts(event_ids@),
                    *resolver,
                    tenant_id@,
                    owner,
                    texts(secrets@),
                    job_id@,
                    now,
                )
            },
        },
{
    let owner: String = match validate_bulk_events(path_owner_user_id, events, false) {
        Ok(owner) => owner,
        Err(error) => {
            return Err(error);
        },
    };
    let mut inserted: usize = 0;
    let mut duplicates: usize = 0;
    let mut ids: Vec<String> = Vec::new();
    let ghost names = texts(event_ids@);
    let ghost mut states: Seq<StoreData> = seq![*data];
    let mut i: usize = 0;
    while i < events.len()
        invariant
            i <= events@.len() == event_ids@.len(),
            names == texts(event_ids@),
            inserted == i,
            duplicates == 0,
            !some_key(events@),
            first_refusal(owner@, events@) is None,
            indexes_have_room(*data, (events@.len() - i) as nat),
            texts(ids@) == names.take(i as int),
            states.len() == i + 1,
            states[0] == *old(data),
            states[i as int] == *data,
            forall|j: int|
                0 <= j < i ==> #[trigger] append_step(
                    states,
                    j,
                    events@,
                    names,
                    *resolver,
                    tenant_id@,
                    owner@,
                    texts(secrets@),
                    job_id@,
                    now,
                ),
        decreases events@.len() - i,
    {
        let ghost mid = *data;
        proof {
            lemma_not_refused(owner@, events@, i as int);
            let p = |req: AppendHistoryEventRequest| req.idempotency_key is Some;
            assert(!p(events@[i as int]));
            assert(names[i as int] == event_ids@[i as int]@);
            assert forall|k: (Seq<char>, Seq<char>)| #[trigger]
                mid.user_indexes@.dom().contains(k) implies mid.user_indexes@[k].event_count_estimate
                + 1 <= u64::MAX by {
                assert(mid.user_indexes@[k].event_count_estimate + (events@.len() - i) as nat
                    <= u64::MAX);
            }
        }
        let r: Result<HistoryEventResponse, ApiError> = append_event(
            data,
            resolver,
            tenant_id,
            Some(owner.as_str()),
            &events[i],
            secrets,
            event_ids[i].as_str(),
            job_id,
            now,
        );
        proof {
            lemma_room_after_append(
                mid,
                *data,
                r,
                *resolver,
                events@[i as int],
                tenant_id@,
                owner@,
                texts(secrets@),
                names[i as int],
                job_id@,
                now,
                (events@.len() - i - 1) as nat,
            );
        }
        let ghost kept = r->Ok_0;
        match r {
            Err(error) => {
                return Err(error);
            },
            Ok(response) => {
                if response.duplicate {
                    duplicates += 1;
                } else {
                    inserted += 1;
                }
                proof {
                    texts_push(ids@, response.event.id);
                    assert(names.take(i + 1) =~= names.take(i as int).push(names[i as int]));
                }
                ids.push(response.event.id);
            },
        }
        proof {
            let earlier = states;
            states = states.push(*data);
            assert(append_result(
                states[i as int],
                states[i + 1],
                Ok::<HistoryEventResponse, ApiError>(kept),
                *resolver,
                events@[i as int],
                tenant_id@,
                owner@,
                texts(secrets@),
                names[i as int],
                job_id@,
                now,
            ));
            assert forall|j: int| 0 <= j < i + 1 implies #[trigger] append_step(
                states,
                j,
                events@,
                names,
                *resolver,
                tenant_id@,
                owner@,
                texts(secrets@),
                job_id@,
                now,
            ) by {
                if j < i {
                    assert(append_step(
                        earlier,
                        j,
                        events@,
                        names,
                        *resolver,
                        tenant_id@,
                        owner@,
                        texts(secrets@),
                        job_id@,
                        now,
                    ));
                    assert(states[j] == earlier[j] && states[j + 1] == earlier[j + 1]);
                }
            }
        }
        i += 1;
    }
    assert(names.take(i as int) =~= names);
    assert(appends_through(
        states,
        events@,
        names,
        *resolver,
        tenant_id@,
        owner@,
        texts(secrets@),
        job_id@,
        now,
    ));
    Ok(
        BulkHistoryEventsResponse {
            inserted,
            duplicates,
            event_ids: ids,
            routing: resolver.resolve(tenant_id, owner.as_str()),
        },
    )
}

/// A request to bring the indexes of owners up to date.
pub struct ReconcileUserEventIndexesRequest {
    pub owner_user_ids: Vec<String>,
    pub dry_run: bool,
    pub create_missing: bool,
    pub reapply_settings: bool,
}

/// What was brought up to date.
pub struct ReconcileUserEventIndexesResponse {
    pub checked: usize,
    pub created: usize,
    pub updated_settings: usize,
    pub indexes: Vec<UserEventIndex>,
}

/// Whether `index` is what a trial shows of the index of an owner.
pub open spec fn is_trial_index(
    index: UserEventIndex,
    resolver: EventIndexResolver,
    tenant_id: Seq<char>,
    owner: Seq<char>,
    now: i64,
) -> bool {
    &&& index.id@ == index_id(resolver.tenant_digest(tenant_id), resolver.user_digest(owner))
    &&& index.tenant_id@ == tenant_id
    &&& index.tenant_hash@ == resolver.tenant_digest(tenant_id)
    &&& index.owner_user_id_hash@ == resolver.user_digest(owner)
    &&& index.event_index_uid@ == resolver.events_of(tenant_id, owner)
    &&& index.personal_context_index_uid@ == resolver.context_of(tenant_id, owner)
    &&& index.schema_version == EVENT_INDEX_SCHEMA_VERSION
    &&& index.settings_hash@ == EVENT_SETTINGS_HASH@
    &&& index.status@ == "dry_run"@
    &&& index.created_at == now
    &&& index.last_event_at is None
    &&& index.event_count_estimate == 0
}

/// The indexes under the keys of a tenant.
pub open spec fn rows_of_tenant(
    rows: Seq<((String, String), UserEventIndex)>,
    tenant_id: Seq<char>,
) -> Seq<UserEventIndex>
    decreases rows.len(),
{
    if rows.len() == 0 {
        Seq::empty()
    } else if rows.last().0.0@ == tenant_id {
        rows_of_tenant(rows.drop_last(), tenant_id).push(rows.last().1)
    } else {
        rows_of_tenant(rows.drop_last(), tenant_id)
    }
}

/// Whether `shown` shows `index`: a trial says so in the status.
pub open spec fn shows_index(shown: UserEventIndex, index: UserEventIndex, dry_run: bool) -> bool {
    if dry_run {
        shown == (UserEventIndex { status: shown.status, ..index }) && shown.status@ == "dry_run"@
    } else {
        shown == index
    }
}

/// Whether `shown` shows `indexes` one by one.
pub open spec fn shows_indexes(
    shown: Seq<UserEventIndex>,
    indexes: Seq<UserEventIndex>,
    dry_run: bool,
) -> bool {
    shown.len() == indexes.len() && forall|i: int|
        0 <= i < indexes.len() ==> shows_index(#[trigger] shown[i], indexes[i], dry_run)
}

/// How far bringing indexes up to date has come.
pub struct Reconciling {
    pub state: StoreData,
    pub indexes: Seq<UserEventIndex>,
    pub created: nat,
}

/// One step of bringing indexes up to date: an owner without an index gets one only where missing
/// ones are created.
pub open spec fn reconcile_step(
    a: Reconciling,
    b: Reconciling,
    owner: Seq<char>,
    create_missing: bool,
    resolver: EventIndexResolver,
    tenant_id: Seq<char>,
    now: i64,
) -> bool {
    let key = index_key(resolver, tenant_id, owner);
    let existed = a.state.user_indexes@.dom().contains(key);
    if create_missing || existed {
        &&& index_ensured(
            a.state,
            b.state,
            resolver,
            tenant_id,
            owner,
            EVENT_INDEX_SCHEMA_VERSION,
            now,
        )
        &&& b.indexes == a.indexes.push(b.state.user_indexes@[key])
        &&& b.created == a.created + (if existed {
            0nat
        } else {
            1nat
        })
    } else {
        b == a
    }
}

/// The steps of bringing indexes up to date.
pub open spec fn reconciles_through(
    steps: Seq<Reconciling>,
    owners: Seq<Seq<char>>,
    create_missing: bool,
    resolver: EventIndexResolver,
    tenant_id: Seq<char>,
    now: i64,
) -> bool {
    &&& steps.len() == owners.len() + 1
    &&& forall|i: int|
        #![trigger owners[i]]
        0 <= i < owners.len() ==> reconcile_step(
            steps[i],
            steps[i + 1],
            owners[i],
            create_missing,
            resolver,
            tenant_id,
            now,
        )
}

/// What bringing the indexes of owners up to date leads to, one owner after the other.
pub open spec fn indexes_reconciled(
    before: StoreData,
    after: StoreData,
    owners: Seq<Seq<char>>,
    create_missing: bool,
    resolver: EventIndexResolver,
    tenant_id: Seq<char>,
    indexes: Seq<UserEventIndex>,
    created: nat,
    now: i64,
) -> bool {
    exists|steps: Seq<Reconciling>|
        {
            &&& #[trigger] reconciles_through(
                steps,
                owners,
                create_missing,
                resolver,
                tenant_id,
                now,
            )
            &&& steps[0] == (Reconciling { state: before, indexes: Seq::empty(), created: 0 })
            &&& steps[owners.len() as int] == (Reconciling { state: after, indexes, created })
        }
}

fn select_tenant_rows(data: &StoreData, tenant_id: &str) -> (r: Vec<UserEventIndex>)
    ensures
        r@ == rows_of_tenant(data.user_indexes.rows(), tenant_id@),
{
    let t: &Table<(String, String), UserEventIndex> = &data.user_indexes;
    let n: usize = t.len();
    let ghost rows = t.rows();
    let mut out: Vec<UserEventIndex> = Vec::new();
    let mut i: usize = 0;
    while i < n
        invariant
            i <= n == rows.len(),
            rows == t.rows(),
            out@ == rows_of_tenant(rows.take(i as int), tenant_id@),
        decreases n - i,
    {
        assert(rows.take(i + 1).drop_last() =~= rows.take(i as int));
        if text_eq(t.key_at(i).0.as_str(), tenant_id) {
            out.push(t.value_at(i).clone());
        }
        i += 1;
    }
    assert(rows.take(i as int) =~= rows);
    out
}

fn show_indexes(indexes: &Vec<UserEventIndex>, dry_run: bool) -> (r: Vec<UserEventIndex>)
    ensures
        shows_indexes(r@, indexes@, dry_run),
{
    let mut out: Vec<UserEventIndex> = Vec::new();
    let mut i: usize = 0;
    while i < indexes.len()
        invariant
            i <= indexes.len(),
            out@.len() == i,
            forall|j: int| 0 <= j < i ==> shows_index(#[trigger] out@[j], indexes@[j], dry_run),
        decreases indexes.len() - i,
    {
        let mut index: UserEventIndex = indexes[i].clone();
        if dry_run {
            index.status = "dry_run".to_owned();
        }
        out.push(index);
        i += 1;
    }
    out
}

fn trial_index(resolver: &EventIndexResolver, tenant_id: &str, owner: &str, now: i64) -> (r:
    UserEventIndex)
    ensures
        is_trial_index(r, *resolver, tenant_id@, owner@, now),
{
    let routing: EventRouting = resolver.resolve(tenant_id, owner);
    let tenant_hash: String = resolver.tenant_hash(tenant_id);
    UserEventIndex {
        id: user_event_index_id(tenant_hash.as_str(), routing.owner_user_id_hash.as_str()),
        tenant_id: routing.tenant_id,
        tenant_hash,
        owner_user_id_hash: routing.owner_user_id_hash,
        event_index_uid: routing.event_index_uid,
        personal_context_index_uid: routing.personal_context_index_uid,
        schema_version: routing.schema_version,
        settings_hash: routing.settings_hash,
        status: "dry_run".to_owned(),
        created_at: now,
        last_event_at: None,
        event_count_estimate: 0,
    }
}

fn reconcile_owners(
    data: &mut StoreData,
    resolver: &EventIndexResolver,
    tenant_id: &str,
    req: &ReconcileUserEventIndexesRequest,
    now: i64,
) -> (r: (Vec<UserEventIndex>, usize))
    ensures
        indexes_reconciled(
            *old(data),
            *final(data),
            texts(req.owner_user_ids@),
            req.create_missing,
            *resolver,
            tenant_id@,
            r.0@,
            r.1 as nat,
            now,
        ),
{
    let mut indexes: Vec<UserEventIndex> = Vec::new();
    let mut created: usize = 0;
    let ghost owners = texts(req.owner_user_ids@);
    let ghost mut steps: Seq<Reconciling> = seq![
        Reconciling { state: *data, indexes: Seq::empty(), created: 0 },
    ];
    let mut i: usize = 0;
    assert(indexes@ =~= Seq::<UserEventIndex>::empty());
    while i < req.owner_user_ids.len()
        invariant
            i <= req.owner_user_ids@.len(),
            owners == texts(req.owner_user_ids@),
            created <= i,
            steps.len() == i + 1,
            steps[0] == (Reconciling { state: *old(data), indexes: Seq::empty(), created: 0 }),
            steps[i as int] == (Reconciling {
                state: *data,
                indexes: indexes@,
                created: created as nat,
            }),
            forall|j: int|
                #![trigger owners[j]]
                0 <= j < i ==> reconcile_step(
                    steps[j],
                    steps[j + 1],
                    owners[j],
                    req.create_missing,
                    *resolver,
                    tenant_id@,
                    now,
                ),
        decreases req.owner_user_ids@.len() - i,
    {
        assert(owners[i as int] == req.owner_user_ids@[i as int]@);
        let owner: &str = req.owner_user_ids[i].as_str();
        let key: (String, String) = (tenant_id.to_owned(), resolver.user_hash(owner));
        let existed: bool = data.user_indexes.contains_key(&key);
        if req.create_missing || existed {
            let (index, _routing): (UserEventIndex, EventRouting) = ensure_user_index_entry(
                data,
                resolver,
                tenant_id,
                owner,
                EVENT_INDEX_SCHEMA_VERSION,
                now,
            );
            if !existed {
                created += 1;
            }
            indexes.push(index);
        }
        proof {
            let earlier = steps;
            steps = steps.push(
                Reconciling { state: *data, indexes: indexes@, created: created as nat },
            );
            assert forall|j: int|
                #![trigger owners[j]]
                0 <= j < i + 1 implies reconcile_step(
                steps[j],
                steps[j + 1],
                owners[j],
                req.create_missing,
                *resolver,
                tenant_id@,
                now,
            ) by {
                if j < i {
                    assert(steps[j] == earlier[j] && steps[j + 1] == earlier[j + 1]);
                }
            }
        }
        i += 1;
    }
    assert(reconciles_through(
        steps,
        owners,
        req.create_missing,
        *resolver,
        tenant_id@,
        now,
    ));
    (indexes, created)
}

fn trial_indexes(
    resolver: &EventIndexResolver,
    tenant_id: &str,
    owners: &Vec<String>,
    now: i64,
) -> (r: Vec<UserEventIndex>)
    ensures
        r@.len() == owners@.len(),
        forall|i: int|
            0 <= i < owners@.len() ==> is_trial_index(
                #[trigger] r@[i],
                *resolver,
                tenant_id@,
                owners@[i]@,
                now,
            ),
{
    let mut out: Vec<UserEventIndex> = Vec::new();
    let mut i: usize = 0;
    while i < owners.len()
        invariant
            i <= owners.len(),
            out@.len() == i,
            forall|j: int|
                0 <= j < i ==> is_trial_index(
                    #[trigger] out@[j],
                    *resolver,
                    tenant_id@,
                    owners@[j]@,
                    now,
                ),
        decreases owners.len() - i,
    {
        out.push(trial_index(resolver, tenant_id, owners[i].as_str(), now));
        i += 1;
    }
    out
}

/// Brings the indexes of owners up to date, or shows what it would do. Without owners it shows
/// every index of the tenant, by age.
pub fn reconcile_user_indexes(
    data: &mut StoreData,
    resolver: &EventIndexResolver,
    tenant_id: &str,
    req: &ReconcileUserEventIndexesRequest,
    now: i64,
) -> (r: ReconcileUserEventIndexesResponse)
    ensures
        r.checked == r.indexes@.len(),
        r.updated_settings == (if req.reapply_settings && !req.dry_run {
            r.indexes@.len()
        } else {
            0
        }),
        if req.owner_user_ids@.len() == 0 {
            &&& *final(data) == *old(data)
            &&& r.created == 0
            &&& exists|shown: Seq<UserEventIndex>| #[trigger]
                shows_indexes(
                    shown,
                    rows_of_tenant(old(data).user_indexes.rows(), tenant_id@),
                    req.dry_run,
                ) && r.indexes@ == sorted_by(shown, indexes_by_age())
        } else if req.dry_run {
            &&& *final(data) == *old(data)
            &&& r.created == 0
            &&& r.indexes@.len() == req.owner_user_ids@.len()
            &&& forall|i: int|
                0 <= i < req.owner_user_ids@.len() ==> is_trial_index(
                    #[trigger] r.indexes@[i],
                    *resolver,
                    tenant_id@,
                    req.owner_user_ids@[i]@,
                    now,
                )
        } else {
            indexes_reconciled(
                *old(data),
                *final(data),
                texts(req.owner_user_ids@),
                req.create_missing,
                *resolver,
                tenant_id@,
                r.indexes@,
                r.created as nat,
                now,
            )
        },
{
    let (indexes, created): (Vec<UserEventIndex>, usize) = if req.owner_user_ids.len() == 0 {
        let rows: Vec<UserEventIndex> = select_tenant_rows(data, tenant_id);
        let shown: Vec<UserEventIndex> = show_indexes(&rows, req.dry_run);
        let ghost lt = indexes_by_age();
        let earlier = |a: &UserEventIndex, b: &UserEventIndex| -> (c: bool)
            ensures
                c == lt(*a, *b),
            { a.created_at < b.created_at };
        (sort_by(shown, earlier, Ghost(lt)), 0)
    } else if req.dry_run {
        (trial_indexes(resolver, tenant_id, &req.owner_user_ids, now), 0)
    } else {
        reconcile_owners(data, resolver, tenant_id, req, now)
    };
    let updated_settings: usize = if req.reapply_settings && !req.dry_run {
        indexes.len()
    } else {
        0
    };
    ReconcileUserEventIndexesResponse {
        checked: indexes.len(),
        created,
        updated_settings,
        indexes,
    }
}

/// Noting something takes room for one event.
pub(crate) proof fn lemma_room_after_note(
    before: StoreData,
    after: StoreData,
    r: Result<HistoryEventResponse, ApiError>,
    resolver: EventIndexResolver,
    tenant_id: Seq<char>,
    owner: Seq<char>,
    note: NoteView,
    stamp: StampView,
    n: nat,
)
    requires
        noted(before, after, r, resolver, tenant_id, owner, note, stamp),
        indexes_have_room(before, n + 1),
        n < u64::MAX,
    ensures
        indexes_have_room(after, n),
{
    let req = choose|req: AppendHistoryEventRequest|
        {
            &&& is_object_of(req.payload, note.members)
            &&& #[trigger] is_internal_request(
                req,
                note.event_type,
                note.entity_type,
                note.entity_id,
                note.text,
                req.payload,
                owner,
                stamp.now,
            )
            &&& internal_result(
                before,
                after,
                r,
                req,
                resolver,
                tenant_id,
                owner,
                stamp.secrets,
                stamp.event_id,
                stamp.job_id,
                stamp.now,
            )
        };
    match event_owner(Some(owner), req) {
        Ok(o) => {
            lemma_room_after_append(
                before,
                after,
                r,
                resolver,
                req,
                tenant_id,
                o,
                stamp.secrets,
                stamp.event_id,
                stamp.job_id,
                stamp.now,
                n,
            );
        },
        Err(_) => {
            lemma_room_shrinks(before, n + 1, n);
        },
    }
}

/// Room for many events is room for fewer.
pub(crate) proof fn lemma_room_shrinks(d: StoreData, n: nat, m: nat)
    requires
        indexes_have_room(d, n),
        m <= n,
    ensures
        indexes_have_room(d, m),
{
    assert forall|k: (Seq<char>, Seq<char>)| #[trigger]
        d.user_indexes@.dom().contains(k) implies d.user_indexes@[k].event_count_estimate + m
        <= u64::MAX by {
        assert(d.user_indexes@[k].event_count_estimate + n <= u64::MAX);
    }
}

} // verus!
