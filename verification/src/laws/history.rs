//! What the history of an owner can be relied on for.

use vstd::prelude::*;

use crate::data::StoreData;
use crate::history_search::{
    earliest_first, event_matches, found_events, latest_first, HistorySearchRequest,
};
use crate::laws::choosing::{
    what_is_accepted_is_chosen, what_is_chosen_is_accepted, what_is_chosen_is_in_order,
};
use crate::model::knowledge::HistoryEvent;
use crate::order::strict_order;
use crate::resolver::EventIndexResolver;
use crate::table::{list_at, lists};
use crate::text::texts;

verus! {

/// A search answers with events of the owner that lie in the asked time and are of the asked kind.
pub proof fn a_found_event_was_asked_for(
    d: StoreData,
    resolver: EventIndexResolver,
    tenant_id: Seq<char>,
    owner: Seq<char>,
    req: HistorySearchRequest,
    i: int,
)
    requires
        0 <= i < found_events(d, resolver, tenant_id, owner, req).len(),
    ensures
        ({
            let event = found_events(d, resolver, tenant_id, owner, req)[i];
            &&& d.events_by_index@.dom().contains(resolver.events_of(tenant_id, owner))
            &&& d.events_by_index@[resolver.events_of(tenant_id, owner)]@.contains(event)
            &&& req.from is Some ==> event.occurred_at >= req.from->0
            &&& req.to is Some ==> event.occurred_at <= req.to->0
            &&& req.entity_type is Some ==> event.entity_type@ == req.entity_type->0@
            &&& req.entity_id is Some ==> event.entity_id@ == req.entity_id->0@
            &&& req.event_types@.len() > 0 ==> exists|j: int|
                0 <= j < req.event_types@.len() && (#[trigger] req.event_types@[j])@
                    == event.event_type@
            &&& req.matching_ids is Some ==> exists|j: int|
                0 <= j < req.matching_ids->0@.len() && (#[trigger] req.matching_ids->0@[j])@
                    == event.id@
        }),
{
    let all = list_at(lists(d.events_by_index@), resolver.events_of(tenant_id, owner));
    let p = |event: HistoryEvent| event_matches(event, req);
    what_is_chosen_is_accepted(all, p, latest_first(), req.limit as nat, i);
    let event = found_events(d, resolver, tenant_id, owner, req)[i];
    if req.event_types@.len() > 0 {
        let types = texts(req.event_types@);
        let j = choose|j: int| 0 <= j < types.len() && types[j] == event.event_type@;
        assert(req.event_types@[j]@ == event.event_type@);
    }
    if req.matching_ids is Some {
        let ids = texts(req.matching_ids->0@);
        let j = choose|j: int| 0 <= j < ids.len() && ids[j] == event.id@;
        assert(req.matching_ids->0@[j]@ == event.id@);
    }
}

/// No event of the owner that lies in the asked time and is of the asked kind is missed, unless the
/// limit is reached by events that are not earlier.
pub proof fn no_asked_event_is_missed(
    d: StoreData,
    resolver: EventIndexResolver,
    tenant_id: Seq<char>,
    owner: Seq<char>,
    req: HistorySearchRequest,
    event: HistoryEvent,
)
    requires
        d.events_by_index@.dom().contains(resolver.events_of(tenant_id, owner)),
        d.events_by_index@[resolver.events_of(tenant_id, owner)]@.contains(event),
        req.from is None || event.occurred_at >= req.from->0,
        req.to is None || event.occurred_at <= req.to->0,
        req.entity_type is None || req.entity_type->0@ == event.entity_type@,
        req.entity_id is None || req.entity_id->0@ == event.entity_id@,
        req.event_types@.len() == 0 || exists|j: int|
            0 <= j < req.event_types@.len() && (#[trigger] req.event_types@[j])@
                == event.event_type@,
        req.matching_ids is None || exists|j: int|
            0 <= j < req.matching_ids->0@.len() && (#[trigger] req.matching_ids->0@[j])@
                == event.id@,
    ensures
        ({
            let found = found_events(d, resolver, tenant_id, owner, req);
            found.contains(event) || {
                &&& found.len() >= req.limit
                &&& found.len() >= 1
                &&& forall|i: int|
                    0 <= i < found.len() ==> (#[trigger] found[i]).occurred_at
                        >= event.occurred_at
            }
        }),
{
    let all = list_at(lists(d.events_by_index@), resolver.events_of(tenant_id, owner));
    let p = |event: HistoryEvent| event_matches(event, req);
    let lt = latest_first();
    if req.event_types@.len() > 0 {
        let j = choose|j: int|
            0 <= j < req.event_types@.len() && (#[trigger] req.event_types@[j])@
                == event.event_type@;
        assert(texts(req.event_types@)[j] == event.event_type@);
    }
    if req.matching_ids is Some {
        let j = choose|j: int|
            0 <= j < req.matching_ids->0@.len() && (#[trigger] req.matching_ids->0@[j])@
                == event.id@;
        assert(texts(req.matching_ids->0@)[j] == event.id@);
    }
    assert(p(event));
    assert(strict_order(lt));
    what_is_accepted_is_chosen(all, p, lt, req.limit as nat, event);
    let found = found_events(d, resolver, tenant_id, owner, req);
    if !found.contains(event) {
        assert forall|i: int| 0 <= i < found.len() implies (#[trigger] found[i]).occurred_at
            >= event.occurred_at by {
            assert(!lt(event, found[i]));
        }
    }
}

/// A search answers with the latest event first, and with no more events than it may.
pub proof fn the_latest_event_is_found_first(
    d: StoreData,
    resolver: EventIndexResolver,
    tenant_id: Seq<char>,
    owner: Seq<char>,
    req: HistorySearchRequest,
    i: int,
    j: int,
)
    requires
        0 <= i < j < found_events(d, resolver, tenant_id, owner, req).len(),
    ensures
        found_events(d, resolver, tenant_id, owner, req)[i].occurred_at >= found_events(
            d,
            resolver,
            tenant_id,
            owner,
            req,
        )[j].occurred_at,
        found_events(d, resolver, tenant_id, owner, req).len() <= req.limit,
{
    let all = list_at(lists(d.events_by_index@), resolver.events_of(tenant_id, owner));
    let p = |event: HistoryEvent| event_matches(event, req);
    let lt = latest_first();
    assert(strict_order(lt));
    what_is_chosen_is_in_order(all, p, lt, req.limit as nat, i, j);
    let found = found_events(d, resolver, tenant_id, owner, req);
    assert(!lt(found[j], found[i]));
}

/// A timeline shows what it shows with the earliest event first.
pub proof fn a_timeline_begins_with_the_earliest(s: Seq<HistoryEvent>, i: int, j: int)
    requires
        0 <= i < j < s.len(),
    ensures
        crate::order::sorted_by(s, earliest_first()).len() == s.len(),
        crate::order::sorted_by(s, earliest_first())[i].occurred_at <= crate::order::sorted_by(
            s,
            earliest_first(),
        )[j].occurred_at,
{
    let lt = earliest_first();
    assert(strict_order(lt));
    crate::order::sorted_by_is_in_order(s, lt);
    crate::order::sorted_by_keeps_elements(s, lt);
    let r = crate::order::sorted_by(s, lt);
    assert(!lt(r[j], r[i]));
}

} // verus!
