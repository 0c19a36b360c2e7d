//! The history of an owner: its event index, appending events, and finding them again.

use vstd::prelude::*;
use vstd::string::*;

use crate::data::StoreData;
use crate::documents::put_personal_nodes;
use crate::error::{fails_with, ApiError, ErrorView};
use crate::json::{
    is_object_of, json_quoted, object_of, object_text, pair_texts, render_object, render_text, rendered, rfc3339,
    timestamp_text, Json,
};
use crate::masking::{fragment_masked, mask_secret_fragment_projection_preserving_chars};
use crate::merge::with_nodes;
use crate::model::knowledge::{ContextNode, HistoryEvent, SourceRef, UserEventIndex};
use crate::naming::{
    first_chars, index_id, sanitize_slug, slug, truncate_chars, user_event_index_id,
};
use crate::nodes::{is_node, personal_node, personal_part};
use crate::order::{first_where, sort_by, sorted_by};
use crate::record::{List, Record};
use crate::resolver::{
    EventIndexResolver, EventRouting, EVENT_INDEX_SCHEMA_VERSION, EVENT_SETTINGS_HASH,
};
use crate::table::{ensure_list, list_at, lists, lists_replaced, row_of, take_list, Table};
use crate::text::{as_deref, blank, is_blank, opt_str, opt_text, text_eq, texts, texts_eq};

verus! {

/// The owner that a request is about: the one in its path, else the one in its body; two that
/// differ and none are refused.
pub open spec fn chosen_owner(path: Option<Seq<char>>, body: Option<Seq<char>>) -> Result<
    Seq<char>,
    ErrorView,
> {
    match (path, body) {
        (Some(p), Some(b)) => if p != b {
            Err(ErrorView::BadRequest("owner_user_id in path and body must match"@))
        } else {
            Ok(p)
        },
        (Some(p), None) => Ok(p),
        (None, Some(b)) => Ok(b),
        (None, None) => Err(ErrorView::BadRequest("owner_user_id is required"@)),
    }
}

/// Whether `r` gives the text, or fails with the error, that is expected.
pub open spec fn gives_text(r: Result<String, ApiError>, expected: Result<Seq<char>, ErrorView>) -> bool {
    match expected {
        Ok(t) => r is Ok && r->Ok_0@ == t,
        Err(e) => fails_with(r, e),
    }
}

/// The owner that a request is about.
pub fn owner_from_path_or_body(
    path_owner_user_id: Option<&str>,
    body_owner_user_id: Option<&str>,
) -> (r: Result<String, ApiError>)
    ensures
        gives_text(r, chosen_owner(opt_str(path_owner_user_id), opt_str(body_owner_user_id))),
{
    match (path_owner_user_id, body_owner_user_id) {
        (Some(path), Some(body)) => if !text_eq(path, body) {
            Err(ApiError::bad_request("owner_user_id in path and body must match"))
        } else {
            Ok(path.to_owned())
        },
        (Some(path), None) => Ok(path.to_owned()),
        (None, Some(body)) => Ok(body.to_owned()),
        (None, None) => Err(ApiError::bad_request("owner_user_id is required")),
    }
}

/// A request to append an event.
pub struct AppendHistoryEventRequest {
    pub event_type: Option<String>,
    pub entity_type: Option<String>,
    pub entity_id: Option<String>,
    pub owner_user_id: Option<String>,
    pub occurred_at: Option<i64>,
    pub observed_at: Option<i64>,
    pub source_kind: Option<String>,
    pub source_ref: Option<SourceRef>,
    pub text: Option<String>,
    pub payload: Json,
    pub tags: List<String>,
    pub privacy: String,
    pub idempotency_key: Option<String>,
    pub event_index_hint: Option<String>,
}

/// Whether a value that has to be given is missing or blank.
pub open spec fn missing(value: Option<Seq<char>>) -> bool {
    match value {
        Some(v) => blank(v),
        None => true,
    }
}

/// Whether a value that has to be given is missing or blank.
pub fn is_missing(value: &Option<String>) -> (r: bool)
    ensures
        r == missing(opt_text(*value)),
{
    match value {
        Some(v) => is_blank(v.as_str()),
        None => true,
    }
}

/// Why a request to append an event is refused, its owner being settled.
pub open spec fn event_refusal(req: AppendHistoryEventRequest) -> Option<ErrorView> {
    if req.event_index_hint is Some {
        Some(
            ErrorView::BadRequest(
                "event_index_hint is not accepted; event index routing is server-side"@,
            ),
        )
    } else if missing(opt_text(req.event_type)) {
        Some(ErrorView::BadRequest("event_type is required"@))
    } else if missing(opt_text(req.entity_type)) {
        Some(ErrorView::BadRequest("entity_type is required"@))
    } else if missing(opt_text(req.entity_id)) {
        Some(ErrorView::BadRequest("entity_id is required"@))
    } else if missing(opt_text(req.source_kind)) {
        Some(ErrorView::BadRequest("source_kind is required"@))
    } else if req.occurred_at is None {
        Some(ErrorView::BadRequest("occurred_at is required"@))
    } else if req.observed_at is None {
        Some(ErrorView::BadRequest("observed_at is required"@))
    } else if req.source_ref is None {
        Some(ErrorView::BadRequest("source_ref is required"@))
    } else {
        None
    }
}

/// The owner of an event, or why the request is refused.
pub open spec fn event_owner(path: Option<Seq<char>>, req: AppendHistoryEventRequest) -> Result<
    Seq<char>,
    ErrorView,
> {
    match chosen_owner(path, opt_text(req.owner_user_id)) {
        Err(e) => Err(e),
        Ok(owner) => match event_refusal(req) {
            Some(e) => Err(e),
            None => Ok(owner),
        },
    }
}

/// Checks a request to append an event and settles its owner.
pub fn validate_append_event_request(
    path_owner_user_id: Option<&str>,
    req: &AppendHistoryEventRequest,
) -> (r: Result<String, ApiError>)
    ensures
        gives_text(r, event_owner(opt_str(path_owner_user_id), *req)),
{
    let owner: String = match owner_from_path_or_body(
        path_owner_user_id,
        as_deref(&req.owner_user_id),
    ) {
        Ok(owner) => owner,
        Err(error) => {
            return Err(error);
        },
    };
    if req.event_index_hint.is_some() {
        return Err(
            ApiError::bad_request(
                "event_index_hint is not accepted; event index routing is server-side",
            ),
        );
    }
    if is_missing(&req.event_type) {
        return Err(ApiError::bad_request("event_type is required"));
    }
    if is_missing(&req.entity_type) {
        return Err(ApiError::bad_request("entity_type is required"));
    }
    if is_missing(&req.entity_id) {
        return Err(ApiError::bad_request("entity_id is required"));
    }
    if is_missing(&req.source_kind) {
        return Err(ApiError::bad_request("source_kind is required"));
    }
    if req.occurred_at.is_none() {
        return Err(ApiError::bad_request("occurred_at is required"));
    }
    if req.observed_at.is_none() {
        return Err(ApiError::bad_request("observed_at is required"));
    }
    if req.source_ref.is_none() {
        return Err(ApiError::bad_request("source_ref is required"));
    }
    Ok(owner)
}

/// The key of the index of an owner.
pub open spec fn index_key(
    resolver: EventIndexResolver,
    tenant_id: Seq<char>,
    owner_user_id: Seq<char>,
) -> (Seq<char>, Seq<char>) {
    (tenant_id, resolver.user_digest(owner_user_id))
}

/// Whether `index` is the index of an owner as it is first registered.
pub open spec fn is_new_index(
    index: UserEventIndex,
    resolver: EventIndexResolver,
    tenant_id: Seq<char>,
    owner_user_id: Seq<char>,
    schema_version: u32,
    now: i64,
) -> bool {
    &&& index.id@ == index_id(
        resolver.tenant_digest(tenant_id),
        resolver.user_digest(owner_user_id),
    )
    &&& index.tenant_id@ == tenant_id
    &&& index.tenant_hash@ == resolver.tenant_digest(tenant_id)
    &&& index.owner_user_id_hash@ == resolver.user_digest(owner_user_id)
    &&& index.event_index_uid@ == resolver.events_of(tenant_id, owner_user_id)
    &&& index.personal_context_index_uid@ == resolver.context_of(tenant_id, owner_user_id)
    &&& index.schema_version == schema_version
    &&& index.settings_hash@ == EVENT_SETTINGS_HASH@
    &&& index.status@ == "active"@
    &&& index.created_at == now
    &&& index.last_event_at is None
    &&& index.event_count_estimate == 0
}

/// Whether `after` is a registered index brought up to date.
pub open spec fn is_renewed_index(
    before: UserEventIndex,
    after: UserEventIndex,
    schema_version: u32,
) -> bool {
    &&& after == (UserEventIndex {
        schema_version,
        settings_hash: after.settings_hash,
        status: after.status,
        ..before
    })
    &&& after.settings_hash@ == EVENT_SETTINGS_HASH@
    &&& after.status@ == "active"@
}

/// The state after the index of an owner was made sure of.
pub open spec fn index_ensured(
    before: StoreData,
    after: StoreData,
    resolver: EventIndexResolver,
    tenant_id: Seq<char>,
    owner_user_id: Seq<char>,
    schema_version: u32,
    now: i64,
) -> bool {
    let key = index_key(resolver, tenant_id, owner_user_id);
    let events = resolver.events_of(tenant_id, owner_user_id);
    let context = resolver.context_of(tenant_id, owner_user_id);
    &&& after == (StoreData {
        user_indexes: after.user_indexes,
        events_by_index: after.events_by_index,
        personal_context: after.personal_context,
        ..before
    })
    &&& after.user_indexes@.dom().contains(key)
    &&& after.user_indexes@ == before.user_indexes@.insert(key, after.user_indexes@[key])
    &&& if before.user_indexes@.dom().contains(key) {
        &&& is_renewed_index(
            before.user_indexes@[key],
            after.user_indexes@[key],
            schema_version,
        )
        &&& after.events_by_index == before.events_by_index
        &&& after.personal_context == before.personal_context
    } else {
        &&& is_new_index(
            after.user_indexes@[key],
            resolver,
            tenant_id,
            owner_user_id,
            schema_version,
            now,
        )
        &&& lists(after.events_by_index@) == lists(before.events_by_index@).insert(
            events,
            list_at(lists(before.events_by_index@), events),
        )
        &&& lists(after.personal_context@) == lists(before.personal_context@).insert(
            context,
            list_at(lists(before.personal_context@), context),
        )
    }
}

/// Makes sure that an owner has an index, and that it is up to date.
pub fn ensure_user_index_entry(
    data: &mut StoreData,
    resolver: &EventIndexResolver,
    tenant_id: &str,
    owner_user_id: &str,
    schema_version: u32,
    now: i64,
) -> (r: (UserEventIndex, EventRouting))
    ensures
        index_ensured(
            *old(data),
            *final(data),
            *resolver,
            tenant_id@,
            owner_user_id@,
            schema_version,
            now,
        ),
        r.0 == final(data).user_indexes@[index_key(*resolver, tenant_id@, owner_user_id@)],
        resolver.routes(r.1, tenant_id@, owner_user_id@),
{
    let routing: EventRouting = resolver.resolve(tenant_id, owner_user_id);
    let key: (String, String) = (tenant_id.to_owned(), routing.owner_user_id_hash.clone());
    let existing: Option<UserEventIndex> = match data.user_indexes.get(&key) {
        Some(index) => Some(index.clone()),
        None => None,
    };
    let index: UserEventIndex = match existing {
        Some(index) => {
            let mut renewed: UserEventIndex = index;
            renewed.schema_version = schema_version;
            renewed.settings_hash = EVENT_SETTINGS_HASH.to_owned();
            renewed.status = "active".to_owned();
            renewed
        },
        None => {
            let tenant_hash: String = resolver.tenant_hash(tenant_id);
            ensure_list(&mut data.events_by_index, routing.event_index_uid.clone());
            ensure_list(&mut data.personal_context, routing.personal_context_index_uid.clone());
            UserEventIndex {
                id: user_event_index_id(
                    tenant_hash.as_str(),
                    routing.owner_user_id_hash.as_str(),
                ),
                tenant_id: tenant_id.to_owned(),
                tenant_hash,
                owner_user_id_hash: routing.owner_user_id_hash.clone(),
                event_index_uid: routing.event_index_uid.clone(),
                personal_context_index_uid: routing.personal_context_index_uid.clone(),
                schema_version,
                settings_hash: EVENT_SETTINGS_HASH.to_owned(),
                status: "active".to_owned(),
                created_at: now,
                last_event_at: None,
                event_count_estimate: 0,
            }
        },
    };
    data.user_indexes.insert(key, index.clone());
    (index, routing)
}

/// A request to make sure of the index of an owner.
pub struct EnsureUserEventIndexRequest {
    pub schema_version: Option<u32>,
    pub create_personal_context_index: bool,
    pub force_reapply_settings: bool,
}

/// The index of an owner and where it leads.
pub struct UserEventIndexResponse {
    pub index: UserEventIndex,
    pub routing: EventRouting,
}

/// Makes sure of the index of an owner. Only the present schema is served, and only with a
/// personal context.
pub fn ensure_user_index(
    data: &mut StoreData,
    resolver: &EventIndexResolver,
    tenant_id: &str,
    owner_user_id: &str,
    req: &EnsureUserEventIndexRequest,
    now: i64,
) -> (r: Result<UserEventIndexResponse, ApiError>)
    ensures
        if req.schema_version is Some && req.schema_version != Some(EVENT_INDEX_SCHEMA_VERSION) {
            &&& *final(data) == *old(data)
            &&& fails_with(r, ErrorView::BadRequest("schema_version must be 1"@))
        } else if !req.create_personal_context_index {
            &&& *final(data) == *old(data)
            &&& fails_with(r, ErrorView::BadRequest("create_personal_context_index must be true"@))
        } else {
            &&& r is Ok
            &&& index_ensured(
                *old(data),
                *final(data),
                *resolver,
                tenant_id@,
                owner_user_id@,
                EVENT_INDEX_SCHEMA_VERSION,
                now,
            )
            &&& r->Ok_0.index == final(data).user_indexes@[index_key(
                *resolver,
                tenant_id@,
                owner_user_id@,
            )]
            &&& resolver.routes(r->Ok_0.routing, tenant_id@, owner_user_id@)
        },
{
    match req.schema_version {
        Some(version) => {
            if version != EVENT_INDEX_SCHEMA_VERSION {
                return Err(ApiError::bad_request("schema_version must be 1"));
            }
        },
        None => {},
    }
    if !req.create_personal_context_index {
        return Err(ApiError::bad_request("create_personal_context_index must be true"));
    }
    let (index, routing): (UserEventIndex, EventRouting) = ensure_user_index_entry(
        data,
        resolver,
        tenant_id,
        owner_user_id,
        EVENT_INDEX_SCHEMA_VERSION,
        now,
    );
    Ok(UserEventIndexResponse { index, routing })
}

/// The index of an owner; one that is missing is registered.
pub fn get_user_index(
    data: &mut StoreData,
    resolver: &EventIndexResolver,
    tenant_id: &str,
    owner_user_id: &str,
    now: i64,
) -> (r: UserEventIndexResponse)
    ensures
        index_ensured(
            *old(data),
            *final(data),
            *resolver,
            tenant_id@,
            owner_user_id@,
            EVENT_INDEX_SCHEMA_VERSION,
            now,
        ),
        r.index == final(data).user_indexes@[index_key(*resolver, tenant_id@, owner_user_id@)],
        resolver.routes(r.routing, tenant_id@, owner_user_id@),
{
    let (index, routing): (UserEventIndex, EventRouting) = ensure_user_index_entry(
        data,
        resolver,
        tenant_id,
        owner_user_id,
        EVENT_INDEX_SCHEMA_VERSION,
        now,
    );
    UserEventIndexResponse { index, routing }
}

/// The order of indexes by age.
pub open spec fn indexes_by_age() -> spec_fn(UserEventIndex, UserEventIndex) -> bool {
    |a: UserEventIndex, b: UserEventIndex| a.created_at < b.created_at
}

fn sort_indexes(v: Vec<UserEventIndex>) -> (r: Vec<UserEventIndex>)
    ensures
        r@ == sorted_by(v@, indexes_by_age()),
{
    let ghost lt = indexes_by_age();
    let earlier = |a: &UserEventIndex, b: &UserEventIndex| -> (c: bool)
        ensures
            c == lt(*a, *b),
        { a.created_at < b.created_at };
    sort_by(v, earlier, Ghost(lt))
}

/// The indexes of a tenant, by age.
pub fn list_user_indexes(data: &StoreData, tenant_id: &str) -> (r: Vec<UserEventIndex>)
    ensures
        r@ == sorted_by(
            crate::stage::indexes_of(data.user_indexes.values(), tenant_id@),
            indexes_by_age(),
        ),
{
    let ghost p = |index: UserEventIndex| index.tenant_id@ == tenant_id@;
    let accept = |index: &UserEventIndex| -> (b: bool)
        ensures
            b == p(*index),
        { text_eq(index.tenant_id.as_str(), tenant_id) };
    let found: Vec<UserEventIndex> = crate::record::select_values(
        &data.user_indexes,
        accept,
        Ghost(p),
    );
    sort_indexes(found)
}

/// Whether every index can count `n` more events.
pub open spec fn indexes_have_room(d: StoreData, n: nat) -> bool {
    forall|k: (Seq<char>, Seq<char>)| #[trigger]
        d.user_indexes@.dom().contains(k) ==> d.user_indexes@[k].event_count_estimate + n
            <= u64::MAX
}

/// Whether every index can count `n` more events.
pub fn check_indexes_have_room(data: &StoreData, n: u64) -> (r: bool)
    ensures
        r == indexes_have_room(*data, n as nat),
{
    let t: &Table<(String, String), UserEventIndex> = &data.user_indexes;
    let len: usize = t.len();
    let mut i: usize = 0;
    while i < len
        invariant
            i <= len == t.rows().len(),
            t.wf(),
            *t == data.user_indexes,
            forall|j: int|
                0 <= j < i ==> (#[trigger] t.rows()[j]).1.event_count_estimate + n <= u64::MAX,
        decreases len - i,
    {
        if t.value_at(i).event_count_estimate > u64::MAX - n {
            proof {
                t.row_facts(i as int);
                assert(t@.dom().contains(t.rows()[i as int].0@));
            }
            return false;
        }
        i += 1;
    }
    proof {
        assert forall|k: (Seq<char>, Seq<char>)| #[trigger]
            t@.dom().contains(k) implies t@[k].event_count_estimate + n <= u64::MAX by {
            t.key_facts(k);
            assert(t.rows()[row_of(t.rows(), k)].1.event_count_estimate + n <= u64::MAX);
        }
    }
    true
}

/// The place of the index that holds the events under a name.
pub open spec fn index_place(values: Seq<UserEventIndex>, event_index_uid: Seq<char>) -> int {
    first_where(values, |index: UserEventIndex| index.event_index_uid@ == event_index_uid)
}

/// An index after one more event.
pub open spec fn counted(index: UserEventIndex, observed_at: i64) -> UserEventIndex {
    UserEventIndex {
        last_event_at: Some(observed_at),
        event_count_estimate: (index.event_count_estimate + 1) as u64,
        ..index
    }
}

/// The state after an event was put into its index.
pub open spec fn event_inserted(before: StoreData, after: StoreData, event: HistoryEvent) -> bool {
    let uid = event.event_index_uid@;
    let at = index_place(before.user_indexes.values(), uid);
    let rows = before.user_indexes.rows();
    &&& after == (StoreData {
        event_idempotency: after.event_idempotency,
        event_by_id: after.event_by_id,
        events_by_index: after.events_by_index,
        user_indexes: after.user_indexes,
        ..before
    })
    &&& match event.idempotency_key_hash {
        Some(hash) => after.event_idempotency@ == before.event_idempotency@.insert(
            (uid, hash@),
            event.id,
        ),
        None => after.event_idempotency == before.event_idempotency,
    }
    &&& after.event_by_id@ == before.event_by_id@.insert(event.id@, event)
    &&& lists(after.events_by_index@) == lists(before.events_by_index@).insert(
        uid,
        list_at(lists(before.events_by_index@), uid).push(event),
    )
    &&& if 0 <= at < rows.len() {
        after.user_indexes@ == before.user_indexes@.insert(
            rows[at].0@,
            counted(before.user_indexes@[rows[at].0@], event.observed_at),
        )
    } else {
        after.user_indexes == before.user_indexes
    }
}

fn find_index(t: &Table<(String, String), UserEventIndex>, uid: &str) -> (r: usize)
    ensures
        r == index_place(t.values(), uid@),
        r <= t.rows().len(),
{
    let n: usize = t.len();
    let ghost p = |index: UserEventIndex| index.event_index_uid@ == uid@;
    let mut i: usize = 0;
    while i < n
        invariant
            i <= n == t.rows().len(),
            t.values().len() == n,
            p == (|index: UserEventIndex| index.event_index_uid@ == uid@),
            forall|j: int| 0 <= j < i ==> !p(#[trigger] t.values()[j]),
        decreases n - i,
    {
        if text_eq(t.value_at(i).event_index_uid.as_str(), uid) {
            proof {
                crate::order::first_where_is(t.values(), p, i as int);
            }
            return i;
        }
        i += 1;
    }
    proof {
        crate::order::first_where_is(t.values(), p, n as int);
    }
    n
}

/// Puts an event into its index.
pub fn insert_event(data: &mut StoreData, event: &HistoryEvent)
    requires
        indexes_have_room(*old(data), 1),
    ensures
        event_inserted(*old(data), *final(data), *event),
{
    match &event.idempotency_key_hash {
        Some(hash) => {
            data.event_idempotency.insert(
                (event.event_index_uid.clone(), hash.clone()),
                event.id.clone(),
            );
        },
        None => {},
    }
    data.event_by_id.insert(event.id.clone(), event.clone());
    let ghost raw = data.events_by_index@;
    let mut list: Vec<HistoryEvent> = take_list(&mut data.events_by_index, &event.event_index_uid);
    list.push(event.clone());
    proof {
        lists_replaced(raw, event.event_index_uid@, list);
    }
    data.events_by_index.insert(event.event_index_uid.clone(), list);
    let at: usize = find_index(&data.user_indexes, event.event_index_uid.as_str());
    if at < data.user_indexes.len() {
        let key: (String, String) = (
            data.user_indexes.key_at(at).0.clone(),
            data.user_indexes.key_at(at).1.clone(),
        );
        let mut index: UserEventIndex = data.user_indexes.value_at(at).clone();
        proof {
            data.user_indexes.row_facts(at as int);
            assert(old(data).user_indexes@.dom().contains(key@));
        }
        index.last_event_at = Some(event.observed_at);
        index.event_count_estimate += 1;
        data.user_indexes.insert(key, index);
    }
}

/// The entry of an event in the context of its owner.
pub open spec fn event_base(event: HistoryEvent) -> Seq<char> {
    "ctx://user/history/"@ + slug(event.event_type@) + "/"@ + slug(event.id@)
}

/// The title of the entry of an event.
pub open spec fn event_title(event: HistoryEvent) -> Seq<char> {
    event.event_type@ + " "@ + event.entity_id@
}

/// What the overview of an event says.
pub open spec fn event_overview(event: HistoryEvent) -> Seq<char> {
    object_text(
        seq![
            ("entity_id"@, json_quoted(event.entity_id@)),
            ("entity_type"@, json_quoted(event.entity_type@)),
            ("event_type"@, json_quoted(event.event_type@)),
            ("occurred_at"@, json_quoted(rfc3339(event.occurred_at))),
            ("payload"@, rendered(event.payload)),
            ("text"@, json_quoted(event.text@)),
        ],
    )
}

fn event_overview_text(event: &HistoryEvent) -> (r: String)
    ensures
        r@ == event_overview(*event),
{
    let mut members: Vec<(&'static str, String)> = Vec::new();
    members.push(("entity_id", render_text(event.entity_id.as_str())));
    members.push(("entity_type", render_text(event.entity_type.as_str())));
    members.push(("event_type", render_text(event.event_type.as_str())));
    members.push(
        ("occurred_at", render_text(timestamp_text(event.occurred_at).as_str())),
    );
    members.push(("payload", event.payload.render()));
    members.push(("text", render_text(event.text.as_str())));
    assert(pair_texts(members@) =~= seq![
        ("entity_id"@, json_quoted(event.entity_id@)),
        ("entity_type"@, json_quoted(event.entity_type@)),
        ("event_type"@, json_quoted(event.event_type@)),
        ("occurred_at"@, json_quoted(rfc3339(event.occurred_at))),
        ("payload"@, rendered(event.payload)),
        ("text"@, json_quoted(event.text@)),
    ]);
    render_object(&members)
}

/// The most characters that an abstract has.
pub const ABSTRACT_CHARS: usize = 500;

/// Whether `nodes` are the layers of the entry of an event: the abstract is short and shows no
/// secret.
pub open spec fn are_event_nodes(
    nodes: Seq<ContextNode>,
    event: HistoryEvent,
    index_uid: Seq<char>,
    secrets: Seq<Seq<char>>,
    now: i64,
) -> bool {
    let base = event_base(event);
    let title = event_title(event);
    let owner = event.owner_user_id@;
    let tenant = event.tenant_id@;
    &&& nodes.len() == 3
    &&& is_node(
        nodes[0],
        personal_part(
            base + "/.abstract"@,
            title,
            0,
            first_chars(fragment_masked(event.text@, secrets), ABSTRACT_CHARS as nat),
            index_uid,
            tenant,
            owner,
        ),
        now,
    )
    &&& is_node(
        nodes[1],
        personal_part(
            base + "/.overview"@,
            title,
            1,
            event_overview(event),
            index_uid,
            tenant,
            owner,
        ),
        now,
    )
    &&& is_node(
        nodes[2],
        personal_part(base + "/detail"@, title, 2, event.text@, index_uid, tenant, owner),
        now,
    )
}

/// The state after nodes were put into the personal context of an index.
pub open spec fn nodes_put(
    before: StoreData,
    after: StoreData,
    index_uid: Seq<char>,
    nodes: Seq<ContextNode>,
) -> bool {
    &&& after == (StoreData { personal_context: after.personal_context, ..before })
    &&& lists(after.personal_context@) == lists(before.personal_context@).insert(
        index_uid,
        with_nodes(list_at(lists(before.personal_context@), index_uid), nodes),
    )
}

/// The state after the entry of an event was written.
pub open spec fn event_context_written(
    before: StoreData,
    after: StoreData,
    event: HistoryEvent,
    index_uid: Seq<char>,
    secrets: Seq<Seq<char>>,
    now: i64,
) -> bool {
    exists|nodes: Seq<ContextNode>|
        are_event_nodes(nodes, event, index_uid, secrets, now) && #[trigger] nodes_put(
            before,
            after,
            index_uid,
            nodes,
        )
}

/// Writes the entry of an event into the context of its owner.
pub fn write_event_context(
    data: &mut StoreData,
    index_uid: &str,
    event: &HistoryEvent,
    secrets: &Vec<String>,
    now: i64,
)
    ensures
        event_context_written(
            *old(data),
            *final(data),
            *event,
            index_uid@,
            texts(secrets@),
            now,
        ),
{
    let mut base: String = "ctx://user/history/".to_owned();
    base.append(sanitize_slug(event.event_type.as_str()).as_str());
    base.append("/");
    base.append(sanitize_slug(event.id.as_str()).as_str());
    let mut title: String = event.event_type.clone();
    title.append(" ");
    title.append(event.entity_id.as_str());
    let masked: String = mask_secret_fragment_projection_preserving_chars(
        event.text.as_str(),
        secrets,
    );
    let abstract_body: String = truncate_chars(masked.as_str(), ABSTRACT_CHARS);
    let overview: String = event_overview_text(event);
    let mut nodes: Vec<ContextNode> = Vec::new();
    nodes.push(
        personal_node(
            base.as_str(),
            "/.abstract",
            title.as_str(),
            0,
            abstract_body.as_str(),
            index_uid,
            event.tenant_id.as_str(),
            event.owner_user_id.as_str(),
            now,
        ),
    );
    nodes.push(
        personal_node(
            base.as_str(),
            "/.overview",
            title.as_str(),
            1,
            overview.as_str(),
            index_uid,
            event.tenant_id.as_str(),
            event.owner_user_id.as_str(),
            now,
        ),
    );
    nodes.push(
        personal_node(
            base.as_str(),
            "/detail",
            title.as_str(),
            2,
            event.text.as_str(),
            index_uid,
            event.tenant_id.as_str(),
            event.owner_user_id.as_str(),
            now,
        ),
    );
    put_personal_nodes(data, index_uid, &nodes);
    assert(are_event_nodes(nodes@, *event, index_uid@, texts(secrets@), now));
    assert(nodes_put(*old(data), *data, index_uid@, nodes@));
}

/// The text of an optional value; no value is the empty text.
pub open spec fn text_or_empty(o: Option<Seq<char>>) -> Seq<char> {
    crate::naming::owner_text(o)
}

/// Whether an event says what a request says.
pub open spec fn same_request(
    event: HistoryEvent,
    req: AppendHistoryEventRequest,
    tenant_id: Seq<char>,
    owner: Seq<char>,
) -> bool {
    &&& event.event_type@ == req.event_type->Some_0@
    &&& event.entity_type@ == req.entity_type->Some_0@
    &&& event.entity_id@ == req.entity_id->Some_0@
    &&& Some(event.occurred_at) == req.occurred_at
    &&& Some(event.observed_at) == req.observed_at
    &&& event.source_kind@ == req.source_kind->Some_0@
    &&& event.source_ref.same_as(&req.source_ref->Some_0)
    &&& event.text@ == text_or_empty(opt_text(req.text))
    &&& event.payload.same_as(&req.payload)
    &&& texts(event.tags@) == texts(req.tags@)
    &&& event.privacy@ == req.privacy@
    &&& event.tenant_id@ == tenant_id
    &&& event.owner_user_id@ == owner
}

/// Whether `event` is the one that a request makes.
pub open spec fn is_requested_event(
    event: HistoryEvent,
    req: AppendHistoryEventRequest,
    resolver: EventIndexResolver,
    tenant_id: Seq<char>,
    owner: Seq<char>,
    id: Seq<char>,
) -> bool {
    &&& event.id@ == id
    &&& Some(event.event_type) == req.event_type
    &&& Some(event.entity_type) == req.entity_type
    &&& Some(event.entity_id) == req.entity_id
    &&& Some(event.occurred_at) == req.occurred_at
    &&& Some(event.observed_at) == req.observed_at
    &&& Some(event.source_kind) == req.source_kind
    &&& Some(event.source_ref) == req.source_ref
    &&& event.text@ == text_or_empty(opt_text(req.text))
    &&& event.payload == req.payload
    &&& event.tags == req.tags
    &&& event.privacy == req.privacy
    &&& event.tenant_id@ == tenant_id
    &&& event.owner_user_id@ == owner
    &&& event.owner_user_id_hash@ == resolver.user_digest(owner)
    &&& event.event_index_uid@ == resolver.events_of(tenant_id, owner)
    &&& event.event_index_schema_version == EVENT_INDEX_SCHEMA_VERSION
    &&& opt_text(event.idempotency_key_hash) == request_key_hash(resolver, req)
}

/// The hash of the idempotency key of a request.
pub open spec fn request_key_hash(
    resolver: EventIndexResolver,
    req: AppendHistoryEventRequest,
) -> Option<Seq<char>> {
    match opt_text(req.idempotency_key) {
        Some(key) => Some(resolver.key_digest(key)),
        None => None,
    }
}

/// The event that was appended under the idempotency key of a request.
pub open spec fn earlier_event(
    d: StoreData,
    resolver: EventIndexResolver,
    req: AppendHistoryEventRequest,
    tenant_id: Seq<char>,
    owner: Seq<char>,
) -> Option<HistoryEvent> {
    match request_key_hash(resolver, req) {
        Some(hash) => {
            let key = (resolver.events_of(tenant_id, owner), hash);
            if d.event_idempotency@.dom().contains(key) && d.event_by_id@.dom().contains(
                d.event_idempotency@[key]@,
            ) {
                Some(d.event_by_id@[d.event_idempotency@[key]@])
            } else {
                None
            }
        },
        None => None,
    }
}

/// What is answered about an event.
pub struct HistoryEventResponse {
    pub event: HistoryEvent,
    pub duplicate: bool,
    pub materialization_job_id: Option<String>,
    pub routing: EventRouting,
}

/// The error where an idempotency key comes with another request.
pub open spec fn key_conflict() -> ErrorView {
    ErrorView::Conflict("idempotency key was already used for a different request"@)
}

/// The state after a new event was appended to a store with the index of its owner.
pub open spec fn event_appended(
    before: StoreData,
    after: StoreData,
    event: HistoryEvent,
    context_uid: Seq<char>,
    secrets: Seq<Seq<char>>,
    now: i64,
) -> bool {
    exists|mid: StoreData|
        #[trigger] event_inserted(before, mid, event) && event_context_written(
            mid,
            after,
            event,
            context_uid,
            secrets,
            now,
        )
}

/// What a request to append an event leads to, once its owner is settled.
pub open spec fn append_result(
    before: StoreData,
    after: StoreData,
    r: Result<HistoryEventResponse, ApiError>,
    resolver: EventIndexResolver,
    req: AppendHistoryEventRequest,
    tenant_id: Seq<char>,
    owner: Seq<char>,
    secrets: Seq<Seq<char>>,
    event_id: Seq<char>,
    job_id: Seq<char>,
    now: i64,
) -> bool {
    exists|mid: StoreData|
        {
            &&& #[trigger] index_ensured(
                before,
                mid,
                resolver,
                tenant_id,
                owner,
                EVENT_INDEX_SCHEMA_VERSION,
                now,
            )
            &&& match earlier_event(mid, resolver, req, tenant_id, owner) {
                Some(event) => if same_request(event, req, tenant_id, owner) {
                    &&& after == mid
                    &&& r is Ok
                    &&& r->Ok_0.event == event
                    &&& r->Ok_0.duplicate
                    &&& r->Ok_0.materialization_job_id is None
                    &&& resolver.routes(r->Ok_0.routing, tenant_id, owner)
                } else {
                    after == mid && fails_with(r, key_conflict())
                },
                None => {
                    &&& r is Ok
                    &&& is_requested_event(
                        r->Ok_0.event,
                        req,
                        resolver,
                        tenant_id,
                        owner,
                        event_id,
                    )
                    &&& !r->Ok_0.duplicate
                    &&& opt_text(r->Ok_0.materialization_job_id) == Some(job_id)
                    &&& resolver.routes(r->Ok_0.routing, tenant_id, owner)
                    &&& event_appended(
                        mid,
                        after,
                        r->Ok_0.event,
                        resolver.context_of(tenant_id, owner),
                        secrets,
                        now,
                    )
                },
            }
        }
}

fn find_earlier(
    data: &StoreData,
    resolver: &EventIndexResolver,
    req: &AppendHistoryEventRequest,
    routing: &EventRouting,
    Ghost(tenant_id): Ghost<Seq<char>>,
    Ghost(owner): Ghost<Seq<char>>,
) -> (r: Option<HistoryEvent>)
    requires
        routing.event_index_uid@ == resolver.events_of(tenant_id, owner),
    ensures
        r == earlier_event(*data, *resolver, *req, tenant_id, owner),
{
    match &req.idempotency_key {
        Some(k) => {
            let key: (String, String) = (
                routing.event_index_uid.clone(),
                resolver.idempotency_hash(k.as_str()),
            );
            match data.event_idempotency.get(&key) {
                Some(id) => match data.event_by_id.get(id) {
                    Some(event) => Some(event.clone()),
                    None => None,
                },
                None => None,
            }
        },
        None => None,
    }
}

fn says_the_same(
    event: &HistoryEvent,
    req: &AppendHistoryEventRequest,
    tenant_id: &str,
    owner: &str,
) -> (r: bool)
    requires
        event_refusal(*req) is None,
    ensures
        r == same_request(*event, *req, tenant_id@, owner@),
{
    let text: &str = crate::naming::owner_or_empty(as_deref(&req.text));
    match (
        &req.event_type,
        &req.entity_type,
        &req.entity_id,
        &req.occurred_at,
        &req.observed_at,
        &req.source_kind,
        &req.source_ref,
    ) {
        (
            Some(event_type),
            Some(entity_type),
            Some(entity_id),
            Some(occurred_at),
            Some(observed_at),
            Some(source_kind),
            Some(source_ref),
        ) => text_eq(event.event_type.as_str(), event_type.as_str()) && text_eq(
            event.entity_type.as_str(),
            entity_type.as_str(),
        ) && text_eq(event.entity_id.as_str(), entity_id.as_str()) && event.occurred_at
            == *occurred_at && event.observed_at == *observed_at && text_eq(
            event.source_kind.as_str(),
            source_kind.as_str(),
        ) && event.source_ref.same(source_ref) && text_eq(event.text.as_str(), text)
            && event.payload.same(&req.payload) && texts_eq(&event.tags, &req.tags) && text_eq(
            event.privacy.as_str(),
            req.privacy.as_str(),
        ) && text_eq(event.tenant_id.as_str(), tenant_id) && text_eq(
            event.owner_user_id.as_str(),
            owner,
        ),
        _ => false,
    }
}

fn requested_event(
    req: &AppendHistoryEventRequest,
    resolver: &EventIndexResolver,
    routing: &EventRouting,
    tenant_id: &str,
    owner: &str,
    event_id: &str,
) -> (r: HistoryEvent)
    requires
        event_refusal(*req) is None,
        resolver.routes(*routing, tenant_id@, owner@),
    ensures
        is_requested_event(r, *req, *resolver, tenant_id@, owner@, event_id@),
{
    let text: String = crate::naming::owner_or_empty(as_deref(&req.text)).to_owned();
    let hash: Option<String> = match &req.idempotency_key {
        Some(key) => Some(resolver.idempotency_hash(key.as_str())),
        None => None,
    };
    HistoryEvent {
        id: event_id.to_owned(),
        event_type: req.event_type.clone().unwrap(),
        entity_type: req.entity_type.clone().unwrap(),
        entity_id: req.entity_id.clone().unwrap(),
        occurred_at: req.occurred_at.unwrap(),
        observed_at: req.observed_at.unwrap(),
        source_kind: req.source_kind.clone().unwrap(),
        source_ref: req.source_ref.clone().unwrap(),
        text,
        payload: req.payload.clone(),
        tags: req.tags.clone(),
        privacy: req.privacy.clone(),
        tenant_id: tenant_id.to_owned(),
        owner_user_id: owner.to_owned(),
        owner_user_id_hash: routing.owner_user_id_hash.clone(),
        event_index_uid: routing.event_index_uid.clone(),
        event_index_schema_version: EVENT_INDEX_SCHEMA_VERSION,
        idempotency_key_hash: hash,
    }
}

/// Appends an event to the history of an owner. A request that comes again under its idempotency
/// key is answered with the event that it made; another request under the key is refused.
pub fn append_event(
    data: &mut StoreData,
    resolver: &EventIndexResolver,
    tenant_id: &str,
    path_owner_user_id: Option<&str>,
    req: &AppendHistoryEventRequest,
    secrets: &Vec<String>,
    event_id: &str,
    job_id: &str,
    now: i64,
) -> (r: Result<HistoryEventResponse, ApiError>)
    requires
        indexes_have_room(*old(data), 1),
    ensures
        match event_owner(opt_str(path_owner_user_id), *req) {
            Err(e) => *final(data) == *old(data) && fails_with(r, e),
            Ok(owner) => append_result(
                *old(data),
                *final(data),
                r,
                *resolver,
                *req,
                tenant_id@,
                owner,
                texts(secrets@),
                event_id@,
                job_id@,
                now,
            ),
        },
{
    let owner: String = match validate_append_event_request(path_owner_user_id, req) {
        Ok(owner) => owner,
        Err(error) => {
            return Err(error);
        },
    };
    let (index, routing): (UserEventIndex, EventRouting) = ensure_user_index_entry(
        data,
        resolver,
        tenant_id,
        owner.as_str(),
        EVENT_INDEX_SCHEMA_VERSION,
        now,
    );
    let ghost mid = *data;
    proof {
        lemma_room_after_ensure(
            *old(data),
            mid,
            *resolver,
            tenant_id@,
            owner@,
            EVENT_INDEX_SCHEMA_VERSION,
            now,
        );
    }
    match find_earlier(data, resolver, req, &routing, Ghost(tenant_id@), Ghost(owner@)) {
        Some(event) => {
            if !says_the_same(&event, req, tenant_id, owner.as_str()) {
                return Err(
                    ApiError::conflict("idempotency key was already used for a different request"),
                );
            }
            return Ok(
                HistoryEventResponse {
                    event,
                    duplicate: true,
                    materialization_job_id: None,
                    routing,
                },
            );
        },
        None => {},
    }
    let event: HistoryEvent = requested_event(
        req,
        resolver,
        &routing,
        tenant_id,
        owner.as_str(),
        event_id,
    );
    insert_event(data, &event);
    let ghost inserted = *data;
    write_event_context(
        data,
        routing.personal_context_index_uid.as_str(),
        &event,
        secrets,
        now,
    );
    assert(event_inserted(mid, inserted, event));
    Ok(
        HistoryEventResponse {
            event,
            duplicate: false,
            materialization_job_id: Some(job_id.to_owned()),
            routing,
        },
    )
}

proof fn lemma_room_after_ensure(
    before: StoreData,
    mid: StoreData,
    resolver: EventIndexResolver,
    tenant_id: Seq<char>,
    owner: Seq<char>,
    schema_version: u32,
    now: i64,
)
    requires
        indexes_have_room(before, 1),
        index_ensured(before, mid, resolver, tenant_id, owner, schema_version, now),
    ensures
        indexes_have_room(mid, 1),
{
    let key = index_key(resolver, tenant_id, owner);
    assert forall|k: (Seq<char>, Seq<char>)| #[trigger]
        mid.user_indexes@.dom().contains(k) implies mid.user_indexes@[k].event_count_estimate + 1
        <= u64::MAX by {
        if before.user_indexes@.dom().contains(k) {
            assert(before.user_indexes@[k].event_count_estimate + 1 <= u64::MAX);
        }
    }
}

/// A request that is made a second time under its idempotency key changes nothing and is answered
/// with the event of the first time.
pub proof fn appending_twice_is_appending_once(
    before: StoreData,
    mid: StoreData,
    after: StoreData,
    first: Result<HistoryEventResponse, ApiError>,
    second: Result<HistoryEventResponse, ApiError>,
    resolver: EventIndexResolver,
    req: AppendHistoryEventRequest,
    tenant_id: Seq<char>,
    owner: Seq<char>,
    secrets: Seq<Seq<char>>,
    first_id: Seq<char>,
    second_id: Seq<char>,
    first_job: Seq<char>,
    second_job: Seq<char>,
    first_now: i64,
    second_now: i64,
)
    requires
        req.idempotency_key is Some,
        append_result(
            before,
            mid,
            first,
            resolver,
            req,
            tenant_id,
            owner,
            secrets,
            first_id,
            first_job,
            first_now,
        ),
        first is Ok,
        append_result(
            mid,
            after,
            second,
            resolver,
            req,
            tenant_id,
            owner,
            secrets,
            second_id,
            second_job,
            second_now,
        ),
    ensures
        second is Ok,
        second->Ok_0.duplicate,
        second->Ok_0.event == first->Ok_0.event,
        after == (StoreData { user_indexes: after.user_indexes, ..mid }),
        after.user_indexes@.dom() == mid.user_indexes@.dom(),
        forall|k: (Seq<char>, Seq<char>)| #[trigger]
            mid.user_indexes@.dom().contains(k) ==> after.user_indexes@[k].same_as(
                &mid.user_indexes@[k],
            ),
{
    let key = index_key(resolver, tenant_id, owner);
    let event = first->Ok_0.event;
    let ensured = choose|m: StoreData|
        #[trigger] index_ensured(
            before,
            m,
            resolver,
            tenant_id,
            owner,
            EVENT_INDEX_SCHEMA_VERSION,
            first_now,
        ) && match earlier_event(m, resolver, req, tenant_id, owner) {
            Some(event) => mid == m && first->Ok_0.event == event && same_request(
                event,
                req,
                tenant_id,
                owner,
            ),
            None => is_requested_event(event, req, resolver, tenant_id, owner, first_id)
                && event_appended(
                m,
                mid,
                event,
                resolver.context_of(tenant_id, owner),
                secrets,
                first_now,
            ),
        };
    if earlier_event(ensured, resolver, req, tenant_id, owner) is None {
        let inserted = choose|m: StoreData|
            #[trigger] event_inserted(ensured, m, event) && event_context_written(
                m,
                mid,
                event,
                resolver.context_of(tenant_id, owner),
                secrets,
                first_now,
            );
        let nodes = choose|nodes: Seq<ContextNode>|
            are_event_nodes(
                nodes,
                event,
                resolver.context_of(tenant_id, owner),
                secrets,
                first_now,
            ) && #[trigger] nodes_put(
                inserted,
                mid,
                resolver.context_of(tenant_id, owner),
                nodes,
            );
        let place = (
            resolver.events_of(tenant_id, owner),
            resolver.key_digest(req.idempotency_key->Some_0@),
        );
        assert(inserted.event_idempotency@.dom().contains(place));
        event.payload.itself();
        event.source_ref.itself();
    }
    assert(earlier_event(mid, resolver, req, tenant_id, owner) == Some(event));
    assert(same_request(event, req, tenant_id, owner));
    let index = mid.user_indexes@[key];
    assert(mid.user_indexes@.dom().contains(key));
    assert(index.schema_version == EVENT_INDEX_SCHEMA_VERSION);
    assert(index.settings_hash@ == EVENT_SETTINGS_HASH@ && index.status@ == "active"@);
    assert(after.user_indexes@.dom() =~= mid.user_indexes@.dom());
    assert forall|k: (Seq<char>, Seq<char>)| #[trigger]
        mid.user_indexes@.dom().contains(k) implies after.user_indexes@[k].same_as(
        &mid.user_indexes@[k],
    ) by {
        mid.user_indexes@[k].itself();
    }
}

/// An event that the library itself appends.
pub struct InternalEvent<'a> {
    pub event_type: &'a str,
    pub entity_type: &'a str,
    pub entity_id: &'a str,
    pub text: &'a str,
    pub payload: Json,
}

/// Whether `req` is the request for an event that the library itself appends.
pub open spec fn is_internal_request(
    req: AppendHistoryEventRequest,
    event_type: Seq<char>,
    entity_type: Seq<char>,
    entity_id: Seq<char>,
    text: Seq<char>,
    payload: Json,
    owner: Seq<char>,
    now: i64,
) -> bool {
    &&& opt_text(req.event_type) == Some(event_type)
    &&& opt_text(req.entity_type) == Some(entity_type)
    &&& opt_text(req.entity_id) == Some(entity_id)
    &&& opt_text(req.owner_user_id) == Some(owner)
    &&& req.occurred_at == Some(now)
    &&& req.observed_at == Some(now)
    &&& opt_text(req.source_kind) == Some("state_api"@)
    &&& req.source_ref is Some
    &&& req.source_ref->Some_0.kind@ == "api"@
    &&& req.source_ref->Some_0.id@ == entity_id
    &&& req.source_ref->Some_0.uri is None
    &&& req.source_ref->Some_0.meta is None
    &&& opt_text(req.text) == Some(text)
    &&& req.payload == payload
    &&& req.tags@.len() == 0
    &&& req.privacy@ == "private"@
    &&& req.idempotency_key is None
    &&& req.event_index_hint is None
}

/// The request for an event that the library itself appends.
pub fn internal_request(event: InternalEvent<'_>, owner: &str, now: i64) -> (r:
    AppendHistoryEventRequest)
    ensures
        is_internal_request(
            r,
            event.event_type@,
            event.entity_type@,
            event.entity_id@,
            event.text@,
            event.payload,
            owner@,
            now,
        ),
{
    AppendHistoryEventRequest {
        event_type: Some(event.event_type.to_owned()),
        entity_type: Some(event.entity_type.to_owned()),
        entity_id: Some(event.entity_id.to_owned()),
        owner_user_id: Some(owner.to_owned()),
        occurred_at: Some(now),
        observed_at: Some(now),
        source_kind: Some("state_api".to_owned()),
        source_ref: Some(
            SourceRef {
                kind: "api".to_owned(),
                id: event.entity_id.to_owned(),
                uri: None,
                meta: None,
            },
        ),
        text: Some(event.text.to_owned()),
        payload: event.payload,
        tags: std::sync::Arc::new(Vec::new()),
        privacy: "private".to_owned(),
        idempotency_key: None,
        event_index_hint: None,
    }
}

/// What appending an event of the library itself leads to.
pub open spec fn internal_result(
    before: StoreData,
    after: StoreData,
    r: Result<HistoryEventResponse, ApiError>,
    req: AppendHistoryEventRequest,
    resolver: EventIndexResolver,
    tenant_id: Seq<char>,
    owner: Seq<char>,
    secrets: Seq<Seq<char>>,
    event_id: Seq<char>,
    job_id: Seq<char>,
    now: i64,
) -> bool {
    match event_owner(Some(owner), req) {
        Err(e) => after == before && fails_with(r, e),
        Ok(o) => append_result(
            before,
            after,
            r,
            resolver,
            req,
            tenant_id,
            o,
            secrets,
            event_id,
            job_id,
            now,
        ),
    }
}

/// Appends an event of the library itself.
pub fn append_internal_event(
    data: &mut StoreData,
    resolver: &EventIndexResolver,
    tenant_id: &str,
    owner_user_id: &str,
    event: InternalEvent<'_>,
    secrets: &Vec<String>,
    event_id: &str,
    job_id: &str,
    now: i64,
) -> (r: Result<HistoryEventResponse, ApiError>)
    requires
        indexes_have_room(*old(data), 1),
    ensures
        exists|req: AppendHistoryEventRequest| #[trigger]
            is_internal_request(
                req,
                event.event_type@,
                event.entity_type@,
                event.entity_id@,
                event.text@,
                event.payload,
                owner_user_id@,
                now,
            ) && internal_result(
                *old(data),
                *final(data),
                r,
                req,
                *resolver,
                tenant_id@,
                owner_user_id@,
                texts(secrets@),
                event_id@,
                job_id@,
                now,
            ),
{
    let ghost whole = event;
    let req: AppendHistoryEventRequest = internal_request(event, owner_user_id, now);
    let r: Result<HistoryEventResponse, ApiError> = append_event(
        data,
        resolver,
        tenant_id,
        Some(owner_user_id),
        &req,
        secrets,
        event_id,
        job_id,
        now,
    );
    assert(is_internal_request(
        req,
        whole.event_type@,
        whole.entity_type@,
        whole.entity_id@,
        whole.text@,
        whole.payload,
        owner_user_id@,
        now,
    ));
    r
}

/// What an event of the library itself says, by content.
pub struct NoteView {
    pub event_type: Seq<char>,
    pub entity_type: Seq<char>,
    pub entity_id: Seq<char>,
    pub text: Seq<char>,
    pub members: Seq<(Seq<char>, Seq<char>)>,
}

/// What an event of the library itself says; its payload is an object of texts.
pub struct Note<'a> {
    pub event_type: &'a str,
    pub entity_type: &'a str,
    pub entity_id: &'a str,
    pub text: &'a str,
    pub members: Vec<(&'static str, String)>,
}

impl<'a> View for Note<'a> {
    type V = NoteView;

    open spec fn view(&self) -> NoteView {
        NoteView {
            event_type: self.event_type@,
            entity_type: self.entity_type@,
            entity_id: self.entity_id@,
            text: self.text@,
            members: pair_texts(self.members@),
        }
    }
}

/// Who appends an event of the library itself, and when.
pub struct Stamp<'a> {
    pub secrets: &'a Vec<String>,
    pub event_id: &'a str,
    pub job_id: &'a str,
    pub now: i64,
}

/// A stamp by content.
pub struct StampView {
    pub secrets: Seq<Seq<char>>,
    pub event_id: Seq<char>,
    pub job_id: Seq<char>,
    pub now: i64,
}

impl<'a> View for Stamp<'a> {
    type V = StampView;

    open spec fn view(&self) -> StampView {
        StampView {
            secrets: texts(self.secrets@),
            event_id: self.event_id@,
            job_id: self.job_id@,
            now: self.now,
        }
    }
}

/// What noting something in the history of an owner leads to.
pub open spec fn noted(
    before: StoreData,
    after: StoreData,
    r: Result<HistoryEventResponse, ApiError>,
    resolver: EventIndexResolver,
    tenant_id: Seq<char>,
    owner: Seq<char>,
    note: NoteView,
    stamp: StampView,
) -> bool {
    exists|req: AppendHistoryEventRequest|
        {
            &&& is_object_of(req.payload, note.members)
            &&& #[trigger] is_internal_request(
                req,
                note.event_type,
                note.entity_type,
                note.entity_id,
                note.text,
                req.payload,
                owner,
                stamp.now,
            )
            &&& internal_result(
                before,
                after,
                r,
                req,
                resolver,
                tenant_id,
                owner,
                stamp.secrets,
                stamp.event_id,
                stamp.job_id,
                stamp.now,
            )
        }
}

/// Notes something in the history of an owner.
pub fn note_event(
    data: &mut StoreData,
    resolver: &EventIndexResolver,
    tenant_id: &str,
    owner: &str,
    note: &Note<'_>,
    stamp: &Stamp<'_>,
) -> (r: Result<HistoryEventResponse, ApiError>)
    requires
        indexes_have_room(*old(data), 1),
    ensures
        noted(*old(data), *final(data), r, *resolver, tenant_id@, owner@, note@, stamp@),
{
    let payload: Json = object_of(&note.members);
    let ghost whole = payload;
    let event: InternalEvent<'_> = InternalEvent {
        event_type: note.event_type,
        entity_type: note.entity_type,
        entity_id: note.entity_id,
        text: note.text,
        payload,
    };
    let r: Result<HistoryEventResponse, ApiError> = append_internal_event(
        data,
        resolver,
        tenant_id,
        owner,
        event,
        stamp.secrets,
        stamp.event_id,
        stamp.job_id,
        stamp.now,
    );
    proof {
        let req = choose|req: AppendHistoryEventRequest| #[trigger]
            is_internal_request(
                req,
                note.event_type@,
                note.entity_type@,
                note.entity_id@,
                note.text@,
                whole,
                owner@,
                stamp.now,
            ) && internal_result(
                *old(data),
                *data,
                r,
                req,
                *resolver,
                tenant_id@,
                owner@,
                texts(stamp.secrets@),
                stamp.event_id@,
                stamp.job_id@,
                stamp.now,
            );
        assert(is_internal_request(
            req,
            note@.event_type,
            note@.entity_type,
            note@.entity_id,
            note@.text,
            req.payload,
            owner@,
            stamp@.now,
        ));
    }
    r
}

/// Noting something touches the history of the owner and the context alone: every other record
/// stays as it is.
pub proof fn noting_keeps_other_records(
    before: StoreData,
    after: StoreData,
    r: Result<HistoryEventResponse, ApiError>,
    resolver: EventIndexResolver,
    tenant_id: Seq<char>,
    owner: Seq<char>,
    note: NoteView,
    stamp: StampView,
)
    requires
        noted(before, after, r, resolver, tenant_id, owner, note, stamp),
    ensures
        after == (StoreData {
            user_indexes: after.user_indexes,
            events_by_index: after.events_by_index,
            event_by_id: after.event_by_id,
            event_idempotency: after.event_idempotency,
            personal_context: after.personal_context,
            ..before
        }),
{
    let req = choose|req: AppendHistoryEventRequest|
        {
            &&& is_object_of(req.payload, note.members)
            &&& #[trigger] is_internal_request(
                req,
                note.event_type,
                note.entity_type,
                note.entity_id,
                note.text,
                req.payload,
                owner,
                stamp.now,
            )
            &&& internal_result(
                before,
                after,
                r,
                req,
                resolver,
                tenant_id,
                owner,
                stamp.secrets,
                stamp.event_id,
                stamp.job_id,
                stamp.now,
            )
        };
    if event_owner(Some(owner), req) is Ok {
        lemma_append_keeps_other_records(
            before,
            after,
            r,
            resolver,
            req,
            tenant_id,
            event_owner(Some(owner), req)->Ok_0,
            stamp.secrets,
            stamp.event_id,
            stamp.job_id,
            stamp.now,
        );
    }
}

proof fn lemma_append_keeps_other_records(
    before: StoreData,
    after: StoreData,
    r: Result<HistoryEventResponse, ApiError>,
    resolver: EventIndexResolver,
    req: AppendHistoryEventRequest,
    tenant_id: Seq<char>,
    owner: Seq<char>,
    secrets: Seq<Seq<char>>,
    event_id: Seq<char>,
    job_id: Seq<char>,
    now: i64,
)
    requires
        append_result(
            before,
            after,
            r,
            resolver,
            req,
            tenant_id,
            owner,
            secrets,
            event_id,
            job_id,
            now,
        ),
    ensures
        after == (StoreData {
            user_indexes: after.user_indexes,
            events_by_index: after.events_by_index,
            event_by_id: after.event_by_id,
            event_idempotency: after.event_idempotency,
            personal_context: after.personal_context,
            ..before
        }),
{
}

} // verus!
