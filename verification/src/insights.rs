//! Insights: what was learned about an owner, saved, changed and found again.

use vstd::prelude::*;
use vstd::string::*;

use crate::data::StoreData;
use crate::documents::put_personal_nodes;
use crate::error::{fails_with, ApiError, ErrorView};
use crate::facts::{changed_to, is_required};
use crate::history::{
    indexes_have_room, missing, nodes_put, note_event, noted, HistoryEventResponse, Note, NoteView,
    Stamp, StampView, ABSTRACT_CHARS,
};
use crate::history_search::{limit_to, limited};
use crate::laws::choosing::what_is_chosen;
use crate::masking::{fragment_masked, mask_secret_fragment_projection_preserving_chars};
use crate::model::knowledge::{ContextNode, InsightRecord, SourceRef};
use crate::naming::{first_chars, sanitize_slug, slug, truncate_chars};
use crate::nodes::{is_node, personal_node, personal_part};
use crate::order::{sort_by, sorted_by, strict_order};
use crate::reading::require_string;
use crate::record::{select_values, List};
use crate::resolver::{EventIndexResolver, EventRouting};
use crate::text::{
    as_deref, is_empty_text, opt_str, opt_text, text_eq, texts, texts_contain,
};

verus! {

/// The path of an insight.
pub open spec fn insight_uri(insight_type: Seq<char>, title: Seq<char>) -> Seq<char> {
    "ctx://user/insights/"@ + slug(insight_type) + "/"@ + slug(title)
}

/// The path of an insight.
pub fn analysis_insight_context_uri(insight_type: &str, title: &str) -> (r: String)
    ensures
        r@ == insight_uri(insight_type@, title@),
{
    let mut uri: String = "ctx://user/insights/".to_owned();
    uri.append(sanitize_slug(insight_type).as_str());
    uri.append("/");
    uri.append(sanitize_slug(title).as_str());
    uri
}

/// Whether `nodes` are the layers of the entry of an insight.
pub open spec fn are_insight_nodes(
    nodes: Seq<ContextNode>,
    insight: InsightRecord,
    tenant_id: Seq<char>,
    overview: Seq<char>,
    index_uid: Seq<char>,
    secrets: Seq<Seq<char>>,
    now: i64,
) -> bool {
    let base = insight.context_uri@;
    let owner = insight.owner_user_id@;
    &&& nodes.len() == 2
    &&& is_node(
        nodes[0],
        personal_part(
            base + "/.abstract"@,
            insight.title@,
            0,
            first_chars(fragment_masked(insight.statement@, secrets), ABSTRACT_CHARS as nat),
            index_uid,
            tenant_id,
            owner,
        ),
        now,
    )
    &&& is_node(
        nodes[1],
        personal_part(
            base + "/.overview"@,
            insight.title@,
            1,
            overview,
            index_uid,
            tenant_id,
            owner,
        ),
        now,
    )
}

/// The state after the entry of an insight was written.
pub open spec fn insight_context_written(
    before: StoreData,
    after: StoreData,
    insight: InsightRecord,
    tenant_id: Seq<char>,
    overview: Seq<char>,
    index_uid: Seq<char>,
    secrets: Seq<Seq<char>>,
    now: i64,
) -> bool {
    exists|nodes: Seq<ContextNode>|
        are_insight_nodes(nodes, insight, tenant_id, overview, index_uid, secrets, now)
            && #[trigger] nodes_put(before, after, index_uid, nodes)
}

/// Writes the entry of an insight into the context of its owner.
pub fn write_insight_context(
    data: &mut StoreData,
    tenant_id: &str,
    index_uid: &str,
    insight: &InsightRecord,
    overview: &str,
    secrets: &Vec<String>,
    now: i64,
)
    ensures
        insight_context_written(
            *old(data),
            *final(data),
            *insight,
            tenant_id@,
            overview@,
            index_uid@,
            texts(secrets@),
            now,
        ),
{
    let masked: String = mask_secret_fragment_projection_preserving_chars(
        insight.statement.as_str(),
        secrets,
    );
    let abstract_body: String = truncate_chars(masked.as_str(), ABSTRACT_CHARS);
    let mut nodes: Vec<ContextNode> = Vec::new();
    nodes.push(
        personal_node(
            insight.context_uri.as_str(),
            "/.abstract",
            insight.title.as_str(),
            0,
            abstract_body.as_str(),
            index_uid,
            tenant_id,
            insight.owner_user_id.as_str(),
            now,
        ),
    );
    nodes.push(
        personal_node(
            insight.context_uri.as_str(),
            "/.overview",
            insight.title.as_str(),
            1,
            overview,
            index_uid,
            tenant_id,
            insight.owner_user_id.as_str(),
            now,
        ),
    );
    put_personal_nodes(data, index_uid, &nodes);
    assert(are_insight_nodes(
        nodes@,
        *insight,
        tenant_id@,
        overview@,
        index_uid@,
        texts(secrets@),
        now,
    ));
    assert(nodes_put(*old(data), *data, index_uid@, nodes@));
}

/// An insight to be saved.
pub struct InsightUpsertRequest {
    pub owner_user_id: Option<String>,
    pub insight_type: Option<String>,
    pub title: Option<String>,
    pub statement: Option<String>,
    pub evidence_text: Option<String>,
    pub source_refs: List<SourceRef>,
    /// The bits of a 32-bit float.
    pub confidence: u32,
    /// The bits of a 32-bit float.
    pub salience: u32,
    pub privacy: String,
    pub idempotency_key: Option<String>,
}

/// Why an insight is not saved.
pub open spec fn insight_refusal(req: InsightUpsertRequest) -> Option<ErrorView> {
    if missing(opt_text(req.owner_user_id)) {
        Some(is_required("owner_user_id"@))
    } else if missing(opt_text(req.insight_type)) {
        Some(is_required("insight_type"@))
    } else if missing(opt_text(req.title)) {
        Some(is_required("title"@))
    } else if missing(opt_text(req.statement)) {
        Some(is_required("statement"@))
    } else {
        None
    }
}

/// The key under which the id of an insight is remembered.
pub open spec fn insight_memory_key(
    resolver: EventIndexResolver,
    tenant_id: Seq<char>,
    req: InsightUpsertRequest,
) -> Option<(Seq<char>, Seq<char>, Seq<char>)> {
    match opt_text(req.idempotency_key) {
        Some(key) => Some((tenant_id, req.owner_user_id->Some_0@, resolver.key_digest(key))),
        None => None,
    }
}

/// The id of an insight: the one that is remembered under its idempotency key, else a new one.
pub open spec fn insight_id(
    d: StoreData,
    resolver: EventIndexResolver,
    tenant_id: Seq<char>,
    req: InsightUpsertRequest,
    new_id: Seq<char>,
) -> Seq<char> {
    match insight_memory_key(resolver, tenant_id, req) {
        Some(key) => if d.insight_idempotency@.dom().contains(key) {
            d.insight_idempotency@[key]@
        } else {
            new_id
        },
        None => new_id,
    }
}

/// Whether `insight` is an insight as it is saved: the age of the one before is kept.
pub open spec fn is_saved_insight(
    insight: InsightRecord,
    d: StoreData,
    resolver: EventIndexResolver,
    tenant_id: Seq<char>,
    req: InsightUpsertRequest,
    new_id: Seq<char>,
    now: i64,
) -> bool {
    let id = insight_id(d, resolver, tenant_id, req, new_id);
    &&& insight.id@ == id
    &&& insight.tenant_id@ == tenant_id
    &&& insight.insight_type@ == req.insight_type->Some_0@
    &&& insight.title@ == req.title->Some_0@
    &&& insight.statement@ == req.statement->Some_0@
    &&& insight.status@ == "active"@
    &&& insight.confidence == req.confidence
    &&& insight.salience == req.salience
    &&& insight.context_uri@ == insight_uri(
        req.insight_type->Some_0@,
        req.title->Some_0@,
    )
    &&& insight.source_refs == req.source_refs
    &&& insight.owner_user_id@ == req.owner_user_id->Some_0@
    &&& insight.privacy == req.privacy
    &&& insight.created_at == (if d.insights@.dom().contains(id) {
        d.insights@[id].created_at
    } else {
        now
    })
    &&& insight.updated_at == now
}

/// The state after an insight was put under its id, and the id under the idempotency key.
pub open spec fn insight_put(
    before: StoreData,
    after: StoreData,
    insight: InsightRecord,
    memory_key: Option<(Seq<char>, Seq<char>, Seq<char>)>,
) -> bool {
    &&& after == (StoreData {
        insights: after.insights,
        insight_idempotency: after.insight_idempotency,
        ..before
    })
    &&& after.insights@ == before.insights@.insert(insight.id@, insight)
    &&& match memory_key {
        Some(key) => if before.insight_idempotency@.dom().contains(key) {
            after.insight_idempotency == before.insight_idempotency
        } else {
            &&& after.insight_idempotency@.dom().contains(key)
            &&& after.insight_idempotency@ == before.insight_idempotency@.insert(
                key,
                after.insight_idempotency@[key],
            )
            &&& after.insight_idempotency@[key]@ == insight.id@
        },
        None => after.insight_idempotency == before.insight_idempotency,
    }
}

/// What is answered about an insight.
pub struct InsightResponse {
    pub insight: InsightRecord,
    pub history_event_id: String,
    pub context_uri: String,
}

/// What is answered about an insight that was saved, once that was noted.
pub open spec fn insight_answered(
    r: Result<InsightResponse, ApiError>,
    e: Result<HistoryEventResponse, ApiError>,
    insight: InsightRecord,
) -> bool {
    match e {
        Err(error) => r is Err && r->Err_0 == error,
        Ok(response) => {
            &&& r is Ok
            &&& r->Ok_0.insight == insight
            &&& r->Ok_0.history_event_id@ == response.event.id@
            &&& r->Ok_0.context_uri@ == insight.context_uri@
        },
    }
}

/// What the history says of an insight that was saved.
pub open spec fn insight_note(insight: InsightRecord, evidence: Option<Seq<char>>) -> NoteView {
    NoteView {
        event_type: "insight.upserted"@,
        entity_type: "insight"@,
        entity_id: insight.id@,
        text: match evidence {
            Some(text) => text,
            None => "Insight saved: "@ + insight.statement@,
        },
        members: seq![("insight_id"@, insight.id@), ("title"@, insight.title@)],
    }
}

/// What saving an insight leads to: it is put in the place of the one before, its entry is
/// written, and the history says so.
pub open spec fn insight_saved<F: Fn(&InsightRecord, Option<&str>) -> String>(
    before: StoreData,
    after: StoreData,
    r: Result<InsightResponse, ApiError>,
    resolver: EventIndexResolver,
    tenant_id: Seq<char>,
    req: InsightUpsertRequest,
    overview: F,
    new_id: Seq<char>,
    stamp: StampView,
) -> bool {
    let owner = req.owner_user_id->Some_0@;
    let evidence = opt_text(req.evidence_text);
    exists|
        insight: InsightRecord,
        put: StoreData,
        text: Seq<char>,
        written: StoreData,
        e: Result<HistoryEventResponse, ApiError>,
    |
        {
            &&& is_saved_insight(
                insight,
                before,
                resolver,
                tenant_id,
                req,
                new_id,
                stamp.now,
            )
            &&& #[trigger] insight_put(
                before,
                put,
                insight,
                insight_memory_key(resolver, tenant_id, req),
            )
            &&& is_overview(overview, insight, evidence, text)
            &&& #[trigger] insight_context_written(
                put,
                written,
                insight,
                tenant_id,
                text,
                resolver.context_of(tenant_id, owner),
                stamp.secrets,
                stamp.now,
            )
            &&& #[trigger] noted(
                written,
                after,
                e,
                resolver,
                tenant_id,
                owner,
                insight_note(insight, evidence),
                stamp,
            )
            &&& insight_answered(r, e, insight)
        }
}

/// Whether `overview` writes `text` for an insight and its evidence.
pub open spec fn is_overview<F: Fn(&InsightRecord, Option<&str>) -> String>(
    overview: F,
    insight: InsightRecord,
    evidence: Option<Seq<char>>,
    text: Seq<char>,
) -> bool {
    exists|given: Option<&str>, out: String|
        opt_str(given) == evidence && #[trigger] overview.ensures((&insight, given), out) && out@
            == text
}

fn saved_insight(
    data: &StoreData,
    resolver: &EventIndexResolver,
    tenant_id: &str,
    req: &InsightUpsertRequest,
    new_id: &str,
    now: i64,
) -> (r: InsightRecord)
    requires
        insight_refusal(*req) is None,
    ensures
        is_saved_insight(r, *data, *resolver, tenant_id@, *req, new_id@, now),
{
    let owner: String = req.owner_user_id.clone().unwrap();
    let insight_type: String = req.insight_type.clone().unwrap();
    let title: String = req.title.clone().unwrap();
    let id: String = match &req.idempotency_key {
        Some(k) => {
            let key: (String, String, String) = (
                tenant_id.to_owned(),
                owner.clone(),
                resolver.idempotency_hash(k.as_str()),
            );
            match data.insight_idempotency.get(&key) {
                Some(id) => id.clone(),
                None => new_id.to_owned(),
            }
        },
        None => new_id.to_owned(),
    };
    let created_at: i64 = match data.insights.get(&id) {
        Some(existing) => existing.created_at,
        None => now,
    };
    InsightRecord {
        id,
        tenant_id: tenant_id.to_owned(),
        context_uri: analysis_insight_context_uri(insight_type.as_str(), title.as_str()),
        insight_type,
        title,
        statement: req.statement.clone().unwrap(),
        status: "active".to_owned(),
        confidence: req.confidence,
        salience: req.salience,
        source_refs: req.source_refs.clone(),
        owner_user_id: owner,
        privacy: req.privacy.clone(),
        created_at,
        updated_at: now,
    }
}

fn put_insight(
    data: &mut StoreData,
    resolver: &EventIndexResolver,
    tenant_id: &str,
    req: &InsightUpsertRequest,
    insight: &InsightRecord,
)
    requires
        req.owner_user_id is Some,
    ensures
        insight_put(
            *old(data),
            *final(data),
            *insight,
            insight_memory_key(*resolver, tenant_id@, *req),
        ),
{
    match &req.idempotency_key {
        Some(k) => {
            let key: (String, String, String) = (
                tenant_id.to_owned(),
                req.owner_user_id.clone().unwrap(),
                resolver.idempotency_hash(k.as_str()),
            );
            if !data.insight_idempotency.contains_key(&key) {
                data.insight_idempotency.insert(key, insight.id.clone());
            }
        },
        None => {},
    }
    data.insights.insert(insight.id.clone(), insight.clone());
}

/// What a request to save an insight leads to.
pub open spec fn insight_upserted<F: Fn(&InsightRecord, Option<&str>) -> String>(
    before: StoreData,
    after: StoreData,
    r: Result<InsightResponse, ApiError>,
    resolver: EventIndexResolver,
    tenant_id: Seq<char>,
    req: InsightUpsertRequest,
    overview: F,
    new_id: Seq<char>,
    stamp: StampView,
) -> bool {
    match insight_refusal(req) {
        Some(e) => after == before && fails_with(r, e),
        None => insight_saved(
            before,
            after,
            r,
            resolver,
            tenant_id,
            req,
            overview,
            new_id,
            stamp,
        ),
    }
}

/// Saves an insight. `overview` writes what the overview of its entry says.
pub fn upsert_insight<F: Fn(&InsightRecord, Option<&str>) -> String>(
    data: &mut StoreData,
    resolver: &EventIndexResolver,
    tenant_id: &str,
    req: &InsightUpsertRequest,
    overview: &F,
    new_id: &str,
    stamp: &Stamp<'_>,
) -> (r: Result<InsightResponse, ApiError>)
    requires
        indexes_have_room(*old(data), 1),
        forall|i: InsightRecord, t: Option<&str>| #[trigger] overview.requires((&i, t)),
    ensures
        insight_upserted(
            *old(data),
            *final(data),
            r,
            *resolver,
            tenant_id@,
            *req,
            *overview,
            new_id@,
            stamp@,
        ),
{
    let owner: String = match require_string(as_deref(&req.owner_user_id), "owner_user_id") {
        Ok(owner) => owner,
        Err(error) => {
            return Err(error);
        },
    };
    match require_string(as_deref(&req.insight_type), "insight_type") {
        Ok(_) => {},
        Err(error) => {
            return Err(error);
        },
    }
    match require_string(as_deref(&req.title), "title") {
        Ok(_) => {},
        Err(error) => {
            return Err(error);
        },
    }
    match require_string(as_deref(&req.statement), "statement") {
        Ok(_) => {},
        Err(error) => {
            return Err(error);
        },
    }
    let insight: InsightRecord = saved_insight(
        data,
        resolver,
        tenant_id,
        req,
        new_id,
        stamp.now,
    );
    put_insight(data, resolver, tenant_id, req, &insight);
    let ghost put = *data;
    let routing: EventRouting = resolver.resolve(tenant_id, owner.as_str());
    let evidence: Option<&str> = as_deref(&req.evidence_text);
    let text: String = overview(&insight, evidence);
    write_insight_context(
        data,
        tenant_id,
        routing.personal_context_index_uid.as_str(),
        &insight,
        text.as_str(),
        stamp.secrets,
        stamp.now,
    );
    let ghost written = *data;
    assert(written.user_indexes == old(data).user_indexes);
    let note_text: String = match &req.evidence_text {
        Some(t) => t.clone(),
        None => "Insight saved: ".to_owned().concat(insight.statement.as_str()),
    };
    let mut members: Vec<(&'static str, String)> = Vec::new();
    members.push(("insight_id", insight.id.clone()));
    members.push(("title", insight.title.clone()));
    let note: Note<'_> = Note {
        event_type: "insight.upserted",
        entity_type: "insight",
        entity_id: insight.id.as_str(),
        text: note_text.as_str(),
        members,
    };
    let ghost said = insight_note(insight, opt_text(req.evidence_text));
    assert(note@.members =~= said.members);
    let e: Result<HistoryEventResponse, ApiError> = note_event(
        data,
        resolver,
        tenant_id,
        owner.as_str(),
        &note,
        stamp,
    );
    let ghost outcome = e;
    let ghost saved = insight;
    let r: Result<InsightResponse, ApiError> = match e {
        Err(error) => Err(error),
        Ok(response) => Ok(
            InsightResponse {
                context_uri: insight.context_uri.clone(),
                insight,
                history_event_id: response.event.id,
            },
        ),
    };
    proof {
        assert(insight_put(
            *old(data),
            put,
            saved,
            insight_memory_key(*resolver, tenant_id@, *req),
        ));
        assert(overview.ensures((&saved, evidence), text));
        assert(is_overview(*overview, saved, opt_text(req.evidence_text), text@));
        assert(insight_context_written(
            put,
            written,
            saved,
            tenant_id@,
            text@,
            resolver.context_of(tenant_id@, owner@),
            stamp@.secrets,
            stamp@.now,
        ));
        assert(noted(
            written,
            *data,
            outcome,
            *resolver,
            tenant_id@,
            owner@,
            said,
            stamp@,
        ));
        assert(insight_answered(r, outcome, saved));
    }
    r
}

/// A change of an insight.
pub struct InsightPatchRequest {
    pub statement: Option<String>,
    pub status: Option<String>,
    /// The bits of a 32-bit float.
    pub confidence: Option<u32>,
    /// The bits of a 32-bit float.
    pub salience: Option<u32>,
    pub privacy: Option<String>,
    pub patch_reason: Option<String>,
}

/// An insight as a change leaves it: what the change does not give stays.
pub open spec fn patched_insight(
    before: InsightRecord,
    req: InsightPatchRequest,
    now: i64,
) -> InsightRecord {
    InsightRecord {
        statement: changed_to(req.statement, before.statement),
        status: changed_to(req.status, before.status),
        confidence: changed_to(req.confidence, before.confidence),
        salience: changed_to(req.salience, before.salience),
        privacy: changed_to(req.privacy, before.privacy),
        updated_at: now,
        ..before
    }
}

fn apply_patch(before: InsightRecord, req: &InsightPatchRequest, now: i64) -> (r: InsightRecord)
    ensures
        r == patched_insight(before, *req, now),
{
    let mut insight: InsightRecord = before;
    match &req.statement {
        Some(statement) => {
            insight.statement = statement.clone();
        },
        None => {},
    }
    match &req.status {
        Some(status) => {
            insight.status = status.clone();
        },
        None => {},
    }
    match req.confidence {
        Some(confidence) => {
            insight.confidence = confidence;
        },
        None => {},
    }
    match req.salience {
        Some(salience) => {
            insight.salience = salience;
        },
        None => {},
    }
    match &req.privacy {
        Some(privacy) => {
            insight.privacy = privacy.clone();
        },
        None => {},
    }
    insight.updated_at = now;
    insight
}

/// What the history says of an insight that was changed.
pub open spec fn insight_patch_note(id: Seq<char>, reason: Option<Seq<char>>) -> NoteView {
    NoteView {
        event_type: "insight.patched"@,
        entity_type: "insight"@,
        entity_id: id,
        text: match reason {
            Some(text) => text,
            None => "Insight "@ + id + " was patched"@,
        },
        members: seq![("insight_id"@, id)],
    }
}

/// The state after an insight was put under an id.
pub open spec fn insight_replaced(
    before: StoreData,
    after: StoreData,
    id: Seq<char>,
    insight: InsightRecord,
) -> bool {
    &&& after == (StoreData { insights: after.insights, ..before })
    &&& after.insights@ == before.insights@.insert(id, insight)
}

/// What changing an insight leads to.
pub open spec fn insight_patched<F: Fn(&InsightRecord, Option<&str>) -> String>(
    before: StoreData,
    after: StoreData,
    r: Result<InsightResponse, ApiError>,
    resolver: EventIndexResolver,
    tenant_id: Seq<char>,
    insight_id: Seq<char>,
    req: InsightPatchRequest,
    overview: F,
    stamp: StampView,
) -> bool {
    let insight = patched_insight(before.insights@[insight_id], req, stamp.now);
    let owner = insight.owner_user_id@;
    exists|
        put: StoreData,
        text: Seq<char>,
        written: StoreData,
        e: Result<HistoryEventResponse, ApiError>,
    |
        {
            &&& #[trigger] insight_replaced(before, put, insight_id, insight)
            &&& is_overview(overview, insight, None, text)
            &&& #[trigger] insight_context_written(
                put,
                written,
                insight,
                tenant_id,
                text,
                resolver.context_of(tenant_id, owner),
                stamp.secrets,
                stamp.now,
            )
            &&& #[trigger] noted(
                written,
                after,
                e,
                resolver,
                tenant_id,
                owner,
                insight_patch_note(insight_id, opt_text(req.patch_reason)),
                stamp,
            )
            &&& insight_answered(r, e, insight)
        }
}

/// Whether a tenant has an insight with an id.
pub open spec fn has_insight(d: StoreData, tenant_id: Seq<char>, id: Seq<char>) -> bool {
    d.insights@.dom().contains(id) && d.insights@[id].tenant_id@ == tenant_id
}

/// Changes an insight of a tenant. `overview` writes what the overview of its entry says.
pub fn patch_insight<F: Fn(&InsightRecord, Option<&str>) -> String>(
    data: &mut StoreData,
    resolver: &EventIndexResolver,
    tenant_id: &str,
    insight_id: &str,
    req: &InsightPatchRequest,
    overview: &F,
    stamp: &Stamp<'_>,
) -> (r: Result<InsightResponse, ApiError>)
    requires
        indexes_have_room(*old(data), 1),
        forall|i: InsightRecord, t: Option<&str>| #[trigger] overview.requires((&i, t)),
    ensures
        if has_insight(*old(data), tenant_id@, insight_id@) {
            insight_patched(
                *old(data),
                *final(data),
                r,
                *resolver,
                tenant_id@,
                insight_id@,
                *req,
                *overview,
                stamp@,
            )
        } else {
            &&& *final(data) == *old(data)
            &&& fails_with(r, ErrorView::NotFound("insight not found"@))
        },
{
    let key: String = insight_id.to_owned();
    let before: InsightRecord = match data.insights.get(&key) {
        Some(insight) => insight.clone(),
        None => {
            return Err(ApiError::not_found("insight not found"));
        },
    };
    if !text_eq(before.tenant_id.as_str(), tenant_id) {
        return Err(ApiError::not_found("insight not found"));
    }
    let insight: InsightRecord = apply_patch(before, req, stamp.now);
    data.insights.insert(key, insight.clone());
    let ghost put = *data;
    let owner: String = insight.owner_user_id.clone();
    let routing: EventRouting = resolver.resolve(tenant_id, owner.as_str());
    let evidence: Option<&str> = None;
    let text: String = overview(&insight, evidence);
    write_insight_context(
        data,
        tenant_id,
        routing.personal_context_index_uid.as_str(),
        &insight,
        text.as_str(),
        stamp.secrets,
        stamp.now,
    );
    let ghost written = *data;
    assert(written.user_indexes == old(data).user_indexes);
    let note_text: String = match &req.patch_reason {
        Some(reason) => reason.clone(),
        None => {
            let mut t: String = "Insight ".to_owned();
            t.append(insight_id);
            t.append(" was patched");
            t
        },
    };
    let mut members: Vec<(&'static str, String)> = Vec::new();
    members.push(("insight_id", insight_id.to_owned()));
    let note: Note<'_> = Note {
        event_type: "insight.patched",
        entity_type: "insight",
        entity_id: insight_id,
        text: note_text.as_str(),
        members,
    };
    let ghost said = insight_patch_note(insight_id@, opt_text(req.patch_reason));
    assert(note@.members =~= said.members);
    let e: Result<HistoryEventResponse, ApiError> = note_event(
        data,
        resolver,
        tenant_id,
        owner.as_str(),
        &note,
        stamp,
    );
    let ghost outcome = e;
    let ghost patched = insight;
    let r: Result<InsightResponse, ApiError> = match e {
        Err(error) => Err(error),
        Ok(response) => Ok(
            InsightResponse {
                context_uri: insight.context_uri.clone(),
                insight,
                history_event_id: response.event.id,
            },
        ),
    };
    proof {
        assert(insight_replaced(*old(data), put, insight_id@, patched));
        assert(overview.ensures((&patched, evidence), text));
        assert(is_overview(*overview, patched, None, text@));
        assert(insight_context_written(
            put,
            written,
            patched,
            tenant_id@,
            text@,
            resolver.context_of(tenant_id@, owner@),
            stamp@.secrets,
            stamp@.now,
        ));
        assert(noted(
            written,
            *data,
            outcome,
            *resolver,
            tenant_id@,
            owner@,
            said,
            stamp@,
        ));
        assert(insight_answered(r, outcome, patched));
    }
    r
}

/// Which insights are searched for.
pub struct InsightSearchRequest {
    pub owner_user_id: Option<String>,
    pub insight_types: Vec<String>,
    pub status: String,
    pub limit: usize,
    /// The ids of the insights whose title and statement match the query, where there is one.
    pub matching_ids: Option<Vec<String>>,
}

/// Whether an insight is searched for.
pub open spec fn insight_matches(insight: InsightRecord, req: InsightSearchRequest) -> bool {
    &&& req.owner_user_id is None || opt_text(req.owner_user_id) == Some(insight.owner_user_id@)
    &&& req.status@.len() == 0 || insight.status@ == req.status@
    &&& req.insight_types@.len() == 0 || texts(req.insight_types@).contains(insight.insight_type@)
    &&& req.matching_ids is None || texts(req.matching_ids->Some_0@).contains(insight.id@)
}

/// The order of insights with the one that was changed last first.
pub open spec fn insights_latest_first() -> spec_fn(InsightRecord, InsightRecord) -> bool {
    |a: InsightRecord, b: InsightRecord| a.updated_at > b.updated_at
}

/// The insights that are searched for, the one that was changed last first.
pub fn search_insights(data: &StoreData, req: &InsightSearchRequest) -> (r: Vec<InsightRecord>)
    ensures
        r@ == limited(
            sorted_by(
                data.insights.values().filter(
                    |insight: InsightRecord| insight_matches(insight, *req),
                ),
                insights_latest_first(),
            ),
            req.limit as nat,
        ),
        forall|i: int|
            0 <= i < r@.len() ==> {
                let insight = #[trigger] r@[i];
                &&& data.insights.values().contains(insight)
                &&& req.owner_user_id is Some ==> insight.owner_user_id@ == req.owner_user_id->0@
                &&& req.status@.len() > 0 ==> insight.status@ == req.status@
                &&& req.insight_types@.len() > 0 ==> texts(req.insight_types@).contains(
                    insight.insight_type@,
                )
                &&& req.matching_ids is Some ==> texts(req.matching_ids->0@).contains(insight.id@)
            },
        forall|i: int, j: int|
            0 <= i < j < r@.len() ==> (#[trigger] r@[i]).updated_at >= (#[trigger] r@[j]).updated_at,
        forall|insight: InsightRecord| #[trigger]
            data.insights.values().contains(insight) && (req.owner_user_id is Some
                ==> insight.owner_user_id@ == req.owner_user_id->0@) && (req.status@.len() > 0
                ==> insight.status@ == req.status@) && (req.insight_types@.len() > 0 ==> texts(
                req.insight_types@,
            ).contains(insight.insight_type@)) && (req.matching_ids is Some ==> texts(
                req.matching_ids->0@,
            ).contains(insight.id@)) && r@.len() < req.limit ==> r@.contains(insight),
{
    let ghost p = |insight: InsightRecord| insight_matches(insight, *req);
    let accept = |insight: &InsightRecord| -> (b: bool)
        ensures
            b == p(*insight),
        {
            (match &req.owner_user_id {
                Some(owner) => text_eq(owner.as_str(), insight.owner_user_id.as_str()),
                None => true,
            }) && (is_empty_text(req.status.as_str()) || text_eq(
                insight.status.as_str(),
                req.status.as_str(),
            )) && (req.insight_types.len() == 0 || texts_contain(
                &req.insight_types,
                insight.insight_type.as_str(),
            )) && match &req.matching_ids {
                Some(ids) => texts_contain(ids, insight.id.as_str()),
                None => true,
            }
        };
    let found: Vec<InsightRecord> = select_values(&data.insights, accept, Ghost(p));
    let ghost lt = insights_latest_first();
    let later = |a: &InsightRecord, b: &InsightRecord| -> (c: bool)
        ensures
            c == lt(*a, *b),
        { a.updated_at > b.updated_at };
    let mut hits: Vec<InsightRecord> = sort_by(found, later, Ghost(lt));
    limit_to(&mut hits, req.limit);
    proof {
        assert(strict_order(lt));
        what_is_chosen(data.insights.values(), p, lt, req.limit as nat);
        assert forall|i: int, j: int| 0 <= i < j < hits@.len() implies (
        #[trigger] hits@[i]).updated_at >= (#[trigger] hits@[j]).updated_at by {
            assert(!lt(hits@[j], hits@[i]));
        }
        assert forall|insight: InsightRecord| #[trigger]
            data.insights.values().contains(insight) && insight_matches(insight, *req) && hits@.len()
                < req.limit implies hits@.contains(insight) by {
            assert(p(insight));
        }
    }
    hits
}

} // verus!
