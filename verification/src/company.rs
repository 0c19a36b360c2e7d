//! Documents of the company: advice before one is written, its revisions, and which one is active.

use vstd::prelude::*;
use vstd::string::*;
use vstd::utf8::*;

use crate::data::StoreData;
use crate::documents::{
    fragment_uris, is_cutter, plain_document_written, revision_document,
    write_company_revision_context, RetrievalText,
    DocumentIngestResult,
};
use crate::error::{fails_with, ApiError, ErrorView};
use crate::facts::is_required;
use crate::float::{check_nan, float_before, float_max, greater_float, is_nan, place};
use crate::history::{
    indexes_have_room, note_event, noted, HistoryEventResponse, Note, NoteView, Stamp, StampView,
};
use crate::json::pair_texts;
use crate::model::harness::Rate;
use crate::model::ingest::{
    CompanyDocPreflightResponse, CompanySource, PreflightMatch, SourceRevision,
};
use crate::naming::{
    bytes_of, hmac_hex, keyed_digest, revision_document_uri, sanitize_slug, slug,
};
use crate::nodes::FragmentChunk;
use crate::order::{
    find_where, first_where, first_where_facts, sort_by, sorted_by, sorted_by_is_in_order,
    sorted_by_keeps_elements,
};
use crate::reading::{first_of, require_string};
use crate::record::copy_all;
use crate::resolver::EventIndexResolver;
use crate::similarity::{is_overlap, token_similarity, tokens};
use crate::source_delete::{
    delete_unfinished, deleting_error, ensure_company_source_not_deleting,
};
use crate::table::{list_at, lists, lists_replaced, take_list};
use crate::text::{
    blank, is_empty_text, opt_text, owned_or, replace_chars, text_eq, text_or, texts,
    texts_copy, texts_push, unicode_lowered, with_chars_replaced,
};

verus! {

/// A document for which advice is asked before it is written.
pub struct CompanyDocPreflightRequest {
    pub title: Option<String>,
    pub source_uri: Option<String>,
    pub text_preview: Option<String>,
    /// The bits of a 32-bit float.
    pub similarity_threshold: u32,
}

/// How much a source has in common with a document.
pub struct SourceOverlap {
    pub title: Rate,
    pub canonical_key: Rate,
    pub preview: Rate,
}

/// Whether `r` tells how much a source has in common with a document.
pub open spec fn is_source_overlap(
    r: SourceOverlap,
    source: CompanySource,
    req: CompanyDocPreflightRequest,
) -> bool {
    let title = tokens(unicode_lowered(source.title@));
    &&& is_overlap(r.title, title, tokens(unicode_lowered(asked_title(req))))
    &&& is_overlap(
        r.canonical_key,
        tokens(unicode_lowered(source.canonical_key@)),
        tokens(unicode_lowered(slug(asked_title(req)))),
    )
    &&& is_overlap(
        r.preview,
        title,
        tokens(unicode_lowered(text_or(opt_text(req.text_preview), Seq::empty()))),
    )
}

/// The title of a document for which advice is asked.
pub open spec fn asked_title(req: CompanyDocPreflightRequest) -> Seq<char> {
    text_or(opt_text(req.title), "Untitled"@)
}

fn or_empty(o: &Option<String>) -> (r: String)
    ensures
        r@ == text_or(opt_text(*o), Seq::empty()),
{
    match o {
        Some(text) => text.clone(),
        None => {
            proof {
                reveal_strlit("");
                assert(""@ =~= Seq::<char>::empty());
            }
            "".to_owned()
        },
    }
}

/// How much each source has in common with a document for which advice is asked.
pub fn preflight_overlaps(data: &StoreData, req: &CompanyDocPreflightRequest) -> (r: Vec<
    SourceOverlap,
>)
    ensures
        r@.len() == data.sources.values().len(),
        forall|i: int|
            0 <= i < r@.len() ==> is_source_overlap(
                #[trigger] r@[i],
                data.sources.values()[i],
                *req,
            ),
{
    let title: String = owned_or(&req.title, "Untitled");
    let key: String = sanitize_slug(title.as_str());
    let preview: String = or_empty(&req.text_preview);
    let n: usize = data.sources.len();
    let mut out: Vec<SourceOverlap> = Vec::new();
    let mut i: usize = 0;
    while i < n
        invariant
            i <= n == data.sources.rows().len(),
            title@ == asked_title(*req),
            key@ == slug(title@),
            preview@ == text_or(opt_text(req.text_preview), Seq::empty()),
            out@.len() == i,
            forall|j: int|
                0 <= j < i ==> is_source_overlap(
                    #[trigger] out@[j],
                    data.sources.values()[j],
                    *req,
                ),
        decreases n - i,
    {
        let source: &CompanySource = data.sources.value_at(i);
        out.push(
            SourceOverlap {
                title: token_similarity(source.title.as_str(), title.as_str()),
                canonical_key: token_similarity(source.canonical_key.as_str(), key.as_str()),
                preview: token_similarity(source.title.as_str(), preview.as_str()),
            },
        );
        i += 1;
    }
    out
}

/// The bits of one.
pub const SURE: u32 = 0x3f80_0000;

/// The bits of nine tenths.
pub const LIKELY: u32 = 0x3f66_6666;

/// Whether one number is at least another.
pub open spec fn at_least(a: u32, b: u32) -> bool {
    !is_nan(a) && !is_nan(b) && place(a) >= place(b)
}

fn check_at_least(a: u32, b: u32) -> (r: bool)
    ensures
        r == at_least(a, b),
{
    !check_nan(a) && !check_nan(b) && !float_before(a, b)
}

/// Whether a source was found at the URI of a document.
pub open spec fn same_uri(source: CompanySource, uri: Seq<char>) -> bool {
    source.source_uri@ == uri && uri.len() > 0
}

/// How sure it is that a source is that of a document: by the URI, by the title, else by what they
/// have in common.
pub open spec fn confidence_in(source: CompanySource, uri: Seq<char>, key: Seq<char>, score: u32) -> u32 {
    if same_uri(source, uri) {
        SURE
    } else if source.canonical_key@ == key {
        LIKELY
    } else {
        float_max(0, score)
    }
}

/// What speaks for a source.
pub open spec fn reason_for(source: CompanySource, uri: Seq<char>, key: Seq<char>) -> Option<
    Seq<char>,
> {
    if same_uri(source, uri) {
        Some("source_uri matched existing source"@)
    } else if source.canonical_key@ == key {
        Some("canonical title matched existing source"@)
    } else {
        None
    }
}

/// What speaks for each source, in their order.
pub open spec fn reasons_for(sources: Seq<CompanySource>, uri: Seq<char>, key: Seq<char>) -> Seq<
    Seq<char>,
>
    decreases sources.len(),
{
    if sources.len() == 0 {
        Seq::empty()
    } else {
        let front = reasons_for(sources.drop_last(), uri, key);
        match reason_for(sources.last(), uri, key) {
            Some(reason) => front.push(reason),
            None => front,
        }
    }
}

/// How sure it is of each source.
pub open spec fn confidences(
    sources: Seq<CompanySource>,
    uri: Seq<char>,
    key: Seq<char>,
    scores: Seq<u32>,
) -> Seq<u32> {
    Seq::new(sources.len(), |i: int| confidence_in(sources[i], uri, key, scores[i]))
}

/// The greatest of numbers, and zero where there is none above it.
pub open spec fn greatest(s: Seq<u32>) -> u32
    decreases s.len(),
{
    if s.len() == 0 {
        0
    } else {
        float_max(greatest(s.drop_last()), s.last())
    }
}

/// The sources of which it is sure enough, with how sure.
pub open spec fn matched(sources: Seq<CompanySource>, sure: Seq<u32>, threshold: u32) -> Seq<
    (CompanySource, u32),
>
    decreases sources.len(),
{
    if sources.len() == 0 || sources.len() != sure.len() {
        Seq::empty()
    } else {
        let front = matched(sources.drop_last(), sure.drop_last(), threshold);
        if at_least(sure.last(), threshold) {
            front.push((sources.last(), sure.last()))
        } else {
            front
        }
    }
}

/// Whether matches name sources, one by one.
pub open spec fn are_matches(m: Seq<PreflightMatch>, found: Seq<(CompanySource, u32)>) -> bool {
    m.len() == found.len() && forall|i: int|
        0 <= i < m.len() ==> {
            &&& (#[trigger] m[i]).source_id@ == found[i].0.id@
            &&& m[i].title@ == found[i].0.title@
            &&& m[i].source_uri@ == found[i].0.source_uri@
            &&& m[i].confidence == found[i].1
        }
}

/// Whether `r` is the advice on a document.
pub open spec fn is_advice(
    r: CompanyDocPreflightResponse,
    sources: Seq<CompanySource>,
    req: CompanyDocPreflightRequest,
    scores: Seq<u32>,
    decision_id: Seq<char>,
) -> bool {
    let uri = text_or(opt_text(req.source_uri), Seq::empty());
    let key = slug(asked_title(req));
    let sure = confidences(sources, uri, key, scores);
    let found = matched(sources, sure, req.similarity_threshold);
    &&& r.decision_id@ == decision_id
    &&& r.recommended_action@ == (if found.len() == 0 {
        "create_source"@
    } else {
        "update_revision"@
    })
    &&& r.confidence == (if found.len() == 0 {
        0
    } else {
        greatest(sure)
    })
    &&& are_matches(r.matched_sources@, found)
    &&& texts(r.reasons@) == (if found.len() == 0 {
        reasons_for(sources, uri, key).push("no similar active source crossed threshold"@)
    } else {
        reasons_for(sources, uri, key)
    })
}

/// Advises whether a document is a new source or a revision of one that is there. `scores` holds,
/// for each source, the bits of how much it has in common with the document.
pub fn preflight_company_doc(
    data: &mut StoreData,
    req: &CompanyDocPreflightRequest,
    scores: &Vec<u32>,
    decision_id: &str,
) -> (r: CompanyDocPreflightResponse)
    requires
        scores@.len() == old(data).sources.values().len(),
    ensures
        is_advice(r, old(data).sources.values(), *req, scores@, decision_id@),
        *final(data) == (StoreData {
            preflight_decisions: final(data).preflight_decisions,
            ..*old(data)
        }),
        final(data).preflight_decisions@ == old(data).preflight_decisions@.insert(decision_id@, r),
{
    let title: String = owned_or(&req.title, "Untitled");
    let uri: String = or_empty(&req.source_uri);
    let key: String = sanitize_slug(title.as_str());
    let ghost sources = data.sources.values();
    let ghost sure = confidences(sources, uri@, key@, scores@);
    let mut matches: Vec<PreflightMatch> = Vec::new();
    let mut reasons: Vec<String> = Vec::new();
    let mut best: u32 = 0;
    let n: usize = data.sources.len();
    let mut i: usize = 0;
    assert(texts(reasons@) =~= Seq::<Seq<char>>::empty());
    while i < n
        invariant
            i <= n == data.sources.rows().len(),
            scores@.len() == n,
            sources == data.sources.values(),
            sources.len() == n,
            sure == confidences(sources, uri@, key@, scores@),
            best == greatest(sure.take(i as int)),
            texts(reasons@) == reasons_for(sources.take(i as int), uri@, key@),
            are_matches(
                matches@,
                matched(sources.take(i as int), sure.take(i as int), req.similarity_threshold),
            ),
        decreases n - i,
    {
        proof {
            assert(sources.take(i + 1).drop_last() =~= sources.take(i as int));
            assert(sure.take(i + 1).drop_last() =~= sure.take(i as int));
        }
        let source: &CompanySource = data.sources.value_at(i);
        let confidence: u32 = if text_eq(source.source_uri.as_str(), uri.as_str())
            && !is_empty_text(uri.as_str()) {
            let reason: String = "source_uri matched existing source".to_owned();
            proof {
                texts_push(reasons@, reason);
            }
            reasons.push(reason);
            SURE
        } else if text_eq(source.canonical_key.as_str(), key.as_str()) {
            let reason: String = "canonical title matched existing source".to_owned();
            proof {
                texts_push(reasons@, reason);
            }
            reasons.push(reason);
            LIKELY
        } else {
            greater_float(0, scores[i])
        };
        assert(sure[i as int] == confidence);
        if check_at_least(confidence, req.similarity_threshold) {
            matches.push(
                PreflightMatch {
                    source_id: source.id.clone(),
                    title: source.title.clone(),
                    source_uri: source.source_uri.clone(),
                    confidence,
                },
            );
        }
        best = greater_float(best, confidence);
        i += 1;
    }
    proof {
        assert(sources.take(i as int) =~= sources);
        assert(sure.take(i as int) =~= sure);
    }
    let none: bool = matches.len() == 0;
    if none {
        let reason: String = "no similar active source crossed threshold".to_owned();
        proof {
            texts_push(reasons@, reason);
        }
        reasons.push(reason);
    }
    let response: CompanyDocPreflightResponse = CompanyDocPreflightResponse {
        decision_id: decision_id.to_owned(),
        recommended_action: if none {
            "create_source".to_owned()
        } else {
            "update_revision".to_owned()
        },
        confidence: if none {
            0
        } else {
            best
        },
        matched_sources: std::sync::Arc::new(matches),
        reasons: std::sync::Arc::new(reasons),
    };
    data.preflight_decisions.insert(response.decision_id.clone(), response.clone());
    response
}

/// A revision to be made of a source.
pub struct CreateRevisionRequest {
    pub title: Option<String>,
    pub source_uri: Option<String>,
    pub content: Option<String>,
    pub checksum: Option<String>,
    pub preflight_decision_id: Option<String>,
    pub force_create: bool,
    pub ingest: bool,
    pub idempotency_key: Option<String>,
}

/// What making a revision answers.
pub struct CreateRevisionResponse {
    pub source_id: String,
    pub revision_id: String,
    pub status: String,
    pub history_event_id: Option<String>,
    pub ingest_job_id: Option<String>,
}

/// Whether earlier advice stands against making a source.
pub open spec fn against_advice(d: StoreData, req: CreateRevisionRequest) -> bool {
    match opt_text(req.preflight_decision_id) {
        Some(id) => d.preflight_decisions@.dom().contains(id)
            && d.preflight_decisions@[id].recommended_action@ == "update_revision"@
            && req.force_create,
        None => false,
    }
}

/// Why a revision is not made.
pub open spec fn company_revision_refusal(
    d: StoreData,
    tenant_id: Seq<char>,
    source_id: Seq<char>,
    req: CreateRevisionRequest,
) -> Option<ErrorView> {
    if blank(source_id) {
        Some(is_required("source_id"@))
    } else if against_advice(d, req) {
        Some(
            ErrorView::Conflict(
                "preflight recommended update_revision; force_create is blocked by default"@,
            ),
        )
    } else if delete_unfinished(d.operations.values(), tenant_id, source_id) {
        Some(deleting_error())
    } else {
        None
    }
}

/// The title of a revision: the one that is given, else the id of the source in words.
pub open spec fn revision_title(source_id: Seq<char>, req: CreateRevisionRequest) -> Seq<char> {
    text_or(
        opt_text(req.title),
        with_chars_replaced(source_id, |c: char| c == '-' || c == '-', ' '),
    )
}

/// Whether `r` is the revision that a request asks for.
pub open spec fn is_company_revision(
    r: SourceRevision,
    tenant_id: Seq<char>,
    source_id: Seq<char>,
    req: CreateRevisionRequest,
    revision_id: Seq<char>,
    now: i64,
) -> bool {
    let content = text_or(opt_text(req.content), Seq::empty());
    &&& r.id@ == revision_id
    &&& r.tenant_id@ == tenant_id
    &&& r.source_id@ == source_id
    &&& r.title@ == revision_title(source_id, req)
    &&& r.source_uri@ == text_or(opt_text(req.source_uri), Seq::empty())
    &&& r.checksum@ == text_or(
        opt_text(req.checksum),
        keyed_digest(encode_utf8(tenant_id), "content"@, source_id + ":"@ + content, 24),
    )
    &&& r.content@ == content
    &&& r.status@ == "staged"@
    &&& r.created_at == now
}

fn new_revision(
    tenant_id: &str,
    source_id: &str,
    req: &CreateRevisionRequest,
    revision_id: &str,
    now: i64,
) -> (r: SourceRevision)
    ensures
        is_company_revision(r, tenant_id@, source_id@, *req, revision_id@, now),
{
    let content: String = or_empty(&req.content);
    let checksum: String = match &req.checksum {
        Some(checksum) => checksum.clone(),
        None => {
            let mut digested: String = source_id.to_owned();
            digested.append(":");
            digested.append(content.as_str());
            hmac_hex(bytes_of(tenant_id).as_slice(), "content", digested.as_str(), 24)
        },
    };
    let title: String = match &req.title {
        Some(title) => title.clone(),
        None => replace_chars(source_id, '-', '-', ' '),
    };
    SourceRevision {
        id: revision_id.to_owned(),
        tenant_id: tenant_id.to_owned(),
        source_id: source_id.to_owned(),
        title,
        source_uri: or_empty(&req.source_uri),
        checksum,
        content,
        status: "staged".to_owned(),
        created_at: now,
    }
}

/// Whether `s` is the source that a first revision makes.
pub open spec fn is_first_source(s: CompanySource, revision: SourceRevision) -> bool {
    &&& s.id@ == revision.source_id@
    &&& s.tenant_id@ == revision.tenant_id@
    &&& s.title@ == revision.title@
    &&& s.canonical_key@ == slug(revision.title@)
    &&& s.source_uri@ == revision.source_uri@
    &&& s.active_revision_id is None
}

/// The records after a revision was added to its source; a source that was not there is made.
pub open spec fn revision_added(
    before: StoreData,
    after: StoreData,
    revision: SourceRevision,
) -> bool {
    let id = revision.source_id@;
    let had = list_at(lists(before.source_revisions@), id);
    &&& after == (StoreData {
        sources: after.sources,
        source_revisions: after.source_revisions,
        ..before
    })
    &&& lists(after.source_revisions@) == lists(before.source_revisions@).insert(
        id,
        had.push(revision),
    )
    &&& if before.sources@.dom().contains(id) {
        after.sources == before.sources
    } else {
        &&& is_first_source(after.sources@[id], revision)
        &&& after.sources@ == before.sources@.insert(id, after.sources@[id])
    }
}

/// What is noted of a revision.
pub open spec fn revision_note(
    event_type: Seq<char>,
    said: Seq<char>,
    source_id: Seq<char>,
    revision_id: Seq<char>,
) -> NoteView {
    NoteView {
        event_type,
        entity_type: "company_doc_revision"@,
        entity_id: revision_id,
        text: said + source_id,
        members: seq![("revision_id"@, revision_id), ("source_id"@, source_id)],
    }
}

fn note_revision(
    data: &mut StoreData,
    resolver: &EventIndexResolver,
    tenant_id: &str,
    event_type: &str,
    said: &str,
    source_id: &str,
    revision_id: &str,
    stamp: &Stamp<'_>,
) -> (r: Result<HistoryEventResponse, ApiError>)
    requires
        indexes_have_room(*old(data), 1),
    ensures
        noted(
            *old(data),
            *final(data),
            r,
            *resolver,
            tenant_id@,
            "company"@,
            revision_note(event_type@, said@, source_id@, revision_id@),
            stamp@,
        ),
{
    let text: String = said.to_owned().concat(source_id);
    let mut members: Vec<(&'static str, String)> = Vec::new();
    members.push(("revision_id", revision_id.to_owned()));
    members.push(("source_id", source_id.to_owned()));
    let note: Note<'_> = Note {
        event_type,
        entity_type: "company_doc_revision",
        entity_id: revision_id,
        text: text.as_str(),
        members,
    };
    proof {
        let view = revision_note(event_type@, said@, source_id@, revision_id@);
        assert(pair_texts(note.members@) =~= view.members);
        assert(note@ == view);
    }
    note_event(data, resolver, tenant_id, "company", &note, stamp)
}

/// What making a revision leads to.
pub open spec fn company_revision_result(
    before: StoreData,
    after: StoreData,
    r: Result<CreateRevisionResponse, ApiError>,
    resolver: EventIndexResolver,
    tenant_id: Seq<char>,
    source_id: Seq<char>,
    req: CreateRevisionRequest,
    revision_id: Seq<char>,
    ingest_job_id: Seq<char>,
    stamp: StampView,
) -> bool {
    exists|
        mid: StoreData,
        revision: SourceRevision,
        history: Result<HistoryEventResponse, ApiError>,
    |
        {
            &&& is_company_revision(revision, tenant_id, source_id, req, revision_id, stamp.now)
            &&& #[trigger] revision_added(before, mid, revision)
            &&& #[trigger] noted(
                mid,
                after,
                history,
                resolver,
                tenant_id,
                "company"@,
                revision_note(
                    "company_doc.revision_created"@,
                    "Company document revision created for "@,
                    source_id,
                    revision_id,
                ),
                stamp,
            )
            &&& match history {
                Ok(h) => {
                    &&& r is Ok
                    &&& r->Ok_0.source_id@ == source_id
                    &&& r->Ok_0.revision_id@ == revision_id
                    &&& r->Ok_0.status@ == "staged"@
                    &&& opt_text(r->Ok_0.history_event_id) == Some(h.event.id@)
                    &&& opt_text(r->Ok_0.ingest_job_id) == (if req.ingest {
                        Some(ingest_job_id)
                    } else {
                        None
                    })
                },
                Err(e) => r == Err::<CreateRevisionResponse, ApiError>(e),
            }
        }
}

fn add_revision(data: &mut StoreData, revision: &SourceRevision)
    ensures
        revision_added(*old(data), *final(data), *revision),
{
    let key: String = revision.source_id.clone();
    if !data.sources.contains_key(&key) {
        data.sources.insert(
            key.clone(),
            CompanySource {
                id: key.clone(),
                tenant_id: revision.tenant_id.clone(),
                title: revision.title.clone(),
                canonical_key: sanitize_slug(revision.title.as_str()),
                source_uri: revision.source_uri.clone(),
                active_revision_id: None,
            },
        );
    }
    let mut revisions: Vec<SourceRevision> = take_list(&mut data.source_revisions, &key);
    revisions.push(revision.clone());
    let ghost has = revisions;
    data.source_revisions.insert(key, revisions);
    proof {
        lists_replaced(old(data).source_revisions@, revision.source_id@, has);
    }
}

/// Makes a revision of a source of the company, and notes it in the company's history.
pub fn create_revision(
    data: &mut StoreData,
    resolver: &EventIndexResolver,
    tenant_id: &str,
    source_id: &str,
    req: &CreateRevisionRequest,
    revision_id: &str,
    ingest_job_id: &str,
    stamp: &Stamp<'_>,
) -> (r: Result<CreateRevisionResponse, ApiError>)
    requires
        indexes_have_room(*old(data), 1),
    ensures
        match company_revision_refusal(*old(data), tenant_id@, source_id@, *req) {
            Some(e) => *final(data) == *old(data) && fails_with(r, e),
            None => company_revision_result(
                *old(data),
                *final(data),
                r,
                *resolver,
                tenant_id@,
                source_id@,
                *req,
                revision_id@,
                ingest_job_id@,
                stamp@,
            ),
        },
{
    match require_string(Some(source_id), "source_id") {
        Ok(_) => {},
        Err(error) => {
            return Err(error);
        },
    }
    match &req.preflight_decision_id {
        Some(id) => match data.preflight_decisions.get(id) {
            Some(decision) => if text_eq(decision.recommended_action.as_str(), "update_revision")
                && req.force_create {
                return Err(
                    ApiError::conflict(
                        "preflight recommended update_revision; force_create is blocked by default",
                    ),
                );
            },
            None => {},
        },
        None => {},
    }
    match ensure_company_source_not_deleting(data, tenant_id, source_id) {
        Ok(_) => {},
        Err(error) => {
            return Err(error);
        },
    }
    let revision: SourceRevision = new_revision(
        tenant_id,
        source_id,
        req,
        revision_id,
        stamp.now,
    );
    add_revision(data, &revision);
    let ghost mid = *data;
    let history: Result<HistoryEventResponse, ApiError> = note_revision(
        data,
        resolver,
        tenant_id,
        "company_doc.revision_created",
        "Company document revision created for ",
        source_id,
        revision_id,
        stamp,
    );
    assert(revision_added(*old(data), mid, revision));
    assert(noted(
        mid,
        *data,
        history,
        *resolver,
        tenant_id@,
        "company"@,
        revision_note(
            "company_doc.revision_created"@,
            "Company document revision created for "@,
            source_id@,
            revision_id@,
        ),
        stamp@,
    ));
    match history {
        Ok(history) => Ok(
            CreateRevisionResponse {
                source_id: source_id.to_owned(),
                revision_id: revision_id.to_owned(),
                status: "staged".to_owned(),
                history_event_id: Some(history.event.id.clone()),
                ingest_job_id: if req.ingest {
                    Some(ingest_job_id.to_owned())
                } else {
                    None
                },
            },
        ),
        Err(error) => Err(error),
    }
}

/// What making a revision the active one answers.
pub struct ActivateRevisionResponse {
    pub source_id: String,
    pub active_revision_id: String,
    pub previous_revision_id: Option<String>,
    pub history_event_id: Option<String>,
    pub source_document_uri: String,
    pub fragment_uris: Vec<String>,
    pub context_uris: Vec<String>,
}

/// Whether a revision has an id.
pub open spec fn company_revision_is(id: Seq<char>) -> spec_fn(SourceRevision) -> bool {
    |r: SourceRevision| r.id@ == id
}

/// Why a revision is not made the active one, where nothing is changed.
pub open spec fn activation_refusal(
    d: StoreData,
    tenant_id: Seq<char>,
    source_id: Seq<char>,
    revision_id: Seq<char>,
) -> Option<ErrorView> {
    let revisions = list_at(lists(d.source_revisions@), source_id);
    if delete_unfinished(d.operations.values(), tenant_id, source_id) {
        Some(deleting_error())
    } else if !d.source_revisions@.dom().contains(source_id) {
        Some(ErrorView::NotFound("source revisions not found"@))
    } else if first_of(revisions, company_revision_is(revision_id)) is None {
        Some(ErrorView::NotFound("revision not found"@))
    } else {
        None
    }
}

/// Whether `b` is the revision `a` once it is active.
pub open spec fn made_active(a: SourceRevision, b: SourceRevision) -> bool {
    b == (SourceRevision { status: b.status, ..a }) && b.status@ == "active"@
}

/// Whether `b` is the source `a` once a revision of it is active.
pub open spec fn points_to(a: CompanySource, b: CompanySource, revision: SourceRevision) -> bool {
    &&& b.id == a.id
    &&& b.tenant_id == a.tenant_id
    &&& opt_text(b.active_revision_id) == Some(revision.id@)
    &&& b.title@ == revision.title@
    &&& b.source_uri@ == revision.source_uri@
    &&& b.canonical_key@ == slug(revision.title@)
}

/// The records after a revision was marked as the active one. Its source does not point to it yet.
pub open spec fn revision_marked(
    before: StoreData,
    after: StoreData,
    source_id: Seq<char>,
    revision: SourceRevision,
) -> bool {
    let revisions = list_at(lists(before.source_revisions@), source_id);
    let at = first_where(revisions, company_revision_is(revision.id@));
    &&& after == (StoreData { source_revisions: after.source_revisions, ..before })
    &&& 0 <= at < revisions.len()
    &&& made_active(revisions[at], revision)
    &&& lists(after.source_revisions@) == lists(before.source_revisions@).insert(
        source_id,
        revisions.update(at, revision),
    )
}

/// The records after a revision was made the active one.
pub open spec fn revision_pointed(
    before: StoreData,
    after: StoreData,
    source_id: Seq<char>,
    revision: SourceRevision,
) -> bool {
    &&& revision_marked(
        before,
        StoreData { sources: before.sources, ..after },
        source_id,
        revision,
    )
    &&& points_to(before.sources@[source_id], after.sources@[source_id], revision)
    &&& after.sources@ == before.sources@.insert(source_id, after.sources@[source_id])
}

/// What making a revision the active one leads to: the source points to it, and it is stored as a
/// document in the place of the one before.
pub open spec fn activation_result<C: Fn(&RetrievalText) -> Vec<FragmentChunk>>(
    before: StoreData,
    after: StoreData,
    r: Result<ActivateRevisionResponse, ApiError>,
    resolver: EventIndexResolver,
    tenant_id: Seq<char>,
    source_id: Seq<char>,
    revision_id: Seq<char>,
    cut: C,
    stamp: StampView,
) -> bool {
    exists|
        pointed: StoreData,
        revision: SourceRevision,
        written: StoreData,
        ingest: DocumentIngestResult,
        fragments: Vec<FragmentChunk>,
        history: Result<HistoryEventResponse, ApiError>,
    |
        {
            &&& revision.id@ == revision_id
            &&& #[trigger] revision_pointed(before, pointed, source_id, revision)
            &&& #[trigger] plain_document_written(
                pointed,
                written,
                ingest,
                revision_document(revision, tenant_id),
                None,
                cut,
                fragments,
                stamp.secrets,
                stamp.now,
            )
            &&& #[trigger] noted(
                written,
                after,
                history,
                resolver,
                tenant_id,
                "company"@,
                revision_note(
                    "company_doc.revision_activated"@,
                    "Company document revision activated for "@,
                    source_id,
                    revision_id,
                ),
                stamp,
            )
            &&& match history {
                Ok(h) => {
                    let uri = revision_document_uri(revision.source_id@, revision.id@);
                    &&& r is Ok
                    &&& r->Ok_0.source_id@ == source_id
                    &&& r->Ok_0.active_revision_id@ == revision_id
                    &&& opt_text(r->Ok_0.previous_revision_id) == opt_text(
                        before.sources@[source_id].active_revision_id,
                    )
                    &&& opt_text(r->Ok_0.history_event_id) == Some(h.event.id@)
                    &&& r->Ok_0.source_document_uri@ == uri
                    &&& texts(r->Ok_0.fragment_uris@) == fragment_uris(uri, fragments@)
                    &&& texts(r->Ok_0.context_uris@) == fragment_uris(uri, fragments@)
                },
                Err(e) => r == Err::<ActivateRevisionResponse, ApiError>(e),
            }
        }
}

fn find_company_revision(revisions: &Vec<SourceRevision>, id: &str) -> (r: usize)
    ensures
        r == first_where(revisions@, company_revision_is(id@)),
        r <= revisions@.len(),
        r < revisions@.len() ==> revisions@[r as int].id@ == id@,
{
    let ghost p = company_revision_is(id@);
    let accept = |r: &SourceRevision| -> (b: bool)
        ensures
            b == p(*r),
        { text_eq(r.id.as_str(), id) };
    proof {
        first_where_facts(revisions@, p);
    }
    find_where(revisions, accept, Ghost(p))
}

fn mark_active(data: &mut StoreData, source_id: &str, at: usize) -> (r: SourceRevision)
    requires
        ({
            let revisions = list_at(lists(old(data).source_revisions@), source_id@);
            &&& at < revisions.len()
            &&& at == first_where(revisions, company_revision_is(revisions[at as int].id@))
        }),
    ensures
        revision_marked(*old(data), *final(data), source_id@, r),
        r.id@ == list_at(lists(old(data).source_revisions@), source_id@)[at as int].id@,
{
    let key: String = source_id.to_owned();
    let mut revisions: Vec<SourceRevision> = take_list(&mut data.source_revisions, &key);
    let ghost had = revisions@;
    let revision: SourceRevision = SourceRevision {
        status: "active".to_owned(),
        ..revisions[at].clone()
    };
    revisions.set(at, revision.clone());
    let ghost has = revisions;
    data.source_revisions.insert(key, revisions);
    proof {
        lists_replaced(old(data).source_revisions@, source_id@, has);
        assert(has@ =~= had.update(at as int, revision));
    }
    revision
}

fn point_to(
    data: &mut StoreData,
    source_id: &str,
    source: &CompanySource,
    revision: &SourceRevision,
)
    requires
        old(data).sources@.dom().contains(source_id@),
        old(data).sources@[source_id@] == *source,
    ensures
        *final(data) == (StoreData { sources: final(data).sources, ..*old(data) }),
        points_to(*source, final(data).sources@[source_id@], *revision),
        final(data).sources@ == old(data).sources@.insert(
            source_id@,
            final(data).sources@[source_id@],
        ),
{
    data.sources.insert(
        source_id.to_owned(),
        CompanySource {
            active_revision_id: Some(revision.id.clone()),
            title: revision.title.clone(),
            source_uri: revision.source_uri.clone(),
            canonical_key: sanitize_slug(revision.title.as_str()),
            ..source.clone()
        },
    );
}

/// Makes a revision the active one of its source, stores it as a document with the fragments that
/// `cut` makes of it in the place of the one before, and notes it in the company's history.
///
/// The revision is marked before its source is looked up: where there are revisions but no source,
/// the mark stays although the call fails.
pub fn activate_revision<C: Fn(&RetrievalText) -> Vec<FragmentChunk>>(
    data: &mut StoreData,
    resolver: &EventIndexResolver,
    tenant_id: &str,
    source_id: &str,
    revision_id: &str,
    cut: C,
    stamp: &Stamp<'_>,
) -> (r: Result<ActivateRevisionResponse, ApiError>)
    requires
        indexes_have_room(*old(data), 1),
        is_cutter(cut),
    ensures
        match activation_refusal(*old(data), tenant_id@, source_id@, revision_id@) {
            Some(e) => *final(data) == *old(data) && fails_with(r, e),
            None => if old(data).sources@.dom().contains(source_id@) {
                activation_result(
                    *old(data),
                    *final(data),
                    r,
                    *resolver,
                    tenant_id@,
                    source_id@,
                    revision_id@,
                    cut,
                    stamp@,
                )
            } else {
                &&& fails_with(r, ErrorView::NotFound("source not found"@))
                &&& exists|revision: SourceRevision|
                    {
                        &&& revision.id@ == revision_id@
                        &&& #[trigger] revision_marked(
                            *old(data),
                            *final(data),
                            source_id@,
                            revision,
                        )
                    }
            },
        },
{
    match ensure_company_source_not_deleting(data, tenant_id, source_id) {
        Ok(_) => {},
        Err(error) => {
            return Err(error);
        },
    }
    let key: String = source_id.to_owned();
    let at: usize = match data.source_revisions.get(&key) {
        Some(revisions) => {
            let at: usize = find_company_revision(revisions, revision_id);
            if at >= revisions.len() {
                return Err(ApiError::not_found("revision not found"));
            }
            at
        },
        None => {
            return Err(ApiError::not_found("source revisions not found"));
        },
    };
    let revision: SourceRevision = mark_active(data, source_id, at);
    let ghost marked = *data;
    let source: CompanySource = match data.sources.get(&key) {
        Some(source) => source.clone(),
        None => {
            return Err(ApiError::not_found("source not found"));
        },
    };
    point_to(data, source_id, &source, &revision);
    assert(StoreData { sources: old(data).sources, ..*data } == marked);
    let ghost pointed = *data;
    let ingest: DocumentIngestResult = write_company_revision_context(
        data,
        tenant_id,
        &revision,
        cut,
        stamp.secrets,
        stamp.now,
    );
    let ghost written = *data;
    let history: Result<HistoryEventResponse, ApiError> = note_revision(
        data,
        resolver,
        tenant_id,
        "company_doc.revision_activated",
        "Company document revision activated for ",
        source_id,
        revision_id,
        stamp,
    );
    proof {
        let fragments = choose|fragments: Vec<FragmentChunk>|
            texts(ingest.fragment_uris@) == fragment_uris(ingest.source_document_uri@, fragments@)
                && #[trigger] plain_document_written(
                pointed,
                written,
                ingest,
                revision_document(revision, tenant_id@),
                None,
                cut,
                fragments,
                texts(stamp.secrets@),
                stamp.now,
            );
        assert(revision_pointed(*old(data), pointed, source_id@, revision));
        assert(plain_document_written(
            pointed,
            written,
            ingest,
            revision_document(revision, tenant_id@),
            None,
            cut,
            fragments,
            stamp@.secrets,
            stamp@.now,
        ));
        assert(noted(
            written,
            *data,
            history,
            *resolver,
            tenant_id@,
            "company"@,
            revision_note(
                "company_doc.revision_activated"@,
                "Company document revision activated for "@,
                source_id@,
                revision_id@,
            ),
            stamp@,
        ));
    }
    match history {
        Ok(history) => Ok(
            ActivateRevisionResponse {
                source_id: source_id.to_owned(),
                active_revision_id: revision_id.to_owned(),
                previous_revision_id: source.active_revision_id.clone(),
                history_event_id: Some(history.event.id.clone()),
                source_document_uri: ingest.source_document_uri.clone(),
                fragment_uris: texts_copy(&ingest.fragment_uris),
                context_uris: texts_copy(&ingest.fragment_uris),
            },
        ),
        Err(error) => Err(error),
    }
}

/// The revisions of a source.
pub fn list_revisions(data: &StoreData, source_id: &str) -> (r: Vec<SourceRevision>)
    ensures
        r@ == list_at(lists(data.source_revisions@), source_id@),
{
    let key: String = source_id.to_owned();
    match data.source_revisions.get(&key) {
        Some(revisions) => copy_all(revisions),
        None => Vec::new(),
    }
}

/// What a listing of the company's documents tells of a source.
pub struct CompanyDocSummary {
    pub source_id: String,
    pub title: String,
    pub source_uri: String,
    pub active_revision_id: Option<String>,
    pub active_revision_created_at: Option<i64>,
    pub active_revision_status: Option<String>,
    pub revision_count: usize,
}

/// The revision that a source points to.
pub open spec fn active_revision(d: StoreData, source: CompanySource) -> Option<SourceRevision> {
    match opt_text(source.active_revision_id) {
        Some(id) => first_of(
            list_at(lists(d.source_revisions@), source.id@),
            company_revision_is(id),
        ),
        None => None,
    }
}

/// Whether `r` tells of a source.
pub open spec fn is_summary(r: CompanyDocSummary, d: StoreData, source: CompanySource) -> bool {
    let active = active_revision(d, source);
    &&& r.source_id@ == source.id@
    &&& r.title@ == source.title@
    &&& r.source_uri@ == source.source_uri@
    &&& opt_text(r.active_revision_id) == (match active {
        Some(revision) => Some(revision.id@),
        None => None,
    })
    &&& r.active_revision_created_at == (match active {
        Some(revision) => Some(revision.created_at),
        None => None,
    })
    &&& opt_text(r.active_revision_status) == (match active {
        Some(revision) => Some(revision.status@),
        None => None,
    })
    &&& r.revision_count == list_at(lists(d.source_revisions@), source.id@).len()
}

fn find_active_revision(data: &StoreData, source: &CompanySource) -> (r: Option<SourceRevision>)
    ensures
        r == active_revision(*data, *source),
{
    match (&source.active_revision_id, data.source_revisions.get(&source.id)) {
        (Some(id), Some(revisions)) => {
            let at: usize = find_company_revision(revisions, id.as_str());
            if at < revisions.len() {
                Some(revisions[at].clone())
            } else {
                None
            }
        },
        (Some(id), None) => {
            proof {
                first_where_facts(Seq::<SourceRevision>::empty(), company_revision_is(id@));
            }
            None
        },
        _ => None,
    }
}

fn summary_of(data: &StoreData, source: &CompanySource) -> (r: CompanyDocSummary)
    ensures
        is_summary(r, *data, *source),
{
    let active: Option<SourceRevision> = find_active_revision(data, source);
    let revision_count: usize = match data.source_revisions.get(&source.id) {
        Some(revisions) => revisions.len(),
        None => 0,
    };
    CompanyDocSummary {
        source_id: source.id.clone(),
        title: source.title.clone(),
        source_uri: source.source_uri.clone(),
        active_revision_id: match &active {
            Some(revision) => Some(revision.id.clone()),
            None => None,
        },
        active_revision_created_at: match &active {
            Some(revision) => Some(revision.created_at),
            None => None,
        },
        active_revision_status: match &active {
            Some(revision) => Some(revision.status.clone()),
            None => None,
        },
        revision_count,
    }
}

/// The order of a listing: by the moment at which the active revision was made, the latest first;
/// those without an active revision come last.
pub open spec fn latest_first() -> spec_fn(CompanyDocSummary, CompanyDocSummary) -> bool {
    |a: CompanyDocSummary, b: CompanyDocSummary|
        match (a.active_revision_created_at, b.active_revision_created_at) {
            (Some(x), Some(y)) => x > y,
            (Some(_), None) => true,
            _ => false,
        }
}

/// Whether summaries tell of sources, one by one.
pub open spec fn are_summaries(
    s: Seq<CompanyDocSummary>,
    d: StoreData,
    sources: Seq<CompanySource>,
) -> bool {
    s.len() == sources.len() && forall|i: int|
        0 <= i < s.len() ==> is_summary(#[trigger] s[i], d, sources[i])
}

/// The sources of the company, the one with the newest active revision first; those without an
/// active revision come last.
pub fn list_company_docs(data: &StoreData) -> (r: Vec<CompanyDocSummary>)
    ensures
        exists|s: Seq<CompanyDocSummary>| #[trigger]
            are_summaries(s, *data, data.sources.values()) && r@ == sorted_by(s, latest_first()),
{
    let n: usize = data.sources.len();
    let mut out: Vec<CompanyDocSummary> = Vec::new();
    let mut i: usize = 0;
    while i < n
        invariant
            i <= n == data.sources.rows().len(),
            out@.len() == i,
            forall|j: int|
                0 <= j < i ==> is_summary(#[trigger] out@[j], *data, data.sources.values()[j]),
        decreases n - i,
    {
        out.push(summary_of(data, data.sources.value_at(i)));
        i += 1;
    }
    assert(are_summaries(out@, *data, data.sources.values()));
    let ghost lt = latest_first();
    let before = |a: &CompanyDocSummary, b: &CompanyDocSummary| -> (c: bool)
        ensures
            c == lt(*a, *b),
        {
            match (a.active_revision_created_at, b.active_revision_created_at) {
                (Some(x), Some(y)) => x > y,
                (Some(_), None) => true,
                _ => false,
            }
        };
    sort_by(out, before, Ghost(lt))
}

/// In a listing no source comes before one whose active revision is newer, and none without an
/// active revision before one that has one.
pub proof fn the_latest_is_listed_first(s: Seq<CompanyDocSummary>, i: int, j: int)
    requires
        0 <= i < j < s.len(),
    ensures
        ({
            let listed = sorted_by(s, latest_first());
            let a = listed[i].active_revision_created_at;
            let b = listed[j].active_revision_created_at;
            b is Some ==> a is Some && a->0 >= b->0
        }),
{
    sorted_by_is_in_order(s, latest_first());
    sorted_by_keeps_elements(s, latest_first());
}

/// A document of the company, as it is read.
pub struct CompanyDoc {
    pub source_id: String,
    pub title: String,
    pub content: String,
    pub revision_id: String,
    pub status: String,
    pub created_at: i64,
    pub source_uri: String,
    pub active_revision_id: Option<String>,
}

/// Whether `r` is a source read through a revision.
pub open spec fn is_company_doc(
    r: CompanyDoc,
    source: CompanySource,
    revision: SourceRevision,
) -> bool {
    &&& r.source_id@ == source.id@
    &&& r.title@ == revision.title@
    &&& r.content@ == revision.content@
    &&& r.revision_id@ == revision.id@
    &&& r.status@ == revision.status@
    &&& r.created_at == revision.created_at
    &&& r.source_uri@ == revision.source_uri@
    &&& opt_text(r.active_revision_id) == opt_text(source.active_revision_id)
}

/// The revision through which a source is read: the one that it points to, where it is there, else
/// the last.
pub open spec fn revision_read(revisions: Seq<SourceRevision>, source: CompanySource) -> SourceRevision {
    match opt_text(source.active_revision_id) {
        Some(id) => match first_of(revisions, company_revision_is(id)) {
            Some(revision) => revision,
            None => revisions.last(),
        },
        None => revisions.last(),
    }
}

/// A document of the company, read through the revision that its source points to, where it is
/// there, else through the last.
pub fn get_company_doc(data: &StoreData, source_id: &str) -> (r: Result<CompanyDoc, ApiError>)
    ensures
        ({
            let revisions = list_at(lists(data.source_revisions@), source_id@);
            let source = data.sources@[source_id@];
            if !data.sources@.dom().contains(source_id@) {
                fails_with(r, ErrorView::NotFound("source not found"@))
            } else if revisions.len() == 0 {
                fails_with(r, ErrorView::NotFound("no revisions for source"@))
            } else {
                r is Ok && is_company_doc(r->Ok_0, source, revision_read(revisions, source))
            }
        }),
{
    let key: String = source_id.to_owned();
    let source: CompanySource = match data.sources.get(&key) {
        Some(source) => source.clone(),
        None => {
            return Err(ApiError::not_found("source not found"));
        },
    };
    let revisions: Vec<SourceRevision> = list_revisions(data, source_id);
    if revisions.len() == 0 {
        return Err(ApiError::not_found("no revisions for source"));
    }
    let last: usize = revisions.len() - 1;
    let at: usize = match &source.active_revision_id {
        Some(id) => {
            let at: usize = find_company_revision(&revisions, id.as_str());
            if at < revisions.len() {
                at
            } else {
                last
            }
        },
        None => last,
    };
    let revision: &SourceRevision = &revisions[at];
    Ok(
        CompanyDoc {
            source_id: source.id.clone(),
            title: revision.title.clone(),
            content: revision.content.clone(),
            revision_id: revision.id.clone(),
            status: revision.status.clone(),
            created_at: revision.created_at,
            source_uri: revision.source_uri.clone(),
            active_revision_id: source.active_revision_id.clone(),
        },
    )
}

/// Once a revision is made the active one, its source is read through it.
pub proof fn what_is_made_active_is_read(
    before: StoreData,
    after: StoreData,
    source_id: Seq<char>,
    revision: SourceRevision,
)
    requires
        revision_pointed(before, after, source_id, revision),
    ensures
        revision_read(list_at(lists(after.source_revisions@), source_id), after.sources@[source_id])
            == revision,
{
    let had = list_at(lists(before.source_revisions@), source_id);
    let p = company_revision_is(revision.id@);
    let at = first_where(had, p);
    let has = had.update(at, revision);
    first_where_facts(had, p);
    first_where_facts(has, p);
    assert forall|j: int| 0 <= j < at implies !p(#[trigger] has[j]) by {
        assert(has[j] == had[j]);
    }
    assert(p(has[at]));
    crate::order::first_where_is(has, p, at);
}

} // verus!
