//! Taking on what an analysis proposes: what is known already is reused, the rest is saved.

use vstd::prelude::*;
use vstd::string::*;

use crate::analysis::{
    analysis_uri, canonicalize_analysis_uri, first_fault, reports, AnalysisInsightMaterialization, AnalysisLinkMaterialization,
    AnalysisMaterializationRequest,
};
use crate::data::StoreData;
use crate::error::{fails_with, ApiError, ErrorView};
use crate::facts::is_required;
use crate::history::{indexes_have_room, noted, HistoryEventResponse, Stamp, StampView};
use crate::history_search::{lemma_room_after_note, lemma_room_shrinks};
use crate::insights::{
    analysis_insight_context_uri, insight_answered, insight_context_written, insight_memory_key,
    insight_note, insight_put, insight_refusal, insight_upserted, insight_uri, is_overview,
    is_saved_insight, upsert_insight, InsightResponse, InsightUpsertRequest,
};
use crate::links::{
    ask_key, existing_link_id, is_saved_link, keyed_by, link_decision, link_memory_key, link_note,
    link_noted, link_put, link_saved, link_upserted, natural_key_of, normalize_relation,
    relation_name, requested_link, same_ends, upsert_link, LinkResponse, LinkUpsertRequest,
};
use crate::model::knowledge::{InsightRecord, KnowledgeLink, SourceRef};
use crate::naming::{link_natural_key, natural_key};
use crate::nodes::{canonical_link_uri, link_uri};
use crate::operations::{mutation_request_fingerprint, request_fingerprint_of};
use crate::record::select_values;
use crate::resolver::EventIndexResolver;
use crate::source_delete::{
    ensure_link_not_pending_company_source_delete, link_delete_pending, link_deleting_error,
};
use crate::text::{
    blank, is_blank, opt_text, text_eq, texts, texts_contain, texts_copy, texts_push,
};

verus! {

/// Where the links that are proposed lead: what would identify each.
pub open spec fn proposed_key(
    tenant_id: Seq<char>,
    owner: Seq<char>,
    link: AnalysisLinkMaterialization,
) -> Seq<char> {
    natural_key(
        tenant_id,
        Some(owner),
        link_uri(link.source_uri@),
        link_uri(link.target_uri@),
        relation_name(link.relation@),
    )
}

fn proposed_key_of(tenant_id: &str, owner: &str, link: &AnalysisLinkMaterialization) -> (r: String)
    ensures
        r@ == proposed_key(tenant_id@, owner@, *link),
{
    link_natural_key(
        tenant_id,
        Some(owner),
        canonical_link_uri(link.source_uri.as_str()).as_str(),
        canonical_link_uri(link.target_uri.as_str()).as_str(),
        normalize_relation(link.relation.as_str()).as_str(),
    )
}

/// What would identify the links that are proposed.
pub open spec fn proposed_keys(
    tenant_id: Seq<char>,
    owner: Seq<char>,
    links: Seq<AnalysisLinkMaterialization>,
) -> Seq<Seq<char>> {
    Seq::new(links.len(), |i: int| proposed_key(tenant_id, owner, links[i]))
}

/// Why the links of a batch cannot be taken on together: each has to connect two entries, and no
/// two may be the same.
pub open spec fn batch_links_fault(
    tenant_id: Seq<char>,
    owner: Seq<char>,
    links: Seq<AnalysisLinkMaterialization>,
) -> Option<ErrorView>
    decreases links.len(),
{
    if links.len() == 0 {
        None
    } else {
        let front = links.drop_last();
        let link = links.last();
        first_fault(
            batch_links_fault(tenant_id, owner, front),
            if blank(link.source_uri@) {
                Some(is_required("source_uri"@))
            } else if blank(link.target_uri@) {
                Some(is_required("target_uri"@))
            } else if link_uri(link.source_uri@) == link_uri(link.target_uri@) {
                Some(same_ends())
            } else if proposed_keys(tenant_id, owner, front).contains(
                proposed_key(tenant_id, owner, link),
            ) {
                Some(
                    ErrorView::BadRequest(
                        "analysis materialization contains a duplicate link natural identity"@,
                    ),
                )
            } else {
                None
            },
        )
    }
}

proof fn lemma_batch_links_stays(
    tenant_id: Seq<char>,
    owner: Seq<char>,
    links: Seq<AnalysisLinkMaterialization>,
    n: int,
)
    requires
        0 <= n <= links.len(),
        batch_links_fault(tenant_id, owner, links.take(n)) is Some,
    ensures
        batch_links_fault(tenant_id, owner, links) == batch_links_fault(
            tenant_id,
            owner,
            links.take(n),
        ),
    decreases links.len() - n,
{
    if n == links.len() {
        assert(links.take(n) =~= links);
    } else {
        assert(links.take(n + 1).drop_last() =~= links.take(n));
        lemma_batch_links_stays(tenant_id, owner, links, n + 1);
    }
}

fn check_batch_link(
    tenant_id: &str,
    owner: &str,
    link: &AnalysisLinkMaterialization,
    seen: &mut Vec<String>,
    Ghost(front): Ghost<Seq<AnalysisLinkMaterialization>>,
) -> (r: Result<(), ApiError>)
    requires
        texts(old(seen)@) == proposed_keys(tenant_id@, owner@, front),
        batch_links_fault(tenant_id@, owner@, front) is None,
    ensures
        reports(r, batch_links_fault(tenant_id@, owner@, front.push(*link))),
        r is Ok ==> texts(final(seen)@) == proposed_keys(tenant_id@, owner@, front.push(*link)),
{
    assert(front.push(*link).drop_last() =~= front);
    if is_blank(link.source_uri.as_str()) {
        return Err(ApiError::BadRequest("source_uri".to_owned().concat(" is required")));
    }
    if is_blank(link.target_uri.as_str()) {
        return Err(ApiError::BadRequest("target_uri".to_owned().concat(" is required")));
    }
    if text_eq(
        canonical_link_uri(link.source_uri.as_str()).as_str(),
        canonical_link_uri(link.target_uri.as_str()).as_str(),
    ) {
        return Err(
            ApiError::bad_request(
                "source_uri and target_uri must refer to different context nodes",
            ),
        );
    }
    let key: String = proposed_key_of(tenant_id, owner, link);
    if texts_contain(seen, key.as_str()) {
        return Err(
            ApiError::bad_request(
                "analysis materialization contains a duplicate link natural identity",
            ),
        );
    }
    proof {
        texts_push(seen@, key);
        assert(proposed_keys(tenant_id@, owner@, front.push(*link)) =~= proposed_keys(
            tenant_id@,
            owner@,
            front,
        ).push(key@));
    }
    seen.push(key);
    Ok(())
}

fn check_batch_links(tenant_id: &str, owner: &str, links: &Vec<AnalysisLinkMaterialization>) -> (r: Result<
    (),
    ApiError,
>)
    ensures
        reports(r, batch_links_fault(tenant_id@, owner@, links@)),
{
    let mut seen: Vec<String> = Vec::new();
    let mut i: usize = 0;
    assert(texts(seen@) =~= proposed_keys(tenant_id@, owner@, links@.take(0)));
    while i < links.len()
        invariant
            i <= links.len(),
            texts(seen@) == proposed_keys(tenant_id@, owner@, links@.take(i as int)),
            batch_links_fault(tenant_id@, owner@, links@.take(i as int)) is None,
        decreases links.len() - i,
    {
        assert(links@.take(i + 1) =~= links@.take(i as int).push(links@[i as int]));
        let checked: Result<(), ApiError> = check_batch_link(
            tenant_id,
            owner,
            &links[i],
            &mut seen,
            Ghost(links@.take(i as int)),
        );
        if checked.is_err() {
            proof {
                lemma_batch_links_stays(tenant_id@, owner@, links@, i + 1);
            }
            return checked;
        }
        i += 1;
    }
    assert(links@.take(i as int) =~= links@);
    Ok(())
}

/// The paths of the insights that are proposed.
pub open spec fn proposed_uris(insights: Seq<AnalysisInsightMaterialization>) -> Seq<Seq<char>> {
    Seq::new(insights.len(), |i: int| insight_uri(insights[i].insight_type@, insights[i].title@))
}

/// Why the insights of a batch cannot be taken on together: each has to say something, and no two
/// may have the same path.
pub open spec fn batch_insights_fault(insights: Seq<AnalysisInsightMaterialization>) -> Option<ErrorView>
    decreases insights.len(),
{
    if insights.len() == 0 {
        None
    } else {
        let front = insights.drop_last();
        let insight = insights.last();
        first_fault(
            batch_insights_fault(front),
            if blank(insight.insight_type@) {
                Some(is_required("insight_type"@))
            } else if blank(insight.title@) {
                Some(is_required("title"@))
            } else if blank(insight.statement@) {
                Some(is_required("statement"@))
            } else if proposed_uris(front).contains(
                insight_uri(insight.insight_type@, insight.title@),
            ) {
                Some(
                    ErrorView::BadRequest(
                        "analysis materialization contains a duplicate insight context identity"@,
                    ),
                )
            } else {
                None
            },
        )
    }
}

proof fn lemma_batch_insights_stays(insights: Seq<AnalysisInsightMaterialization>, n: int)
    requires
        0 <= n <= insights.len(),
        batch_insights_fault(insights.take(n)) is Some,
    ensures
        batch_insights_fault(insights) == batch_insights_fault(insights.take(n)),
    decreases insights.len() - n,
{
    if n == insights.len() {
        assert(insights.take(n) =~= insights);
    } else {
        assert(insights.take(n + 1).drop_last() =~= insights.take(n));
        lemma_batch_insights_stays(insights, n + 1);
    }
}

fn check_batch_insight(
    insight: &AnalysisInsightMaterialization,
    seen: &mut Vec<String>,
    Ghost(front): Ghost<Seq<AnalysisInsightMaterialization>>,
) -> (r: Result<(), ApiError>)
    requires
        texts(old(seen)@) == proposed_uris(front),
        batch_insights_fault(front) is None,
    ensures
        reports(r, batch_insights_fault(front.push(*insight))),
        r is Ok ==> texts(final(seen)@) == proposed_uris(front.push(*insight)),
{
    assert(front.push(*insight).drop_last() =~= front);
    if is_blank(insight.insight_type.as_str()) {
        return Err(ApiError::BadRequest("insight_type".to_owned().concat(" is required")));
    }
    if is_blank(insight.title.as_str()) {
        return Err(ApiError::BadRequest("title".to_owned().concat(" is required")));
    }
    if is_blank(insight.statement.as_str()) {
        return Err(ApiError::BadRequest("statement".to_owned().concat(" is required")));
    }
    let uri: String = analysis_insight_context_uri(
        insight.insight_type.as_str(),
        insight.title.as_str(),
    );
    if texts_contain(seen, uri.as_str()) {
        return Err(
            ApiError::bad_request(
                "analysis materialization contains a duplicate insight context identity",
            ),
        );
    }
    proof {
        texts_push(seen@, uri);
        assert(proposed_uris(front.push(*insight)) =~= proposed_uris(front).push(uri@));
    }
    seen.push(uri);
    Ok(())
}

fn check_batch_insights(insights: &Vec<AnalysisInsightMaterialization>) -> (r: Result<(), ApiError>)
    ensures
        reports(r, batch_insights_fault(insights@)),
{
    let mut seen: Vec<String> = Vec::new();
    let mut i: usize = 0;
    assert(texts(seen@) =~= proposed_uris(insights@.take(0)));
    while i < insights.len()
        invariant
            i <= insights.len(),
            texts(seen@) == proposed_uris(insights@.take(i as int)),
            batch_insights_fault(insights@.take(i as int)) is None,
        decreases insights.len() - i,
    {
        assert(insights@.take(i + 1) =~= insights@.take(i as int).push(insights@[i as int]));
        let checked: Result<(), ApiError> = check_batch_insight(
            &insights[i],
            &mut seen,
            Ghost(insights@.take(i as int)),
        );
        if checked.is_err() {
            proof {
                lemma_batch_insights_stays(insights@, i + 1);
            }
            return checked;
        }
        i += 1;
    }
    assert(insights@.take(i as int) =~= insights@);
    Ok(())
}

/// What is new about a proposal when it is saved.
pub struct CandidateMark {
    /// The owner and the proposal as they are written.
    pub canonical: String,
    pub id: String,
    pub event_id: String,
    pub job_id: String,
}

/// What is common to the proposals of a batch, by content.
pub struct BatchView {
    pub resolver: EventIndexResolver,
    pub tenant_id: Seq<char>,
    pub owner: Seq<char>,
    pub max_tags: nat,
    pub secrets: Seq<Seq<char>>,
    pub now: i64,
}

/// What is common to the proposals of a batch.
pub struct Batch<'a> {
    pub resolver: &'a EventIndexResolver,
    pub tenant_id: &'a str,
    pub owner: &'a str,
    /// How many tags a link may have for the library to add its own.
    pub max_tags: usize,
    pub secrets: &'a Vec<String>,
    pub now: i64,
}

impl<'a> View for Batch<'a> {
    type V = BatchView;

    open spec fn view(&self) -> BatchView {
        BatchView {
            resolver: *self.resolver,
            tenant_id: self.tenant_id@,
            owner: self.owner@,
            max_tags: self.max_tags as nat,
            secrets: texts(self.secrets@),
            now: self.now,
        }
    }
}

/// The stamp of a proposal that is saved.
pub open spec fn mark_stamp(batch: BatchView, mark: CandidateMark) -> StampView {
    StampView {
        secrets: batch.secrets,
        event_id: mark.event_id@,
        job_id: mark.job_id@,
        now: batch.now,
    }
}

/// The tags of a link that is saved: where there is room, it says that it comes from an analysis.
pub open spec fn link_tags(tags: Seq<Seq<char>>, max_tags: nat) -> Seq<Seq<char>> {
    if !tags.contains("analysis"@) && tags.len() < max_tags {
        tags.push("analysis"@)
    } else {
        tags
    }
}

/// Whether `req` saves a link that is proposed.
pub open spec fn is_link_request(
    req: LinkUpsertRequest,
    batch: BatchView,
    link: AnalysisLinkMaterialization,
    mark: CandidateMark,
) -> bool {
    &&& opt_text(req.owner_user_id) == Some(batch.owner)
    &&& opt_text(req.source_uri) == Some(link_uri(link.source_uri@))
    &&& opt_text(req.target_uri) == Some(link_uri(link.target_uri@))
    &&& req.source_title == link.source_title
    &&& req.target_title == link.target_title
    &&& req.relation@ == relation_name(link.relation@)
    &&& req.rationale == link.rationale
    &&& req.evidence_text is None
    &&& req.confidence == link.confidence
    &&& req.created_by@ == "analysis_api"@
    &&& texts(req.tags@) == link_tags(texts(link.tags@), batch.max_tags)
    &&& opt_text(req.idempotency_key) == Some(
        request_fingerprint_of(
            batch.resolver.secret@,
            batch.tenant_id,
            "analysis.materialize.link"@,
            mark.canonical@,
        ),
    )
}

fn link_request(batch: &Batch<'_>, link: &AnalysisLinkMaterialization, mark: &CandidateMark) -> (r:
    LinkUpsertRequest)
    ensures
        is_link_request(r, batch@, *link, *mark),
{
    let mut tags: Vec<String> = texts_copy(&link.tags);
    if !texts_contain(&tags, "analysis") && tags.len() < batch.max_tags {
        let tag: String = "analysis".to_owned();
        proof {
            texts_push(tags@, tag);
        }
        tags.push(tag);
    }
    LinkUpsertRequest {
        owner_user_id: Some(batch.owner.to_owned()),
        source_uri: Some(canonical_link_uri(link.source_uri.as_str())),
        target_uri: Some(canonical_link_uri(link.target_uri.as_str())),
        source_title: link.source_title.clone(),
        target_title: link.target_title.clone(),
        relation: normalize_relation(link.relation.as_str()),
        rationale: link.rationale.clone(),
        evidence_text: None,
        confidence: link.confidence,
        created_by: "analysis_api".to_owned(),
        tags: std::sync::Arc::new(tags),
        idempotency_key: Some(
            mutation_request_fingerprint(
                batch.resolver.secret.as_slice(),
                batch.tenant_id,
                "analysis.materialize.link",
                mark.canonical.as_str(),
            ),
        ),
    }
}

/// The links that a proposed link would be the same as.
pub open spec fn known_links(d: StoreData, batch: BatchView, link: AnalysisLinkMaterialization) -> Seq<
    KnowledgeLink,
> {
    d.links.values().filter(keyed_by(proposed_key(batch.tenant_id, batch.owner, link)))
}

/// What taking on a link leads to: the one that is known already is reused as it is, else it is
/// saved.
pub open spec fn link_step(
    before: StoreData,
    after: StoreData,
    r: Result<KnowledgeLink, ApiError>,
    batch: BatchView,
    link: AnalysisLinkMaterialization,
    mark: CandidateMark,
) -> bool {
    let known = known_links(before, batch, link);
    if known.len() > 1 {
        &&& after == before
        &&& fails_with(r, ErrorView::Conflict("analysis link natural identity is ambiguous"@))
    } else if known.len() == 1 {
        &&& after == before
        &&& if link_delete_pending(
            before.operations.values(),
            batch.tenant_id,
            Some(known[0].id@),
            known[0].source_uri@,
            known[0].target_uri@,
        ) {
            fails_with(r, link_deleting_error())
        } else if known[0].status@ != "active"@ {
            fails_with(r, ErrorView::Conflict("analysis link natural identity is not active"@))
        } else {
            r == Ok::<KnowledgeLink, ApiError>(known[0])
        }
    } else {
        exists|req: LinkUpsertRequest, s: Result<LinkResponse, ApiError>|
            {
                &&& is_link_request(req, batch, link, mark)
                &&& #[trigger] link_upserted(
                    before,
                    after,
                    s,
                    batch.resolver,
                    batch.tenant_id,
                    req,
                    mark.id@,
                    mark_stamp(batch, mark),
                )
                &&& match s {
                    Err(error) => r == Err::<KnowledgeLink, ApiError>(error),
                    Ok(response) => r == Ok::<KnowledgeLink, ApiError>(response.link),
                }
            }
    }
}

proof fn lemma_room_after_link(
    before: StoreData,
    after: StoreData,
    s: Result<LinkResponse, ApiError>,
    resolver: EventIndexResolver,
    tenant_id: Seq<char>,
    req: LinkUpsertRequest,
    new_id: Seq<char>,
    stamp: StampView,
    n: nat,
)
    requires
        link_upserted(before, after, s, resolver, tenant_id, req, new_id, stamp),
        indexes_have_room(before, n + 1),
        n < u64::MAX,
    ensures
        indexes_have_room(after, n),
{
    lemma_room_shrinks(before, n + 1, n);
    let ask = requested_link(tenant_id, req);
    let decision = link_decision(existing_link_id(before, ask_key(ask)));
    if after != before {
        assert(link_saved(before, after, s, resolver, ask, req, new_id, stamp));
        let (put, link) = choose|put: StoreData, link: KnowledgeLink|
            {
                &&& is_saved_link(link, before, ask, req, new_id, stamp.now)
                &&& #[trigger] link_put(
                    before,
                    put,
                    link,
                    link_memory_key(resolver, ask.tenant_id, req),
                )
                &&& match ask.owner {
                    None => after == put,
                    Some(owner) => link_noted(
                        put,
                        after,
                        s,
                        resolver,
                        ask,
                        owner,
                        link,
                        decision,
                        stamp,
                    ),
                }
            };
        assert(put.user_indexes == before.user_indexes);
        lemma_same_room(before, put, n + 1);
        lemma_same_room(before, put, n);
        match ask.owner {
            None => {},
            Some(owner) => {
                let e = choose|e: Result<HistoryEventResponse, ApiError>| #[trigger]
                    noted(
                        put,
                        after,
                        e,
                        resolver,
                        ask.tenant_id,
                        owner,
                        link_note(link, decision),
                        stamp,
                    );
                lemma_room_after_note(
                    put,
                    after,
                    e,
                    resolver,
                    ask.tenant_id,
                    owner,
                    link_note(link, decision),
                    stamp,
                    n,
                );
            },
        }
    }
}

proof fn lemma_same_room(a: StoreData, b: StoreData, n: nat)
    requires
        a.user_indexes == b.user_indexes,
        indexes_have_room(a, n),
    ensures
        indexes_have_room(b, n),
{
    assert forall|k: (Seq<char>, Seq<char>)| #[trigger]
        b.user_indexes@.dom().contains(k) implies b.user_indexes@[k].event_count_estimate + n
        <= u64::MAX by {
        assert(a.user_indexes@.dom().contains(k));
    }
}

fn take_link(
    data: &mut StoreData,
    batch: &Batch<'_>,
    link: &AnalysisLinkMaterialization,
    mark: &CandidateMark,
    Ghost(n): Ghost<nat>,
) -> (r: Result<KnowledgeLink, ApiError>)
    requires
        indexes_have_room(*old(data), n + 1),
        n < u64::MAX,
    ensures
        link_step(*old(data), *final(data), r, batch@, *link, *mark),
        old(data).links.wf(),
        indexes_have_room(*final(data), n),
{
    let key: String = proposed_key_of(batch.tenant_id, batch.owner, link);
    let ghost p = keyed_by(key@);
    let accept = |l: &KnowledgeLink| -> (b: bool)
        ensures
            b == p(*l),
        { text_eq(natural_key_of(l).as_str(), key.as_str()) };
    let known: Vec<KnowledgeLink> = select_values(&data.links, accept, Ghost(p));
    proof {
        lemma_room_shrinks(*data, n + 1, n);
        lemma_room_shrinks(*data, n + 1, 1);
    }
    if known.len() > 1 {
        return Err(ApiError::conflict("analysis link natural identity is ambiguous"));
    }
    if known.len() == 1 {
        let existing: &KnowledgeLink = &known[0];
        match ensure_link_not_pending_company_source_delete(
            data,
            batch.tenant_id,
            Some(existing.id.as_str()),
            existing.source_uri.as_str(),
            existing.target_uri.as_str(),
        ) {
            Ok(_) => {},
            Err(error) => {
                return Err(error);
            },
        }
        if !text_eq(existing.status.as_str(), "active") {
            return Err(ApiError::conflict("analysis link natural identity is not active"));
        }
        return Ok(existing.clone());
    }
    let req: LinkUpsertRequest = link_request(batch, link, mark);
    let stamp: Stamp<'_> = Stamp {
        secrets: batch.secrets,
        event_id: mark.event_id.as_str(),
        job_id: mark.job_id.as_str(),
        now: batch.now,
    };
    let s: Result<LinkResponse, ApiError> = upsert_link(
        data,
        batch.resolver,
        batch.tenant_id,
        &req,
        mark.id.as_str(),
        &stamp,
    );
    proof {
        assert(stamp@ == mark_stamp(batch@, *mark));
        assert(link_upserted(
            *old(data),
            *data,
            s,
            batch@.resolver,
            batch@.tenant_id,
            req,
            mark.id@,
            mark_stamp(batch@, *mark),
        ));
        lemma_room_after_link(
            *old(data),
            *data,
            s,
            batch@.resolver,
            batch@.tenant_id,
            req,
            mark.id@,
            stamp@,
            n,
        );
    }
    match s {
        Err(error) => Err(error),
        Ok(response) => Ok(response.link),
    }
}

/// Whether a link of a batch was taken on.
pub open spec fn link_taken(
    states: Seq<StoreData>,
    i: int,
    out: Seq<KnowledgeLink>,
    batch: BatchView,
    links: Seq<AnalysisLinkMaterialization>,
    marks: Seq<CandidateMark>,
) -> bool {
    &&& states[i].links.wf()
    &&& link_step(
        states[i],
        states[i + 1],
        Ok::<KnowledgeLink, ApiError>(out[i]),
        batch,
        links[i],
        marks[i],
    )
}

/// Whether the first links of a batch were taken on, one after the other.
pub open spec fn links_taken(
    states: Seq<StoreData>,
    out: Seq<KnowledgeLink>,
    batch: BatchView,
    links: Seq<AnalysisLinkMaterialization>,
    marks: Seq<CandidateMark>,
) -> bool {
    &&& states.len() == out.len() + 1
    &&& out.len() <= links.len()
    &&& forall|i: int|
        0 <= i < out.len() ==> #[trigger] link_taken(states, i, out, batch, links, marks)
}

/// What taking on the links of a batch leads to: the first that cannot be taken on ends it.
pub open spec fn links_outcome(
    before: StoreData,
    after: StoreData,
    r: Result<Vec<KnowledgeLink>, ApiError>,
    batch: BatchView,
    links: Seq<AnalysisLinkMaterialization>,
    marks: Seq<CandidateMark>,
) -> bool {
    exists|states: Seq<StoreData>, out: Seq<KnowledgeLink>|
        {
            &&& #[trigger] links_taken(states, out, batch, links, marks)
            &&& states[0] == before
            &&& match r {
                Ok(all) => all@ == out && out.len() == links.len() && states.last() == after,
                Err(error) => {
                    &&& out.len() < links.len()
                    &&& link_step(
                        states.last(),
                        after,
                        Err::<KnowledgeLink, ApiError>(error),
                        batch,
                        links[out.len() as int],
                        marks[out.len() as int],
                    )
                },
            }
        }
}

fn take_links(
    data: &mut StoreData,
    batch: &Batch<'_>,
    links: &Vec<AnalysisLinkMaterialization>,
    marks: &Vec<CandidateMark>,
    Ghost(n): Ghost<nat>,
) -> (r: Result<Vec<KnowledgeLink>, ApiError>)
    requires
        marks@.len() == links@.len(),
        indexes_have_room(*old(data), n + links@.len()),
        n + links@.len() < u64::MAX,
    ensures
        links_outcome(*old(data), *final(data), r, batch@, links@, marks@),
        r is Ok ==> indexes_have_room(*final(data), n),
{
    let mut out: Vec<KnowledgeLink> = Vec::new();
    let ghost mut states: Seq<StoreData> = seq![*data];
    let mut i: usize = 0;
    while i < links.len()
        invariant
            i <= links@.len() == marks@.len(),
            n + links@.len() < u64::MAX,
            indexes_have_room(*data, (n + links@.len() - i) as nat),
            out@.len() == i,
            states.len() == i + 1,
            states[0] == *old(data),
            states.last() == *data,
            forall|j: int|
                0 <= j < i ==> #[trigger] link_taken(states, j, out@, batch@, links@, marks@),
        decreases links@.len() - i,
    {
        let ghost mid = *data;
        let r: Result<KnowledgeLink, ApiError> = take_link(
            data,
            batch,
            &links[i],
            &marks[i],
            Ghost((n + links@.len() - i - 1) as nat),
        );
        match r {
            Err(error) => {
                assert(links_taken(states, out@, batch@, links@, marks@));
                return Err(error);
            },
            Ok(link) => {
                let ghost earlier = states;
                let ghost earlier_out = out@;
                out.push(link);
                proof {
                    states = states.push(*data);
                    assert forall|j: int| 0 <= j < i + 1 implies #[trigger] link_taken(
                        states,
                        j,
                        out@,
                        batch@,
                        links@,
                        marks@,
                    ) by {
                        if j < i {
                            assert(link_taken(earlier, j, earlier_out, batch@, links@, marks@));
                        }
                    }
                }
            },
        }
        i += 1;
    }
    assert(links_taken(states, out@, batch@, links@, marks@));
    Ok(out)
}

/// The sources of an insight that is saved.
pub open spec fn is_source_list(refs: Seq<SourceRef>, uris: Seq<String>) -> bool {
    &&& refs.len() == uris.len()
    &&& forall|i: int|
        0 <= i < uris.len() ==> is_source(
            #[trigger] refs[i],
            match analysis_uri(uris[i]@) {
                Some(uri) => uri,
                None => uris[i]@,
            },
        )
}

/// Whether `s` refers to an entry.
pub open spec fn is_source(s: SourceRef, uri: Seq<char>) -> bool {
    &&& s.kind@ == "context_uri"@
    &&& s.id@ == uri
    &&& opt_text(s.uri) == Some(uri)
    &&& s.meta is None
}

fn source_list(uris: &Vec<String>) -> (r: Vec<SourceRef>)
    ensures
        is_source_list(r@, uris@),
{
    let mut out: Vec<SourceRef> = Vec::new();
    let mut i: usize = 0;
    while i < uris.len()
        invariant
            i <= uris.len(),
            out@.len() == i,
            forall|j: int|
                0 <= j < i ==> is_source(
                    #[trigger] out@[j],
                    match analysis_uri(uris@[j]@) {
                        Some(uri) => uri,
                        None => uris@[j]@,
                    },
                ),
        decreases uris.len() - i,
    {
        let uri: String = match canonicalize_analysis_uri(uris[i].as_str()) {
            Some(uri) => uri,
            None => uris[i].clone(),
        };
        out.push(
            SourceRef {
                kind: "context_uri".to_owned(),
                id: uri.clone(),
                uri: Some(uri),
                meta: None,
            },
        );
        i += 1;
    }
    out
}

/// Whether `req` saves an insight that is proposed.
pub open spec fn is_insight_request(
    req: InsightUpsertRequest,
    batch: BatchView,
    insight: AnalysisInsightMaterialization,
    mark: CandidateMark,
) -> bool {
    &&& opt_text(req.owner_user_id) == Some(batch.owner)
    &&& req.insight_type == Some(insight.insight_type)
    &&& req.title == Some(insight.title)
    &&& req.statement == Some(insight.statement)
    &&& req.evidence_text is None
    &&& is_source_list(req.source_refs@, insight.source_uris@)
    &&& req.confidence == insight.confidence
    &&& req.salience == insight.salience
    &&& req.privacy@ == "private"@
    &&& opt_text(req.idempotency_key) == Some(
        request_fingerprint_of(
            batch.resolver.secret@,
            batch.tenant_id,
            "analysis.materialize.insight"@,
            mark.canonical@,
        ),
    )
}

/// Whether an insight has a path in the context of an owner.
pub open spec fn insight_at(
    insight: InsightRecord,
    tenant_id: Seq<char>,
    owner: Seq<char>,
    uri: Seq<char>,
) -> bool {
    insight.tenant_id@ == tenant_id && insight.owner_user_id@ == owner && insight.context_uri@
        == uri
}

/// The insights that have the path of a proposed one.
pub open spec fn known_insights(d: StoreData, batch: BatchView, insight: AnalysisInsightMaterialization) -> Seq<
    InsightRecord,
> {
    d.insights.values().filter(
        |known: InsightRecord|
            insight_at(
                known,
                batch.tenant_id,
                batch.owner,
                insight_uri(insight.insight_type@, insight.title@),
            ),
    )
}

/// What taking on an insight leads to: the one that is known already is reused as it is, else it
/// is saved.
pub open spec fn insight_step<F: Fn(&InsightRecord, Option<&str>) -> String>(
    before: StoreData,
    after: StoreData,
    r: Result<InsightRecord, ApiError>,
    batch: BatchView,
    insight: AnalysisInsightMaterialization,
    mark: CandidateMark,
    overview: F,
) -> bool {
    let known = known_insights(before, batch, insight);
    if known.len() > 1 {
        &&& after == before
        &&& fails_with(r, ErrorView::Conflict("analysis insight context identity is ambiguous"@))
    } else if known.len() == 1 {
        &&& after == before
        &&& if known[0].status@ != "active"@ {
            fails_with(
                r,
                ErrorView::Conflict("analysis insight context identity is not active"@),
            )
        } else if known[0].insight_type@ != insight.insight_type@ || known[0].title@
            != insight.title@ {
            fails_with(
                r,
                ErrorView::Conflict(
                    "analysis insight context identity collides with an existing insight"@,
                ),
            )
        } else {
            r == Ok::<InsightRecord, ApiError>(known[0])
        }
    } else {
        exists|req: InsightUpsertRequest, s: Result<InsightResponse, ApiError>|
            {
                &&& is_insight_request(req, batch, insight, mark)
                &&& #[trigger] insight_upserted(
                    before,
                    after,
                    s,
                    batch.resolver,
                    batch.tenant_id,
                    req,
                    overview,
                    mark.id@,
                    mark_stamp(batch, mark),
                )
                &&& match s {
                    Err(error) => r == Err::<InsightRecord, ApiError>(error),
                    Ok(response) => r == Ok::<InsightRecord, ApiError>(response.insight),
                }
            }
    }
}

proof fn lemma_room_after_insight<F: Fn(&InsightRecord, Option<&str>) -> String>(
    before: StoreData,
    after: StoreData,
    s: Result<InsightResponse, ApiError>,
    resolver: EventIndexResolver,
    tenant_id: Seq<char>,
    req: InsightUpsertRequest,
    overview: F,
    new_id: Seq<char>,
    stamp: StampView,
    n: nat,
)
    requires
        insight_upserted(before, after, s, resolver, tenant_id, req, overview, new_id, stamp),
        indexes_have_room(before, n + 1),
        n < u64::MAX,
    ensures
        indexes_have_room(after, n),
{
    lemma_room_shrinks(before, n + 1, n);
    if insight_refusal(req) is None {
        let owner = req.owner_user_id->Some_0@;
        let evidence = opt_text(req.evidence_text);
        let (insight, put, text, written, e) = choose|
            insight: InsightRecord,
            put: StoreData,
            text: Seq<char>,
            written: StoreData,
            e: Result<HistoryEventResponse, ApiError>,
        |
            {
                &&& is_saved_insight(
                    insight,
                    before,
                    resolver,
                    tenant_id,
                    req,
                    new_id,
                    stamp.now,
                )
                &&& #[trigger] insight_put(
                    before,
                    put,
                    insight,
                    insight_memory_key(resolver, tenant_id, req),
                )
                &&& is_overview(overview, insight, evidence, text)
                &&& #[trigger] insight_context_written(
                    put,
                    written,
                    insight,
                    tenant_id,
                    text,
                    resolver.context_of(tenant_id, owner),
                    stamp.secrets,
                    stamp.now,
                )
                &&& #[trigger] noted(
                    written,
                    after,
                    e,
                    resolver,
                    tenant_id,
                    owner,
                    insight_note(insight, evidence),
                    stamp,
                )
                &&& insight_answered(s, e, insight)
            };
        assert(written.user_indexes == before.user_indexes);
        lemma_same_room(before, written, n + 1);
        lemma_room_after_note(
            written,
            after,
            e,
            resolver,
            tenant_id,
            owner,
            insight_note(insight, evidence),
            stamp,
            n,
        );
    }
}

fn take_insight<F: Fn(&InsightRecord, Option<&str>) -> String>(
    data: &mut StoreData,
    batch: &Batch<'_>,
    insight: &AnalysisInsightMaterialization,
    mark: &CandidateMark,
    overview: &F,
    Ghost(n): Ghost<nat>,
) -> (r: Result<InsightRecord, ApiError>)
    requires
        indexes_have_room(*old(data), n + 1),
        n < u64::MAX,
        forall|i: InsightRecord, t: Option<&str>| #[trigger] overview.requires((&i, t)),
    ensures
        insight_step(*old(data), *final(data), r, batch@, *insight, *mark, *overview),
        old(data).insights.wf(),
        indexes_have_room(*final(data), n),
{
    let uri: String = analysis_insight_context_uri(
        insight.insight_type.as_str(),
        insight.title.as_str(),
    );
    let ghost b = batch@;
    let ghost path = insight_uri(insight.insight_type@, insight.title@);
    let ghost p = |known: InsightRecord| insight_at(known, b.tenant_id, b.owner, path);
    let accept = |known: &InsightRecord| -> (c: bool)
        ensures
            c == p(*known),
        {
            text_eq(known.tenant_id.as_str(), batch.tenant_id) && text_eq(
                known.owner_user_id.as_str(),
                batch.owner,
            ) && text_eq(known.context_uri.as_str(), uri.as_str())
        };
    let known: Vec<InsightRecord> = select_values(&data.insights, accept, Ghost(p));
    proof {
        assert(known@ == known_insights(*data, batch@, *insight));
        lemma_room_shrinks(*data, n + 1, n);
        lemma_room_shrinks(*data, n + 1, 1);
    }
    if known.len() > 1 {
        return Err(ApiError::conflict("analysis insight context identity is ambiguous"));
    }
    if known.len() == 1 {
        let existing: &InsightRecord = &known[0];
        if !text_eq(existing.status.as_str(), "active") {
            return Err(ApiError::conflict("analysis insight context identity is not active"));
        }
        if !text_eq(existing.insight_type.as_str(), insight.insight_type.as_str()) || !text_eq(
            existing.title.as_str(),
            insight.title.as_str(),
        ) {
            return Err(
                ApiError::conflict(
                    "analysis insight context identity collides with an existing insight",
                ),
            );
        }
        return Ok(existing.clone());
    }
    let req: InsightUpsertRequest = InsightUpsertRequest {
        owner_user_id: Some(batch.owner.to_owned()),
        insight_type: Some(insight.insight_type.clone()),
        title: Some(insight.title.clone()),
        statement: Some(insight.statement.clone()),
        evidence_text: None,
        source_refs: std::sync::Arc::new(source_list(&insight.source_uris)),
        confidence: insight.confidence,
        salience: insight.salience,
        privacy: "private".to_owned(),
        idempotency_key: Some(
            mutation_request_fingerprint(
                batch.resolver.secret.as_slice(),
                batch.tenant_id,
                "analysis.materialize.insight",
                mark.canonical.as_str(),
            ),
        ),
    };
    let stamp: Stamp<'_> = Stamp {
        secrets: batch.secrets,
        event_id: mark.event_id.as_str(),
        job_id: mark.job_id.as_str(),
        now: batch.now,
    };
    let s: Result<InsightResponse, ApiError> = upsert_insight(
        data,
        batch.resolver,
        batch.tenant_id,
        &req,
        overview,
        mark.id.as_str(),
        &stamp,
    );
    proof {
        assert(stamp@ == mark_stamp(batch@, *mark));
        assert(insight_upserted(
            *old(data),
            *data,
            s,
            batch@.resolver,
            batch@.tenant_id,
            req,
            *overview,
            mark.id@,
            mark_stamp(batch@, *mark),
        ));
        lemma_room_after_insight(
            *old(data),
            *data,
            s,
            batch@.resolver,
            batch@.tenant_id,
            req,
            *overview,
            mark.id@,
            stamp@,
            n,
        );
    }
    match s {
        Err(error) => Err(error),
        Ok(response) => Ok(response.insight),
    }
}

/// Whether an insight of a batch was taken on.
pub open spec fn insight_taken<F: Fn(&InsightRecord, Option<&str>) -> String>(
    states: Seq<StoreData>,
    i: int,
    out: Seq<InsightRecord>,
    batch: BatchView,
    insights: Seq<AnalysisInsightMaterialization>,
    marks: Seq<CandidateMark>,
    overview: F,
) -> bool {
    &&& states[i].insights.wf()
    &&& insight_step(
        states[i],
        states[i + 1],
        Ok::<InsightRecord, ApiError>(out[i]),
        batch,
        insights[i],
        marks[i],
        overview,
    )
}

/// Whether the first insights of a batch were taken on, one after the other.
pub open spec fn insights_taken<F: Fn(&InsightRecord, Option<&str>) -> String>(
    states: Seq<StoreData>,
    out: Seq<InsightRecord>,
    batch: BatchView,
    insights: Seq<AnalysisInsightMaterialization>,
    marks: Seq<CandidateMark>,
    overview: F,
) -> bool {
    &&& states.len() == out.len() + 1
    &&& out.len() <= insights.len()
    &&& forall|i: int|
        0 <= i < out.len() ==> #[trigger] insight_taken(
            states,
            i,
            out,
            batch,
            insights,
            marks,
            overview,
        )
}

/// What taking on the insights of a batch leads to: the first that cannot be taken on ends it.
pub open spec fn insights_outcome<F: Fn(&InsightRecord, Option<&str>) -> String>(
    before: StoreData,
    after: StoreData,
    r: Result<Vec<InsightRecord>, ApiError>,
    batch: BatchView,
    insights: Seq<AnalysisInsightMaterialization>,
    marks: Seq<CandidateMark>,
    overview: F,
) -> bool {
    exists|states: Seq<StoreData>, out: Seq<InsightRecord>|
        {
            &&& #[trigger] insights_taken(states, out, batch, insights, marks, overview)
            &&& states[0] == before
            &&& match r {
                Ok(all) => all@ == out && out.len() == insights.len() && states.last() == after,
                Err(error) => {
                    &&& out.len() < insights.len()
                    &&& insight_step(
                        states.last(),
                        after,
                        Err::<InsightRecord, ApiError>(error),
                        batch,
                        insights[out.len() as int],
                        marks[out.len() as int],
                        overview,
                    )
                },
            }
        }
}

fn take_insights<F: Fn(&InsightRecord, Option<&str>) -> String>(
    data: &mut StoreData,
    batch: &Batch<'_>,
    insights: &Vec<AnalysisInsightMaterialization>,
    marks: &Vec<CandidateMark>,
    overview: &F,
) -> (r: Result<Vec<InsightRecord>, ApiError>)
    requires
        marks@.len() == insights@.len(),
        indexes_have_room(*old(data), insights@.len()),
        insights@.len() < u64::MAX,
        forall|i: InsightRecord, t: Option<&str>| #[trigger] overview.requires((&i, t)),
    ensures
        insights_outcome(
            *old(data),
            *final(data),
            r,
            batch@,
            insights@,
            marks@,
            *overview,
        ),
{
    let mut out: Vec<InsightRecord> = Vec::new();
    let ghost mut states: Seq<StoreData> = seq![*data];
    let mut i: usize = 0;
    while i < insights.len()
        invariant
            i <= insights@.len() == marks@.len(),
            insights@.len() < u64::MAX,
            indexes_have_room(*data, (insights@.len() - i) as nat),
            forall|i: InsightRecord, t: Option<&str>| #[trigger] overview.requires((&i, t)),
            out@.len() == i,
            states.len() == i + 1,
            states[0] == *old(data),
            states.last() == *data,
            forall|j: int|
                0 <= j < i ==> #[trigger] insight_taken(
                    states,
                    j,
                    out@,
                    batch@,
                    insights@,
                    marks@,
                    *overview,
                ),
        decreases insights@.len() - i,
    {
        let r: Result<InsightRecord, ApiError> = take_insight(
            data,
            batch,
            &insights[i],
            &marks[i],
            overview,
            Ghost((insights@.len() - i - 1) as nat),
        );
        match r {
            Err(error) => {
                assert(insights_taken(states, out@, batch@, insights@, marks@, *overview));
                return Err(error);
            },
            Ok(insight) => {
                let ghost earlier = states;
                let ghost earlier_out = out@;
                out.push(insight);
                proof {
                    states = states.push(*data);
                    assert forall|j: int| 0 <= j < i + 1 implies #[trigger] insight_taken(
                        states,
                        j,
                        out@,
                        batch@,
                        insights@,
                        marks@,
                        *overview,
                    ) by {
                        if j < i {
                            assert(insight_taken(
                                earlier,
                                j,
                                earlier_out,
                                batch@,
                                insights@,
                                marks@,
                                *overview,
                            ));
                        }
                    }
                }
            },
        }
        i += 1;
    }
    assert(insights_taken(states, out@, batch@, insights@, marks@, *overview));
    Ok(out)
}

/// What is answered about what was taken on.
pub struct AnalysisMaterializationResponse {
    pub created_links: Vec<KnowledgeLink>,
    pub insights: Vec<InsightRecord>,
}

/// Why a batch cannot be taken on, whatever is known already.
pub open spec fn batch_fault(
    tenant_id: Seq<char>,
    owner: Seq<char>,
    req: AnalysisMaterializationRequest,
) -> Option<ErrorView> {
    first_fault(
        batch_links_fault(tenant_id, owner, req.links@),
        batch_insights_fault(req.insights@),
    )
}

/// What taking on a batch leads to: its links, and then its insights.
pub open spec fn materialized<F: Fn(&InsightRecord, Option<&str>) -> String>(
    before: StoreData,
    after: StoreData,
    r: Result<AnalysisMaterializationResponse, ApiError>,
    batch: BatchView,
    req: AnalysisMaterializationRequest,
    link_marks: Seq<CandidateMark>,
    insight_marks: Seq<CandidateMark>,
    overview: F,
) -> bool {
    exists|mid: StoreData, links: Result<Vec<KnowledgeLink>, ApiError>|
        {
            &&& #[trigger] links_outcome(before, mid, links, batch, req.links@, link_marks)
            &&& match links {
                Err(error) => after == mid && r is Err && r->Err_0 == error,
                Ok(created) => insights_answered(
                    mid,
                    after,
                    r,
                    created@,
                    batch,
                    req.insights@,
                    insight_marks,
                    overview,
                ),
            }
        }
}

/// What taking on the insights of a batch leads to once its links were taken on.
pub open spec fn insights_answered<F: Fn(&InsightRecord, Option<&str>) -> String>(
    before: StoreData,
    after: StoreData,
    r: Result<AnalysisMaterializationResponse, ApiError>,
    created: Seq<KnowledgeLink>,
    batch: BatchView,
    insights: Seq<AnalysisInsightMaterialization>,
    marks: Seq<CandidateMark>,
    overview: F,
) -> bool {
    exists|outcome: Result<Vec<InsightRecord>, ApiError>|
        {
            &&& #[trigger] insights_outcome(
                before,
                after,
                outcome,
                batch,
                insights,
                marks,
                overview,
            )
            &&& match outcome {
                Err(error) => r is Err && r->Err_0 == error,
                Ok(all) => r is Ok && r->Ok_0.created_links@ == created && r->Ok_0.insights@
                    == all@,
            }
        }
}

/// Takes on what an analysis proposes. What is known already is returned as it is.
pub fn materialize_analysis<F: Fn(&InsightRecord, Option<&str>) -> String>(
    data: &mut StoreData,
    batch: &Batch<'_>,
    req: &AnalysisMaterializationRequest,
    link_marks: &Vec<CandidateMark>,
    insight_marks: &Vec<CandidateMark>,
    overview: &F,
) -> (r: Result<AnalysisMaterializationResponse, ApiError>)
    requires
        link_marks@.len() == req.links@.len(),
        insight_marks@.len() == req.insights@.len(),
        req.links@.len() + req.insights@.len() < u64::MAX,
        indexes_have_room(*old(data), req.links@.len() + req.insights@.len()),
        forall|i: InsightRecord, t: Option<&str>| #[trigger] overview.requires((&i, t)),
    ensures
        match batch_fault(batch.tenant_id@, batch.owner@, *req) {
            Some(e) => *final(data) == *old(data) && fails_with(r, e),
            None => materialized(
                *old(data),
                *final(data),
                r,
                batch@,
                *req,
                link_marks@,
                insight_marks@,
                *overview,
            ),
        },
{
    match check_batch_links(batch.tenant_id, batch.owner, &req.links) {
        Ok(_) => {},
        Err(error) => {
            return Err(error);
        },
    }
    match check_batch_insights(&req.insights) {
        Ok(_) => {},
        Err(error) => {
            return Err(error);
        },
    }
    proof {
        assert(req.links@.len() + req.insights@.len() == req.insights@.len() + req.links@.len());
    }
    let links: Result<Vec<KnowledgeLink>, ApiError> = take_links(
        data,
        batch,
        &req.links,
        link_marks,
        Ghost(req.insights@.len()),
    );
    let ghost mid = *data;
    assert(links_outcome(*old(data), mid, links, batch@, req.links@, link_marks@));
    match links {
        Err(error) => Err(error),
        Ok(created) => {
            let outcome: Result<Vec<InsightRecord>, ApiError> = take_insights(
                data,
                batch,
                &req.insights,
                insight_marks,
                overview,
            );
            assert(insights_outcome(
                mid,
                *data,
                outcome,
                batch@,
                req.insights@,
                insight_marks@,
                *overview,
            ));
            match outcome {
                Err(error) => Err(error),
                Ok(insights) => Ok(
                    AnalysisMaterializationResponse { created_links: created, insights },
                ),
            }
        },
    }
}

proof fn lemma_known_links_stay(
    states: Seq<StoreData>,
    out: Seq<KnowledgeLink>,
    batch: BatchView,
    links: Seq<AnalysisLinkMaterialization>,
    marks: Seq<CandidateMark>,
    n: int,
)
    requires
        links_taken(states, out, batch, links, marks),
        forall|i: int|
            0 <= i < links.len() ==> known_links(states[0], batch, #[trigger] links[i]).len() >= 1,
        0 <= n < states.len(),
    ensures
        states[n] == states[0],
    decreases n,
{
    if n > 0 {
        lemma_known_links_stay(states, out, batch, links, marks, n - 1);
        assert(link_taken(states, n - 1, out, batch, links, marks));
        assert(known_links(states[0], batch, links[n - 1]).len() >= 1);
    }
}

proof fn lemma_known_insights_stay<F: Fn(&InsightRecord, Option<&str>) -> String>(
    states: Seq<StoreData>,
    out: Seq<InsightRecord>,
    batch: BatchView,
    insights: Seq<AnalysisInsightMaterialization>,
    marks: Seq<CandidateMark>,
    overview: F,
    n: int,
)
    requires
        insights_taken(states, out, batch, insights, marks, overview),
        forall|i: int|
            0 <= i < insights.len() ==> known_insights(
                states[0],
                batch,
                #[trigger] insights[i],
            ).len() >= 1,
        0 <= n < states.len(),
    ensures
        states[n] == states[0],
    decreases n,
{
    if n > 0 {
        lemma_known_insights_stay(states, out, batch, insights, marks, overview, n - 1);
        assert(insight_taken(states, n - 1, out, batch, insights, marks, overview));
        assert(known_insights(states[0], batch, insights[n - 1]).len() >= 1);
    }
}

/// A batch of which everything is known already changes nothing.
pub proof fn what_is_known_is_left_alone<F: Fn(&InsightRecord, Option<&str>) -> String>(
    before: StoreData,
    after: StoreData,
    r: Result<AnalysisMaterializationResponse, ApiError>,
    batch: BatchView,
    req: AnalysisMaterializationRequest,
    link_marks: Seq<CandidateMark>,
    insight_marks: Seq<CandidateMark>,
    overview: F,
)
    requires
        materialized(before, after, r, batch, req, link_marks, insight_marks, overview),
        forall|i: int|
            0 <= i < req.links@.len() ==> known_links(before, batch, #[trigger] req.links@[i]).len()
                >= 1,
        forall|i: int|
            0 <= i < req.insights@.len() ==> known_insights(
                before,
                batch,
                #[trigger] req.insights@[i],
            ).len() >= 1,
    ensures
        after == before,
{
    let (mid, links) = choose|mid: StoreData, links: Result<Vec<KnowledgeLink>, ApiError>|
        {
            &&& #[trigger] links_outcome(before, mid, links, batch, req.links@, link_marks)
            &&& match links {
                Err(error) => after == mid && r is Err && r->Err_0 == error,
                Ok(created) => insights_answered(
                    mid,
                    after,
                    r,
                    created@,
                    batch,
                    req.insights@,
                    insight_marks,
                    overview,
                ),
            }
        };
    let (states, out) = choose|states: Seq<StoreData>, out: Seq<KnowledgeLink>|
        {
            &&& #[trigger] links_taken(states, out, batch, req.links@, link_marks)
            &&& states[0] == before
            &&& match links {
                Ok(all) => all@ == out && out.len() == req.links@.len() && states.last() == mid,
                Err(error) => {
                    &&& out.len() < req.links@.len()
                    &&& link_step(
                        states.last(),
                        mid,
                        Err::<KnowledgeLink, ApiError>(error),
                        batch,
                        req.links@[out.len() as int],
                        link_marks[out.len() as int],
                    )
                },
            }
        };
    lemma_known_links_stay(states, out, batch, req.links@, link_marks, states.len() - 1);
    assert(states.last() == before);
    if links is Err {
        assert(known_links(before, batch, req.links@[out.len() as int]).len() >= 1);
    } else {
        let outcome = choose|outcome: Result<Vec<InsightRecord>, ApiError>|
            {
                &&& #[trigger] insights_outcome(
                    mid,
                    after,
                    outcome,
                    batch,
                    req.insights@,
                    insight_marks,
                    overview,
                )
                &&& match outcome {
                    Err(error) => r is Err && r->Err_0 == error,
                    Ok(all) => r is Ok && r->Ok_0.created_links@ == links->Ok_0@
                        && r->Ok_0.insights@ == all@,
                }
            };
        let (steps, done) = choose|steps: Seq<StoreData>, done: Seq<InsightRecord>|
            {
                &&& #[trigger] insights_taken(
                    steps,
                    done,
                    batch,
                    req.insights@,
                    insight_marks,
                    overview,
                )
                &&& steps[0] == mid
                &&& match outcome {
                    Ok(all) => all@ == done && done.len() == req.insights@.len() && steps.last()
                        == after,
                    Err(error) => {
                        &&& done.len() < req.insights@.len()
                        &&& insight_step(
                            steps.last(),
                            after,
                            Err::<InsightRecord, ApiError>(error),
                            batch,
                            req.insights@[done.len() as int],
                            insight_marks[done.len() as int],
                            overview,
                        )
                    },
                }
            };
        lemma_known_insights_stay(
            steps,
            done,
            batch,
            req.insights@,
            insight_marks,
            overview,
            steps.len() - 1,
        );
        assert(steps.last() == before);
        if outcome is Err {
            assert(known_insights(before, batch, req.insights@[done.len() as int]).len() >= 1);
        }
    }
}

} // verus!
