//! What insights can be relied on for, saved one by one or taken on from an analysis.

use vstd::prelude::*;

use crate::analysis::{AnalysisInsightMaterialization, AnalysisLinkMaterialization};
use crate::data::StoreData;
use crate::error::ApiError;
use crate::history::{noted, noting_keeps_other_records, HistoryEventResponse, StampView};
use crate::insights::{
    insight_answered, insight_context_written, insight_memory_key, insight_note, insight_patch_note,
    insight_patched, insight_put, insight_replaced, insight_upserted, is_overview, is_saved_insight,
    patched_insight, InsightPatchRequest, InsightResponse, InsightUpsertRequest,
};
use crate::laws::choosing::{
    a_filter_keeps_what_it_accepts, a_value_has_its_key, a_value_has_its_place,
};
use crate::laws::linking::{a_link_is_taken_on_as_proposed, marks_are_new, proposal_key};
use crate::laws::publishing::{reads, same_but};
use crate::materialize::{
    insight_at, insight_step, insight_taken, insights_taken, is_insight_request, is_source,
    known_insights, link_taken, links_taken, mark_stamp, BatchView, CandidateMark,
};
use crate::model::knowledge::{InsightRecord, KnowledgeLink};
use crate::naming::slug;
use crate::resolver::EventIndexResolver;
use crate::text::opt_text;

verus! {

/// An insight that is saved says what was asked for, is active and is read under its id; no other
/// insight is touched, and nothing but insights, context and history changes.
pub proof fn a_saved_insight_is_as_asked<F: Fn(&InsightRecord, Option<&str>) -> String>(
    before: StoreData,
    after: StoreData,
    r: Result<InsightResponse, ApiError>,
    resolver: EventIndexResolver,
    tenant_id: Seq<char>,
    req: InsightUpsertRequest,
    overview: F,
    new_id: Seq<char>,
    stamp: StampView,
)
    requires
        insight_upserted(before, after, r, resolver, tenant_id, req, overview, new_id, stamp),
        r is Ok,
    ensures
        ({
            let i = r->Ok_0.insight;
            &&& opt_text(req.owner_user_id) == Some(i.owner_user_id@)
            &&& opt_text(req.insight_type) == Some(i.insight_type@)
            &&& opt_text(req.title) == Some(i.title@)
            &&& opt_text(req.statement) == Some(i.statement@)
            &&& i.tenant_id@ == tenant_id
            &&& i.confidence == req.confidence
            &&& i.salience == req.salience
            &&& i.privacy@ == req.privacy@
            &&& i.source_refs == req.source_refs
            &&& i.status@ == "active"@
            &&& i.context_uri@ == "ctx://user/insights/"@ + slug(i.insight_type@) + "/"@ + slug(
                i.title@,
            )
            &&& r->Ok_0.context_uri@ == i.context_uri@
            &&& i.updated_at == stamp.now
            &&& i.created_at == (if before.insights@.dom().contains(i.id@) {
                before.insights@[i.id@].created_at
            } else {
                stamp.now
            })
            &&& reads(after.insights@, i.id@, i)
            &&& same_but(before.insights@, after.insights@, i.id@)
            &&& match req.idempotency_key {
                Some(key) => {
                    let k = (tenant_id, i.owner_user_id@, resolver.key_digest(key@));
                    &&& after.insight_idempotency@.dom().contains(k)
                    &&& after.insight_idempotency@[k]@ == i.id@
                    &&& same_but(before.insight_idempotency@, after.insight_idempotency@, k)
                    &&& !before.insight_idempotency@.dom().contains(k) ==> i.id@ == new_id
                    &&& before.insight_idempotency@.dom().contains(k) ==> i.id@
                        == before.insight_idempotency@[k]@
                },
                None => i.id@ == new_id && after.insight_idempotency == before.insight_idempotency,
            }
            &&& after.links == before.links
            &&& after.link_idempotency == before.link_idempotency
            &&& after.state_items == before.state_items
            &&& after.company_context == before.company_context
            &&& after.operations == before.operations
        }),
{
    lemma_saved(before, after, r, resolver, tenant_id, req, overview, new_id, stamp);
}

proof fn lemma_saved<F: Fn(&InsightRecord, Option<&str>) -> String>(
    before: StoreData,
    after: StoreData,
    r: Result<InsightResponse, ApiError>,
    resolver: EventIndexResolver,
    tenant_id: Seq<char>,
    req: InsightUpsertRequest,
    overview: F,
    new_id: Seq<char>,
    stamp: StampView,
) -> (put: StoreData)
    requires
        insight_upserted(before, after, r, resolver, tenant_id, req, overview, new_id, stamp),
        r is Ok,
    ensures
        is_saved_insight(r->Ok_0.insight, before, resolver, tenant_id, req, new_id, stamp.now),
        insight_put(before, put, r->Ok_0.insight, insight_memory_key(resolver, tenant_id, req)),
        after == (StoreData {
            user_indexes: after.user_indexes,
            events_by_index: after.events_by_index,
            event_by_id: after.event_by_id,
            event_idempotency: after.event_idempotency,
            personal_context: after.personal_context,
            ..put
        }),
        r->Ok_0.context_uri@ == r->Ok_0.insight.context_uri@,
{
    let owner = req.owner_user_id->Some_0@;
    let evidence = opt_text(req.evidence_text);
    let (insight, put, text, written, e) = choose|
        insight: InsightRecord,
        put: StoreData,
        text: Seq<char>,
        written: StoreData,
        e: Result<HistoryEventResponse, ApiError>,
    |
        {
            &&& is_saved_insight(insight, before, resolver, tenant_id, req, new_id, stamp.now)
            &&& #[trigger] insight_put(
                before,
                put,
                insight,
                insight_memory_key(resolver, tenant_id, req),
            )
            &&& is_overview(overview, insight, evidence, text)
            &&& #[trigger] insight_context_written(
                put,
                written,
                insight,
                tenant_id,
                text,
                resolver.context_of(tenant_id, owner),
                stamp.secrets,
                stamp.now,
            )
            &&& #[trigger] noted(
                written,
                after,
                e,
                resolver,
                tenant_id,
                owner,
                insight_note(insight, evidence),
                stamp,
            )
            &&& insight_answered(r, e, insight)
        };
    noting_keeps_other_records(
        written,
        after,
        e,
        resolver,
        tenant_id,
        owner,
        insight_note(insight, evidence),
        stamp,
    );
    put
}

/// A patched insight has what the patch gives and keeps everything that it does not, its type,
/// title, owner and place among it; no other insight is touched.
pub proof fn a_patched_insight_keeps_what_is_not_given<
    F: Fn(&InsightRecord, Option<&str>) -> String,
>(
    before: StoreData,
    after: StoreData,
    r: Result<InsightResponse, ApiError>,
    resolver: EventIndexResolver,
    tenant_id: Seq<char>,
    insight_id: Seq<char>,
    req: InsightPatchRequest,
    overview: F,
    stamp: StampView,
)
    requires
        insight_patched(
            before,
            after,
            r,
            resolver,
            tenant_id,
            insight_id,
            req,
            overview,
            stamp,
        ),
        r is Ok,
    ensures
        ({
            let was = before.insights@[insight_id];
            let is = r->Ok_0.insight;
            &&& reads(after.insights@, insight_id, is)
            &&& same_but(before.insights@, after.insights@, insight_id)
            &&& req.statement is Some ==> is.statement == req.statement->0
            &&& req.statement is None ==> is.statement == was.statement
            &&& req.status is Some ==> is.status == req.status->0
            &&& req.status is None ==> is.status == was.status
            &&& req.confidence is Some ==> is.confidence == req.confidence->0
            &&& req.confidence is None ==> is.confidence == was.confidence
            &&& req.salience is Some ==> is.salience == req.salience->0
            &&& req.salience is None ==> is.salience == was.salience
            &&& req.privacy is Some ==> is.privacy == req.privacy->0
            &&& req.privacy is None ==> is.privacy == was.privacy
            &&& is.id == was.id
            &&& is.tenant_id == was.tenant_id
            &&& is.owner_user_id == was.owner_user_id
            &&& is.insight_type == was.insight_type
            &&& is.title == was.title
            &&& is.context_uri == was.context_uri
            &&& is.source_refs == was.source_refs
            &&& is.created_at == was.created_at
            &&& is.updated_at == stamp.now
            &&& after.links == before.links
            &&& after.insight_idempotency == before.insight_idempotency
            &&& after.state_items == before.state_items
        }),
{
    let insight = patched_insight(before.insights@[insight_id], req, stamp.now);
    let owner = insight.owner_user_id@;
    let (put, text, written, e) = choose|
        put: StoreData,
        text: Seq<char>,
        written: StoreData,
        e: Result<HistoryEventResponse, ApiError>,
    |
        {
            &&& #[trigger] insight_replaced(before, put, insight_id, insight)
            &&& is_overview(overview, insight, None, text)
            &&& #[trigger] insight_context_written(
                put,
                written,
                insight,
                tenant_id,
                text,
                resolver.context_of(tenant_id, owner),
                stamp.secrets,
                stamp.now,
            )
            &&& #[trigger] noted(
                written,
                after,
                e,
                resolver,
                tenant_id,
                owner,
                insight_patch_note(insight_id, opt_text(req.patch_reason)),
                stamp,
            )
            &&& insight_answered(r, e, insight)
        };
    noting_keeps_other_records(
        written,
        after,
        e,
        resolver,
        tenant_id,
        owner,
        insight_patch_note(insight_id, opt_text(req.patch_reason)),
        stamp,
    );
}

/// Whether an insight stands for a proposed one: in the same place, for the same owner.
pub open spec fn insight_stands_for(
    insight: InsightRecord,
    batch: BatchView,
    proposed: AnalysisInsightMaterialization,
) -> bool {
    &&& insight.tenant_id@ == batch.tenant_id
    &&& insight.owner_user_id@ == batch.owner
    &&& insight.context_uri@ == "ctx://user/insights/"@ + slug(proposed.insight_type@) + "/"@ + slug(
        proposed.title@,
    )
}

/// A proposed insight is taken on as it is proposed. One in the same place with the same type and
/// title is reused; else one is saved with the proposed statement and sources.
pub proof fn an_insight_is_taken_on_as_proposed<F: Fn(&InsightRecord, Option<&str>) -> String>(
    before: StoreData,
    after: StoreData,
    r: Result<InsightRecord, ApiError>,
    batch: BatchView,
    proposed: AnalysisInsightMaterialization,
    mark: CandidateMark,
    overview: F,
)
    requires
        insight_step(before, after, r, batch, proposed, mark, overview),
        r is Ok,
        !before.insight_idempotency@.dom().contains(
            proposal_key(batch, "analysis.materialize.insight"@, mark),
        ),
    ensures
        ({
            let i = r->Ok_0;
            &&& i.status@ == "active"@
            &&& i.insight_type@ == proposed.insight_type@
            &&& i.title@ == proposed.title@
            &&& insight_stands_for(i, batch, proposed)
            &&& after.links == before.links
            &&& (after == before && before.insights.values().contains(i)) || {
                &&& i.id@ == mark.id@
                &&& i.statement@ == proposed.statement@
                &&& i.confidence == proposed.confidence
                &&& i.salience == proposed.salience
                &&& i.privacy@ == "private"@
                &&& i.source_refs@.len() == proposed.source_uris@.len()
                &&& forall|k: int|
                    0 <= k < i.source_refs@.len() ==> (#[trigger] i.source_refs@[k]).kind@
                        == "context_uri"@ && opt_text(i.source_refs@[k].uri) == Some(
                        i.source_refs@[k].id@,
                    )
                &&& reads(after.insights@, i.id@, i)
                &&& same_but(before.insights@, after.insights@, i.id@)
                &&& same_but(
                    before.insight_idempotency@,
                    after.insight_idempotency@,
                    proposal_key(batch, "analysis.materialize.insight"@, mark),
                )
            }
        }),
{
    let known = known_insights(before, batch, proposed);
    let i = r->Ok_0;
    let p = |known: InsightRecord|
        insight_at(
            known,
            batch.tenant_id,
            batch.owner,
            crate::insights::insight_uri(proposed.insight_type@, proposed.title@),
        );
    assert(known == before.insights.values().filter(p));
    if known.len() == 1 {
        assert(known.contains(known[0]));
        a_filter_keeps_what_it_accepts(before.insights.values(), p, known[0]);
    } else {
        let (req, s) = choose|req: InsightUpsertRequest, s: Result<InsightResponse, ApiError>|
            {
                &&& is_insight_request(req, batch, proposed, mark)
                &&& #[trigger] insight_upserted(
                    before,
                    after,
                    s,
                    batch.resolver,
                    batch.tenant_id,
                    req,
                    overview,
                    mark.id@,
                    mark_stamp(batch, mark),
                )
                &&& match s {
                    Err(error) => r == Err::<InsightRecord, ApiError>(error),
                    Ok(response) => r == Ok::<InsightRecord, ApiError>(response.insight),
                }
            };
        a_saved_insight_is_as_asked(
            before,
            after,
            s,
            batch.resolver,
            batch.tenant_id,
            req,
            overview,
            mark.id@,
            mark_stamp(batch, mark),
        );
        assert forall|k: int| 0 <= k < i.source_refs@.len() implies (
        #[trigger] i.source_refs@[k]).kind@ == "context_uri"@ && opt_text(i.source_refs@[k].uri)
            == Some(i.source_refs@[k].id@) by {
            assert(is_source(i.source_refs@[k], i.source_refs@[k].id@));
        }
    }
}

/// Whether the proposed insights of a batch were not taken on before under the same marks or ids,
/// and no two of them have the same.
pub open spec fn insight_marks_are_new(
    d: StoreData,
    batch: BatchView,
    marks: Seq<CandidateMark>,
) -> bool {
    &&& forall|i: int|
        0 <= i < marks.len() ==> !d.insight_idempotency@.dom().contains(
            proposal_key(batch, "analysis.materialize.insight"@, #[trigger] marks[i]),
        ) && !d.insights@.dom().contains(marks[i].id@)
    &&& forall|i: int, j: int|
        0 <= i < j < marks.len() ==> (#[trigger] marks[i]).id@ != (#[trigger] marks[j]).id@
            && proposal_key(batch, "analysis.materialize.insight"@, marks[i]) != proposal_key(
            batch,
            "analysis.materialize.insight"@,
            marks[j],
        )
}

proof fn lemma_insight_marks_stay_new<F: Fn(&InsightRecord, Option<&str>) -> String>(
    states: Seq<StoreData>,
    out: Seq<InsightRecord>,
    batch: BatchView,
    insights: Seq<AnalysisInsightMaterialization>,
    marks: Seq<CandidateMark>,
    overview: F,
    n: int,
    i: int,
)
    requires
        insights_taken(states, out, batch, insights, marks, overview),
        insight_marks_are_new(states[0], batch, marks),
        marks.len() == insights.len(),
        0 <= n <= i < marks.len(),
        n < states.len(),
    ensures
        !states[n].insight_idempotency@.dom().contains(
            proposal_key(batch, "analysis.materialize.insight"@, marks[i]),
        ),
        !states[n].insights@.dom().contains(marks[i].id@),
    decreases n,
{
    if n > 0 {
        lemma_insight_marks_stay_new(states, out, batch, insights, marks, overview, n - 1, i);
        lemma_insight_marks_stay_new(states, out, batch, insights, marks, overview, n - 1, n - 1);
        assert(insight_taken(states, n - 1, out, batch, insights, marks, overview));
        an_insight_is_taken_on_as_proposed(
            states[n - 1],
            states[n],
            Ok::<InsightRecord, ApiError>(out[n - 1]),
            batch,
            insights[n - 1],
            marks[n - 1],
            overview,
        );
        assert(marks[n - 1].id@ != marks[i].id@);
    }
}

proof fn lemma_insight_stays<F: Fn(&InsightRecord, Option<&str>) -> String>(
    states: Seq<StoreData>,
    out: Seq<InsightRecord>,
    batch: BatchView,
    insights: Seq<AnalysisInsightMaterialization>,
    marks: Seq<CandidateMark>,
    overview: F,
    i: int,
    n: int,
) -> (k: Seq<char>)
    requires
        insights_taken(states, out, batch, insights, marks, overview),
        insight_marks_are_new(states[0], batch, marks),
        marks.len() == insights.len(),
        0 <= i < n < states.len(),
    ensures
        reads(states[n].insights@, k, out[i]),
    decreases n,
{
    lemma_insight_marks_stay_new(states, out, batch, insights, marks, overview, n - 1, n - 1);
    assert(insight_taken(states, n - 1, out, batch, insights, marks, overview));
    an_insight_is_taken_on_as_proposed(
        states[n - 1],
        states[n],
        Ok::<InsightRecord, ApiError>(out[n - 1]),
        batch,
        insights[n - 1],
        marks[n - 1],
        overview,
    );
    if i < n - 1 {
        lemma_insight_stays(states, out, batch, insights, marks, overview, i, n - 1)
    } else if states[n] == states[n - 1] && states[n - 1].insights.values().contains(out[i]) {
        a_value_has_its_key(states[n - 1].insights, out[i])
    } else {
        out[i].id@
    }
}

/// A proposed insight that was taken on with others is known from then on.
pub(crate) proof fn lemma_insights_taken<F: Fn(&InsightRecord, Option<&str>) -> String>(
    states: Seq<StoreData>,
    out: Seq<InsightRecord>,
    batch: BatchView,
    insights: Seq<AnalysisInsightMaterialization>,
    marks: Seq<CandidateMark>,
    overview: F,
    i: int,
    n: int,
)
    requires
        insights_taken(states, out, batch, insights, marks, overview),
        insight_marks_are_new(states[0], batch, marks),
        marks.len() == insights.len(),
        0 <= i < n < states.len(),
    ensures
        known_insights(states[n], batch, insights[i]).len() >= 1,
{
    let k = lemma_insight_stays(states, out, batch, insights, marks, overview, i, n);
    lemma_insight_marks_stay_new(states, out, batch, insights, marks, overview, i, i);
    assert(insight_taken(states, i, out, batch, insights, marks, overview));
    an_insight_is_taken_on_as_proposed(
        states[i],
        states[i + 1],
        Ok::<InsightRecord, ApiError>(out[i]),
        batch,
        insights[i],
        marks[i],
        overview,
    );
    a_value_has_its_place(states[n].insights, k);
    let p = |known: InsightRecord|
        insight_at(
            known,
            batch.tenant_id,
            batch.owner,
            crate::insights::insight_uri(insights[i].insight_type@, insights[i].title@),
        );
    assert(known_insights(states[n], batch, insights[i]) == states[n].insights.values().filter(p));
    assert(p(out[i]));
    a_filter_keeps_what_it_accepts(states[n].insights.values(), p, out[i]);
    assert(known_insights(states[n], batch, insights[i]).contains(out[i]));
}

/// Taking insights on leaves the links alone.
pub(crate) proof fn lemma_taken_keeps_links<F: Fn(&InsightRecord, Option<&str>) -> String>(
    states: Seq<StoreData>,
    out: Seq<InsightRecord>,
    batch: BatchView,
    insights: Seq<AnalysisInsightMaterialization>,
    marks: Seq<CandidateMark>,
    overview: F,
    n: int,
)
    requires
        insights_taken(states, out, batch, insights, marks, overview),
        0 <= n < states.len(),
    ensures
        states[n].links == states[0].links,
    decreases n,
{
    if n > 0 {
        lemma_taken_keeps_links(states, out, batch, insights, marks, overview, n - 1);
        assert(insight_taken(states, n - 1, out, batch, insights, marks, overview));
        let before = states[n - 1];
        let after = states[n];
        let r = Ok::<InsightRecord, ApiError>(out[n - 1]);
        if known_insights(before, batch, insights[n - 1]).len() == 0 {
            let (req, s) = choose|req: InsightUpsertRequest, s: Result<InsightResponse, ApiError>|
                {
                    &&& is_insight_request(req, batch, insights[n - 1], marks[n - 1])
                    &&& #[trigger] insight_upserted(
                        before,
                        after,
                        s,
                        batch.resolver,
                        batch.tenant_id,
                        req,
                        overview,
                        marks[n - 1].id@,
                        mark_stamp(batch, marks[n - 1]),
                    )
                    &&& match s {
                        Err(error) => r == Err::<InsightRecord, ApiError>(error),
                        Ok(response) => r == Ok::<InsightRecord, ApiError>(response.insight),
                    }
                };
            a_saved_insight_is_as_asked(
                before,
                after,
                s,
                batch.resolver,
                batch.tenant_id,
                req,
                overview,
                marks[n - 1].id@,
                mark_stamp(batch, marks[n - 1]),
            );
        }
    }
}

/// Taking links on leaves the insights alone.
pub(crate) proof fn lemma_same_insights(
    states: Seq<StoreData>,
    out: Seq<KnowledgeLink>,
    batch: BatchView,
    links: Seq<AnalysisLinkMaterialization>,
    marks: Seq<CandidateMark>,
    n: int,
)
    requires
        links_taken(states, out, batch, links, marks),
        marks_are_new(states[0], batch, marks),
        marks.len() == links.len(),
        0 <= n < states.len(),
    ensures
        states[n].insights == states[0].insights,
        states[n].insight_idempotency == states[0].insight_idempotency,
    decreases n,
{
    if n > 0 {
        lemma_same_insights(states, out, batch, links, marks, n - 1);
        assert(link_taken(states, n - 1, out, batch, links, marks));
        crate::laws::linking::lemma_marks_stay_new(states, out, batch, links, marks, n - 1, n - 1);
        a_link_is_taken_on_as_proposed(
            states[n - 1],
            states[n],
            Ok::<KnowledgeLink, ApiError>(out[n - 1]),
            batch,
            links[n - 1],
            marks[n - 1],
        );
    }
}

} // verus!
