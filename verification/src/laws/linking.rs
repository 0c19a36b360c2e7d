//! What links can be relied on for, saved one by one or taken on from an analysis.

use vstd::prelude::*;

use crate::analysis::{AnalysisLinkMaterialization, AnalysisMaterializationRequest};
use crate::data::StoreData;
use crate::error::ApiError;
use crate::history::{noted, noting_keeps_other_records, HistoryEventResponse, StampView};
use crate::laws::choosing::{
    a_filter_keeps_what_it_accepts, a_value_has_its_key, a_value_has_its_place,
};
use crate::laws::insights::{
    insight_marks_are_new, lemma_insights_taken, lemma_same_insights, lemma_taken_keeps_links,
};
use crate::laws::publishing::{reads, same_but};
use crate::links::{
    ask_key, existing_link_id, is_saved_link, keyed_by, lemma_noted_link_stays, link_decision,
    link_key, link_memory_key, link_noted, link_put, link_upserted, relation_name, remembered_link,
    requested_link, LinkResponse, LinkUpsertRequest,
};
use crate::materialize::{
    insights_answered, insights_outcome, insights_taken, is_link_request, known_insights,
    known_links, link_step, link_taken, links_outcome, links_taken, mark_stamp, materialized,
    what_is_known_is_left_alone, AnalysisMaterializationResponse, BatchView, CandidateMark,
};
use crate::model::knowledge::{InsightRecord, KnowledgeLink};
use crate::naming::natural_key;
use crate::nodes::link_uri;
use crate::operations::request_fingerprint_of;
use crate::resolver::EventIndexResolver;
use crate::text::{opt_text, texts};

verus! {

/// A link that is saved leads from the source that was asked for to the target that was asked for,
/// is active and is read under its id; no other link is touched.
pub proof fn a_saved_link_is_as_asked(
    before: StoreData,
    after: StoreData,
    r: Result<LinkResponse, ApiError>,
    resolver: EventIndexResolver,
    tenant_id: Seq<char>,
    req: LinkUpsertRequest,
    new_id: Seq<char>,
    stamp: StampView,
)
    requires
        link_upserted(before, after, r, resolver, tenant_id, req, new_id, stamp),
        r is Ok,
        remembered_link(before, resolver, tenant_id, req) is None,
    ensures
        ({
            let link = r->Ok_0.link;
            &&& req.source_uri is Some && link.source_uri@ == link_uri(req.source_uri->0@)
            &&& req.target_uri is Some && link.target_uri@ == link_uri(req.target_uri->0@)
            &&& link.source_uri@ != link.target_uri@
            &&& link.relation@ == relation_name(req.relation@)
            &&& link.tenant_id@ == tenant_id
            &&& opt_text(link.owner_user_id) == opt_text(req.owner_user_id)
            &&& opt_text(link.source_title) == opt_text(req.source_title)
            &&& opt_text(link.target_title) == opt_text(req.target_title)
            &&& opt_text(link.rationale) == opt_text(req.rationale)
            &&& opt_text(link.evidence_text) == opt_text(req.evidence_text)
            &&& link.confidence == req.confidence
            &&& link.created_by@ == req.created_by@
            &&& texts(link.tags@) == texts(req.tags@)
            &&& link.status@ == "active"@
            &&& link.updated_at == stamp.now
            &&& reads(after.links@, link.id@, link)
            &&& same_but(before.links@, after.links@, link.id@)
            &&& r->Ok_0.decision@ == "created"@ ==> link.id@ == new_id && link.created_at
                == stamp.now
            &&& r->Ok_0.decision@ == "created"@ || r->Ok_0.decision@ == "updated"@
            &&& (forall|i: int|
                0 <= i < before.links.values().len() ==> natural_key(
                    (#[trigger] before.links.values()[i]).tenant_id@,
                    opt_text(before.links.values()[i].owner_user_id),
                    before.links.values()[i].source_uri@,
                    before.links.values()[i].target_uri@,
                    before.links.values()[i].relation@,
                ) != natural_key(
                    tenant_id,
                    opt_text(req.owner_user_id),
                    link_uri(req.source_uri->0@),
                    link_uri(req.target_uri->0@),
                    relation_name(req.relation@),
                )) ==> r->Ok_0.decision@ == "created"@
            &&& match req.idempotency_key {
                Some(key) => reads(
                    after.link_idempotency@,
                    link_memory_key(resolver, tenant_id, req)->0,
                    link.id,
                ),
                None => after.link_idempotency == before.link_idempotency,
            }
            &&& after.insights == before.insights
            &&& after.insight_idempotency == before.insight_idempotency
            &&& after.state_items == before.state_items
            &&& after.company_context == before.company_context
            &&& after.operations == before.operations
        }),
{
    reveal_strlit("created");
    reveal_strlit("updated");
    assert("created"@[0] != "updated"@[0]);
    let ask = requested_link(tenant_id, req);
    let key = ask_key(ask);
    let decision = link_decision(existing_link_id(before, key));
    let (put, link) = choose|put: StoreData, link: KnowledgeLink|
        {
            &&& is_saved_link(link, before, ask, req, new_id, stamp.now)
            &&& #[trigger] link_put(
                before,
                put,
                link,
                link_memory_key(resolver, ask.tenant_id, req),
            )
            &&& match ask.owner {
                None => {
                    &&& after == put
                    &&& r is Ok
                    &&& r->Ok_0.link == link
                    &&& r->Ok_0.decision@ == decision
                    &&& r->Ok_0.history_event_id is None
                },
                Some(owner) => link_noted(put, after, r, resolver, ask, owner, link, decision, stamp),
            }
        };
    match ask.owner {
        Some(owner) => {
            lemma_noted_link_stays(put, after, r, resolver, ask, owner, link, decision, stamp);
            lemma_noted_link_rest(put, after, r, resolver, ask, owner, link, decision, stamp);
        },
        None => {},
    }
    let p = keyed_by(key);
    crate::laws::choosing::the_first_is_accepted(before.links.values(), p);
    if existing_link_id(before, key) is Some {
        let i = choose|i: int|
            0 <= i < before.links.values().len() && p(#[trigger] before.links.values()[i]);
        assert(link_key(before.links.values()[i]) == key);
    }
}

proof fn lemma_noted_link_rest(
    before: StoreData,
    after: StoreData,
    r: Result<LinkResponse, ApiError>,
    resolver: EventIndexResolver,
    ask: crate::links::LinkAsk,
    owner: Seq<char>,
    link: KnowledgeLink,
    decision: Seq<char>,
    stamp: StampView,
)
    requires
        link_noted(before, after, r, resolver, ask, owner, link, decision, stamp),
    ensures
        after == (StoreData {
            user_indexes: after.user_indexes,
            events_by_index: after.events_by_index,
            event_by_id: after.event_by_id,
            event_idempotency: after.event_idempotency,
            personal_context: after.personal_context,
            ..before
        }),
        r is Ok ==> r->Ok_0.decision@ == decision,
{
    let e = choose|e: Result<HistoryEventResponse, ApiError>|
        {
            &&& #[trigger] noted(
                before,
                after,
                e,
                resolver,
                ask.tenant_id,
                owner,
                crate::links::link_note(link, decision),
                stamp,
            )
            &&& match e {
                Err(error) => r is Err && r->Err_0 == error,
                Ok(response) => {
                    &&& r is Ok
                    &&& r->Ok_0.link == link
                    &&& r->Ok_0.decision@ == decision
                    &&& opt_text(r->Ok_0.history_event_id) == Some(response.event.id@)
                },
            }
        };
    noting_keeps_other_records(
        before,
        after,
        e,
        resolver,
        ask.tenant_id,
        owner,
        crate::links::link_note(link, decision),
        stamp,
    );
}

/// A request to save a link that was made before under its idempotency key is answered with that
/// link, and changes nothing.
pub proof fn a_link_request_made_before_changes_nothing(
    before: StoreData,
    after: StoreData,
    r: Result<LinkResponse, ApiError>,
    resolver: EventIndexResolver,
    tenant_id: Seq<char>,
    req: LinkUpsertRequest,
    new_id: Seq<char>,
    stamp: StampView,
)
    requires
        link_upserted(before, after, r, resolver, tenant_id, req, new_id, stamp),
        remembered_link(before, resolver, tenant_id, req) is Some,
    ensures
        after == before,
        match remembered_link(before, resolver, tenant_id, req) {
            Some((id, link)) => r is Ok ==> r->Ok_0.link == link && reads(before.links@, id, link),
            None => false,
        },
        r is Ok ==> r->Ok_0.decision@ == "duplicate"@,
{
}

/// The key under which what is taken on for a proposal is remembered.
pub open spec fn proposal_key(batch: BatchView, kind: Seq<char>, mark: CandidateMark) -> (
    Seq<char>,
    Seq<char>,
    Seq<char>,
) {
    (
        batch.tenant_id,
        batch.owner,
        batch.resolver.key_digest(
            request_fingerprint_of(
                batch.resolver.secret@,
                batch.tenant_id,
                kind,
                mark.canonical@,
            ),
        ),
    )
}

/// Whether a proposed link is written so that to shorten its ends and its relation a second time
/// changes nothing.
pub open spec fn is_settled(link: AnalysisLinkMaterialization) -> bool {
    &&& link_uri(link_uri(link.source_uri@)) == link_uri(link.source_uri@)
    &&& link_uri(link_uri(link.target_uri@)) == link_uri(link.target_uri@)
    &&& relation_name(relation_name(link.relation@)) == relation_name(link.relation@)
}

/// Whether a link stands for a proposed one: between the same ends, with the same relation, for the
/// same owner.
pub open spec fn stands_for_proposal(
    link: KnowledgeLink,
    batch: BatchView,
    proposed: AnalysisLinkMaterialization,
) -> bool {
    natural_key(
        link.tenant_id@,
        opt_text(link.owner_user_id),
        link.source_uri@,
        link.target_uri@,
        link.relation@,
    ) == natural_key(
        batch.tenant_id,
        Some(batch.owner),
        link_uri(proposed.source_uri@),
        link_uri(proposed.target_uri@),
        relation_name(proposed.relation@),
    )
}

/// Whether a link that stands for a proposed one is known.
pub open spec fn some_stands_for(
    d: StoreData,
    batch: BatchView,
    proposed: AnalysisLinkMaterialization,
) -> bool {
    exists|i: int|
        0 <= i < d.links.values().len() && stands_for_proposal(
            #[trigger] d.links.values()[i],
            batch,
            proposed,
        )
}

proof fn lemma_known(d: StoreData, batch: BatchView, proposed: AnalysisLinkMaterialization)
    ensures
        some_stands_for(d, batch, proposed) <==> known_links(d, batch, proposed).len() > 0,
{
    let p = keyed_by(crate::materialize::proposed_key(batch.tenant_id, batch.owner, proposed));
    let known = known_links(d, batch, proposed);
    if known.len() > 0 {
        assert(known.contains(known[0]));
        a_filter_keeps_what_it_accepts(d.links.values(), p, known[0]);
        let i = choose|i: int| 0 <= i < d.links.values().len() && d.links.values()[i] == known[0];
        assert(stands_for_proposal(d.links.values()[i], batch, proposed));
    }
    if some_stands_for(d, batch, proposed) {
        let i = choose|i: int|
            0 <= i < d.links.values().len() && stands_for_proposal(
                #[trigger] d.links.values()[i],
                batch,
                proposed,
            );
        a_filter_keeps_what_it_accepts(d.links.values(), p, d.links.values()[i]);
        assert(known.contains(d.links.values()[i]));
    }
}

/// A proposed link is taken on as it is proposed. One that is known is reused; else a link is saved
/// that leads from the proposed source to the proposed target, and is read under its id.
pub proof fn a_link_is_taken_on_as_proposed(
    before: StoreData,
    after: StoreData,
    r: Result<KnowledgeLink, ApiError>,
    batch: BatchView,
    proposed: AnalysisLinkMaterialization,
    mark: CandidateMark,
)
    requires
        link_step(before, after, r, batch, proposed, mark),
        r is Ok,
        !before.link_idempotency@.dom().contains(
            proposal_key(batch, "analysis.materialize.link"@, mark),
        ),
    ensures
        ({
            let link = r->Ok_0;
            &&& link.status@ == "active"@
            &&& after.insights == before.insights
            &&& after.insight_idempotency == before.insight_idempotency
            &&& is_settled(proposed) ==> stands_for_proposal(link, batch, proposed)
            &&& if some_stands_for(before, batch, proposed) {
                &&& after == before
                &&& before.links.values().contains(link)
                &&& stands_for_proposal(link, batch, proposed)
            } else {
                &&& is_settled(proposed) ==> link.id@ == mark.id@
                &&& link.tenant_id@ == batch.tenant_id
                &&& opt_text(link.owner_user_id) == Some(batch.owner)
                &&& link.source_uri@ == link_uri(link_uri(proposed.source_uri@))
                &&& link.target_uri@ == link_uri(link_uri(proposed.target_uri@))
                &&& link.relation@ == relation_name(relation_name(proposed.relation@))
                &&& opt_text(link.source_title) == opt_text(proposed.source_title)
                &&& opt_text(link.target_title) == opt_text(proposed.target_title)
                &&& opt_text(link.rationale) == opt_text(proposed.rationale)
                &&& link.confidence == proposed.confidence
                &&& link.created_by@ == "analysis_api"@
                &&& forall|i: int|
                    0 <= i < proposed.tags@.len() ==> texts(link.tags@)[i] == (
                    #[trigger] proposed.tags@[i])@
                &&& proposed.tags@.len() < batch.max_tags ==> texts(link.tags@).contains(
                    "analysis"@,
                )
                &&& reads(after.links@, link.id@, link)
                &&& same_but(before.links@, after.links@, link.id@)
                &&& same_but(
                    before.link_idempotency@,
                    after.link_idempotency@,
                    proposal_key(batch, "analysis.materialize.link"@, mark),
                )
            }
        }),
{
    let known = known_links(before, batch, proposed);
    lemma_known(before, batch, proposed);
    let link = r->Ok_0;
    let p = keyed_by(crate::materialize::proposed_key(batch.tenant_id, batch.owner, proposed));
    if known.len() == 1 {
        assert(known.contains(known[0]));
        a_filter_keeps_what_it_accepts(before.links.values(), p, known[0]);
    } else {
        let (req, s) = choose|req: LinkUpsertRequest, s: Result<LinkResponse, ApiError>|
            {
                &&& is_link_request(req, batch, proposed, mark)
                &&& #[trigger] link_upserted(
                    before,
                    after,
                    s,
                    batch.resolver,
                    batch.tenant_id,
                    req,
                    mark.id@,
                    mark_stamp(batch, mark),
                )
                &&& match s {
                    Err(error) => r == Err::<KnowledgeLink, ApiError>(error),
                    Ok(response) => r == Ok::<KnowledgeLink, ApiError>(response.link),
                }
            };
        assert(link_memory_key(batch.resolver, batch.tenant_id, req) == Some(
            proposal_key(batch, "analysis.materialize.link"@, mark),
        ));
        assert(remembered_link(before, batch.resolver, batch.tenant_id, req) is None);
        a_saved_link_is_as_asked(
            before,
            after,
            s,
            batch.resolver,
            batch.tenant_id,
            req,
            mark.id@,
            mark_stamp(batch, mark),
        );
        let tags = texts(proposed.tags@);
        let saved = texts(link.tags@);
        assert(saved == crate::materialize::link_tags(tags, batch.max_tags));
        assert forall|i: int| 0 <= i < proposed.tags@.len() implies saved[i] == (
        #[trigger] proposed.tags@[i])@ by {
            assert(tags[i] == proposed.tags@[i]@);
        }
        if proposed.tags@.len() < batch.max_tags && !tags.contains("analysis"@) {
            assert(saved[tags.len() as int] == "analysis"@);
        }
        lemma_only_new_id(before, after, s, batch, proposed, mark, req);
    }
}

proof fn lemma_only_new_id(
    before: StoreData,
    after: StoreData,
    s: Result<LinkResponse, ApiError>,
    batch: BatchView,
    proposed: AnalysisLinkMaterialization,
    mark: CandidateMark,
    req: LinkUpsertRequest,
)
    requires
        known_links(before, batch, proposed).len() == 0,
        is_link_request(req, batch, proposed, mark),
        link_upserted(
            before,
            after,
            s,
            batch.resolver,
            batch.tenant_id,
            req,
            mark.id@,
            mark_stamp(batch, mark),
        ),
        s is Ok,
        remembered_link(before, batch.resolver, batch.tenant_id, req) is None,
    ensures
        is_settled(proposed) ==> s->Ok_0.link.id@ == mark.id@,
        same_but(
            before.link_idempotency@,
            after.link_idempotency@,
            proposal_key(batch, "analysis.materialize.link"@, mark),
        ),
{
    let ask = requested_link(batch.tenant_id, req);
    let key = ask_key(ask);
    let stamp = mark_stamp(batch, mark);
    let decision = link_decision(existing_link_id(before, key));
    let (put, link) = choose|put: StoreData, link: KnowledgeLink|
        {
            &&& is_saved_link(link, before, ask, req, mark.id@, stamp.now)
            &&& #[trigger] link_put(
                before,
                put,
                link,
                link_memory_key(batch.resolver, ask.tenant_id, req),
            )
            &&& match ask.owner {
                None => {
                    &&& after == put
                    &&& s is Ok
                    &&& s->Ok_0.link == link
                    &&& s->Ok_0.decision@ == decision
                    &&& s->Ok_0.history_event_id is None
                },
                Some(owner) => link_noted(
                    put,
                    after,
                    s,
                    batch.resolver,
                    ask,
                    owner,
                    link,
                    decision,
                    stamp,
                ),
            }
        };
    lemma_noted_link_stays(
        put,
        after,
        s,
        batch.resolver,
        ask,
        batch.owner,
        link,
        decision,
        stamp,
    );
    if is_settled(proposed) {
        assert(key == crate::materialize::proposed_key(batch.tenant_id, batch.owner, proposed));
        let p = keyed_by(key);
        crate::laws::choosing::the_first_is_accepted(before.links.values(), p);
        if existing_link_id(before, key) is Some {
            let first = crate::reading::first_of(before.links.values(), p)->0;
            a_filter_keeps_what_it_accepts(before.links.values(), p, first);
            assert(known_links(before, batch, proposed).contains(first));
        }
    }
}

/// A proposed link that was taken on is known from then on: to take it on once more changes nothing.
pub proof fn taking_a_link_on_twice_is_taking_it_on_once(
    before: StoreData,
    after: StoreData,
    again: StoreData,
    r: Result<KnowledgeLink, ApiError>,
    s: Result<KnowledgeLink, ApiError>,
    batch: BatchView,
    proposed: AnalysisLinkMaterialization,
    mark: CandidateMark,
    other: CandidateMark,
)
    requires
        link_step(before, after, r, batch, proposed, mark),
        r is Ok,
        is_settled(proposed),
        !before.link_idempotency@.dom().contains(
            proposal_key(batch, "analysis.materialize.link"@, mark),
        ),
        link_step(after, again, s, batch, proposed, other),
    ensures
        again == after,
{
    a_link_is_taken_on_as_proposed(before, after, r, batch, proposed, mark);
    let link = r->Ok_0;
    let p = keyed_by(crate::materialize::proposed_key(batch.tenant_id, batch.owner, proposed));
    if !some_stands_for(before, batch, proposed) {
        a_value_has_its_place(after.links, link.id@);
    }
    assert(p(link));
    a_filter_keeps_what_it_accepts(after.links.values(), p, link);
    assert(known_links(after, batch, proposed).contains(link));
}

/// Whether the proposed links of a batch were not taken on before under the same marks, and no two
/// of them have the same.
pub open spec fn marks_are_new(d: StoreData, batch: BatchView, marks: Seq<CandidateMark>) -> bool {
    &&& forall|i: int|
        0 <= i < marks.len() ==> !d.link_idempotency@.dom().contains(
            proposal_key(batch, "analysis.materialize.link"@, #[trigger] marks[i]),
        )
    &&& forall|i: int, j: int|
        0 <= i < j < marks.len() ==> proposal_key(
            batch,
            "analysis.materialize.link"@,
            #[trigger] marks[i],
        ) != proposal_key(batch, "analysis.materialize.link"@, #[trigger] marks[j])
}

pub(crate) proof fn lemma_marks_stay_new(
    states: Seq<StoreData>,
    out: Seq<KnowledgeLink>,
    batch: BatchView,
    links: Seq<AnalysisLinkMaterialization>,
    marks: Seq<CandidateMark>,
    n: int,
    i: int,
)
    requires
        links_taken(states, out, batch, links, marks),
        marks_are_new(states[0], batch, marks),
        marks.len() == links.len(),
        0 <= n <= i < marks.len(),
        n < states.len(),
    ensures
        !states[n].link_idempotency@.dom().contains(
            proposal_key(batch, "analysis.materialize.link"@, marks[i]),
        ),
    decreases n,
{
    if n > 0 {
        lemma_marks_stay_new(states, out, batch, links, marks, n - 1, i);
        lemma_marks_stay_new(states, out, batch, links, marks, n - 1, n - 1);
        assert(link_taken(states, n - 1, out, batch, links, marks));
        let step = Ok::<KnowledgeLink, ApiError>(out[n - 1]);
        a_link_is_taken_on_as_proposed(
            states[n - 1],
            states[n],
            step,
            batch,
            links[n - 1],
            marks[n - 1],
        );
        assert(proposal_key(batch, "analysis.materialize.link"@, marks[n - 1]) != proposal_key(
            batch,
            "analysis.materialize.link"@,
            marks[i],
        ));
    }
}

proof fn lemma_taken_stays(
    states: Seq<StoreData>,
    out: Seq<KnowledgeLink>,
    batch: BatchView,
    links: Seq<AnalysisLinkMaterialization>,
    marks: Seq<CandidateMark>,
    i: int,
    n: int,
) -> (k: Seq<char>)
    requires
        links_taken(states, out, batch, links, marks),
        marks_are_new(states[0], batch, marks),
        marks.len() == links.len(),
        0 <= i < n < states.len(),
        forall|j: int| 0 <= j < links.len() ==> is_settled(#[trigger] links[j]),
        ids_are_new(states[0], marks),
    ensures
        reads(states[n].links@, k, out[i]),
        forall|j: int| n <= j < marks.len() ==> k != (#[trigger] marks[j]).id@,
        forall|j: int|
            n <= j < marks.len() ==> !states[n].links@.dom().contains((#[trigger] marks[j]).id@),
    decreases n,
{
    lemma_marks_stay_new(states, out, batch, links, marks, n - 1, n - 1);
    assert(link_taken(states, n - 1, out, batch, links, marks));
    let step = Ok::<KnowledgeLink, ApiError>(out[n - 1]);
    a_link_is_taken_on_as_proposed(
        states[n - 1],
        states[n],
        step,
        batch,
        links[n - 1],
        marks[n - 1],
    );
    lemma_ids_stay_new(states, out, batch, links, marks, n);
    lemma_ids_stay_new(states, out, batch, links, marks, n - 1);
    if i < n - 1 {
        let k = lemma_taken_stays(states, out, batch, links, marks, i, n - 1);
        assert(k != marks[n - 1].id@);
        assert forall|j: int| n <= j < marks.len() implies k != (#[trigger] marks[j]).id@ by {
        }
        k
    } else {
        if some_stands_for(states[n - 1], batch, links[i]) {
            let k = a_value_has_its_key(states[n - 1].links, out[i]);
            assert forall|j: int| n <= j < marks.len() implies k != (#[trigger] marks[j]).id@ by {
                assert(!states[n].links@.dom().contains(marks[j].id@));
            }
            k
        } else {
            let k = out[i].id@;
            assert(k == marks[i].id@);
            assert forall|j: int| n <= j < marks.len() implies k != (#[trigger] marks[j]).id@ by {
                assert(marks[i].id@ != marks[j].id@);
            }
            k
        }
    }
}

/// Whether the ids of what is to be saved are not in use, and no two are the same.
pub open spec fn ids_are_new(d: StoreData, marks: Seq<CandidateMark>) -> bool {
    &&& forall|i: int|
        0 <= i < marks.len() ==> !d.links@.dom().contains((#[trigger] marks[i]).id@)
    &&& forall|i: int, j: int|
        0 <= i < j < marks.len() ==> (#[trigger] marks[i]).id@ != (#[trigger] marks[j]).id@
}

proof fn lemma_ids_stay_new(
    states: Seq<StoreData>,
    out: Seq<KnowledgeLink>,
    batch: BatchView,
    links: Seq<AnalysisLinkMaterialization>,
    marks: Seq<CandidateMark>,
    n: int,
)
    requires
        links_taken(states, out, batch, links, marks),
        marks_are_new(states[0], batch, marks),
        marks.len() == links.len(),
        0 <= n < states.len(),
        ids_are_new(states[0], marks),
        forall|j: int| 0 <= j < links.len() ==> is_settled(#[trigger] links[j]),
    ensures
        forall|j: int|
            n <= j < marks.len() ==> !states[n].links@.dom().contains((#[trigger] marks[j]).id@),
    decreases n,
{
    if n > 0 {
        lemma_ids_stay_new(states, out, batch, links, marks, n - 1);
        lemma_marks_stay_new(states, out, batch, links, marks, n - 1, n - 1);
        assert(link_taken(states, n - 1, out, batch, links, marks));
        let step = Ok::<KnowledgeLink, ApiError>(out[n - 1]);
        a_link_is_taken_on_as_proposed(
            states[n - 1],
            states[n],
            step,
            batch,
            links[n - 1],
            marks[n - 1],
        );
        assert forall|j: int| n <= j < marks.len() implies !states[n].links@.dom().contains(
            (#[trigger] marks[j]).id@,
        ) by {
            assert(!states[n - 1].links@.dom().contains(marks[j].id@));
            assert(marks[n - 1].id@ != marks[j].id@);
        }
    }
}

/// Every link that is answered for a batch stands for the proposed link in its place.
pub proof fn every_answered_link_was_proposed<F: Fn(&InsightRecord, Option<&str>) -> String>(
    before: StoreData,
    after: StoreData,
    r: Result<AnalysisMaterializationResponse, ApiError>,
    batch: BatchView,
    req: AnalysisMaterializationRequest,
    link_marks: Seq<CandidateMark>,
    insight_marks: Seq<CandidateMark>,
    overview: F,
    i: int,
)
    requires
        materialized(before, after, r, batch, req, link_marks, insight_marks, overview),
        r is Ok,
        link_marks.len() == req.links@.len(),
        marks_are_new(before, batch, link_marks),
    ensures
        r->Ok_0.created_links@.len() == req.links@.len(),
        0 <= i < req.links@.len() ==> r->Ok_0.created_links@[i].status@ == "active"@,
        0 <= i < req.links@.len() && is_settled(req.links@[i]) ==> stands_for_proposal(
            r->Ok_0.created_links@[i],
            batch,
            req.links@[i],
        ),
        r->Ok_0.insights@.len() == req.insights@.len(),
{
    let (mid, links) = choose|mid: StoreData, links: Result<Vec<KnowledgeLink>, ApiError>|
        {
            &&& #[trigger] links_outcome(before, mid, links, batch, req.links@, link_marks)
            &&& match links {
                Err(error) => after == mid && r is Err && r->Err_0 == error,
                Ok(created) => insights_answered(
                    mid,
                    after,
                    r,
                    created@,
                    batch,
                    req.insights@,
                    insight_marks,
                    overview,
                ),
            }
        };
    let (states, out) = choose|states: Seq<StoreData>, out: Seq<KnowledgeLink>|
        {
            &&& #[trigger] links_taken(states, out, batch, req.links@, link_marks)
            &&& states[0] == before
            &&& match links {
                Ok(all) => all@ == out && out.len() == req.links@.len() && states.last() == mid,
                Err(error) => {
                    &&& out.len() < req.links@.len()
                    &&& link_step(
                        states.last(),
                        mid,
                        Err::<KnowledgeLink, ApiError>(error),
                        batch,
                        req.links@[out.len() as int],
                        link_marks[out.len() as int],
                    )
                },
            }
        };
    if 0 <= i < req.links@.len() {
        assert(link_taken(states, i, out, batch, req.links@, link_marks));
        lemma_marks_stay_new(states, out, batch, req.links@, link_marks, i, i);
        a_link_is_taken_on_as_proposed(
            states[i],
            states[i + 1],
            Ok::<KnowledgeLink, ApiError>(out[i]),
            batch,
            req.links@[i],
            link_marks[i],
        );
    }
}

/// To take the same batch on a second time changes nothing.
pub proof fn taking_a_batch_on_twice_is_taking_it_on_once<
    F: Fn(&InsightRecord, Option<&str>) -> String,
>(
    before: StoreData,
    after: StoreData,
    again: StoreData,
    r: Result<AnalysisMaterializationResponse, ApiError>,
    s: Result<AnalysisMaterializationResponse, ApiError>,
    batch: BatchView,
    req: AnalysisMaterializationRequest,
    link_marks: Seq<CandidateMark>,
    insight_marks: Seq<CandidateMark>,
    other_link_marks: Seq<CandidateMark>,
    other_insight_marks: Seq<CandidateMark>,
    overview: F,
)
    requires
        materialized(before, after, r, batch, req, link_marks, insight_marks, overview),
        r is Ok,
        materialized(after, again, s, batch, req, other_link_marks, other_insight_marks, overview),
        link_marks.len() == req.links@.len(),
        insight_marks.len() == req.insights@.len(),
        marks_are_new(before, batch, link_marks),
        ids_are_new(before, link_marks),
        insight_marks_are_new(before, batch, insight_marks),
        forall|i: int| 0 <= i < req.links@.len() ==> is_settled(#[trigger] req.links@[i]),
    ensures
        again == after,
{
    let (mid, links) = choose|mid: StoreData, links: Result<Vec<KnowledgeLink>, ApiError>|
        {
            &&& #[trigger] links_outcome(before, mid, links, batch, req.links@, link_marks)
            &&& match links {
                Err(error) => after == mid && r is Err && r->Err_0 == error,
                Ok(created) => insights_answered(
                    mid,
                    after,
                    r,
                    created@,
                    batch,
                    req.insights@,
                    insight_marks,
                    overview,
                ),
            }
        };
    let (states, out) = choose|states: Seq<StoreData>, out: Seq<KnowledgeLink>|
        {
            &&& #[trigger] links_taken(states, out, batch, req.links@, link_marks)
            &&& states[0] == before
            &&& match links {
                Ok(all) => all@ == out && out.len() == req.links@.len() && states.last() == mid,
                Err(error) => {
                    &&& out.len() < req.links@.len()
                    &&& link_step(
                        states.last(),
                        mid,
                        Err::<KnowledgeLink, ApiError>(error),
                        batch,
                        req.links@[out.len() as int],
                        link_marks[out.len() as int],
                    )
                },
            }
        };
    let outcome = choose|outcome: Result<Vec<InsightRecord>, ApiError>|
        {
            &&& #[trigger] insights_outcome(
                mid,
                after,
                outcome,
                batch,
                req.insights@,
                insight_marks,
                overview,
            )
            &&& match outcome {
                Err(error) => r is Err && r->Err_0 == error,
                Ok(all) => r is Ok && r->Ok_0.created_links@ == links->Ok_0@ && r->Ok_0.insights@
                    == all@,
            }
        };
    let (rows, taken) = choose|rows: Seq<StoreData>, taken: Seq<InsightRecord>|
        {
            &&& #[trigger] insights_taken(
                rows,
                taken,
                batch,
                req.insights@,
                insight_marks,
                overview,
            )
            &&& rows[0] == mid
            &&& match outcome {
                Ok(all) => all@ == taken && taken.len() == req.insights@.len() && rows.last()
                    == after,
                Err(error) => {
                    &&& taken.len() < req.insights@.len()
                    &&& crate::materialize::insight_step(
                        rows.last(),
                        after,
                        Err::<InsightRecord, ApiError>(error),
                        batch,
                        req.insights@[taken.len() as int],
                        insight_marks[taken.len() as int],
                        overview,
                    )
                },
            }
        };
    assert forall|i: int| 0 <= i < req.links@.len() implies known_links(
        after,
        batch,
        #[trigger] req.links@[i],
    ).len() >= 1 by {
        let k = lemma_taken_stays(states, out, batch, req.links@, link_marks, i, out.len() as int);
        assert(link_taken(states, i, out, batch, req.links@, link_marks));
        lemma_marks_stay_new(states, out, batch, req.links@, link_marks, i, i);
        a_link_is_taken_on_as_proposed(
            states[i],
            states[i + 1],
            Ok::<KnowledgeLink, ApiError>(out[i]),
            batch,
            req.links@[i],
            link_marks[i],
        );
        a_value_has_its_place(mid.links, k);
        let p = keyed_by(
            crate::materialize::proposed_key(batch.tenant_id, batch.owner, req.links@[i]),
        );
        assert(p(out[i]));
        a_filter_keeps_what_it_accepts(mid.links.values(), p, out[i]);
        assert(known_links(mid, batch, req.links@[i]).contains(out[i]));
        lemma_taken_keeps_links(
            rows,
            taken,
            batch,
            req.insights@,
            insight_marks,
            overview,
            taken.len() as int,
        );
    }
    lemma_same_insights(states, out, batch, req.links@, link_marks, out.len() as int);
    assert(insight_marks_are_new(mid, batch, insight_marks));
    assert forall|i: int| 0 <= i < req.insights@.len() implies known_insights(
        after,
        batch,
        #[trigger] req.insights@[i],
    ).len() >= 1 by {
        lemma_insights_taken(
            rows,
            taken,
            batch,
            req.insights@,
            insight_marks,
            overview,
            i,
            taken.len() as int,
        );
    }
    what_is_known_is_left_alone(
        after,
        again,
        s,
        batch,
        req,
        other_link_marks,
        other_insight_marks,
        overview,
    );
}

} // verus!
