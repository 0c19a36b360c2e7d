//! What is told of the sources of the company: which of them a new document looks like, what each
//! of them holds, and what is read of one.

use vstd::prelude::*;

use crate::company::{
    active_revision, are_summaries, company_revision_is, confidence_in, confidences, greatest,
    is_advice, is_company_doc, latest_first, matched, revision_read, CompanyDoc,
    CompanyDocPreflightRequest, CompanyDocSummary,
};
use crate::data::StoreData;
use crate::float::{is_nan, place};
use crate::laws::choosing::{sorting_keeps_members, the_first_is_accepted};
use crate::model::ingest::{CompanyDocPreflightResponse, CompanySource, SourceRevision};
use crate::naming::slug;
use crate::order::{sorted_by, sorted_by_is_in_order, strict_order};
use crate::table::{list_at, lists};
use crate::text::opt_text;

verus! {

/// The title that is asked about.
pub open spec fn title_asked(req: CompanyDocPreflightRequest) -> Seq<char> {
    if req.title is Some {
        req.title->0@
    } else {
        "Untitled"@
    }
}

/// The address that is asked about.
pub open spec fn address_asked(req: CompanyDocPreflightRequest) -> Seq<char> {
    if req.source_uri is Some {
        req.source_uri->0@
    } else {
        Seq::empty()
    }
}

/// How sure it is that a source is what is asked about: wholly where the address is the same,
/// nine tenths where the title comes to the same key, and as much as the texts overlap elsewhere.
pub proof fn a_source_is_as_sure_as_it_is_alike(
    source: CompanySource,
    uri: Seq<char>,
    key: Seq<char>,
    score: u32,
)
    ensures
        uri.len() > 0 && source.source_uri@ == uri ==> confidence_in(source, uri, key, score)
            == 0x3f80_0000u32,
        !(uri.len() > 0 && source.source_uri@ == uri) && source.canonical_key@ == key
            ==> confidence_in(source, uri, key, score) == 0x3f66_6666u32,
        !(uri.len() > 0 && source.source_uri@ == uri) && source.canonical_key@ != key && !is_nan(
            score,
        ) && score < 0x8000_0000u32 ==> confidence_in(source, uri, key, score) == score,
{
}

/// Whether a pair is a source with its confidence, which comes up to the threshold.
pub open spec fn is_match(
    pair: (CompanySource, u32),
    sources: Seq<CompanySource>,
    sure: Seq<u32>,
    threshold: u32,
) -> bool {
    exists|i: int|
        0 <= i < sources.len() && #[trigger] sources[i] == pair.0 && sure[i] == pair.1 && !is_nan(
            sure[i],
        ) && !is_nan(threshold) && place(sure[i]) >= place(threshold)
}

/// What is matched is a source with enough confidence, and every such source is matched.
proof fn lemma_matched(sources: Seq<CompanySource>, sure: Seq<u32>, threshold: u32)
    requires
        sources.len() == sure.len(),
    ensures
        forall|pair: (CompanySource, u32)| #[trigger]
            matched(sources, sure, threshold).contains(pair) <==> is_match(
                pair,
                sources,
                sure,
                threshold,
            ),
    decreases sources.len(),
{
    if sources.len() > 0 {
        let front = matched(sources.drop_last(), sure.drop_last(), threshold);
        let all = matched(sources, sure, threshold);
        let n = sources.len() - 1;
        lemma_matched(sources.drop_last(), sure.drop_last(), threshold);
        assert forall|pair: (CompanySource, u32)| #[trigger] all.contains(pair) <==> is_match(
            pair,
            sources,
            sure,
            threshold,
        ) by {
            if all.contains(pair) {
                let k = choose|k: int| 0 <= k < all.len() && all[k] == pair;
                if k < front.len() {
                    assert(front[k] == pair);
                    assert(front.contains(pair));
                    let i = choose|i: int|
                        0 <= i < sources.drop_last().len() && #[trigger] sources.drop_last()[i]
                            == pair.0 && sure.drop_last()[i] == pair.1 && !is_nan(
                            sure.drop_last()[i],
                        ) && !is_nan(threshold) && place(sure.drop_last()[i]) >= place(threshold);
                    assert(sources[i] == pair.0);
                } else {
                    assert(sources[n] == pair.0);
                }
            }
            if is_match(pair, sources, sure, threshold) {
                let i = choose|i: int|
                    0 <= i < sources.len() && #[trigger] sources[i] == pair.0 && sure[i] == pair.1
                        && !is_nan(sure[i]) && !is_nan(threshold) && place(sure[i]) >= place(
                        threshold,
                    );
                if i < n {
                    assert(sources.drop_last()[i] == pair.0);
                    assert(sure.drop_last()[i] == pair.1);
                    assert(front.contains(pair));
                    let k = choose|k: int| 0 <= k < front.len() && front[k] == pair;
                    assert(all[k] == pair);
                } else {
                    assert(all[front.len() as int] == pair);
                }
            }
        }
    }
}

/// A new document is advised to become a revision if and only if some source comes up to the
/// threshold that is asked for; what is told to match are those sources, each with its own
/// address, title and confidence, and no others.
pub proof fn advice_follows_from_what_matches(
    r: CompanyDocPreflightResponse,
    sources: Seq<CompanySource>,
    req: CompanyDocPreflightRequest,
    scores: Seq<u32>,
    decision_id: Seq<char>,
)
    requires
        scores.len() == sources.len(),
        is_advice(r, sources, req, scores, decision_id),
    ensures
        r.decision_id@ == decision_id,
        r.recommended_action@ == "create_source"@ || r.recommended_action@ == "update_revision"@,
        r.matched_sources@.len() == 0 ==> r.recommended_action@ == "create_source"@
            && r.confidence == 0,
        r.matched_sources@.len() > 0 ==> r.recommended_action@ == "update_revision"@,
        forall|k: int|
            0 <= k < r.matched_sources@.len() ==> exists|i: int|
                0 <= i < sources.len() && (#[trigger] sources[i]).id@ == (
                #[trigger] r.matched_sources@[k]).source_id@ && sources[i].title@
                    == r.matched_sources@[k].title@ && sources[i].source_uri@
                    == r.matched_sources@[k].source_uri@ && r.matched_sources@[k].confidence
                    == confidence_in(
                    sources[i],
                    address_asked(req),
                    slug(title_asked(req)),
                    scores[i],
                ) && place(r.matched_sources@[k].confidence) >= place(req.similarity_threshold),
        forall|i: int|
            0 <= i < sources.len() && {
                let sure = confidence_in(
                    sources[i],
                    address_asked(req),
                    slug(title_asked(req)),
                    scores[i],
                );
                !is_nan(sure) && !is_nan(req.similarity_threshold) && place(sure) >= place(
                    req.similarity_threshold,
                )
            } ==> exists|k: int|
                0 <= k < r.matched_sources@.len() && (#[trigger] r.matched_sources@[k]).source_id@
                    == (#[trigger] sources[i]).id@,
{
    let uri = address_asked(req);
    let key = slug(title_asked(req));
    let sure = confidences(sources, uri, key, scores);
    let found = matched(sources, sure, req.similarity_threshold);
    lemma_matched(sources, sure, req.similarity_threshold);
    let m = r.matched_sources@;
    assert forall|k: int| 0 <= k < m.len() implies exists|i: int|
        0 <= i < sources.len() && (#[trigger] sources[i]).id@ == (#[trigger] m[k]).source_id@
            && sources[i].title@ == m[k].title@ && sources[i].source_uri@ == m[k].source_uri@
            && m[k].confidence == confidence_in(sources[i], uri, key, scores[i]) && place(
            m[k].confidence,
        ) >= place(req.similarity_threshold) by {
        assert(found[k].1 == m[k].confidence);
        assert(found.contains(found[k]));
        let i = choose|i: int|
            0 <= i < sources.len() && #[trigger] sources[i] == found[k].0 && sure[i] == found[k].1
                && !is_nan(sure[i]) && !is_nan(req.similarity_threshold) && place(sure[i])
                >= place(req.similarity_threshold);
        assert(sources[i].id@ == m[k].source_id@);
    }
    assert forall|i: int|
        0 <= i < sources.len() && !is_nan(confidence_in(sources[i], uri, key, scores[i]))
            && !is_nan(req.similarity_threshold) && place(
            confidence_in(sources[i], uri, key, scores[i]),
        ) >= place(req.similarity_threshold) implies exists|k: int|
        0 <= k < m.len() && (#[trigger] m[k]).source_id@ == (#[trigger] sources[i]).id@ by {
        assert(sure[i] == confidence_in(sources[i], uri, key, scores[i]));
        assert(is_match((sources[i], sure[i]), sources, sure, req.similarity_threshold));
        assert(found.contains((sources[i], sure[i])));
        let k = choose|k: int| 0 <= k < found.len() && found[k] == (sources[i], sure[i]);
        assert(m[k].source_id@ == sources[i].id@);
    }
}

/// The greatest of some numbers that are numbers is none less than any of them.
proof fn lemma_greatest(s: Seq<u32>)
    requires
        forall|i: int| 0 <= i < s.len() ==> !is_nan(#[trigger] s[i]),
    ensures
        !is_nan(greatest(s)),
        place(greatest(s)) >= 0,
        forall|i: int| 0 <= i < s.len() ==> place(greatest(s)) >= place(#[trigger] s[i]),
    decreases s.len(),
{
    if s.len() > 0 {
        let front = s.drop_last();
        assert forall|i: int| 0 <= i < front.len() implies !is_nan(#[trigger] front[i]) by {
            assert(front[i] == s[i]);
        }
        lemma_greatest(front);
        assert(!is_nan(s[s.len() - 1]));
        assert forall|i: int| 0 <= i < s.len() implies place(greatest(s)) >= place(
            #[trigger] s[i],
        ) by {
            if i < front.len() {
                assert(front[i] == s[i]);
            }
        }
    }
}

/// Where some source matches, the advice is as sure as its best source: no source is surer.
pub proof fn advice_is_as_sure_as_its_best_source(
    r: CompanyDocPreflightResponse,
    sources: Seq<CompanySource>,
    req: CompanyDocPreflightRequest,
    scores: Seq<u32>,
    decision_id: Seq<char>,
    i: int,
)
    requires
        scores.len() == sources.len(),
        is_advice(r, sources, req, scores, decision_id),
        r.matched_sources@.len() > 0,
        forall|j: int| 0 <= j < scores.len() ==> !is_nan(#[trigger] scores[j]),
        0 <= i < sources.len(),
    ensures
        place(r.confidence) >= place(
            confidence_in(sources[i], address_asked(req), slug(title_asked(req)), scores[i]),
        ),
{
    let sure = confidences(sources, address_asked(req), slug(title_asked(req)), scores);
    assert forall|j: int| 0 <= j < sure.len() implies !is_nan(#[trigger] sure[j]) by {
        assert(!is_nan(scores[j]));
    }
    lemma_greatest(sure);
    assert(place(greatest(sure)) >= place(sure[i]));
}

/// The order of summaries is an order.
proof fn lemma_latest_first()
    ensures
        strict_order(latest_first()),
{
}

/// The list of the sources tells of every source once: its own id, title and address, the
/// revision that it has in use, and how many revisions it has. Those with a revision in use come
/// first, the latest of them at the front.
pub proof fn every_source_is_listed(
    r: Seq<CompanyDocSummary>,
    s: Seq<CompanyDocSummary>,
    d: StoreData,
)
    requires
        are_summaries(s, d, d.sources.values()),
        r == sorted_by(s, latest_first()),
    ensures
        r.len() == d.sources.values().len(),
        forall|i: int|
            0 <= i < d.sources.values().len() ==> exists|k: int|
                0 <= k < r.len() && (#[trigger] r[k]).source_id@ == (
                #[trigger] d.sources.values()[i]).id@ && r[k].title@
                    == d.sources.values()[i].title@ && r[k].source_uri@
                    == d.sources.values()[i].source_uri@ && r[k].revision_count == list_at(
                    lists(d.source_revisions@),
                    d.sources.values()[i].id@,
                ).len(),
        forall|i: int, j: int|
            0 <= i < j < r.len() ==> {
                &&& (#[trigger] r[j]).active_revision_created_at is Some ==> (
                #[trigger] r[i]).active_revision_created_at is Some
                    && r[i].active_revision_created_at->0 >= r[j].active_revision_created_at->0
            },
{
    lemma_latest_first();
    sorted_by_is_in_order(s, latest_first());
    assert forall|i: int| 0 <= i < d.sources.values().len() implies exists|k: int|
        0 <= k < r.len() && (#[trigger] r[k]).source_id@ == (#[trigger] d.sources.values()[i]).id@
            && r[k].title@ == d.sources.values()[i].title@ && r[k].source_uri@
            == d.sources.values()[i].source_uri@ && r[k].revision_count == list_at(
            lists(d.source_revisions@),
            d.sources.values()[i].id@,
        ).len() by {
        assert(s.contains(s[i]));
        sorting_keeps_members(s, latest_first(), s[i]);
        let k = choose|k: int| 0 <= k < r.len() && r[k] == s[i];
        assert(r[k].source_id@ == d.sources.values()[i].id@);
    }
    sorting_keeps_members(s, latest_first(), s[0]);
}

/// The revision in use is one of the source's own, under the id that the source tells.
pub proof fn the_revision_in_use_is_its_own(d: StoreData, source: CompanySource)
    ensures
        active_revision(d, source) is Some ==> {
            &&& opt_text(source.active_revision_id) == Some(active_revision(d, source)->0.id@)
            &&& list_at(lists(d.source_revisions@), source.id@).contains(
                active_revision(d, source)->0,
            )
        },
        source.active_revision_id is None ==> active_revision(d, source) is None,
{
    if source.active_revision_id is Some {
        the_first_is_accepted(
            list_at(lists(d.source_revisions@), source.id@),
            company_revision_is(source.active_revision_id->0@),
        );
    }
}

/// What is read of a source is its revision in use where it has one, and else its last: the
/// title, text and address of that revision.
pub proof fn what_is_read_of_a_source(
    r: CompanyDoc,
    source: CompanySource,
    revisions: Seq<SourceRevision>,
    i: int,
)
    requires
        is_company_doc(r, source, revision_read(revisions, source)),
        0 <= i < revisions.len(),
        forall|j: int| 0 <= j < revisions.len() && j != i ==> (#[trigger] revisions[j]).id@
            != revisions[i].id@,
        match source.active_revision_id {
            Some(id) => id@ == revisions[i].id@,
            None => i == revisions.len() - 1,
        },
    ensures
        r.source_id@ == source.id@,
        r.revision_id@ == revisions[i].id@,
        r.title@ == revisions[i].title@,
        r.content@ == revisions[i].content@,
        r.status@ == revisions[i].status@,
        r.created_at == revisions[i].created_at,
        r.source_uri@ == revisions[i].source_uri@,
        opt_text(r.active_revision_id) == opt_text(source.active_revision_id),
{
    if source.active_revision_id is Some {
        let p = company_revision_is(source.active_revision_id->0@);
        the_first_is_accepted(revisions, p);
        assert(p(revisions[i]));
    }
}

} // verus!
