//! What an analysis may propose: exactly what keeps to the limits and names what can be found.

use vstd::prelude::*;
use vstd::utf8::*;

use crate::analysis::{
    admission_fault, all_trimmed, all_uris, analysis_uri, insight_fault, insights_fault, link_fault,
    links_fault, sources_fault, tags_fault, AnalysisInsightMaterialization, AnalysisLimits,
    AnalysisLinkMaterialization, AnalysisMaterializationRequest,
};
use crate::nodes::link_uri;
use crate::text::{blank, char_is_whitespace, has_prefix, lowered, texts, trimmed};

verus! {

/// Whether a character is neither of the lower controls nor of those about the delete.
pub open spec fn is_printed(c: char) -> bool {
    c > '\u{1f}' && !('\u{7f}' <= c <= '\u{9f}')
}

/// Whether a text fits in so many bytes and has no control character.
pub open spec fn fits(s: Seq<char>, max_bytes: nat) -> bool {
    encode_utf8(s).len() <= max_bytes && forall|i: int|
        0 <= i < s.len() ==> is_printed(#[trigger] s[i])
}

/// Whether a text, where it is given, fits.
pub open spec fn fits_if_given(given: Option<String>, max_bytes: nat) -> bool {
    given is Some ==> fits(given->0@, max_bytes)
}

/// Whether a number stands between nought and one.
pub open spec fn is_share(bits: u32) -> bool {
    bits <= 0x3f80_0000 || bits == 0x8000_0000
}

/// Whether a link keeps to the limits.
pub open spec fn link_keeps(link: AnalysisLinkMaterialization, limits: AnalysisLimits) -> bool {
    let tags = texts(link.tags@);
    &&& analysis_uri(link.source_uri@) is Some
    &&& analysis_uri(link.target_uri@) is Some
    &&& analysis_uri(link.source_uri@) != analysis_uri(link.target_uri@)
    &&& texts(limits.relations@).contains(lowered(trimmed(link.relation@)))
    &&& fits_if_given(link.source_title, limits.title_bytes as nat)
    &&& fits_if_given(link.target_title, limits.title_bytes as nat)
    &&& fits_if_given(link.rationale, limits.rationale_bytes as nat)
    &&& is_share(link.confidence)
    &&& tags.len() <= limits.tags
    &&& forall|i: int|
        0 <= i < tags.len() ==> !blank(#[trigger] tags[i]) && fits(
            tags[i],
            limits.tag_bytes as nat,
        )
    &&& forall|i: int, j: int|
        0 <= i < j < tags.len() ==> trimmed(#[trigger] tags[i]) != trimmed(#[trigger] tags[j])
}

/// Whether an insight keeps to the limits.
pub open spec fn insight_keeps(
    insight: AnalysisInsightMaterialization,
    limits: AnalysisLimits,
) -> bool {
    let uris = texts(insight.source_uris@);
    &&& !blank(insight.insight_type@) && fits(
        insight.insight_type@,
        limits.insight_type_bytes as nat,
    )
    &&& !blank(insight.title@) && fits(insight.title@, limits.title_bytes as nat)
    &&& !blank(insight.statement@) && fits(insight.statement@, limits.statement_bytes as nat)
    &&& is_share(insight.confidence)
    &&& is_share(insight.salience)
    &&& 0 < uris.len() <= limits.source_uris
    &&& forall|i: int| 0 <= i < uris.len() ==> analysis_uri(#[trigger] uris[i]) is Some
    &&& forall|i: int, j: int|
        0 <= i < j < uris.len() ==> analysis_uri(#[trigger] uris[i]) != analysis_uri(
            #[trigger] uris[j],
        )
}

/// An address that an analysis gives is taken as every link's is, if that begins as an address
/// does, goes on, and has no gap and no control character in it.
pub proof fn an_address_is_taken_or_not(uri: Seq<char>)
    ensures
        analysis_uri(uri) is Some ==> analysis_uri(uri)->0 == link_uri(uri),
        analysis_uri(uri) is Some <==> {
            &&& has_prefix(link_uri(uri), "ctx://"@)
            &&& link_uri(uri).len() > 6
            &&& forall|i: int|
                0 <= i < link_uri(uri).len() ==> is_printed(#[trigger] link_uri(uri)[i])
                    && !char_is_whitespace(link_uri(uri)[i])
        },
{
    reveal_strlit("ctx://");
}

/// Tags are all right if each is, and no two come to the same.
proof fn lemma_tags(tags: Seq<Seq<char>>, field: Seq<char>, max_bytes: nat)
    ensures
        tags_fault(tags, field, max_bytes) is None <==> {
            &&& forall|i: int|
                0 <= i < tags.len() ==> !blank(#[trigger] tags[i]) && fits(tags[i], max_bytes)
            &&& forall|i: int, j: int|
                0 <= i < j < tags.len() ==> trimmed(#[trigger] tags[i]) != trimmed(
                    #[trigger] tags[j],
                )
        },
    decreases tags.len(),
{
    if tags.len() > 0 {
        let front = tags.drop_last();
        let n = tags.len() - 1;
        lemma_tags(front, field, max_bytes);
        assert(forall|i: int| 0 <= i < n ==> #[trigger] front[i] == tags[i]);
        assert(tags.last() == tags[n]);
        assert forall|i: int| 0 <= i < n implies #[trigger] all_trimmed(front)[i] == trimmed(
            tags[i],
        ) by {}
        if all_trimmed(front).contains(trimmed(tags.last())) {
            let i = choose|i: int|
                0 <= i < all_trimmed(front).len() && all_trimmed(front)[i] == trimmed(tags.last());
            assert(trimmed(tags[i]) == trimmed(tags[n]));
        } else {
            assert forall|i: int| 0 <= i < n implies trimmed(#[trigger] tags[i]) != trimmed(
                tags[n],
            ) by {
                assert(all_trimmed(front)[i] == trimmed(tags[i]));
            }
        }
        if tags_fault(tags, field, max_bytes) is None {
            assert forall|i: int| 0 <= i < tags.len() implies !blank(#[trigger] tags[i]) && fits(
                tags[i],
                max_bytes,
            ) by {
                if i < n {
                    assert(front[i] == tags[i]);
                }
            }
            assert forall|i: int, j: int| 0 <= i < j < tags.len() implies trimmed(
                #[trigger] tags[i],
            ) != trimmed(#[trigger] tags[j]) by {
                if j < n {
                    assert(front[i] == tags[i] && front[j] == tags[j]);
                }
            }
        }
        if forall|i: int|
            0 <= i < tags.len() ==> !blank(#[trigger] tags[i]) && fits(tags[i], max_bytes) {
            assert(fits(tags[n], max_bytes) && !blank(tags[n]));
            assert forall|i: int| 0 <= i < front.len() implies !blank(#[trigger] front[i]) && fits(
                front[i],
                max_bytes,
            ) by {
                assert(front[i] == tags[i]);
            }
        }
    }
}

/// Sources are all right if each can be found, and no two are the same.
proof fn lemma_sources(uris: Seq<Seq<char>>, field: Seq<char>)
    ensures
        sources_fault(uris, field) is None <==> {
            &&& forall|i: int| 0 <= i < uris.len() ==> analysis_uri(#[trigger] uris[i]) is Some
            &&& forall|i: int, j: int|
                0 <= i < j < uris.len() ==> analysis_uri(#[trigger] uris[i]) != analysis_uri(
                    #[trigger] uris[j],
                )
        },
    decreases uris.len(),
{
    if uris.len() > 0 {
        let front = uris.drop_last();
        let n = uris.len() - 1;
        lemma_sources(front, field);
        assert(forall|i: int| 0 <= i < n ==> #[trigger] front[i] == uris[i]);
        assert(uris.last() == uris[n]);
        if all_uris(front).contains(analysis_uri(uris.last())) {
            let i = choose|i: int|
                0 <= i < all_uris(front).len() && all_uris(front)[i] == analysis_uri(uris.last());
            assert(analysis_uri(uris[i]) == analysis_uri(uris[n]));
        } else {
            assert forall|i: int| 0 <= i < n implies analysis_uri(#[trigger] uris[i])
                != analysis_uri(uris[n]) by {
                assert(all_uris(front)[i] == analysis_uri(uris[i]));
            }
        }
        if sources_fault(uris, field) is None {
            assert forall|i: int| 0 <= i < uris.len() implies analysis_uri(
                #[trigger] uris[i],
            ) is Some by {
                if i < n {
                    assert(front[i] == uris[i]);
                }
            }
            assert forall|i: int, j: int| 0 <= i < j < uris.len() implies analysis_uri(
                #[trigger] uris[i],
            ) != analysis_uri(#[trigger] uris[j]) by {
                if j < n {
                    assert(front[i] == uris[i] && front[j] == uris[j]);
                }
            }
        }
    }
}

/// A link is all right if and only if it keeps to the limits.
proof fn lemma_link(link: AnalysisLinkMaterialization, index: nat, limits: AnalysisLimits)
    ensures
        link_fault(link, index, limits) is None <==> link_keeps(link, limits),
{
    lemma_tags(
        texts(link.tags@),
        crate::analysis::field_name("links"@, index, "tags"@),
        limits.tag_bytes as nat,
    );
}

/// An insight is all right if and only if it keeps to the limits.
proof fn lemma_insight(insight: AnalysisInsightMaterialization, index: nat, limits: AnalysisLimits)
    ensures
        insight_fault(insight, index, limits) is None <==> insight_keeps(insight, limits),
{
    lemma_sources(
        texts(insight.source_uris@),
        crate::analysis::field_name("insights"@, index, "source_uris"@),
    );
}

/// Links are all right if each is.
proof fn lemma_links(links: Seq<AnalysisLinkMaterialization>, limits: AnalysisLimits)
    ensures
        links_fault(links, limits) is None <==> forall|i: int|
            0 <= i < links.len() ==> link_keeps(#[trigger] links[i], limits),
    decreases links.len(),
{
    if links.len() > 0 {
        let front = links.drop_last();
        let n = links.len() - 1;
        lemma_links(front, limits);
        lemma_link(links.last(), n as nat, limits);
        assert(forall|i: int| 0 <= i < n ==> #[trigger] front[i] == links[i]);
        if links_fault(links, limits) is None {
            assert forall|i: int| 0 <= i < links.len() implies link_keeps(
                #[trigger] links[i],
                limits,
            ) by {
                if i < n {
                    assert(front[i] == links[i]);
                }
            }
        }
    }
}

/// Insights are all right if each is.
proof fn lemma_insights(insights: Seq<AnalysisInsightMaterialization>, limits: AnalysisLimits)
    ensures
        insights_fault(insights, limits) is None <==> forall|i: int|
            0 <= i < insights.len() ==> insight_keeps(#[trigger] insights[i], limits),
    decreases insights.len(),
{
    if insights.len() > 0 {
        let front = insights.drop_last();
        let n = insights.len() - 1;
        lemma_insights(front, limits);
        lemma_insight(insights.last(), n as nat, limits);
        assert(forall|i: int| 0 <= i < n ==> #[trigger] front[i] == insights[i]);
        if insights_fault(insights, limits) is None {
            assert forall|i: int| 0 <= i < insights.len() implies insight_keeps(
                #[trigger] insights[i],
                limits,
            ) by {
                if i < n {
                    assert(front[i] == insights[i]);
                }
            }
        }
    }
}

/// What an analysis proposes is admitted if and only if it has an owner, does not propose too
/// much, and every link and every insight in it keeps to the limits.
pub proof fn what_keeps_to_the_limits_is_admitted(
    req: AnalysisMaterializationRequest,
    limits: AnalysisLimits,
    owner_user_id: Seq<char>,
)
    ensures
        admission_fault(req, limits, owner_user_id) is None <==> {
            &&& !blank(owner_user_id)
            &&& req.links@.len() <= limits.links
            &&& req.insights@.len() <= limits.insights
            &&& forall|i: int|
                0 <= i < req.links@.len() ==> link_keeps(#[trigger] req.links@[i], limits)
            &&& forall|i: int|
                0 <= i < req.insights@.len() ==> insight_keeps(#[trigger] req.insights@[i], limits)
        },
{
    lemma_links(req.links@, limits);
    lemma_insights(req.insights@, limits);
}

} // verus!
