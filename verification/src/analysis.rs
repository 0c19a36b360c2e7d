//! What an analysis proposes: links and insights, and whether the proposals can be taken.

use vstd::prelude::*;
use vstd::string::*;
use vstd::utf8::*;

use crate::documents::CONFIDENCE_ONE;
use crate::error::{fails_with, ApiError, ErrorView};
use crate::links::same_ends;
use crate::naming::bytes_of;
use crate::nodes::{canonical_link_uri, link_uri};
use crate::record::List;
use crate::text::{
    blank, chars_of, decimal, decimal_text, has_prefix, is_blank, is_whitespace, lower_text,
    lowered, opt_text, starts_with, text_eq, texts, texts_contain, texts_push, trim, trimmed,
};

verus! {

/// A link that an analysis proposes.
pub struct AnalysisLinkMaterialization {
    pub source_uri: String,
    pub target_uri: String,
    pub source_title: Option<String>,
    pub target_title: Option<String>,
    pub relation: String,
    pub rationale: Option<String>,
    /// The bits of a 32-bit float.
    pub confidence: u32,
    pub tags: List<String>,
}

/// An insight that an analysis proposes.
pub struct AnalysisInsightMaterialization {
    pub insight_type: String,
    pub title: String,
    pub statement: String,
    /// The bits of a 32-bit float.
    pub confidence: u32,
    /// The bits of a 32-bit float.
    pub salience: u32,
    pub source_uris: List<String>,
}

/// What an analysis proposes.
pub struct AnalysisMaterializationRequest {
    pub links: Vec<AnalysisLinkMaterialization>,
    pub insights: Vec<AnalysisInsightMaterialization>,
}

/// How much an analysis may propose.
pub struct AnalysisLimits {
    pub links: usize,
    pub insights: usize,
    pub relations: Vec<String>,
    pub title_bytes: usize,
    pub rationale_bytes: usize,
    pub tags: usize,
    pub tag_bytes: usize,
    pub insight_type_bytes: usize,
    pub statement_bytes: usize,
    pub source_uris: usize,
}

/// The first of two faults.
pub open spec fn first_fault(a: Option<ErrorView>, b: Option<ErrorView>) -> Option<ErrorView> {
    if a is Some {
        a
    } else {
        b
    }
}

/// Whether a check says what it has to say of a fault.
pub open spec fn reports(r: Result<(), ApiError>, fault: Option<ErrorView>) -> bool {
    match fault {
        Some(e) => fails_with(r, e),
        None => r is Ok,
    }
}

/// Whether a character is a control character.
pub open spec fn control_char(c: char) -> bool {
    c <= '\u{1f}' || ('\u{7f}' <= c && c <= '\u{9f}')
}

/// Whether a text holds a control character.
pub open spec fn has_control(s: Seq<char>) -> bool {
    exists|i: int| 0 <= i < s.len() && control_char(#[trigger] s[i])
}

fn check_control(s: &str) -> (r: bool)
    ensures
        r == has_control(s@),
{
    let x: Vec<char> = chars_of(s);
    let mut i: usize = 0;
    while i < x.len()
        invariant
            i <= x.len(),
            x@ == s@,
            forall|j: int| 0 <= j < i ==> !control_char(#[trigger] x@[j]),
        decreases x.len() - i,
    {
        let c: char = x[i];
        if c <= '\u{1f}' || (c >= '\u{7f}' && c <= '\u{9f}') {
            assert(control_char(s@[i as int]));
            return true;
        }
        i += 1;
    }
    false
}

/// What is wrong with a text: it may be too long or hold control characters.
pub open spec fn text_fault(value: Seq<char>, field: Seq<char>, max_bytes: nat) -> Option<ErrorView> {
    if encode_utf8(value).len() > max_bytes {
        Some(ErrorView::BadRequest(field + " exceeds the analysis materialization byte limit"@))
    } else if has_control(value) {
        Some(ErrorView::BadRequest(field + " contains control characters"@))
    } else {
        None
    }
}

fn check_text(value: &str, field: &str, max_bytes: usize) -> (r: Result<(), ApiError>)
    ensures
        reports(r, text_fault(value@, field@, max_bytes as nat)),
{
    if bytes_of(value).len() > max_bytes {
        return Err(
            ApiError::BadRequest(
                field.to_owned().concat(" exceeds the analysis materialization byte limit"),
            ),
        );
    }
    if check_control(value) {
        return Err(ApiError::BadRequest(field.to_owned().concat(" contains control characters")));
    }
    Ok(())
}

/// What is wrong with a text that may be missing.
pub open spec fn opt_text_fault(
    value: Option<Seq<char>>,
    field: Seq<char>,
    max_bytes: nat,
) -> Option<ErrorView> {
    match value {
        Some(text) => text_fault(text, field, max_bytes),
        None => None,
    }
}

fn check_opt_text(value: &Option<String>, field: &str, max_bytes: usize) -> (r: Result<(), ApiError>)
    ensures
        reports(r, opt_text_fault(opt_text(*value), field@, max_bytes as nat)),
{
    match value {
        Some(text) => check_text(text.as_str(), field, max_bytes),
        None => Ok(()),
    }
}

/// What is wrong with a text that has to be there.
pub open spec fn needed_fault(value: Seq<char>, field: Seq<char>, max_bytes: nat) -> Option<
    ErrorView,
> {
    if blank(value) {
        Some(ErrorView::BadRequest(field + " is required"@))
    } else {
        text_fault(value, field, max_bytes)
    }
}

fn check_needed(value: &str, field: &str, max_bytes: usize) -> (r: Result<(), ApiError>)
    ensures
        reports(r, needed_fault(value@, field@, max_bytes as nat)),
{
    if is_blank(value) {
        return Err(ApiError::BadRequest(field.to_owned().concat(" is required")));
    }
    check_text(value, field, max_bytes)
}

/// Whether the bits are those of a 32-bit float from zero to one.
pub open spec fn is_score(bits: u32) -> bool {
    bits <= CONFIDENCE_ONE || bits == 0x8000_0000
}

/// What is wrong with a score.
pub open spec fn score_fault(bits: u32, field: Seq<char>) -> Option<ErrorView> {
    if is_score(bits) {
        None
    } else {
        Some(ErrorView::BadRequest(field + " must be a finite number between 0 and 1"@))
    }
}

fn check_score(bits: u32, field: &str) -> (r: Result<(), ApiError>)
    ensures
        reports(r, score_fault(bits, field@)),
{
    if bits <= CONFIDENCE_ONE || bits == 0x8000_0000 {
        Ok(())
    } else {
        Err(
            ApiError::BadRequest(
                field.to_owned().concat(" must be a finite number between 0 and 1"),
            ),
        )
    }
}

/// Whether every character may stand in a URI.
pub open spec fn is_plain(s: Seq<char>) -> bool {
    forall|i: int|
        0 <= i < s.len() ==> !crate::text::char_is_whitespace(#[trigger] s[i]) && !control_char(
            s[i],
        )
}

fn check_plain(s: &str) -> (r: bool)
    ensures
        r == is_plain(s@),
{
    let x: Vec<char> = chars_of(s);
    let mut i: usize = 0;
    while i < x.len()
        invariant
            i <= x.len(),
            x@ == s@,
            forall|j: int|
                0 <= j < i ==> !crate::text::char_is_whitespace(#[trigger] x@[j]) && !control_char(
                    x@[j],
                ),
        decreases x.len() - i,
    {
        let c: char = x[i];
        if is_whitespace(c) || c <= '\u{1f}' || (c >= '\u{7f}' && c <= '\u{9f}') {
            assert(crate::text::char_is_whitespace(s@[i as int]) || control_char(s@[i as int]));
            return false;
        }
        i += 1;
    }
    true
}

/// The URI of an entry as an analysis names it, where it is one.
pub open spec fn analysis_uri(uri: Seq<char>) -> Option<Seq<char>> {
    let canonical = link_uri(uri);
    if has_prefix(canonical, "ctx://"@) && canonical.len() > "ctx://"@.len() && is_plain(canonical) {
        Some(canonical)
    } else {
        None
    }
}

/// The URI of an entry as an analysis names it, where it is one.
pub fn canonicalize_analysis_uri(uri: &str) -> (r: Option<String>)
    ensures
        opt_text(r) == analysis_uri(uri@),
{
    let canonical: String = canonical_link_uri(uri);
    if starts_with(canonical.as_str(), "ctx://") && chars_of(canonical.as_str()).len() > chars_of(
        "ctx://",
    ).len() && check_plain(canonical.as_str()) {
        Some(canonical)
    } else {
        None
    }
}

/// What is wrong with a URI.
pub open spec fn uri_fault(uri: Seq<char>, field: Seq<char>) -> Option<ErrorView> {
    if analysis_uri(uri) is Some {
        None
    } else {
        Some(ErrorView::BadRequest(field + " must be a valid ctx:// URI"@))
    }
}

fn check_uri(uri: &str, field: &str) -> (r: Result<String, ApiError>)
    ensures
        match uri_fault(uri@, field@) {
            Some(e) => fails_with(r, e),
            None => r is Ok && Some(r->Ok_0@) == analysis_uri(uri@),
        },
{
    match canonicalize_analysis_uri(uri) {
        Some(canonical) => Ok(canonical),
        None => Err(
            ApiError::BadRequest(field.to_owned().concat(" must be a valid ctx:// URI")),
        ),
    }
}

/// The name of a field of a proposal.
pub open spec fn field_name(list: Seq<char>, index: nat, field: Seq<char>) -> Seq<char> {
    list + "["@ + decimal(index) + "]."@ + field
}

fn field_of(list: &str, index: usize, field: &str) -> (r: String)
    ensures
        r@ == field_name(list@, index as nat, field@),
{
    let mut name: String = list.to_owned();
    name.append("[");
    name.append(decimal_text(index as u64).as_str());
    name.append("].");
    name.append(field);
    name
}

/// The name of an element of a list.
pub open spec fn element_name(list: Seq<char>, index: nat) -> Seq<char> {
    list + "["@ + decimal(index) + "]"@
}

fn element_of(list: &str, index: usize) -> (r: String)
    ensures
        r@ == element_name(list@, index as nat),
{
    let mut name: String = list.to_owned();
    name.append("[");
    name.append(decimal_text(index as u64).as_str());
    name.append("]");
    name
}

/// The first fault of the tags of a proposal: each has to say something new.
pub open spec fn tags_fault(tags: Seq<Seq<char>>, field: Seq<char>, max_bytes: nat) -> Option<
    ErrorView,
>
    decreases tags.len(),
{
    if tags.len() == 0 {
        None
    } else {
        let front = tags.drop_last();
        first_fault(
            tags_fault(front, field, max_bytes),
            first_fault(
                needed_fault(tags.last(), element_name(field, front.len()), max_bytes),
                if all_trimmed(front).contains(trimmed(tags.last())) {
                    Some(ErrorView::BadRequest(field + " contains a duplicate"@))
                } else {
                    None
                },
            ),
        )
    }
}

/// Texts without the whitespace around them.
pub open spec fn all_trimmed(s: Seq<Seq<char>>) -> Seq<Seq<char>> {
    Seq::new(s.len(), |i: int| trimmed(s[i]))
}

proof fn lemma_tags_fault_stays(tags: Seq<Seq<char>>, n: int, field: Seq<char>, max_bytes: nat)
    requires
        0 <= n <= tags.len(),
        tags_fault(tags.take(n), field, max_bytes) is Some,
    ensures
        tags_fault(tags, field, max_bytes) == tags_fault(tags.take(n), field, max_bytes),
    decreases tags.len() - n,
{
    if n == tags.len() {
        assert(tags.take(n) =~= tags);
    } else {
        assert(tags.take(n + 1).drop_last() =~= tags.take(n));
        lemma_tags_fault_stays(tags, n + 1, field, max_bytes);
    }
}

fn check_tags(tags: &Vec<String>, field: &str, max_bytes: usize) -> (r: Result<(), ApiError>)
    ensures
        reports(r, tags_fault(texts(tags@), field@, max_bytes as nat)),
{
    let ghost all = texts(tags@);
    let mut seen: Vec<String> = Vec::new();
    let mut i: usize = 0;
    assert(texts(seen@) =~= all_trimmed(all.take(0)));
    while i < tags.len()
        invariant
            i <= tags.len(),
            all == texts(tags@),
            texts(seen@) == all_trimmed(all.take(i as int)),
            tags_fault(all.take(i as int), field@, max_bytes as nat) is None,
        decreases tags.len() - i,
    {
        assert(all.take(i + 1).drop_last() =~= all.take(i as int));
        assert(all.take(i + 1).last() == tags@[i as int]@);
        let name: String = element_of(field, i);
        let checked: Result<(), ApiError> = check_needed(tags[i].as_str(), name.as_str(), max_bytes);
        if checked.is_err() {
            proof {
                lemma_tags_fault_stays(all, i + 1, field@, max_bytes as nat);
            }
            return checked;
        }
        let tag: String = trim(tags[i].as_str());
        if texts_contain(&seen, tag.as_str()) {
            proof {
                lemma_tags_fault_stays(all, i + 1, field@, max_bytes as nat);
            }
            return Err(ApiError::BadRequest(field.to_owned().concat(" contains a duplicate")));
        }
        proof {
            texts_push(seen@, tag);
            assert(all_trimmed(all.take(i + 1)) =~= all_trimmed(all.take(i as int)).push(tag@));
        }
        seen.push(tag);
        i += 1;
    }
    assert(all.take(i as int) =~= all);
    Ok(())
}

/// The first fault of a link that is proposed.
pub open spec fn link_fault(link: AnalysisLinkMaterialization, index: nat, limits: AnalysisLimits) -> Option<
    ErrorView,
> {
    let ends = first_fault(
        uri_fault(link.source_uri@, field_name("links"@, index, "source_uri"@)),
        first_fault(
            uri_fault(link.target_uri@, field_name("links"@, index, "target_uri"@)),
            if analysis_uri(link.source_uri@) == analysis_uri(link.target_uri@) {
                Some(same_ends())
            } else {
                None
            },
        ),
    );
    let relation = if texts(limits.relations@).contains(lowered(trimmed(link.relation@))) {
        None
    } else {
        Some(
            ErrorView::BadRequest(
                field_name("links"@, index, "relation"@)
                    + " is not allowed for analysis materialization"@,
            ),
        )
    };
    let prose = first_fault(
        opt_text_fault(
            opt_text(link.source_title),
            field_name("links"@, index, "source_title"@),
            limits.title_bytes as nat,
        ),
        first_fault(
            opt_text_fault(
                opt_text(link.target_title),
                field_name("links"@, index, "target_title"@),
                limits.title_bytes as nat,
            ),
            opt_text_fault(
                opt_text(link.rationale),
                field_name("links"@, index, "rationale"@),
                limits.rationale_bytes as nat,
            ),
        ),
    );
    let score = score_fault(link.confidence, field_name("links"@, index, "confidence"@));
    let tags_field = field_name("links"@, index, "tags"@);
    let tags = if link.tags@.len() > limits.tags {
        Some(
            ErrorView::BadRequest(tags_field + " exceeds the analysis materialization limit"@),
        )
    } else {
        tags_fault(texts(link.tags@), tags_field, limits.tag_bytes as nat)
    };
    first_fault(ends, first_fault(relation, first_fault(prose, first_fault(score, tags))))
}

fn check_link(link: &AnalysisLinkMaterialization, index: usize, limits: &AnalysisLimits) -> (r: Result<
    (),
    ApiError,
>)
    ensures
        reports(r, link_fault(*link, index as nat, *limits)),
{
    let source: String = match check_uri(
        link.source_uri.as_str(),
        field_of("links", index, "source_uri").as_str(),
    ) {
        Ok(uri) => uri,
        Err(error) => {
            return Err(error);
        },
    };
    let target: String = match check_uri(
        link.target_uri.as_str(),
        field_of("links", index, "target_uri").as_str(),
    ) {
        Ok(uri) => uri,
        Err(error) => {
            return Err(error);
        },
    };
    if text_eq(source.as_str(), target.as_str()) {
        return Err(
            ApiError::bad_request(
                "source_uri and target_uri must refer to different context nodes",
            ),
        );
    }
    let relation: String = lower_text(trim(link.relation.as_str()).as_str());
    if !texts_contain(&limits.relations, relation.as_str()) {
        return Err(
            ApiError::BadRequest(
                field_of("links", index, "relation").concat(
                    " is not allowed for analysis materialization",
                ),
            ),
        );
    }
    let checked: Result<(), ApiError> = check_opt_text(
        &link.source_title,
        field_of("links", index, "source_title").as_str(),
        limits.title_bytes,
    );
    if checked.is_err() {
        return checked;
    }
    let checked: Result<(), ApiError> = check_opt_text(
        &link.target_title,
        field_of("links", index, "target_title").as_str(),
        limits.title_bytes,
    );
    if checked.is_err() {
        return checked;
    }
    let checked: Result<(), ApiError> = check_opt_text(
        &link.rationale,
        field_of("links", index, "rationale").as_str(),
        limits.rationale_bytes,
    );
    if checked.is_err() {
        return checked;
    }
    let checked: Result<(), ApiError> = check_score(
        link.confidence,
        field_of("links", index, "confidence").as_str(),
    );
    if checked.is_err() {
        return checked;
    }
    let tags_field: String = field_of("links", index, "tags");
    if link.tags.len() > limits.tags {
        return Err(
            ApiError::BadRequest(
                tags_field.concat(" exceeds the analysis materialization limit"),
            ),
        );
    }
    check_tags(&link.tags, tags_field.as_str(), limits.tag_bytes)
}

/// The first fault of the sources of an insight: each has to be another URI.
pub open spec fn sources_fault(uris: Seq<Seq<char>>, field: Seq<char>) -> Option<ErrorView>
    decreases uris.len(),
{
    if uris.len() == 0 {
        None
    } else {
        let front = uris.drop_last();
        first_fault(
            sources_fault(front, field),
            first_fault(
                uri_fault(uris.last(), element_name(field, front.len())),
                if all_uris(front).contains(analysis_uri(uris.last())) {
                    Some(ErrorView::BadRequest(field + " contains a duplicate"@))
                } else {
                    None
                },
            ),
        )
    }
}

/// URIs as an analysis names them.
pub open spec fn all_uris(s: Seq<Seq<char>>) -> Seq<Option<Seq<char>>> {
    Seq::new(s.len(), |i: int| analysis_uri(s[i]))
}

proof fn lemma_sources_fault_stays(uris: Seq<Seq<char>>, n: int, field: Seq<char>)
    requires
        0 <= n <= uris.len(),
        sources_fault(uris.take(n), field) is Some,
    ensures
        sources_fault(uris, field) == sources_fault(uris.take(n), field),
    decreases uris.len() - n,
{
    if n == uris.len() {
        assert(uris.take(n) =~= uris);
    } else {
        assert(uris.take(n + 1).drop_last() =~= uris.take(n));
        lemma_sources_fault_stays(uris, n + 1, field);
    }
}

fn check_sources(uris: &Vec<String>, field: &str) -> (r: Result<(), ApiError>)
    ensures
        reports(r, sources_fault(texts(uris@), field@)),
{
    let ghost all = texts(uris@);
    let mut seen: Vec<String> = Vec::new();
    let mut i: usize = 0;
    while i < uris.len()
        invariant
            i <= uris.len(),
            all == texts(uris@),
            seen@.len() == i,
            forall|j: int| 0 <= j < i ==> Some((#[trigger] seen@[j])@) == analysis_uri(all[j]),
            sources_fault(all.take(i as int), field@) is None,
        decreases uris.len() - i,
    {
        let ghost front = all.take(i as int);
        assert(all.take(i + 1).drop_last() =~= front);
        assert(all.take(i + 1).last() == uris@[i as int]@);
        let name: String = element_of(field, i);
        let uri: String = match check_uri(uris[i].as_str(), name.as_str()) {
            Ok(uri) => uri,
            Err(error) => {
                proof {
                    lemma_sources_fault_stays(all, i + 1, field@);
                }
                return Err(error);
            },
        };
        proof {
            let named = all_uris(front);
            assert(named.contains(Some(uri@)) <==> texts(seen@).contains(uri@)) by {
                if named.contains(Some(uri@)) {
                    let j = choose|j: int| 0 <= j < named.len() && named[j] == Some(uri@);
                    assert(texts(seen@)[j] == seen@[j]@);
                }
                if texts(seen@).contains(uri@) {
                    let j = choose|j: int| 0 <= j < texts(seen@).len() && texts(seen@)[j] == uri@;
                    assert(seen@[j]@ == uri@);
                    assert(named[j] == Some(uri@));
                }
            }
        }
        if texts_contain(&seen, uri.as_str()) {
            proof {
                lemma_sources_fault_stays(all, i + 1, field@);
            }
            return Err(ApiError::BadRequest(field.to_owned().concat(" contains a duplicate")));
        }
        seen.push(uri);
        i += 1;
    }
    assert(all.take(i as int) =~= all);
    Ok(())
}

/// The first fault of an insight that is proposed.
pub open spec fn insight_fault(
    insight: AnalysisInsightMaterialization,
    index: nat,
    limits: AnalysisLimits,
) -> Option<ErrorView> {
    let prose = first_fault(
        needed_fault(
            insight.insight_type@,
            field_name("insights"@, index, "insight_type"@),
            limits.insight_type_bytes as nat,
        ),
        first_fault(
            needed_fault(
                insight.title@,
                field_name("insights"@, index, "title"@),
                limits.title_bytes as nat,
            ),
            needed_fault(
                insight.statement@,
                field_name("insights"@, index, "statement"@),
                limits.statement_bytes as nat,
            ),
        ),
    );
    let scores = first_fault(
        score_fault(insight.confidence, field_name("insights"@, index, "confidence"@)),
        score_fault(insight.salience, field_name("insights"@, index, "salience"@)),
    );
    let field = field_name("insights"@, index, "source_uris"@);
    let sources = if insight.source_uris@.len() == 0 {
        Some(ErrorView::BadRequest(field + " is required"@))
    } else if insight.source_uris@.len() > limits.source_uris {
        Some(ErrorView::BadRequest(field + " exceeds the analysis materialization limit"@))
    } else {
        sources_fault(texts(insight.source_uris@), field)
    };
    first_fault(prose, first_fault(scores, sources))
}

fn check_insight(insight: &AnalysisInsightMaterialization, index: usize, limits: &AnalysisLimits) -> (r: Result<
    (),
    ApiError,
>)
    ensures
        reports(r, insight_fault(*insight, index as nat, *limits)),
{
    let checked: Result<(), ApiError> = check_needed(
        insight.insight_type.as_str(),
        field_of("insights", index, "insight_type").as_str(),
        limits.insight_type_bytes,
    );
    if checked.is_err() {
        return checked;
    }
    let checked: Result<(), ApiError> = check_needed(
        insight.title.as_str(),
        field_of("insights", index, "title").as_str(),
        limits.title_bytes,
    );
    if checked.is_err() {
        return checked;
    }
    let checked: Result<(), ApiError> = check_needed(
        insight.statement.as_str(),
        field_of("insights", index, "statement").as_str(),
        limits.statement_bytes,
    );
    if checked.is_err() {
        return checked;
    }
    let checked: Result<(), ApiError> = check_score(
        insight.confidence,
        field_of("insights", index, "confidence").as_str(),
    );
    if checked.is_err() {
        return checked;
    }
    let checked: Result<(), ApiError> = check_score(
        insight.salience,
        field_of("insights", index, "salience").as_str(),
    );
    if checked.is_err() {
        return checked;
    }
    let field: String = field_of("insights", index, "source_uris");
    if insight.source_uris.len() == 0 {
        return Err(ApiError::BadRequest(field.concat(" is required")));
    }
    if insight.source_uris.len() > limits.source_uris {
        return Err(
            ApiError::BadRequest(field.concat(" exceeds the analysis materialization limit")),
        );
    }
    check_sources(&insight.source_uris, field.as_str())
}

/// The first fault of the links that are proposed.
pub open spec fn links_fault(links: Seq<AnalysisLinkMaterialization>, limits: AnalysisLimits) -> Option<ErrorView>
    decreases links.len(),
{
    if links.len() == 0 {
        None
    } else {
        first_fault(
            links_fault(links.drop_last(), limits),
            link_fault(links.last(), (links.len() - 1) as nat, limits),
        )
    }
}

proof fn lemma_links_fault_stays(links: Seq<AnalysisLinkMaterialization>, n: int, limits: AnalysisLimits)
    requires
        0 <= n <= links.len(),
        links_fault(links.take(n), limits) is Some,
    ensures
        links_fault(links, limits) == links_fault(links.take(n), limits),
    decreases links.len() - n,
{
    if n == links.len() {
        assert(links.take(n) =~= links);
    } else {
        assert(links.take(n + 1).drop_last() =~= links.take(n));
        lemma_links_fault_stays(links, n + 1, limits);
    }
}

fn check_links(links: &Vec<AnalysisLinkMaterialization>, limits: &AnalysisLimits) -> (r: Result<(), ApiError>)
    ensures
        reports(r, links_fault(links@, *limits)),
{
    let mut i: usize = 0;
    while i < links.len()
        invariant
            i <= links.len(),
            links_fault(links@.take(i as int), *limits) is None,
        decreases links.len() - i,
    {
        assert(links@.take(i + 1).drop_last() =~= links@.take(i as int));
        let checked: Result<(), ApiError> = check_link(&links[i], i, limits);
        if checked.is_err() {
            proof {
                lemma_links_fault_stays(links@, i + 1, *limits);
            }
            return checked;
        }
        i += 1;
    }
    assert(links@.take(i as int) =~= links@);
    Ok(())
}

/// The first fault of the insights that are proposed.
pub open spec fn insights_fault(insights: Seq<AnalysisInsightMaterialization>, limits: AnalysisLimits) -> Option<
    ErrorView,
>
    decreases insights.len(),
{
    if insights.len() == 0 {
        None
    } else {
        first_fault(
            insights_fault(insights.drop_last(), limits),
            insight_fault(insights.last(), (insights.len() - 1) as nat, limits),
        )
    }
}

proof fn lemma_insights_fault_stays(insights: Seq<AnalysisInsightMaterialization>, n: int, limits: AnalysisLimits)
    requires
        0 <= n <= insights.len(),
        insights_fault(insights.take(n), limits) is Some,
    ensures
        insights_fault(insights, limits) == insights_fault(insights.take(n), limits),
    decreases insights.len() - n,
{
    if n == insights.len() {
        assert(insights.take(n) =~= insights);
    } else {
        assert(insights.take(n + 1).drop_last() =~= insights.take(n));
        lemma_insights_fault_stays(insights, n + 1, limits);
    }
}

fn check_insights(insights: &Vec<AnalysisInsightMaterialization>, limits: &AnalysisLimits) -> (r: Result<
    (),
    ApiError,
>)
    ensures
        reports(r, insights_fault(insights@, *limits)),
{
    let mut i: usize = 0;
    while i < insights.len()
        invariant
            i <= insights.len(),
            insights_fault(insights@.take(i as int), *limits) is None,
        decreases insights.len() - i,
    {
        assert(insights@.take(i + 1).drop_last() =~= insights@.take(i as int));
        let checked: Result<(), ApiError> = check_insight(&insights[i], i, limits);
        if checked.is_err() {
            proof {
                lemma_insights_fault_stays(insights@, i + 1, *limits);
            }
            return checked;
        }
        i += 1;
    }
    assert(insights@.take(i as int) =~= insights@);
    Ok(())
}

/// The first fault of what an analysis proposes.
pub open spec fn request_fault(
    req: AnalysisMaterializationRequest,
    limits: AnalysisLimits,
) -> Option<ErrorView> {
    first_fault(links_fault(req.links@, limits), insights_fault(req.insights@, limits))
}

/// Checks what an analysis proposes, link by link and then insight by insight.
pub fn validate_analysis_materialization_request(
    req: &AnalysisMaterializationRequest,
    limits: &AnalysisLimits,
) -> (r: Result<(), ApiError>)
    ensures
        reports(r, request_fault(*req, *limits)),
{
    let checked: Result<(), ApiError> = check_links(&req.links, limits);
    if checked.is_err() {
        return checked;
    }
    check_insights(&req.insights, limits)
}

/// Why what an analysis proposes is not even looked at closely, or what is wrong with it.
pub open spec fn admission_fault(
    req: AnalysisMaterializationRequest,
    limits: AnalysisLimits,
    owner_user_id: Seq<char>,
) -> Option<ErrorView> {
    if blank(owner_user_id) {
        Some(ErrorView::BadRequest("owner_user_id"@ + " is required"@))
    } else if req.links@.len() > limits.links {
        Some(ErrorView::BadRequest("analysis materialization link limit exceeded"@))
    } else if req.insights@.len() > limits.insights {
        Some(ErrorView::BadRequest("analysis materialization insight limit exceeded"@))
    } else {
        request_fault(req, limits)
    }
}

/// Decides whether what an analysis proposes is taken on.
pub fn admit_analysis(
    req: &AnalysisMaterializationRequest,
    limits: &AnalysisLimits,
    owner_user_id: &str,
) -> (r: Result<(), ApiError>)
    ensures
        reports(r, admission_fault(*req, *limits, owner_user_id@)),
{
    if is_blank(owner_user_id) {
        return Err(ApiError::BadRequest("owner_user_id".to_owned().concat(" is required")));
    }
    if req.links.len() > limits.links {
        return Err(ApiError::bad_request("analysis materialization link limit exceeded"));
    }
    if req.insights.len() > limits.insights {
        return Err(ApiError::bad_request("analysis materialization insight limit exceeded"));
    }
    validate_analysis_materialization_request(req, limits)
}

} // verus!
