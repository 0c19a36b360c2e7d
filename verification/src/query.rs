//! What a search of the context asks for.

use vstd::prelude::*;
use vstd::string::*;

use crate::error::{fails_with, ApiError, ErrorView};
use crate::json::{text_member, Json};
use crate::model::knowledge::{ContextNode, ParseArtifactRef};
use crate::order::any_where;
use crate::text::{
    blank, is_blank, lower_text, lowered, opt_is, opt_str, opt_text, parse_number,
    parsed_number, text_eq, texts, texts_contain, trim, trimmed,
};

verus! {

/// How much of a hit is returned.
#[derive(Debug, Clone, Copy, PartialEq, Eq, Structural)]
pub enum ContextReturnProfile {
    Compact,
    Standard,
    Full,
}

/// The profile that a request names.
pub open spec fn named_profile(value: Seq<char>) -> Result<ContextReturnProfile, ErrorView> {
    let name = lowered(trimmed(value));
    if name == ""@ || name == "standard"@ {
        Ok(ContextReturnProfile::Standard)
    } else if name == "compact"@ {
        Ok(ContextReturnProfile::Compact)
    } else if name == "full"@ {
        Ok(ContextReturnProfile::Full)
    } else {
        Err(ErrorView::BadRequest("unsupported return_profile: "@ + name))
    }
}

impl ContextReturnProfile {
    /// The profile that a request names.
    pub fn from_request(value: &str) -> (r: Result<ContextReturnProfile, ApiError>)
        ensures
            match named_profile(value@) {
                Ok(profile) => r == Ok::<ContextReturnProfile, ApiError>(profile),
                Err(e) => fails_with(r, e),
            },
    {
        let name: String = lower_text(trim(value).as_str());
        if text_eq(name.as_str(), "") || text_eq(name.as_str(), "standard") {
            Ok(ContextReturnProfile::Standard)
        } else if text_eq(name.as_str(), "compact") {
            Ok(ContextReturnProfile::Compact)
        } else if text_eq(name.as_str(), "full") {
            Ok(ContextReturnProfile::Full)
        } else {
            Err(
                ApiError::BadRequest(
                    "unsupported return_profile: ".to_owned().concat(name.as_str()),
                ),
            )
        }
    }
}

/// What is returned with the hits besides what the profile says.
#[derive(Debug, Clone, Copy, PartialEq, Eq, Structural)]
pub struct ContextIncludeSet {
    pub traceback: bool,
    pub links: bool,
    pub neighbor_fragments: bool,
    pub source_summary: bool,
    pub artifact_refs: bool,
    pub score_breakdown: bool,
}

/// Whether a request may ask for a thing by this name.
pub open spec fn known_extra(name: Seq<char>) -> bool {
    name == ""@ || name == "traceback"@ || name == "links"@ || name == "neighbor_fragments"@ || name
        == "source_summary"@ || name == "artifact_refs"@ || name == "score_breakdown"@ || name
        == "raw_stage_debug"@
}

/// The name of a thing that a request asks for.
pub open spec fn extra_name(value: Seq<char>) -> Seq<char> {
    lowered(trimmed(value))
}

/// Whether a request asks for a thing.
pub open spec fn asks_for(values: Seq<Seq<char>>, name: Seq<char>) -> bool {
    exists|i: int| 0 <= i < values.len() && extra_name(#[trigger] values[i]) == name
}

/// The first thing that a request asks for and that is not known.
pub open spec fn first_unknown(values: Seq<Seq<char>>) -> Option<Seq<char>>
    decreases values.len(),
{
    if values.len() == 0 {
        None
    } else {
        match first_unknown(values.drop_last()) {
            Some(name) => Some(name),
            None => if known_extra(extra_name(values.last())) {
                None
            } else {
                Some(extra_name(values.last()))
            },
        }
    }
}

proof fn lemma_unknown_stays(values: Seq<Seq<char>>, n: int)
    requires
        0 <= n <= values.len(),
        first_unknown(values.take(n)) is Some,
    ensures
        first_unknown(values) == first_unknown(values.take(n)),
    decreases values.len() - n,
{
    if n == values.len() {
        assert(values.take(n) =~= values);
    } else {
        assert(values.take(n + 1).drop_last() =~= values.take(n));
        lemma_unknown_stays(values, n + 1);
    }
}

proof fn lemma_asks_step(values: Seq<Seq<char>>, i: int, name: Seq<char>)
    requires
        0 <= i < values.len(),
    ensures
        asks_for(values.take(i + 1), name) == (asks_for(values.take(i), name) || extra_name(
            values[i],
        ) == name),
{
    let now = values.take(i + 1);
    let before = values.take(i);
    if asks_for(now, name) {
        let j = choose|j: int| 0 <= j < now.len() && extra_name(#[trigger] now[j]) == name;
        if j < i {
            assert(before[j] == now[j]);
        }
    }
    if asks_for(before, name) {
        let j = choose|j: int| 0 <= j < before.len() && extra_name(#[trigger] before[j]) == name;
        assert(now[j] == before[j]);
    }
    if extra_name(values[i]) == name {
        assert(now[i] == values[i]);
    }
}

/// Whether a set holds what a request asks for.
pub open spec fn is_asked_set(set: ContextIncludeSet, values: Seq<Seq<char>>) -> bool {
    &&& set.traceback == asks_for(values, "traceback"@)
    &&& set.links == asks_for(values, "links"@)
    &&& set.neighbor_fragments == asks_for(values, "neighbor_fragments"@)
    &&& set.source_summary == asks_for(values, "source_summary"@)
    &&& set.artifact_refs == asks_for(values, "artifact_refs"@)
    &&& set.score_breakdown == asks_for(values, "score_breakdown"@)
}

impl ContextIncludeSet {
    /// What a request asks for.
    pub fn from_request(values: &Vec<String>) -> (r: Result<ContextIncludeSet, ApiError>)
        ensures
            match first_unknown(texts(values@)) {
                Some(name) => fails_with(
                    r,
                    ErrorView::BadRequest("unsupported include value: "@ + name),
                ),
                None => r is Ok && is_asked_set(r->Ok_0, texts(values@)),
            },
    {
        let ghost all = texts(values@);
        let mut set: ContextIncludeSet = ContextIncludeSet {
            traceback: false,
            links: false,
            neighbor_fragments: false,
            source_summary: false,
            artifact_refs: false,
            score_breakdown: false,
        };
        let mut i: usize = 0;
        while i < values.len()
            invariant
                i <= values.len(),
                all == texts(values@),
                first_unknown(all.take(i as int)) is None,
                is_asked_set(set, all.take(i as int)),
            decreases values.len() - i,
        {
            proof {
                assert(all.take(i + 1).drop_last() =~= all.take(i as int));
                lemma_asks_step(all, i as int, "traceback"@);
                lemma_asks_step(all, i as int, "links"@);
                lemma_asks_step(all, i as int, "neighbor_fragments"@);
                lemma_asks_step(all, i as int, "source_summary"@);
                lemma_asks_step(all, i as int, "artifact_refs"@);
                lemma_asks_step(all, i as int, "score_breakdown"@);
            }
            let name: String = lower_text(trim(values[i].as_str()).as_str());
            let known: bool = set.ask(name.as_str());
            if !known {
                proof {
                    lemma_unknown_stays(all, i + 1);
                }
                return Err(
                    ApiError::BadRequest(
                        "unsupported include value: ".to_owned().concat(name.as_str()),
                    ),
                );
            }
            i += 1;
        }
        assert(all.take(i as int) =~= all);
        Ok(set)
    }

    fn ask(&mut self, name: &str) -> (known: bool)
        ensures
            known == known_extra(name@),
            final(self).traceback == (old(self).traceback || name@ == "traceback"@),
            final(self).links == (old(self).links || name@ == "links"@),
            final(self).neighbor_fragments == (old(self).neighbor_fragments || name@
                == "neighbor_fragments"@),
            final(self).source_summary == (old(self).source_summary || name@
                == "source_summary"@),
            final(self).artifact_refs == (old(self).artifact_refs || name@ == "artifact_refs"@),
            final(self).score_breakdown == (old(self).score_breakdown || name@
                == "score_breakdown"@),
    {
        let traceback: bool = text_eq(name, "traceback");
        let links: bool = text_eq(name, "links");
        let neighbors: bool = text_eq(name, "neighbor_fragments");
        let summary: bool = text_eq(name, "source_summary");
        let artifacts: bool = text_eq(name, "artifact_refs");
        let scores: bool = text_eq(name, "score_breakdown");
        self.traceback = self.traceback || traceback;
        self.links = self.links || links;
        self.neighbor_fragments = self.neighbor_fragments || neighbors;
        self.source_summary = self.source_summary || summary;
        self.artifact_refs = self.artifact_refs || artifacts;
        self.score_breakdown = self.score_breakdown || scores;
        traceback || links || neighbors || summary || artifacts || scores || text_eq(name, "")
            || text_eq(name, "raw_stage_debug")
    }
}

/// The owner that the filters of a search name.
pub open spec fn filter_owner(filters: Json) -> Option<Seq<char>> {
    match text_member(filters, "owner_user_id"@) {
        Some(owner) => Some(owner),
        None => text_member(filters, "owner"@),
    }
}

/// The owner that the filters of a search name.
pub fn owner_from_filters(filters: &Json) -> (r: Option<&str>)
    ensures
        opt_str(r) == filter_owner(*filters),
{
    match filters.text_of("owner_user_id") {
        Some(owner) => Some(owner),
        None => filters.text_of("owner"),
    }
}

/// The owner whose context is searched.
pub open spec fn searched_owner(owner: Option<Seq<char>>, filters: Json) -> Result<
    Option<Seq<char>>,
    ErrorView,
> {
    match (owner, filter_owner(filters)) {
        (Some(a), Some(b)) => if a != b {
            Err(ErrorView::BadRequest("owner_user_id and filters.owner_user_id must match"@))
        } else {
            Ok(Some(a))
        },
        (Some(a), None) => Ok(Some(a)),
        (None, b) => Ok(b),
    }
}

/// The owner whose context is searched.
pub fn resolve_context_owner(owner_user_id: Option<&str>, filters: &Json) -> (r: Result<
    Option<String>,
    ApiError,
>)
    ensures
        match searched_owner(opt_str(owner_user_id), *filters) {
            Ok(owner) => r is Ok && opt_text(r->Ok_0) == owner,
            Err(e) => fails_with(r, e),
        },
{
    match (owner_user_id, owner_from_filters(filters)) {
        (Some(a), Some(b)) => {
            if text_eq(a, b) {
                Ok(Some(a.to_owned()))
            } else {
                Err(ApiError::bad_request("owner_user_id and filters.owner_user_id must match"))
            }
        },
        (Some(a), None) => Ok(Some(a.to_owned())),
        (None, Some(b)) => Ok(Some(b.to_owned())),
        (None, None) => Ok(None),
    }
}

/// What a search is limited to.
pub struct ContextStructuredFilters {
    pub source_id: Option<String>,
    pub revision_id: Option<String>,
    pub source_document_uri: Option<String>,
    pub block_type: Option<String>,
    pub page_idx: Option<usize>,
    pub page_idx_gte: Option<usize>,
    pub page_idx_lte: Option<usize>,
    pub section_path_contains: Option<String>,
    pub artifact_kind: Option<String>,
}

/// The value of a member.
pub open spec fn member(members: Seq<(String, Json)>, name: Seq<char>) -> Option<Json>
    decreases members.len(),
{
    if members.len() == 0 {
        None
    } else if members[0].0@ == name {
        Some(members[0].1)
    } else {
        member(members.skip(1), name)
    }
}

fn find_member<'a>(members: &'a Vec<(String, Json)>, name: &str) -> (r: Option<&'a Json>)
    ensures
        match (r, member(members@, name@)) {
            (Some(a), Some(b)) => *a == b,
            (None, None) => true,
            _ => false,
        },
{
    let mut i: usize = 0;
    assert(members@.skip(0) =~= members@);
    while i < members.len()
        invariant
            i <= members.len(),
            member(members@, name@) == member(members@.skip(i as int), name@),
        decreases members.len() - i,
    {
        assert(members@.skip(i as int)[0] == members@[i as int]);
        assert(members@.skip(i as int).skip(1) =~= members@.skip(i + 1));
        if text_eq(members[i].0.as_str(), name) {
            return Some(&members[i].1);
        }
        i += 1;
    }
    None
}

/// What a filter by a text asks for; a blank one asks for nothing.
pub open spec fn text_filter(members: Seq<(String, Json)>, name: Seq<char>) -> Result<
    Option<Seq<char>>,
    ErrorView,
> {
    match member(members, name) {
        None => Ok(None),
        Some(Json::Null) => Ok(None),
        Some(Json::Text(text)) => if blank(text@) {
            Ok(None)
        } else {
            Ok(Some(text@))
        },
        Some(_) => Err(ErrorView::BadRequest(name + " must be a string"@)),
    }
}

/// What a filter by a text asks for.
pub fn optional_filter_string(members: &Vec<(String, Json)>, name: &str) -> (r: Result<
    Option<String>,
    ApiError,
>)
    ensures
        match text_filter(members@, name@) {
            Ok(text) => r is Ok && opt_text(r->Ok_0) == text,
            Err(e) => fails_with(r, e),
        },
{
    match find_member(members, name) {
        None => Ok(None),
        Some(value) => match value {
            Json::Null => Ok(None),
            Json::Text(text) => if is_blank(text.as_str()) {
                Ok(None)
            } else {
                Ok(Some(text.clone()))
            },
            _ => Err(ApiError::BadRequest(name.to_owned().concat(" must be a string"))),
        },
    }
}

/// A number that fits in 32 bits; one plus sign may stand before it.
pub open spec fn small_number(s: Seq<char>) -> Option<nat> {
    match parsed_number(s) {
        Some(n) => if n <= u32::MAX {
            Some(n)
        } else {
            None
        },
        None => None,
    }
}

fn small_number_of(s: &str) -> (r: Option<usize>)
    ensures
        match (r, small_number(s@)) {
            (Some(a), Some(b)) => a == b,
            (None, None) => true,
            _ => false,
        },
{
    match parse_number(s) {
        Some(n) => if n <= 0xffff_ffff {
            Some(n)
        } else {
            None
        },
        None => None,
    }
}

/// What a filter by a number asks for; a blank one asks for nothing.
pub open spec fn number_filter(members: Seq<(String, Json)>, name: Seq<char>) -> Result<
    Option<nat>,
    ErrorView,
> {
    let fault = ErrorView::BadRequest(name + " must be a non-negative integer"@);
    match member(members, name) {
        None => Ok(None),
        Some(Json::Null) => Ok(None),
        Some(Json::Number(number)) => match small_number(number@) {
            Some(n) => Ok(Some(n)),
            None => Err(fault),
        },
        Some(Json::Text(text)) => if blank(text@) {
            Ok(None)
        } else {
            match small_number(text@) {
                Some(n) => Ok(Some(n)),
                None => Err(fault),
            }
        },
        Some(_) => Err(fault),
    }
}

/// A number by value.
pub open spec fn opt_nat(n: Option<usize>) -> Option<nat> {
    match n {
        Some(v) => Some(v as nat),
        None => None,
    }
}

/// What a filter by a number asks for.
pub fn optional_filter_u32(members: &Vec<(String, Json)>, name: &str) -> (r: Result<
    Option<usize>,
    ApiError,
>)
    ensures
        match number_filter(members@, name@) {
            Ok(n) => r is Ok && opt_nat(r->Ok_0) == n,
            Err(e) => fails_with(r, e),
        },
{
    match find_member(members, name) {
        None => Ok(None),
        Some(value) => match value {
            Json::Null => Ok(None),
            Json::Number(number) => match small_number_of(number.as_str()) {
                Some(n) => Ok(Some(n)),
                None => Err(
                    ApiError::BadRequest(name.to_owned().concat(" must be a non-negative integer")),
                ),
            },
            Json::Text(text) => if is_blank(text.as_str()) {
                Ok(None)
            } else {
                match small_number_of(text.as_str()) {
                    Some(n) => Ok(Some(n)),
                    None => Err(
                        ApiError::BadRequest(
                            name.to_owned().concat(" must be a non-negative integer"),
                        ),
                    ),
                }
            },
            _ => Err(
                ApiError::BadRequest(name.to_owned().concat(" must be a non-negative integer")),
            ),
        },
    }
}

/// The error of a result, where it is one.
pub open spec fn fault_of<T>(r: Result<T, ErrorView>) -> Option<ErrorView> {
    match r {
        Ok(_) => None,
        Err(e) => Some(e),
    }
}

/// Why the filters of a search are refused: the first that is not of its kind.
pub open spec fn filters_fault(filters: Json) -> Option<ErrorView> {
    match filters {
        Json::Null => None,
        Json::Object(m) => {
            let t = |name: Seq<char>| fault_of(text_filter(m@, name));
            let n = |name: Seq<char>| fault_of(number_filter(m@, name));
            if t("source_id"@) is Some {
                t("source_id"@)
            } else if t("revision_id"@) is Some {
                t("revision_id"@)
            } else if t("source_document_uri"@) is Some {
                t("source_document_uri"@)
            } else if t("block_type"@) is Some {
                t("block_type"@)
            } else if n("page_idx"@) is Some {
                n("page_idx"@)
            } else if n("page_idx_gte"@) is Some {
                n("page_idx_gte"@)
            } else if n("page_idx_lte"@) is Some {
                n("page_idx_lte"@)
            } else if t("section_path_contains"@) is Some {
                t("section_path_contains"@)
            } else {
                t("artifact_kind"@)
            }
        },
        _ => Some(ErrorView::BadRequest("filters must be an object"@)),
    }
}

/// Whether a search is limited to what its filters say.
pub open spec fn are_filters(f: ContextStructuredFilters, filters: Json) -> bool {
    match filters {
        Json::Object(m) => {
            &&& text_filter(m@, "source_id"@) is Ok && opt_text(f.source_id) == text_filter(m@, "source_id"@)->Ok_0
            &&& text_filter(m@, "revision_id"@) is Ok && opt_text(f.revision_id) == text_filter(m@, "revision_id"@)->Ok_0
            &&& text_filter(m@, "source_document_uri"@) is Ok && opt_text(f.source_document_uri) == text_filter(m@, "source_document_uri"@)->Ok_0
            &&& text_filter(m@, "block_type"@) is Ok && opt_text(f.block_type) == text_filter(m@, "block_type"@)->Ok_0
            &&& number_filter(m@, "page_idx"@) is Ok && opt_nat(f.page_idx) == number_filter(m@, "page_idx"@)->Ok_0
            &&& number_filter(m@, "page_idx_gte"@) is Ok && opt_nat(f.page_idx_gte) == number_filter(m@, "page_idx_gte"@)->Ok_0
            &&& number_filter(m@, "page_idx_lte"@) is Ok && opt_nat(f.page_idx_lte) == number_filter(m@, "page_idx_lte"@)->Ok_0
            &&& text_filter(m@, "section_path_contains"@) is Ok && opt_text(f.section_path_contains) == text_filter(m@, "section_path_contains"@)->Ok_0
            &&& text_filter(m@, "artifact_kind"@) is Ok && opt_text(f.artifact_kind) == text_filter(m@, "artifact_kind"@)->Ok_0
        },
        _ => f == no_filters(),
    }
}

/// A search that is limited to nothing.
pub open spec fn no_filters() -> ContextStructuredFilters {
    ContextStructuredFilters {
        source_id: None,
        revision_id: None,
        source_document_uri: None,
        block_type: None,
        page_idx: None,
        page_idx_gte: None,
        page_idx_lte: None,
        section_path_contains: None,
        artifact_kind: None,
    }
}

fn parse_members(m: &Vec<(String, Json)>) -> (r: Result<ContextStructuredFilters, ApiError>)
    ensures
        ({
            let whole = Json::Object(std::sync::Arc::new(*m));
            match filters_fault(whole) {
                Some(e) => fails_with(r, e),
                None => r is Ok && are_filters(r->Ok_0, whole),
            }
        }),
{
    let source_id: Option<String> = match optional_filter_string(m, "source_id") {
        Ok(v) => v,
        Err(error) => {
            return Err(error);
        },
    };
    let revision_id: Option<String> = match optional_filter_string(m, "revision_id") {
        Ok(v) => v,
        Err(error) => {
            return Err(error);
        },
    };
    let source_document_uri: Option<String> = match optional_filter_string(
        m,
        "source_document_uri",
    ) {
        Ok(v) => v,
        Err(error) => {
            return Err(error);
        },
    };
    let block_type: Option<String> = match optional_filter_string(m, "block_type") {
        Ok(v) => v,
        Err(error) => {
            return Err(error);
        },
    };
    let page_idx: Option<usize> = match optional_filter_u32(m, "page_idx") {
        Ok(v) => v,
        Err(error) => {
            return Err(error);
        },
    };
    let page_idx_gte: Option<usize> = match optional_filter_u32(m, "page_idx_gte") {
        Ok(v) => v,
        Err(error) => {
            return Err(error);
        },
    };
    let page_idx_lte: Option<usize> = match optional_filter_u32(m, "page_idx_lte") {
        Ok(v) => v,
        Err(error) => {
            return Err(error);
        },
    };
    let section_path_contains: Option<String> = match optional_filter_string(
        m,
        "section_path_contains",
    ) {
        Ok(v) => v,
        Err(error) => {
            return Err(error);
        },
    };
    let artifact_kind: Option<String> = match optional_filter_string(m, "artifact_kind") {
        Ok(v) => v,
        Err(error) => {
            return Err(error);
        },
    };
    Ok(
        ContextStructuredFilters {
            source_id,
            revision_id,
            source_document_uri,
            block_type,
            page_idx,
            page_idx_gte,
            page_idx_lte,
            section_path_contains,
            artifact_kind,
        },
    )
}

/// Reads the filters of a search.
pub fn parse_context_filters(filters: &Json) -> (r: Result<ContextStructuredFilters, ApiError>)
    ensures
        match filters_fault(*filters) {
            Some(e) => fails_with(r, e),
            None => r is Ok && are_filters(r->Ok_0, *filters),
        },
{
    match filters {
        Json::Null => Ok(
            ContextStructuredFilters {
                source_id: None,
                revision_id: None,
                source_document_uri: None,
                block_type: None,
                page_idx: None,
                page_idx_gte: None,
                page_idx_lte: None,
                section_path_contains: None,
                artifact_kind: None,
            },
        ),
        Json::Object(m) => parse_members(m),
        _ => Err(ApiError::bad_request("filters must be an object")),
    }
}

/// Whether an optional text is as a filter asks.
pub open spec fn text_passes(filter: Option<String>, value: Option<String>) -> bool {
    filter is None || opt_text(value) == opt_text(filter)
}

fn check_text_passes(filter: &Option<String>, value: &Option<String>) -> (r: bool)
    ensures
        r == text_passes(*filter, *value),
{
    match filter {
        None => true,
        Some(text) => opt_is(value, text.as_str()),
    }
}

/// Whether some artifact is of a kind.
pub open spec fn has_artifact(refs: Seq<ParseArtifactRef>, kind: Seq<char>) -> bool {
    any_where(refs, |a: ParseArtifactRef| a.artifact_kind@ == kind)
}

fn check_artifact(refs: &Vec<ParseArtifactRef>, kind: &str) -> (r: bool)
    ensures
        r == has_artifact(refs@, kind@),
{
    let mut i: usize = 0;
    let ghost p = |a: ParseArtifactRef| a.artifact_kind@ == kind@;
    while i < refs.len()
        invariant
            i <= refs.len(),
            p == (|a: ParseArtifactRef| a.artifact_kind@ == kind@),
            forall|j: int| 0 <= j < i ==> !p(#[trigger] refs@[j]),
        decreases refs.len() - i,
    {
        if text_eq(refs[i].artifact_kind.as_str(), kind) {
            assert(p(refs@[i as int]));
            return true;
        }
        i += 1;
    }
    false
}

/// Whether a node is one of those that a search is limited to.
pub open spec fn passes(f: ContextStructuredFilters, node: ContextNode) -> bool {
    &&& text_passes(f.source_id, node.source_id)
    &&& text_passes(f.revision_id, node.revision_id)
    &&& text_passes(f.source_document_uri, node.source_document_uri)
    &&& text_passes(f.block_type, node.block_type)
    &&& f.page_idx is None || node.page_idx == f.page_idx
    &&& f.page_idx_gte is None || (node.page_idx is Some && node.page_idx->Some_0
        >= f.page_idx_gte->Some_0)
    &&& f.page_idx_lte is None || (node.page_idx is Some && node.page_idx->Some_0
        <= f.page_idx_lte->Some_0)
    &&& f.section_path_contains is None || texts(node.section_path@).contains(
        f.section_path_contains->Some_0@,
    )
    &&& f.artifact_kind is None || has_artifact(node.artifact_refs@, f.artifact_kind->Some_0@)
}

impl ContextStructuredFilters {
    /// Whether a node is one of those that a search is limited to.
    pub fn matches_node(&self, node: &ContextNode) -> (r: bool)
        ensures
            r == passes(*self, *node),
    {
        check_text_passes(&self.source_id, &node.source_id) && check_text_passes(
            &self.revision_id,
            &node.revision_id,
        ) && check_text_passes(&self.source_document_uri, &node.source_document_uri)
            && check_text_passes(&self.block_type, &node.block_type) && match self.page_idx {
            Some(n) => node.page_idx == Some(n),
            None => true,
        } && match (self.page_idx_gte, node.page_idx) {
            (Some(n), Some(page)) => page >= n,
            (Some(_), None) => false,
            (None, _) => true,
        } && match (self.page_idx_lte, node.page_idx) {
            (Some(n), Some(page)) => page <= n,
            (Some(_), None) => false,
            (None, _) => true,
        } && match &self.section_path_contains {
            Some(part) => texts_contain(&node.section_path, part.as_str()),
            None => true,
        } && match &self.artifact_kind {
            Some(kind) => check_artifact(&node.artifact_refs, kind.as_str()),
            None => true,
        }
    }
}

} // verus!
