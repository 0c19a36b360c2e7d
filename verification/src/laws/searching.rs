//! What a search of the context can be relied on for.

use vstd::prelude::*;

use crate::data::StoreData;
use crate::json::Json;
use crate::laws::choosing::a_filter_keeps_what_it_accepts;
use crate::model::knowledge::{ContextNode, ParseArtifactRef};
use crate::publish::COMPANY_CONTEXT_INDEX;
use crate::query::{
    are_filters, has_artifact, member, passes, small_number, ContextStructuredFilters,
};
use crate::reading::{company_scope, is_company_node, is_personal_node, owner_scope, scope_of};
use crate::resolver::EventIndexResolver;
use crate::search::{candidates, eligible, is_plan, ContextSearchRequest, SearchPlan};
use crate::text::{blank, opt_text, texts};

verus! {

/// Whether the members of an object say `value` under a name: the first member of that name counts.
pub open spec fn says(members: Seq<(String, Json)>, name: Seq<char>, value: Json) -> bool {
    exists|i: int|
        {
            &&& 0 <= i < members.len()
            &&& (#[trigger] members[i]).0@ == name
            &&& members[i].1 == value
            &&& forall|j: int| 0 <= j < i ==> (#[trigger] members[j]).0@ != name
        }
}

/// Whether the members of an object name a text that is not blank.
pub open spec fn names_text(members: Seq<(String, Json)>, name: Seq<char>, text: Seq<char>) -> bool {
    !blank(text) && exists|t: String| t@ == text && #[trigger] says(members, name, Json::Text(t))
}

/// Whether the members of an object name a number, as a number or in a text.
pub open spec fn names_number(members: Seq<(String, Json)>, name: Seq<char>, n: nat) -> bool {
    exists|t: String| small_number(t@) == Some(n) && #[trigger] says_digits(members, name, t)
}

/// Whether the members of an object say what is written under a name, as a number or in a text.
pub open spec fn says_digits(members: Seq<(String, Json)>, name: Seq<char>, t: String) -> bool {
    says(members, name, Json::Number(t)) || (!blank(t@) && says(members, name, Json::Text(t)))
}

proof fn lemma_member(members: Seq<(String, Json)>, name: Seq<char>, value: Json)
    ensures
        says(members, name, value) <==> member(members, name) == Some(value),
    decreases members.len(),
{
    if members.len() > 0 {
        let rest = members.skip(1);
        if members[0].0@ == name {
            if says(members, name, value) {
                let i = choose|i: int|
                    {
                        &&& 0 <= i < members.len()
                        &&& (#[trigger] members[i]).0@ == name
                        &&& members[i].1 == value
                        &&& forall|j: int| 0 <= j < i ==> (#[trigger] members[j]).0@ != name
                    };
                assert(i == 0) by {
                    if i > 0 {
                        assert(members[0].0@ != name);
                    }
                }
            }
            if member(members, name) == Some(value) {
                assert(members[0].1 == value);
            }
        } else {
            lemma_member(rest, name, value);
            if says(members, name, value) {
                let i = choose|i: int|
                    {
                        &&& 0 <= i < members.len()
                        &&& (#[trigger] members[i]).0@ == name
                        &&& members[i].1 == value
                        &&& forall|j: int| 0 <= j < i ==> (#[trigger] members[j]).0@ != name
                    };
                assert(rest[i - 1] == members[i]);
                assert forall|j: int| 0 <= j < i - 1 implies (#[trigger] rest[j]).0@ != name by {
                    assert(rest[j] == members[j + 1]);
                }
                assert(says(rest, name, value));
            }
            if says(rest, name, value) {
                let i = choose|i: int|
                    {
                        &&& 0 <= i < rest.len()
                        &&& (#[trigger] rest[i]).0@ == name
                        &&& rest[i].1 == value
                        &&& forall|j: int| 0 <= j < i ==> (#[trigger] rest[j]).0@ != name
                    };
                assert(members[i + 1] == rest[i]);
                assert forall|j: int| 0 <= j < i + 1 implies (#[trigger] members[j]).0@ != name by {
                    if j > 0 {
                        assert(rest[j - 1] == members[j]);
                    }
                }
            }
        }
    }
}

proof fn lemma_text_named(members: Seq<(String, Json)>, name: Seq<char>, text: Seq<char>)
    ensures
        names_text(members, name, text) <==> crate::query::text_filter(members, name) == Ok::<
            Option<Seq<char>>,
            crate::error::ErrorView,
        >(Some(text)),
{
    if names_text(members, name, text) {
        let t = choose|t: String| t@ == text && #[trigger] says(members, name, Json::Text(t));
        lemma_member(members, name, Json::Text(t));
    }
    match member(members, name) {
        Some(value) => {
            lemma_member(members, name, value);
            if value is Text && !blank(text) && value->Text_0@ == text {
                assert(says(members, name, Json::Text(value->Text_0)));
            }
        },
        None => {},
    }
}

proof fn lemma_number_named(members: Seq<(String, Json)>, name: Seq<char>, n: nat)
    ensures
        names_number(members, name, n) <==> crate::query::number_filter(members, name) == Ok::<
            Option<nat>,
            crate::error::ErrorView,
        >(Some(n)),
{
    if names_number(members, name, n) {
        let t = choose|t: String|
            small_number(t@) == Some(n) && #[trigger] says_digits(members, name, t);
        lemma_member(members, name, Json::Number(t));
        lemma_member(members, name, Json::Text(t));
    }
    match member(members, name) {
        Some(value) => {
            lemma_member(members, name, value);
            match value {
                Json::Number(t) => {
                    assert(says_digits(members, name, t));
                },
                Json::Text(t) => {
                    assert(says_digits(members, name, t) == !blank(t@)) by {
                        lemma_member(members, name, Json::Number(t));
                    }
                },
                _ => {},
            }
        },
        None => {},
    }
}

/// Whether a node is what the members of a filter object ask for.
pub open spec fn is_as_filtered(node: ContextNode, members: Seq<(String, Json)>) -> bool {
    &&& forall|t: Seq<char>| #[trigger]
        names_text(members, "source_id"@, t) ==> opt_text(node.source_id) == Some(t)
    &&& forall|t: Seq<char>| #[trigger]
        names_text(members, "revision_id"@, t) ==> opt_text(node.revision_id) == Some(t)
    &&& forall|t: Seq<char>| #[trigger]
        names_text(members, "source_document_uri"@, t) ==> opt_text(node.source_document_uri)
            == Some(t)
    &&& forall|t: Seq<char>| #[trigger]
        names_text(members, "block_type"@, t) ==> opt_text(node.block_type) == Some(t)
    &&& forall|n: nat| #[trigger]
        names_number(members, "page_idx"@, n) ==> node.page_idx is Some && node.page_idx->0 == n
    &&& forall|n: nat| #[trigger]
        names_number(members, "page_idx_gte"@, n) ==> node.page_idx is Some && node.page_idx->0
            >= n
    &&& forall|n: nat| #[trigger]
        names_number(members, "page_idx_lte"@, n) ==> node.page_idx is Some && node.page_idx->0
            <= n
    &&& forall|t: Seq<char>| #[trigger]
        names_text(members, "section_path_contains"@, t) ==> exists|j: int|
            0 <= j < node.section_path@.len() && (#[trigger] node.section_path@[j])@ == t
    &&& forall|t: Seq<char>| #[trigger]
        names_text(members, "artifact_kind"@, t) ==> exists|j: int|
            0 <= j < node.artifact_refs@.len() && (
            #[trigger] node.artifact_refs@[j]).artifact_kind@ == t
}

proof fn lemma_filters(
    f: ContextStructuredFilters,
    members: std::sync::Arc<Vec<(String, Json)>>,
    node: ContextNode,
)
    requires
        are_filters(f, Json::Object(members)),
    ensures
        passes(f, node) <==> is_as_filtered(node, members@),
{
    let m = members@;
    assert forall|name: Seq<char>, t: Seq<char>| #[trigger] names_text(m, name, t) == (
    crate::query::text_filter(m, name) == Ok::<Option<Seq<char>>, crate::error::ErrorView>(
        Some(t),
    )) by {
        lemma_text_named(m, name, t);
    }
    assert forall|name: Seq<char>, n: nat| #[trigger] names_number(m, name, n) == (
    crate::query::number_filter(m, name) == Ok::<Option<nat>, crate::error::ErrorView>(
        Some(n),
    )) by {
        lemma_number_named(m, name, n);
    }
    let p = |kind: Seq<char>| |a: ParseArtifactRef| a.artifact_kind@ == kind;
    if passes(f, node) {
        if f.section_path_contains is Some {
            let t = f.section_path_contains->0@;
            let path = texts(node.section_path@);
            let j = choose|j: int| 0 <= j < path.len() && path[j] == t;
            assert(node.section_path@[j]@ == t);
        }
        if f.artifact_kind is Some {
            let t = f.artifact_kind->0@;
            assert(has_artifact(node.artifact_refs@, t));
        }
    }
    if is_as_filtered(node, m) {
        if f.source_id is Some {
            assert(names_text(m, "source_id"@, f.source_id->0@));
        }
        if f.revision_id is Some {
            assert(names_text(m, "revision_id"@, f.revision_id->0@));
        }
        if f.source_document_uri is Some {
            assert(names_text(m, "source_document_uri"@, f.source_document_uri->0@));
        }
        if f.block_type is Some {
            assert(names_text(m, "block_type"@, f.block_type->0@));
        }
        if f.page_idx is Some {
            assert(names_number(m, "page_idx"@, f.page_idx->0 as nat));
        }
        if f.page_idx_gte is Some {
            assert(names_number(m, "page_idx_gte"@, f.page_idx_gte->0 as nat));
        }
        if f.page_idx_lte is Some {
            assert(names_number(m, "page_idx_lte"@, f.page_idx_lte->0 as nat));
        }
        if f.section_path_contains is Some {
            let t = f.section_path_contains->0@;
            assert(names_text(m, "section_path_contains"@, t));
            let j = choose|j: int|
                0 <= j < node.section_path@.len() && (#[trigger] node.section_path@[j])@ == t;
            assert(texts(node.section_path@)[j] == t);
        }
        if f.artifact_kind is Some {
            let t = f.artifact_kind->0@;
            assert(names_text(m, "artifact_kind"@, t));
            assert(has_artifact(node.artifact_refs@, t));
        }
    }
}

/// Where a node has to stand for a caller to find it: with the company, or with the caller itself.
pub open spec fn stands_for(
    node: ContextNode,
    d: StoreData,
    resolver: EventIndexResolver,
    tenant_id: Seq<char>,
    owner: Option<Seq<char>>,
) -> bool {
    node.tenant_id@ == tenant_id && {
        ||| {
            &&& d.company_context@.contains(node)
            &&& node.owner_user_id is None
            &&& node.privacy@ == "company"@
            &&& node.index_kind@ == "company"@
            &&& node.index_uid@ == "rag_company_context"@
        }
        ||| {
            &&& owner is Some
            &&& d.personal_context@.dom().contains(resolver.context_of(tenant_id, owner->0))
            &&& d.personal_context@[resolver.context_of(tenant_id, owner->0)]@.contains(node)
            &&& opt_text(node.owner_user_id) == owner
            &&& node.privacy@ == "private"@
            &&& node.index_kind@ == "personal"@
            &&& node.index_uid@ == resolver.context_of(tenant_id, owner->0)
        }
    }
}

/// A caller reads the nodes of the company and its own, and no others.
pub proof fn a_caller_reads_the_company_and_itself(
    d: StoreData,
    resolver: EventIndexResolver,
    tenant_id: Seq<char>,
    owner: Option<Seq<char>>,
    node: ContextNode,
)
    ensures
        scope_of(d, resolver, tenant_id, owner).contains(node) <==> stands_for(
            node,
            d,
            resolver,
            tenant_id,
            owner,
        ),
{
    let p = |node: ContextNode| is_company_node(node, tenant_id);
    a_filter_keeps_what_it_accepts(d.company_context@, p, node);
    let company = company_scope(d, tenant_id);
    let scope = scope_of(d, resolver, tenant_id, owner);
    assert(COMPANY_CONTEXT_INDEX@ == "rag_company_context"@);
    match owner {
        Some(o) => {
            let uid = resolver.context_of(tenant_id, o);
            let q = |node: ContextNode| is_personal_node(node, tenant_id, o, uid);
            let list = crate::table::list_at(crate::table::lists(d.personal_context@), uid);
            a_filter_keeps_what_it_accepts(list, q, node);
            let own = owner_scope(d, resolver, tenant_id, o);
            if scope.contains(node) {
                let i = choose|i: int| 0 <= i < scope.len() && scope[i] == node;
                if i < company.len() {
                    assert(company[i] == node);
                } else {
                    assert(own[i - company.len()] == node);
                }
            }
            if company.contains(node) {
                let i = choose|i: int| 0 <= i < company.len() && company[i] == node;
                assert(scope[i] == node);
            }
            if own.contains(node) {
                let i = choose|i: int| 0 <= i < own.len() && own[i] == node;
                assert(scope[company.len() + i] == node);
            }
        },
        None => {},
    }
}

/// The nodes that come into question are the active fragments that the caller reads and that are as
/// the filters of the request ask.
pub proof fn a_search_keeps_to_its_filters(
    d: StoreData,
    resolver: EventIndexResolver,
    tenant_id: Seq<char>,
    req: ContextSearchRequest,
    plan: SearchPlan,
    members: std::sync::Arc<Vec<(String, Json)>>,
    node: ContextNode,
)
    requires
        is_plan(plan, req),
        req.filters == Json::Object(members),
    ensures
        candidates(d, resolver, tenant_id, plan).contains(node) <==> {
            &&& stands_for(node, d, resolver, tenant_id, opt_text(plan.owner_user_id))
            &&& node.status@ == "active"@
            &&& node.retrieval_enabled
            &&& node.retrieval_role@ == "fragment"@
            &&& is_as_filtered(node, members@)
        },
{
    let owner = opt_text(plan.owner_user_id);
    a_caller_reads_the_company_and_itself(d, resolver, tenant_id, owner, node);
    a_filter_keeps_what_it_accepts(
        scope_of(d, resolver, tenant_id, owner),
        eligible(plan.filters),
        node,
    );
    lemma_filters(plan.filters, members, node);
}

/// Without filters every active fragment that the caller reads comes into question.
pub proof fn a_search_without_filters_leaves_nothing_out(
    d: StoreData,
    resolver: EventIndexResolver,
    tenant_id: Seq<char>,
    req: ContextSearchRequest,
    plan: SearchPlan,
    node: ContextNode,
)
    requires
        is_plan(plan, req),
        req.filters is Null,
    ensures
        candidates(d, resolver, tenant_id, plan).contains(node) <==> {
            &&& stands_for(node, d, resolver, tenant_id, opt_text(plan.owner_user_id))
            &&& node.status@ == "active"@
            &&& node.retrieval_enabled
            &&& node.retrieval_role@ == "fragment"@
        },
{
    let owner = opt_text(plan.owner_user_id);
    a_caller_reads_the_company_and_itself(d, resolver, tenant_id, owner, node);
    a_filter_keeps_what_it_accepts(
        scope_of(d, resolver, tenant_id, owner),
        eligible(plan.filters),
        node,
    );
}

} // verus!
