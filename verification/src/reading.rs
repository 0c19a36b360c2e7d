//! Who reads which nodes: the scope of a caller, and reading and listing within it.

use vstd::prelude::*;
use vstd::string::*;

use crate::data::StoreData;
use crate::documents::{
    ambiguous_document, document_is_ambiguous, put_personal_nodes, readable_document,
    source_document_for_acl,
};
use crate::error::{fails_with, ApiError, ErrorView};
use crate::json::Json;
use crate::merge::{same_place, upsert_context_node, with_node, with_nodes};
use crate::model::ingest::SourceDocument;
use crate::model::knowledge::{
    ContextNode, KnowledgeLink, ParseArtifactRef, SourceRef, UserEventIndex,
};
use crate::nodes::{
    is_document_node, source_document_context_node, strip_layer_suffix, without_layer,
};
use crate::order::{find_where, first_where, first_where_facts, sort_by, sorted_by};
use crate::publish::COMPANY_CONTEXT_INDEX;
use crate::record::{select, select_values, List};
use crate::resolver::{EventIndexResolver, EventRouting};
use crate::stage::indexes_of;
use crate::table::{list_at, lists, lists_replaced, take_list, Table};
use crate::text::{
    blank, has_prefix, is_blank, opt_eq_str, opt_is, opt_str, opt_text, starts_with, text_before,
    text_eq, text_lt,
};

verus! {

/// Whether a node belongs to the company of a tenant.
pub open spec fn is_company_node(node: ContextNode, tenant_id: Seq<char>) -> bool {
    &&& node.tenant_id@ == tenant_id
    &&& node.owner_user_id is None
    &&& node.privacy@ == "company"@
    &&& node.index_kind@ == "company"@
    &&& node.index_uid@ == COMPANY_CONTEXT_INDEX@
}

fn check_company_node(node: &ContextNode, tenant_id: &str) -> (r: bool)
    ensures
        r == is_company_node(*node, tenant_id@),
{
    text_eq(node.tenant_id.as_str(), tenant_id) && node.owner_user_id.is_none() && text_eq(
        node.privacy.as_str(),
        "company",
    ) && text_eq(node.index_kind.as_str(), "company") && text_eq(
        node.index_uid.as_str(),
        COMPANY_CONTEXT_INDEX,
    )
}

/// Whether a node belongs to an owner of a tenant.
pub open spec fn is_personal_node(
    node: ContextNode,
    tenant_id: Seq<char>,
    owner_user_id: Seq<char>,
    index_uid: Seq<char>,
) -> bool {
    &&& node.tenant_id@ == tenant_id
    &&& opt_text(node.owner_user_id) == Some(owner_user_id)
    &&& node.privacy@ == "private"@
    &&& node.index_kind@ == "personal"@
    &&& node.index_uid@ == index_uid
}

fn check_personal_node(
    node: &ContextNode,
    tenant_id: &str,
    owner_user_id: &str,
    index_uid: &str,
) -> (r: bool)
    ensures
        r == is_personal_node(*node, tenant_id@, owner_user_id@, index_uid@),
{
    text_eq(node.tenant_id.as_str(), tenant_id) && opt_is(&node.owner_user_id, owner_user_id)
        && text_eq(node.privacy.as_str(), "private") && text_eq(
        node.index_kind.as_str(),
        "personal",
    ) && text_eq(node.index_uid.as_str(), index_uid)
}

/// Whether a node that was read belongs to what was asked for.
pub open spec fn in_requested_scope(
    resolver: EventIndexResolver,
    node: ContextNode,
    tenant_id: Seq<char>,
    owner_user_id: Option<Seq<char>>,
) -> bool {
    node.status@ == "active"@ && (is_company_node(node, tenant_id) || match owner_user_id {
        Some(owner) => is_personal_node(
            node,
            tenant_id,
            owner,
            resolver.context_of(tenant_id, owner),
        ),
        None => false,
    })
}

/// Refuses a node that does not belong to what was asked for.
pub fn validate_repository_context_node(
    resolver: &EventIndexResolver,
    node: &ContextNode,
    tenant_id: &str,
    owner_user_id: Option<&str>,
) -> (r: Result<(), ApiError>)
    ensures
        if in_requested_scope(*resolver, *node, tenant_id@, opt_str(owner_user_id)) {
            r is Ok
        } else {
            fails_with(
                r,
                ErrorView::Internal("repository context row does not match its requested scope"@),
            )
        },
{
    let active: bool = text_eq(node.status.as_str(), "active");
    let company: bool = check_company_node(node, tenant_id);
    let personal: bool = match owner_user_id {
        Some(owner) => {
            let routing: EventRouting = resolver.resolve(tenant_id, owner);
            check_personal_node(
                node,
                tenant_id,
                owner,
                routing.personal_context_index_uid.as_str(),
            )
        },
        None => false,
    };
    if active && (company || personal) {
        Ok(())
    } else {
        Err(ApiError::internal("repository context row does not match its requested scope"))
    }
}

/// The node that stands in the place of `node`.
pub open spec fn node_in_place(nodes: Seq<ContextNode>, node: ContextNode) -> ContextNode {
    nodes[first_where(nodes, |existing: ContextNode| same_place(existing, node))]
}

/// Whether a node is kept with those of the company.
pub open spec fn kept_with_company(node: ContextNode) -> bool {
    node.index_kind@ == "company"@ || node.index_uid@ == COMPANY_CONTEXT_INDEX@
}

fn put_node(nodes: &mut Vec<ContextNode>, node: ContextNode) -> (r: ContextNode)
    ensures
        final(nodes)@ == with_node(old(nodes)@, node),
        r == node_in_place(final(nodes)@, node),
{
    let ghost p = |existing: ContextNode| same_place(existing, node);
    let ghost before = nodes@;
    let wanted: ContextNode = node.clone();
    upsert_context_node(nodes, node);
    proof {
        first_where_facts(before, p);
        let at = first_where(before, p);
        assert forall|j: int| 0 <= j < at implies !p(#[trigger] nodes@[j]) by {
            assert(nodes@[j] == before[j]);
        }
        crate::order::first_where_is(nodes@, p, at);
    }
    let accept = |existing: &ContextNode| -> (b: bool)
        ensures
            b == p(*existing),
        {
            text_eq(existing.tenant_id.as_str(), wanted.tenant_id.as_str()) && text_eq(
                existing.uri.as_str(),
                wanted.uri.as_str(),
            ) && existing.layer == wanted.layer
        };
    let at: usize = find_where(nodes, accept, Ghost(p));
    nodes[at].clone()
}

/// Stores a node that was read, unless a newer one is there; gives the one that stays.
pub fn cache_context_node(data: &mut StoreData, node: ContextNode) -> (r: ContextNode)
    ensures
        *final(data) == (StoreData {
            company_context: final(data).company_context,
            personal_context: final(data).personal_context,
            ..*old(data)
        }),
        if kept_with_company(node) {
            &&& final(data).personal_context == old(data).personal_context
            &&& final(data).company_context@ == with_node(old(data).company_context@, node)
            &&& r == node_in_place(final(data).company_context@, node)
        } else {
            &&& final(data).company_context == old(data).company_context
            &&& lists(final(data).personal_context@) == lists(old(data).personal_context@).insert(
                node.index_uid@,
                with_node(list_at(lists(old(data).personal_context@), node.index_uid@), node),
            )
            &&& r == node_in_place(lists(final(data).personal_context@)[node.index_uid@], node)
        },
{
    if text_eq(node.index_kind.as_str(), "company") || text_eq(
        node.index_uid.as_str(),
        COMPANY_CONTEXT_INDEX,
    ) {
        put_node(&mut data.company_context, node)
    } else {
        let ghost before = data.personal_context@;
        let uid: String = node.index_uid.clone();
        let ghost uv = uid@;
        let mut list: Vec<ContextNode> = take_list(&mut data.personal_context, &uid);
        let r: ContextNode = put_node(&mut list, node);
        proof {
            lists_replaced(before, uv, list);
        }
        data.personal_context.insert(uid, list);
        r
    }
}

/// A personal context index that has to be loaded before it is read.
pub struct PersonalScope {
    pub index_uid: String,
    pub owner_hash: String,
    pub expected_owner: Option<String>,
}

/// Whether `s` is the scope of an owner.
pub open spec fn is_owner_scope(
    s: PersonalScope,
    resolver: EventIndexResolver,
    tenant_id: Seq<char>,
    owner: Seq<char>,
) -> bool {
    &&& s.index_uid@ == resolver.context_of(tenant_id, owner)
    &&& s.owner_hash@ == resolver.user_digest(owner)
    &&& opt_text(s.expected_owner) == Some(owner)
}

/// Whether `s` are the scopes of indexes, whoever owns them.
pub open spec fn are_index_scopes(s: Seq<PersonalScope>, indexes: Seq<UserEventIndex>) -> bool {
    s.len() == indexes.len() && forall|i: int|
        0 <= i < indexes.len() ==> {
            &&& (#[trigger] s[i]).index_uid@ == indexes[i].personal_context_index_uid@
            &&& s[i].owner_hash@ == indexes[i].owner_user_id_hash@
            &&& s[i].expected_owner is None
        }
}

/// The personal context indexes that a caller reads: its own where it is registered, all of the
/// tenant for an administrator without an owner.
pub fn personal_scopes(
    data: &StoreData,
    resolver: &EventIndexResolver,
    tenant_id: &str,
    owner_user_id: Option<&str>,
    include_all_private: bool,
) -> (r: Vec<PersonalScope>)
    ensures
        match opt_str(owner_user_id) {
            Some(owner) => if data.user_indexes@.dom().contains(
                (tenant_id@, resolver.user_digest(owner)),
            ) {
                r@.len() == 1 && is_owner_scope(r@[0], *resolver, tenant_id@, owner)
            } else {
                r@.len() == 0
            },
            None => if include_all_private {
                are_index_scopes(r@, indexes_of(data.user_indexes.values(), tenant_id@))
            } else {
                r@.len() == 0
            },
        },
{
    let mut out: Vec<PersonalScope> = Vec::new();
    match owner_user_id {
        Some(owner) => {
            let routing: EventRouting = resolver.resolve(tenant_id, owner);
            let key: (String, String) = (tenant_id.to_owned(), routing.owner_user_id_hash.clone());
            if data.user_indexes.contains_key(&key) {
                out.push(
                    PersonalScope {
                        index_uid: routing.personal_context_index_uid,
                        owner_hash: routing.owner_user_id_hash,
                        expected_owner: Some(owner.to_owned()),
                    },
                );
            }
            out
        },
        None => {
            if include_all_private {
                let indexes: Vec<UserEventIndex> = tenant_indexes(data, tenant_id);
                let mut i: usize = 0;
                while i < indexes.len()
                    invariant
                        i <= indexes.len(),
                        out@.len() == i,
                        forall|j: int|
                            0 <= j < i ==> {
                                &&& (#[trigger] out@[j]).index_uid@
                                    == indexes@[j].personal_context_index_uid@
                                &&& out@[j].owner_hash@ == indexes@[j].owner_user_id_hash@
                                &&& out@[j].expected_owner is None
                            },
                    decreases indexes.len() - i,
                {
                    out.push(
                        PersonalScope {
                            index_uid: indexes[i].personal_context_index_uid.clone(),
                            owner_hash: indexes[i].owner_user_id_hash.clone(),
                            expected_owner: None,
                        },
                    );
                    i += 1;
                }
            }
            out
        },
    }
}

fn tenant_indexes(data: &StoreData, tenant_id: &str) -> (r: Vec<UserEventIndex>)
    ensures
        r@ == indexes_of(data.user_indexes.values(), tenant_id@),
{
    let ghost p = |index: UserEventIndex| index.tenant_id@ == tenant_id@;
    let accept = |index: &UserEventIndex| -> (b: bool)
        ensures
            b == p(*index),
        { text_eq(index.tenant_id.as_str(), tenant_id) };
    select_values(&data.user_indexes, accept, Ghost(p))
}

/// Whether a node that was loaded belongs to the owner of its index.
pub open spec fn in_personal_scope(
    resolver: EventIndexResolver,
    node: ContextNode,
    tenant_id: Seq<char>,
    index_uid: Seq<char>,
    owner_hash: Seq<char>,
    expected_owner: Option<Seq<char>>,
) -> bool {
    &&& node.tenant_id@ == tenant_id
    &&& node.index_uid@ == index_uid
    &&& node.index_kind@ == "personal"@
    &&& node.privacy@ == "private"@
    &&& match opt_text(node.owner_user_id) {
        Some(owner) => resolver.user_digest(owner) == owner_hash && (expected_owner is None
            || expected_owner == Some(owner)),
        None => false,
    }
}

fn check_personal_scope(
    resolver: &EventIndexResolver,
    node: &ContextNode,
    tenant_id: &str,
    scope: &PersonalScope,
) -> (r: bool)
    ensures
        r == in_personal_scope(
            *resolver,
            *node,
            tenant_id@,
            scope.index_uid@,
            scope.owner_hash@,
            opt_text(scope.expected_owner),
        ),
{
    text_eq(node.tenant_id.as_str(), tenant_id) && text_eq(
        node.index_uid.as_str(),
        scope.index_uid.as_str(),
    ) && text_eq(node.index_kind.as_str(), "personal") && text_eq(node.privacy.as_str(), "private")
        && match &node.owner_user_id {
        Some(owner) => text_eq(
            resolver.user_hash(owner.as_str()).as_str(),
            scope.owner_hash.as_str(),
        ) && match &scope.expected_owner {
            Some(expected) => text_eq(expected.as_str(), owner.as_str()),
            None => true,
        },
        None => false,
    }
}

/// The nodes that belong to the owner of their index.
pub open spec fn scoped_nodes(
    resolver: EventIndexResolver,
    nodes: Seq<ContextNode>,
    tenant_id: Seq<char>,
    index_uid: Seq<char>,
    owner_hash: Seq<char>,
    expected_owner: Option<Seq<char>>,
) -> Seq<ContextNode> {
    nodes.filter(
        |node: ContextNode|
            in_personal_scope(resolver, node, tenant_id, index_uid, owner_hash, expected_owner),
    )
}

/// Stores the nodes of a personal context index that was read; those that do not belong to its
/// owner are left out. Says how many were left out.
pub fn store_personal_context(
    data: &mut StoreData,
    resolver: &EventIndexResolver,
    tenant_id: &str,
    scope: &PersonalScope,
    nodes: &Vec<ContextNode>,
) -> (r: usize)
    ensures
        *final(data) == (StoreData {
            personal_context: final(data).personal_context,
            personal_context_loaded: final(data).personal_context_loaded,
            ..*old(data)
        }),
        ({
            let accepted = scoped_nodes(
                *resolver,
                nodes@,
                tenant_id@,
                scope.index_uid@,
                scope.owner_hash@,
                opt_text(scope.expected_owner),
            );
            &&& lists(final(data).personal_context@) == lists(old(data).personal_context@).insert(
                scope.index_uid@,
                with_nodes(list_at(lists(old(data).personal_context@), scope.index_uid@), accepted),
            )
            &&& final(data).personal_context_loaded@ == old(data).personal_context_loaded@.insert(
                scope.index_uid@,
                (),
            )
            &&& r == nodes@.len() - accepted.len()
        }),
{
    let ghost p = |node: ContextNode|
        in_personal_scope(
            *resolver,
            node,
            tenant_id@,
            scope.index_uid@,
            scope.owner_hash@,
            opt_text(scope.expected_owner),
        );
    let accept = |node: &ContextNode| -> (b: bool)
        ensures
            b == p(*node),
        { check_personal_scope(resolver, node, tenant_id, scope) };
    let accepted: Vec<ContextNode> = select(nodes, accept, Ghost(p));
    proof {
        lemma_filter_len(nodes@, p);
    }
    put_personal_nodes(data, scope.index_uid.as_str(), &accepted);
    data.personal_context_loaded.insert(scope.index_uid.clone(), ());
    nodes.len() - accepted.len()
}

proof fn lemma_filter_len<T>(s: Seq<T>, p: spec_fn(T) -> bool)
    ensures
        s.filter(p).len() <= s.len(),
    decreases s.len(),
{
    reveal(Seq::filter);
    if s.len() > 0 {
        lemma_filter_len(s.drop_last(), p);
    }
}

/// The nodes of the company of a tenant.
pub open spec fn company_scope(d: StoreData, tenant_id: Seq<char>) -> Seq<ContextNode> {
    d.company_context@.filter(|node: ContextNode| is_company_node(node, tenant_id))
}

/// The nodes of an owner.
pub open spec fn owner_scope(
    d: StoreData,
    resolver: EventIndexResolver,
    tenant_id: Seq<char>,
    owner: Seq<char>,
) -> Seq<ContextNode> {
    let uid = resolver.context_of(tenant_id, owner);
    list_at(lists(d.personal_context@), uid).filter(
        |node: ContextNode| is_personal_node(node, tenant_id, owner, uid),
    )
}

/// What a caller reads: the nodes of the company, then its own.
pub open spec fn scope_of(
    d: StoreData,
    resolver: EventIndexResolver,
    tenant_id: Seq<char>,
    owner_user_id: Option<Seq<char>>,
) -> Seq<ContextNode> {
    match owner_user_id {
        Some(owner) => company_scope(d, tenant_id) + owner_scope(d, resolver, tenant_id, owner),
        None => company_scope(d, tenant_id),
    }
}

/// What a caller reads: the nodes of the company, then its own.
pub fn context_scope(
    data: &StoreData,
    resolver: &EventIndexResolver,
    tenant_id: &str,
    owner_user_id: Option<&str>,
) -> (r: Vec<ContextNode>)
    ensures
        r@ == scope_of(*data, *resolver, tenant_id@, opt_str(owner_user_id)),
{
    let ghost p = |node: ContextNode| is_company_node(node, tenant_id@);
    let company = |node: &ContextNode| -> (b: bool)
        ensures
            b == p(*node),
        { check_company_node(node, tenant_id) };
    let mut out: Vec<ContextNode> = select(&data.company_context, company, Ghost(p));
    match owner_user_id {
        Some(owner) => {
            let uid: String = resolver.resolve(tenant_id, owner).personal_context_index_uid;
            let ghost q = |node: ContextNode| is_personal_node(node, tenant_id@, owner@, uid@);
            let personal = |node: &ContextNode| -> (b: bool)
                ensures
                    b == q(*node),
                { check_personal_node(node, tenant_id, owner, uid.as_str()) };
            match data.personal_context.get(&uid) {
                Some(nodes) => {
                    let mut own: Vec<ContextNode> = select(nodes, personal, Ghost(q));
                    out.append(&mut own);
                },
                None => {
                    assert(Seq::<ContextNode>::empty().filter(q) =~= Seq::empty()) by {
                        reveal(Seq::filter);
                    }
                    assert(out@ + Seq::<ContextNode>::empty() =~= out@);
                },
            }
            out
        },
        None => out,
    }
}

/// A node that an administrator reads in an index.
pub open spec fn is_indexed_node(
    resolver: EventIndexResolver,
    node: ContextNode,
    tenant_id: Seq<char>,
    index: UserEventIndex,
) -> bool {
    in_personal_scope(
        resolver,
        node,
        tenant_id,
        index.personal_context_index_uid@,
        index.owner_user_id_hash@,
        None,
    )
}

/// The nodes of an index that belong to its owner.
pub open spec fn indexed_nodes(
    d: StoreData,
    resolver: EventIndexResolver,
    tenant_id: Seq<char>,
    index: UserEventIndex,
) -> Seq<ContextNode> {
    list_at(lists(d.personal_context@), index.personal_context_index_uid@).filter(
        |node: ContextNode| is_indexed_node(resolver, node, tenant_id, index),
    )
}

/// The nodes of all of `indexes`, one index after the other.
pub open spec fn all_indexed_nodes(
    d: StoreData,
    resolver: EventIndexResolver,
    tenant_id: Seq<char>,
    indexes: Seq<UserEventIndex>,
) -> Seq<ContextNode>
    decreases indexes.len(),
{
    if indexes.len() == 0 {
        Seq::empty()
    } else {
        all_indexed_nodes(d, resolver, tenant_id, indexes.drop_last()) + indexed_nodes(
            d,
            resolver,
            tenant_id,
            indexes.last(),
        )
    }
}

/// What a caller reads; an administrator without an owner reads the nodes of all owners too.
pub open spec fn acl_scope(
    d: StoreData,
    resolver: EventIndexResolver,
    tenant_id: Seq<char>,
    owner_user_id: Option<Seq<char>>,
    include_all_private: bool,
) -> Seq<ContextNode> {
    if include_all_private && owner_user_id is None {
        company_scope(d, tenant_id) + all_indexed_nodes(
            d,
            resolver,
            tenant_id,
            indexes_of(d.user_indexes.values(), tenant_id),
        )
    } else {
        scope_of(d, resolver, tenant_id, owner_user_id)
    }
}

fn select_indexed(
    data: &StoreData,
    resolver: &EventIndexResolver,
    tenant_id: &str,
    index: &UserEventIndex,
) -> (r: Vec<ContextNode>)
    ensures
        r@ == indexed_nodes(*data, *resolver, tenant_id@, *index),
{
    let scope: PersonalScope = PersonalScope {
        index_uid: index.personal_context_index_uid.clone(),
        owner_hash: index.owner_user_id_hash.clone(),
        expected_owner: None,
    };
    let ghost q = |node: ContextNode| is_indexed_node(*resolver, node, tenant_id@, *index);
    let accept = |node: &ContextNode| -> (b: bool)
        ensures
            b == q(*node),
        { check_personal_scope(resolver, node, tenant_id, &scope) };
    match data.personal_context.get(&index.personal_context_index_uid) {
        Some(nodes) => select(nodes, accept, Ghost(q)),
        None => {
            assert(Seq::<ContextNode>::empty().filter(q) =~= Seq::empty()) by {
                reveal(Seq::filter);
            }
            Vec::new()
        },
    }
}

/// What a caller reads; an administrator without an owner reads the nodes of all owners too.
pub fn context_scope_for_acl(
    data: &StoreData,
    resolver: &EventIndexResolver,
    tenant_id: &str,
    owner_user_id: Option<&str>,
    include_all_private: bool,
) -> (r: Vec<ContextNode>)
    ensures
        r@ == acl_scope(
            *data,
            *resolver,
            tenant_id@,
            opt_str(owner_user_id),
            include_all_private,
        ),
{
    if !(include_all_private && owner_user_id.is_none()) {
        return context_scope(data, resolver, tenant_id, owner_user_id);
    }
    let mut out: Vec<ContextNode> = context_scope(data, resolver, tenant_id, None);
    let indexes: Vec<UserEventIndex> = tenant_indexes(data, tenant_id);
    let ghost head = out@;
    let mut i: usize = 0;
    assert(head + Seq::<ContextNode>::empty() =~= head);
    while i < indexes.len()
        invariant
            i <= indexes.len(),
            out@ == head + all_indexed_nodes(
                *data,
                *resolver,
                tenant_id@,
                indexes@.take(i as int),
            ),
        decreases indexes.len() - i,
    {
        assert(indexes@.take(i + 1).drop_last() =~= indexes@.take(i as int));
        let ghost before = out@;
        let mut more: Vec<ContextNode> = select_indexed(data, resolver, tenant_id, &indexes[i]);
        let ghost added = more@;
        out.append(&mut more);
        i += 1;
        assert(out@ =~= before + added);
        assert(out@ =~= head + all_indexed_nodes(
            *data,
            *resolver,
            tenant_id@,
            indexes@.take(i as int),
        ));
    }
    assert(indexes@.take(i as int) =~= indexes@);
    out
}

/// Everything in the scope of a caller who is no administrator belongs to the company or to the
/// caller.
pub proof fn a_scope_holds_nothing_of_others(
    d: StoreData,
    resolver: EventIndexResolver,
    tenant_id: Seq<char>,
    owner_user_id: Option<Seq<char>>,
    i: int,
)
    requires
        0 <= i < acl_scope(d, resolver, tenant_id, owner_user_id, false).len(),
    ensures
        ({
            let node = acl_scope(d, resolver, tenant_id, owner_user_id, false)[i];
            &&& node.tenant_id@ == tenant_id
            &&& node.owner_user_id is None || opt_text(node.owner_user_id) == owner_user_id
        }),
{
    broadcast use vstd::seq_lib::group_filter_ensures;

    let company = company_scope(d, tenant_id);
    let p = |node: ContextNode| is_company_node(node, tenant_id);
    if i < company.len() {
        assert(p(company[i]));
    } else {
        let owner = owner_user_id->Some_0;
        let uid = resolver.context_of(tenant_id, owner);
        let q = |node: ContextNode| is_personal_node(node, tenant_id, owner, uid);
        let own = owner_scope(d, resolver, tenant_id, owner);
        assert(q(own[i - company.len()]));
    }
}

/// Everything in the scope of an administrator belongs to the tenant.
pub proof fn an_administrator_stays_in_the_tenant(
    d: StoreData,
    resolver: EventIndexResolver,
    tenant_id: Seq<char>,
    i: int,
)
    requires
        0 <= i < acl_scope(d, resolver, tenant_id, None, true).len(),
    ensures
        acl_scope(d, resolver, tenant_id, None, true)[i].tenant_id@ == tenant_id,
{
    broadcast use vstd::seq_lib::group_filter_ensures;

    let company = company_scope(d, tenant_id);
    let p = |node: ContextNode| is_company_node(node, tenant_id);
    if i < company.len() {
        assert(p(company[i]));
    } else {
        lemma_indexed_in_tenant(
            d,
            resolver,
            tenant_id,
            indexes_of(d.user_indexes.values(), tenant_id),
            i - company.len(),
        );
    }
}

proof fn lemma_indexed_in_tenant(
    d: StoreData,
    resolver: EventIndexResolver,
    tenant_id: Seq<char>,
    indexes: Seq<UserEventIndex>,
    i: int,
)
    requires
        0 <= i < all_indexed_nodes(d, resolver, tenant_id, indexes).len(),
    ensures
        all_indexed_nodes(d, resolver, tenant_id, indexes)[i].tenant_id@ == tenant_id,
    decreases indexes.len(),
{
    broadcast use vstd::seq_lib::group_filter_ensures;

    let front = all_indexed_nodes(d, resolver, tenant_id, indexes.drop_last());
    if i < front.len() {
        lemma_indexed_in_tenant(d, resolver, tenant_id, indexes.drop_last(), i);
    } else {
        let index = indexes.last();
        let p = |node: ContextNode| is_indexed_node(resolver, node, tenant_id, index);
        assert(p(indexed_nodes(d, resolver, tenant_id, index)[i - front.len()]));
    }
}

/// Whether a node belongs to an owner.
pub open spec fn owned_by(owner: Seq<char>) -> spec_fn(ContextNode) -> bool {
    |node: ContextNode| opt_text(node.owner_user_id) == Some(owner)
}

/// Whether a node belongs to nobody.
pub open spec fn unowned() -> spec_fn(ContextNode) -> bool {
    |node: ContextNode| node.owner_user_id is None
}

/// Whether a node belongs to somebody.
pub open spec fn owned() -> spec_fn(ContextNode) -> bool {
    |node: ContextNode| node.owner_user_id is Some
}

/// The first element that `p` accepts.
pub open spec fn first_of<T>(s: Seq<T>, p: spec_fn(T) -> bool) -> Option<T> {
    if 0 <= first_where(s, p) < s.len() {
        Some(s[first_where(s, p)])
    } else {
        None
    }
}

/// The one of several nodes that a caller reads: its own, else that of the company; an
/// administrator also the only one that an owner has.
pub open spec fn readable_node(
    nodes: Seq<ContextNode>,
    owner_user_id: Option<Seq<char>>,
    include_all_private: bool,
) -> Option<ContextNode> {
    let shared = first_of(nodes, unowned());
    let private = nodes.filter(owned());
    match owner_user_id {
        Some(owner) => {
            let own = first_of(nodes, owned_by(owner));
            if own is Some {
                own
            } else {
                shared
            }
        },
        None => if include_all_private && shared is None && private.len() == 1 {
            Some(private[0])
        } else {
            shared
        },
    }
}

/// Whether an administrator has to name the owner of a node.
pub open spec fn node_is_ambiguous(
    nodes: Seq<ContextNode>,
    owner_user_id: Option<Seq<char>>,
    include_all_private: bool,
) -> bool {
    owner_user_id is None && include_all_private && first_of(nodes, unowned()) is None
        && nodes.filter(owned()).len() > 1
}

/// The error where an administrator asks for a URI that several owners have.
pub open spec fn ambiguous_node() -> ErrorView {
    ErrorView::BadRequest("owner_user_id is required because the context uri is ambiguous"@)
}

fn find_first(
    nodes: &Vec<ContextNode>,
    owner_user_id: Option<&str>,
) -> (r: Option<ContextNode>)
    ensures
        r == first_of(
            nodes@,
            match opt_str(owner_user_id) {
                Some(owner) => owned_by(owner),
                None => unowned(),
            },
        ),
{
    let ghost p = match opt_str(owner_user_id) {
        Some(owner) => owned_by(owner),
        None => unowned(),
    };
    let accept = |node: &ContextNode| -> (b: bool)
        ensures
            b == p(*node),
        { opt_eq_str(&node.owner_user_id, owner_user_id) };
    let at: usize = find_where(nodes, accept, Ghost(p));
    if at < nodes.len() {
        Some(nodes[at].clone())
    } else {
        None
    }
}

fn pick_node(
    nodes: &Vec<ContextNode>,
    owner_user_id: Option<&str>,
    include_all_private: bool,
) -> (r: Result<Option<ContextNode>, ApiError>)
    ensures
        if node_is_ambiguous(nodes@, opt_str(owner_user_id), include_all_private) {
            fails_with(r, ambiguous_node())
        } else {
            r == Ok::<Option<ContextNode>, ApiError>(
                readable_node(nodes@, opt_str(owner_user_id), include_all_private),
            )
        },
{
    if owner_user_id.is_some() {
        let own: Option<ContextNode> = find_first(nodes, owner_user_id);
        if own.is_some() {
            return Ok(own);
        }
    }
    let shared: Option<ContextNode> = find_first(nodes, None);
    if shared.is_some() || owner_user_id.is_some() || !include_all_private {
        return Ok(shared);
    }
    let ghost p = owned();
    let accept = |node: &ContextNode| -> (b: bool)
        ensures
            b == p(*node),
        { node.owner_user_id.is_some() };
    let private: Vec<ContextNode> = select(nodes, accept, Ghost(p));
    if private.len() == 0 {
        Ok(None)
    } else if private.len() == 1 {
        Ok(Some(private[0].clone()))
    } else {
        Err(
            ApiError::bad_request("owner_user_id is required because the context uri is ambiguous"),
        )
    }
}

/// Whether a node is the active one at a URI.
pub open spec fn active_at_uri(uri: Seq<char>) -> spec_fn(ContextNode) -> bool {
    |node: ContextNode| node.uri@ == uri && node.status@ == "active"@
}

/// Whether a node is the active one of a layer of an entry.
pub open spec fn active_at_layer(entry: Seq<char>, layer: u8) -> spec_fn(ContextNode) -> bool {
    |node: ContextNode|
        without_layer(node.uri@) == entry && node.layer == layer && node.status@ == "active"@
}

/// The nodes in the scope of a caller that `p` accepts.
pub open spec fn matching(
    d: StoreData,
    resolver: EventIndexResolver,
    tenant_id: Seq<char>,
    owner_user_id: Option<Seq<char>>,
    include_all_private: bool,
    p: spec_fn(ContextNode) -> bool,
) -> Seq<ContextNode> {
    acl_scope(d, resolver, tenant_id, owner_user_id, include_all_private).filter(p)
}

fn context_node_for_acl<F: Fn(&ContextNode) -> bool>(
    data: &StoreData,
    resolver: &EventIndexResolver,
    tenant_id: &str,
    owner_user_id: Option<&str>,
    include_all_private: bool,
    accept: F,
    Ghost(p): Ghost<spec_fn(ContextNode) -> bool>,
) -> (r: Result<Option<ContextNode>, ApiError>)
    requires
        forall|a: ContextNode| #[trigger] accept.requires((&a,)),
        forall|a: ContextNode, b: bool| accept.ensures((&a,), b) ==> b == p(a),
    ensures
        ({
            let owner = opt_str(owner_user_id);
            let nodes = matching(*data, *resolver, tenant_id@, owner, include_all_private, p);
            if node_is_ambiguous(nodes, owner, include_all_private) {
                fails_with(r, ambiguous_node())
            } else {
                r == Ok::<Option<ContextNode>, ApiError>(
                    readable_node(nodes, owner, include_all_private),
                )
            }
        }),
{
    let scope: Vec<ContextNode> = context_scope_for_acl(
        data,
        resolver,
        tenant_id,
        owner_user_id,
        include_all_private,
    );
    let nodes: Vec<ContextNode> = select(&scope, accept, Ghost(p));
    pick_node(&nodes, owner_user_id, include_all_private)
}

fn node_at_uri(
    data: &StoreData,
    resolver: &EventIndexResolver,
    tenant_id: &str,
    uri: &str,
    owner_user_id: Option<&str>,
    include_all_private: bool,
) -> (r: Result<Option<ContextNode>, ApiError>)
    ensures
        ({
            let owner = opt_str(owner_user_id);
            let nodes = matching(
                *data,
                *resolver,
                tenant_id@,
                owner,
                include_all_private,
                active_at_uri(uri@),
            );
            if node_is_ambiguous(nodes, owner, include_all_private) {
                fails_with(r, ambiguous_node())
            } else {
                r == Ok::<Option<ContextNode>, ApiError>(
                    readable_node(nodes, owner, include_all_private),
                )
            }
        }),
{
    let ghost p = active_at_uri(uri@);
    let accept = |node: &ContextNode| -> (b: bool)
        ensures
            b == p(*node),
        { text_eq(node.uri.as_str(), uri) && text_eq(node.status.as_str(), "active") };
    context_node_for_acl(
        data,
        resolver,
        tenant_id,
        owner_user_id,
        include_all_private,
        accept,
        Ghost(p),
    )
}

/// Reads what stands at a URI: a node, else a source document.
pub fn fs_read(
    data: &StoreData,
    resolver: &EventIndexResolver,
    tenant_id: &str,
    uri: &str,
    owner_user_id: Option<&str>,
    include_all_private: bool,
) -> (r: Result<ContextNode, ApiError>)
    ensures
        ({
            let owner = opt_str(owner_user_id);
            let nodes = matching(
                *data,
                *resolver,
                tenant_id@,
                owner,
                include_all_private,
                active_at_uri(uri@),
            );
            let node = readable_node(nodes, owner, include_all_private);
            let document = readable_document(
                *data,
                tenant_id@,
                uri@,
                owner,
                include_all_private,
            );
            if node_is_ambiguous(nodes, owner, include_all_private) {
                fails_with(r, ambiguous_node())
            } else if node is Some {
                r == Ok::<ContextNode, ApiError>(node->Some_0)
            } else if document_is_ambiguous(
                *data,
                tenant_id@,
                uri@,
                owner,
                include_all_private,
            ) {
                fails_with(r, ambiguous_document())
            } else if document is Some {
                r is Ok && is_document_node(r->Ok_0, document->Some_0)
            } else {
                fails_with(r, ErrorView::NotFound("context uri not found"@))
            }
        }),
{
    match node_at_uri(data, resolver, tenant_id, uri, owner_user_id, include_all_private) {
        Err(error) => {
            return Err(error);
        },
        Ok(Some(node)) => {
            return Ok(node);
        },
        Ok(None) => {},
    }
    match source_document_for_acl(data, tenant_id, uri, owner_user_id, include_all_private) {
        Err(error) => Err(error),
        Ok(Some(document)) => Ok(source_document_context_node(document)),
        Ok(None) => Err(ApiError::not_found("context uri not found")),
    }
}

/// Reads a layer of the entry at a URI.
pub fn fs_layer(
    data: &StoreData,
    resolver: &EventIndexResolver,
    tenant_id: &str,
    uri: &str,
    layer: u8,
    owner_user_id: Option<&str>,
    include_all_private: bool,
) -> (r: Result<ContextNode, ApiError>)
    ensures
        ({
            let owner = opt_str(owner_user_id);
            let nodes = matching(
                *data,
                *resolver,
                tenant_id@,
                owner,
                include_all_private,
                active_at_layer(without_layer(uri@), layer),
            );
            let node = readable_node(nodes, owner, include_all_private);
            if node_is_ambiguous(nodes, owner, include_all_private) {
                fails_with(r, ambiguous_node())
            } else if node is Some {
                r == Ok::<ContextNode, ApiError>(node->Some_0)
            } else {
                fails_with(r, ErrorView::NotFound("context layer not found"@))
            }
        }),
{
    let target: String = strip_layer_suffix(uri);
    let ghost p = active_at_layer(without_layer(uri@), layer);
    let accept = |node: &ContextNode| -> (b: bool)
        ensures
            b == p(*node),
        {
            text_eq(strip_layer_suffix(node.uri.as_str()).as_str(), target.as_str()) && node.layer
                == layer && text_eq(node.status.as_str(), "active")
        };
    match context_node_for_acl(
        data,
        resolver,
        tenant_id,
        owner_user_id,
        include_all_private,
        accept,
        Ghost(p),
    ) {
        Err(error) => Err(error),
        Ok(Some(node)) => Ok(node),
        Ok(None) => Err(ApiError::not_found("context layer not found")),
    }
}

/// An entry of a listing.
pub struct ListedNode {
    pub uri: String,
    pub title: String,
    pub layer: u8,
    pub index_kind: String,
}

/// What stands under a URI.
pub struct Listing {
    pub uri: String,
    pub children: Vec<ListedNode>,
}

/// What stands under a URI, and how deep was asked.
pub struct Tree {
    pub uri: String,
    pub children: Vec<ListedNode>,
    pub depth: usize,
}

/// Whether a node is active and stands under a prefix.
pub open spec fn listed_under(prefix: Seq<char>) -> spec_fn(ContextNode) -> bool {
    |node: ContextNode| node.status@ == "active"@ && has_prefix(node.uri@, prefix)
}

/// The order of nodes by URI.
pub open spec fn by_uri() -> spec_fn(ContextNode, ContextNode) -> bool {
    |a: ContextNode, b: ContextNode| text_lt(a.uri@, b.uri@)
}

/// Whether `children` lists `nodes`.
pub open spec fn lists_nodes(children: Seq<ListedNode>, nodes: Seq<ContextNode>) -> bool {
    children.len() == nodes.len() && forall|i: int|
        0 <= i < nodes.len() ==> {
            &&& (#[trigger] children[i]).uri == nodes[i].uri
            &&& children[i].title == nodes[i].title
            &&& children[i].layer == nodes[i].layer
            &&& children[i].index_kind == nodes[i].index_kind
        }
}

/// The prefix under which is listed where none is asked for.
pub open spec fn prefix_or_root(uri: Option<Seq<char>>) -> Seq<char> {
    match uri {
        Some(prefix) => prefix,
        None => "ctx://"@,
    }
}

/// Lists the active nodes under a URI, by URI.
pub fn fs_ls(
    data: &StoreData,
    resolver: &EventIndexResolver,
    tenant_id: &str,
    uri: Option<&str>,
    owner_user_id: Option<&str>,
    include_all_private: bool,
) -> (r: Listing)
    ensures
        r.uri@ == prefix_or_root(opt_str(uri)),
        lists_nodes(
            r.children@,
            sorted_by(
                acl_scope(
                    *data,
                    *resolver,
                    tenant_id@,
                    opt_str(owner_user_id),
                    include_all_private,
                ).filter(listed_under(prefix_or_root(opt_str(uri)))),
                by_uri(),
            ),
        ),
{
    let prefix: &str = match uri {
        Some(prefix) => prefix,
        None => "ctx://",
    };
    let scope: Vec<ContextNode> = context_scope_for_acl(
        data,
        resolver,
        tenant_id,
        owner_user_id,
        include_all_private,
    );
    let ghost p = listed_under(prefix@);
    let accept = |node: &ContextNode| -> (b: bool)
        ensures
            b == p(*node),
        { text_eq(node.status.as_str(), "active") && starts_with(node.uri.as_str(), prefix) };
    let found: Vec<ContextNode> = select(&scope, accept, Ghost(p));
    let ghost lt = by_uri();
    let before = |a: &ContextNode, b: &ContextNode| -> (c: bool)
        ensures
            c == lt(*a, *b),
        { text_before(a.uri.as_str(), b.uri.as_str()) };
    let sorted: Vec<ContextNode> = sort_by(found, before, Ghost(lt));
    let mut children: Vec<ListedNode> = Vec::new();
    let mut i: usize = 0;
    while i < sorted.len()
        invariant
            i <= sorted.len(),
            children@.len() == i,
            forall|j: int|
                0 <= j < i ==> {
                    &&& (#[trigger] children@[j]).uri == sorted@[j].uri
                    &&& children@[j].title == sorted@[j].title
                    &&& children@[j].layer == sorted@[j].layer
                    &&& children@[j].index_kind == sorted@[j].index_kind
                },
        decreases sorted.len() - i,
    {
        children.push(
            ListedNode {
                uri: sorted[i].uri.clone(),
                title: sorted[i].title.clone(),
                layer: sorted[i].layer,
                index_kind: sorted[i].index_kind.clone(),
            },
        );
        i += 1;
    }
    Listing { uri: prefix.to_owned(), children }
}

/// Lists as `fs_ls` does, and tells the depth: two where none is asked for.
pub fn fs_tree(
    data: &StoreData,
    resolver: &EventIndexResolver,
    tenant_id: &str,
    uri: Option<&str>,
    depth: Option<usize>,
    owner_user_id: Option<&str>,
    include_all_private: bool,
) -> (r: Tree)
    ensures
        r.uri@ == prefix_or_root(opt_str(uri)),
        r.depth == (match depth {
            Some(n) => n,
            None => 2,
        }),
        lists_nodes(
            r.children@,
            sorted_by(
                acl_scope(
                    *data,
                    *resolver,
                    tenant_id@,
                    opt_str(owner_user_id),
                    include_all_private,
                ).filter(listed_under(prefix_or_root(opt_str(uri)))),
                by_uri(),
            ),
        ),
{
    let listing: Listing = fs_ls(
        data,
        resolver,
        tenant_id,
        uri,
        owner_user_id,
        include_all_private,
    );
    Tree {
        uri: listing.uri,
        children: listing.children,
        depth: match depth {
            Some(n) => n,
            None => 2,
        },
    }
}

/// A value that a request has to give: `field is required` where it is missing or blank.
pub open spec fn required_text(r: Result<String, ApiError>, value: Option<Seq<char>>, field: Seq<char>) -> bool {
    match value {
        Some(v) => if blank(v) {
            fails_with(r, ErrorView::BadRequest(field + " is required"@))
        } else {
            r is Ok && r->Ok_0@ == v
        },
        None => fails_with(r, ErrorView::BadRequest(field + " is required"@)),
    }
}

/// A value that a request has to give.
pub fn require_string(value: Option<&str>, field: &str) -> (r: Result<String, ApiError>)
    ensures
        required_text(r, opt_str(value), field@),
{
    match value {
        Some(v) => {
            if !is_blank(v) {
                return Ok(v.to_owned());
            }
        },
        None => {},
    }
    Err(ApiError::BadRequest(field.to_owned().concat(" is required")))
}

/// Where a fragment comes from.
pub struct ContextTracebackResponse {
    pub fragment_uri: String,
    pub fragment_title: String,
    pub fragment_index: Option<usize>,
    pub checksum: Option<String>,
    pub token_estimate: Option<usize>,
    pub source_document_uri: String,
    pub source_id: String,
    pub revision_id: String,
    pub page_idx: Option<usize>,
    pub bbox: Option<Json>,
    pub block_type: Option<String>,
    pub section_path: List<String>,
    pub asset_refs: List<String>,
    pub artifact_refs: List<ParseArtifactRef>,
    pub char_start: Option<usize>,
    pub char_end: Option<usize>,
    pub source_title: String,
}

/// Whether `r` tells where a fragment comes from.
pub open spec fn traces_back(
    r: ContextTracebackResponse,
    fragment: ContextNode,
    document: SourceDocument,
) -> bool {
    &&& r.fragment_uri == fragment.uri
    &&& r.fragment_title == fragment.title
    &&& r.fragment_index == fragment.fragment_index
    &&& r.checksum == fragment.checksum
    &&& r.token_estimate == fragment.token_estimate
    &&& r.source_document_uri == document.uri
    &&& r.source_id == document.source_id
    &&& r.revision_id == document.revision_id
    &&& r.page_idx == fragment.page_idx
    &&& r.bbox == fragment.bbox
    &&& r.block_type == fragment.block_type
    &&& r.section_path == fragment.section_path
    &&& r.asset_refs == fragment.asset_refs
    &&& r.artifact_refs == fragment.artifact_refs
    &&& r.char_start == fragment.char_start
    &&& r.char_end == fragment.char_end
    &&& r.source_title == document.title
}

/// Whether a link says of what `uri` is a part.
pub open spec fn is_part_of_link(tenant_id: Seq<char>, uri: Seq<char>) -> spec_fn(
    KnowledgeLink,
) -> bool {
    |link: KnowledgeLink|
        link.tenant_id@ == tenant_id && link.status@ == "active"@ && link.relation@ == "part_of"@
            && link.source_uri@ == uri
}

/// The document that a fragment names, else the one that a link names.
pub open spec fn document_uri_of(d: StoreData, tenant_id: Seq<char>, fragment: ContextNode) -> Option<
    Seq<char>,
> {
    if fragment.source_document_uri is Some {
        opt_text(fragment.source_document_uri)
    } else {
        match first_of(d.links.values(), is_part_of_link(tenant_id, fragment.uri@)) {
            Some(link) => Some(link.target_uri@),
            None => None,
        }
    }
}

/// The document that a fragment names, else the one that a link names.
pub fn source_document_uri_of(data: &StoreData, tenant_id: &str, fragment: &ContextNode) -> (r:
    Option<String>)
    ensures
        opt_text(r) == document_uri_of(*data, tenant_id@, *fragment),
{
    if fragment.source_document_uri.is_some() {
        return fragment.source_document_uri.clone();
    }
    let ghost p = is_part_of_link(tenant_id@, fragment.uri@);
    let accept = |link: &KnowledgeLink| -> (b: bool)
        ensures
            b == p(*link),
        {
            text_eq(link.tenant_id.as_str(), tenant_id) && text_eq(link.status.as_str(), "active")
                && text_eq(link.relation.as_str(), "part_of") && text_eq(
                link.source_uri.as_str(),
                fragment.uri.as_str(),
            )
        };
    match first_value(&data.links, accept, Ghost(p)) {
        Some(link) => Some(link.target_uri.clone()),
        None => None,
    }
}

/// The first value of a table that `accept` accepts.
pub(crate) fn first_value<'a, K: crate::table::TableKey, V, F: Fn(&V) -> bool>(
    t: &'a Table<K, V>,
    accept: F,
    Ghost(p): Ghost<spec_fn(V) -> bool>,
) -> (r: Option<&'a V>)
    requires
        forall|a: V| #[trigger] accept.requires((&a,)),
        forall|a: V, b: bool| accept.ensures((&a,), b) ==> b == p(a),
    ensures
        match r {
            Some(v) => first_of(t.values(), p) == Some(*v),
            None => first_of(t.values(), p) is None,
        },
{
    let n: usize = t.len();
    let mut i: usize = 0;
    while i < n
        invariant
            i <= n == t.rows().len(),
            t.values().len() == n,
            forall|j: int| 0 <= j < i ==> !p(#[trigger] t.values()[j]),
            forall|a: V| #[trigger] accept.requires((&a,)),
            forall|a: V, b: bool| accept.ensures((&a,), b) ==> b == p(a),
        decreases n - i,
    {
        if accept(t.value_at(i)) {
            proof {
                crate::order::first_where_is(t.values(), p, i as int);
            }
            return Some(t.value_at(i));
        }
        i += 1;
    }
    proof {
        crate::order::first_where_is(t.values(), p, n as int);
    }
    None
}

/// What is known of a traceback.
pub open spec fn traceback_result(
    r: Result<ContextTracebackResponse, ApiError>,
    d: StoreData,
    resolver: EventIndexResolver,
    tenant_id: Seq<char>,
    uri: Seq<char>,
    owner: Option<Seq<char>>,
    include_all_private: bool,
) -> bool {
    let nodes = matching(d, resolver, tenant_id, owner, include_all_private, active_at_uri(uri));
    let node = readable_node(nodes, owner, include_all_private);
    if node_is_ambiguous(nodes, owner, include_all_private) {
        fails_with(r, ambiguous_node())
    } else {
        match node {
            None => fails_with(r, ErrorView::NotFound("fragment uri not found"@)),
            Some(fragment) => if fragment.node_kind@ != "fragment"@ {
                fails_with(r, ErrorView::BadRequest("traceback uri must identify a fragment"@))
            } else {
                match document_uri_of(d, tenant_id, fragment) {
                    None => fails_with(
                        r,
                        ErrorView::NotFound("source document link not found"@),
                    ),
                    Some(document_uri) => if document_is_ambiguous(
                        d,
                        tenant_id,
                        document_uri,
                        owner,
                        include_all_private,
                    ) {
                        fails_with(r, ambiguous_document())
                    } else {
                        match readable_document(
                            d,
                            tenant_id,
                            document_uri,
                            owner,
                            include_all_private,
                        ) {
                            Some(document) => r is Ok && traces_back(r->Ok_0, fragment, document),
                            None => fails_with(
                                r,
                                ErrorView::NotFound("source document not found"@),
                            ),
                        }
                    },
                }
            },
        }
    }
}

/// Traces the fragment at a URI back to its document.
pub fn traceback(
    data: &StoreData,
    resolver: &EventIndexResolver,
    tenant_id: &str,
    uri: Option<&str>,
    owner_user_id: Option<&str>,
    include_all_private: bool,
) -> (r: Result<ContextTracebackResponse, ApiError>)
    ensures
        match opt_str(uri) {
            Some(u) => if blank(u) {
                fails_with(r, ErrorView::BadRequest("uri"@ + " is required"@))
            } else {
                traceback_result(
                    r,
                    *data,
                    *resolver,
                    tenant_id@,
                    u,
                    opt_str(owner_user_id),
                    include_all_private,
                )
            },
            None => fails_with(r, ErrorView::BadRequest("uri"@ + " is required"@)),
        },
{
    let uri: String = match require_string(uri, "uri") {
        Ok(u) => u,
        Err(error) => {
            return Err(error);
        },
    };
    let fragment: ContextNode = match node_at_uri(
        data,
        resolver,
        tenant_id,
        uri.as_str(),
        owner_user_id,
        include_all_private,
    ) {
        Err(error) => {
            return Err(error);
        },
        Ok(Some(node)) => node,
        Ok(None) => {
            return Err(ApiError::not_found("fragment uri not found"));
        },
    };
    if !text_eq(fragment.node_kind.as_str(), "fragment") {
        return Err(ApiError::bad_request("traceback uri must identify a fragment"));
    }
    let document_uri: String = match source_document_uri_of(data, tenant_id, &fragment) {
        Some(u) => u,
        None => {
            return Err(ApiError::not_found("source document link not found"));
        },
    };
    match source_document_for_acl(
        data,
        tenant_id,
        document_uri.as_str(),
        owner_user_id,
        include_all_private,
    ) {
        Err(error) => Err(error),
        Ok(None) => Err(ApiError::not_found("source document not found")),
        Ok(Some(document)) => Ok(
            ContextTracebackResponse {
                fragment_uri: fragment.uri,
                fragment_title: fragment.title,
                fragment_index: fragment.fragment_index,
                checksum: fragment.checksum,
                token_estimate: fragment.token_estimate,
                source_document_uri: document.uri,
                source_id: document.source_id,
                revision_id: document.revision_id,
                page_idx: fragment.page_idx,
                bbox: fragment.bbox,
                block_type: fragment.block_type,
                section_path: fragment.section_path,
                asset_refs: fragment.asset_refs,
                artifact_refs: fragment.artifact_refs,
                char_start: fragment.char_start,
                char_end: fragment.char_end,
                source_title: document.title,
            },
        ),
    }
}

/// A layer that was revealed.
pub struct ContextRevealResponse {
    pub uri: String,
    pub layer: u8,
    pub content: String,
    pub source_ref: SourceRef,
}

/// Whether `r` reveals a node that was asked for at `uri`.
pub open spec fn reveals(r: ContextRevealResponse, node: ContextNode, uri: Seq<char>) -> bool {
    &&& r.uri == node.uri
    &&& r.layer == node.layer
    &&& r.content == node.body
    &&& r.source_ref.kind == node.index_kind
    &&& r.source_ref.id@ == crate::naming::owner_text(opt_text(node.source_id))
    &&& opt_text(r.source_ref.uri) == Some(uri)
    &&& r.source_ref.meta is None
}

/// What is answered about a node that is revealed.
pub fn reveal_node(node: ContextNode, uri: &str) -> (r: ContextRevealResponse)
    ensures
        reveals(r, node, uri@),
{
    let id: String = crate::naming::owner_or_empty(crate::text::as_deref(&node.source_id)).to_owned();
    ContextRevealResponse {
        uri: node.uri,
        layer: node.layer,
        content: node.body,
        source_ref: SourceRef { kind: node.index_kind, id, uri: Some(uri.to_owned()), meta: None },
    }
}

/// What is revealed: a URI, or the first one that a trace found.
pub open spec fn reveal_target(
    d: StoreData,
    uri: Option<Seq<char>>,
    trace_id: Option<Seq<char>>,
) -> Result<Seq<char>, ErrorView> {
    match (uri, trace_id) {
        (Some(u), _) => Ok(u),
        (None, Some(id)) => if d.traces@.dom().contains(id) && d.traces@[id].context_uris@.len()
            > 0 {
            Ok(d.traces@[id].context_uris@[0]@)
        } else {
            Err(ErrorView::NotFound("trace has no context to reveal"@))
        },
        (None, None) => Err(ErrorView::BadRequest("uri or trace_id is required"@)),
    }
}

/// Reveals a layer of an entry: the first one below the abstract where none is asked for.
pub fn reveal_context(
    data: &StoreData,
    resolver: &EventIndexResolver,
    tenant_id: &str,
    uri: Option<&str>,
    trace_id: Option<&str>,
    next_layer: Option<u8>,
    owner_user_id: Option<&str>,
    include_all_private: bool,
) -> (r: Result<ContextRevealResponse, ApiError>)
    ensures
        ({
            let owner = opt_str(owner_user_id);
            let layer: u8 = match next_layer {
                Some(n) => n,
                None => 1,
            };
            match reveal_target(*data, opt_str(uri), opt_str(trace_id)) {
                Err(e) => fails_with(r, e),
                Ok(u) => {
                    let nodes = matching(
                        *data,
                        *resolver,
                        tenant_id@,
                        owner,
                        include_all_private,
                        active_at_layer(without_layer(u), layer),
                    );
                    let node = readable_node(nodes, owner, include_all_private);
                    if node_is_ambiguous(nodes, owner, include_all_private) {
                        fails_with(r, ambiguous_node())
                    } else if node is Some {
                        r is Ok && reveals(r->Ok_0, node->Some_0, u)
                    } else {
                        fails_with(r, ErrorView::NotFound("context layer not found"@))
                    }
                },
            }
        }),
{
    let layer: u8 = match next_layer {
        Some(n) => n,
        None => 1,
    };
    let target: String = match uri {
        Some(u) => u.to_owned(),
        None => match trace_id {
            Some(id) => {
                let key: String = id.to_owned();
                match data.traces.get(&key) {
                    Some(trace) => {
                        if trace.context_uris.len() == 0 {
                            return Err(ApiError::not_found("trace has no context to reveal"));
                        }
                        trace.context_uris[0].clone()
                    },
                    None => {
                        return Err(ApiError::not_found("trace has no context to reveal"));
                    },
                }
            },
            None => {
                return Err(ApiError::bad_request("uri or trace_id is required"));
            },
        },
    };
    match fs_layer(
        data,
        resolver,
        tenant_id,
        target.as_str(),
        layer,
        owner_user_id,
        include_all_private,
    ) {
        Err(error) => Err(error),
        Ok(node) => Ok(reveal_node(node, target.as_str())),
    }
}

} // verus!
