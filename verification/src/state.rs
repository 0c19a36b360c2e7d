//! What is currently held true of an owner: facts with versions, each change in the history.

use vstd::prelude::*;
use vstd::string::*;

use crate::data::StoreData;
use crate::documents::put_personal_nodes;
use crate::error::{fails_with, ApiError, ErrorView};
use crate::history::{nodes_put, ABSTRACT_CHARS};
use crate::masking::{fragment_masked, mask_secret_fragment_projection_preserving_chars};
use crate::model::ingest::SourceDocument;
use crate::model::knowledge::{ContextNode, StateItem};
use crate::model::operation::{
    OperationIndexingState, OperationRecord, OperationResource, OperationStatus, ResourceView,
};
use crate::naming::{
    fact_source_id, first_chars, sanitize_slug, slug, state_document_source_id, truncate_chars,
};
use crate::nodes::{is_node, personal_node, personal_part};
use crate::order::{sort_by, sorted_by};
use crate::resolver::EventIndexResolver;
use crate::table::{list_at, lists, Table};
use crate::text::{opt_is, opt_str, opt_text, text_before, text_eq, text_lt, texts, texts_add};

verus! {

/// The error where a fact would change its type.
pub open spec fn type_is_immutable() -> ErrorView {
    ErrorView::Conflict("state_type is immutable for an existing state fact"@)
}

/// The error where two facts would have the same path.
pub open spec fn path_collides() -> ErrorView {
    ErrorView::Conflict("state fact identity collides with an existing canonical state path"@)
}

/// Whether a fact has the path of another.
pub open spec fn same_path(
    state_type: Seq<char>,
    fact_key: Seq<char>,
    other_type: Seq<char>,
    other_key: Seq<char>,
) -> bool {
    slug(other_type) == slug(state_type) && slug(other_key) == slug(fact_key)
}

/// Why a fact cannot stand beside another one of its owner.
pub open spec fn identity_conflict(
    state_type: Seq<char>,
    fact_key: Seq<char>,
    other_type: Seq<char>,
    other_key: Seq<char>,
) -> Option<ErrorView> {
    if other_key == fact_key && other_type != state_type {
        Some(type_is_immutable())
    } else if same_path(state_type, fact_key, other_type, other_key) && (other_type != state_type
        || other_key != fact_key) {
        Some(path_collides())
    } else {
        None
    }
}

fn check_identity(state_type: &str, fact_key: &str, other_type: &str, other_key: &str) -> (r:
    Result<(), ApiError>)
    ensures
        match identity_conflict(state_type@, fact_key@, other_type@, other_key@) {
            Some(e) => fails_with(r, e),
            None => r is Ok,
        },
{
    if text_eq(other_key, fact_key) && !text_eq(other_type, state_type) {
        return Err(ApiError::conflict("state_type is immutable for an existing state fact"));
    }
    if text_eq(sanitize_slug(other_type).as_str(), sanitize_slug(state_type).as_str()) && text_eq(
        sanitize_slug(other_key).as_str(),
        sanitize_slug(fact_key).as_str(),
    ) && (!text_eq(other_type, state_type) || !text_eq(other_key, fact_key)) {
        return Err(
            ApiError::conflict(
                "state fact identity collides with an existing canonical state path",
            ),
        );
    }
    Ok(())
}

/// Why a fact cannot stand beside those of its owner: the first one with which it is at odds.
pub open spec fn first_conflict(
    items: Seq<StateItem>,
    tenant_id: Seq<char>,
    owner: Seq<char>,
    state_type: Seq<char>,
    fact_key: Seq<char>,
) -> Option<ErrorView>
    decreases items.len(),
{
    if items.len() == 0 {
        None
    } else {
        match first_conflict(items.drop_last(), tenant_id, owner, state_type, fact_key) {
            Some(e) => Some(e),
            None => {
                let item = items.last();
                if item.tenant_id@ == tenant_id && item.owner_user_id@ == owner {
                    identity_conflict(state_type, fact_key, item.state_type@, item.natural_key@)
                } else {
                    None
                }
            },
        }
    }
}

proof fn lemma_conflict_stays(
    items: Seq<StateItem>,
    n: int,
    tenant_id: Seq<char>,
    owner: Seq<char>,
    state_type: Seq<char>,
    fact_key: Seq<char>,
)
    requires
        0 <= n <= items.len(),
        first_conflict(items.take(n), tenant_id, owner, state_type, fact_key) is Some,
    ensures
        first_conflict(items, tenant_id, owner, state_type, fact_key) == first_conflict(
            items.take(n),
            tenant_id,
            owner,
            state_type,
            fact_key,
        ),
    decreases items.len() - n,
{
    if n == items.len() {
        assert(items.take(n) =~= items);
    } else {
        assert(items.take(n + 1).drop_last() =~= items.take(n));
        lemma_conflict_stays(items, n + 1, tenant_id, owner, state_type, fact_key);
    }
}

/// Refuses a fact that would change the type of one that is there, or have its path.
pub fn ensure_state_aggregate_identity_available(
    data: &StoreData,
    tenant_id: &str,
    owner_user_id: &str,
    state_type: &str,
    fact_key: &str,
) -> (r: Result<(), ApiError>)
    ensures
        match first_conflict(
            data.state_items.values(),
            tenant_id@,
            owner_user_id@,
            state_type@,
            fact_key@,
        ) {
            Some(e) => fails_with(r, e),
            None => r is Ok,
        },
{
    let t: &Table<(String, String, String), StateItem> = &data.state_items;
    let n: usize = t.len();
    let ghost items = t.values();
    let mut i: usize = 0;
    while i < n
        invariant
            i <= n == t.rows().len(),
            items == t.values(),
            items == data.state_items.values(),
            items.len() == n,
            first_conflict(
                items.take(i as int),
                tenant_id@,
                owner_user_id@,
                state_type@,
                fact_key@,
            ) is None,
        decreases n - i,
    {
        assert(items.take(i + 1).drop_last() =~= items.take(i as int));
        let item: &StateItem = t.value_at(i);
        if text_eq(item.tenant_id.as_str(), tenant_id) && text_eq(
            item.owner_user_id.as_str(),
            owner_user_id,
        ) {
            match check_identity(
                state_type,
                fact_key,
                item.state_type.as_str(),
                item.natural_key.as_str(),
            ) {
                Ok(_) => {},
                Err(error) => {
                    proof {
                        lemma_conflict_stays(
                            items,
                            i + 1,
                            tenant_id@,
                            owner_user_id@,
                            state_type@,
                            fact_key@,
                        );
                    }
                    return Err(error);
                },
            }
        }
        i += 1;
    }
    assert(items.take(i as int) =~= items);
    Ok(())
}

/// The latest version of the facts at a path.
pub open spec fn version_at_path(
    items: Seq<StateItem>,
    tenant_id: Seq<char>,
    owner: Seq<char>,
    state_type: Seq<char>,
    fact_key: Seq<char>,
) -> Option<u64>
    decreases items.len(),
{
    if items.len() == 0 {
        None
    } else {
        let rest = version_at_path(items.drop_last(), tenant_id, owner, state_type, fact_key);
        let item = items.last();
        if item.tenant_id@ == tenant_id && item.owner_user_id@ == owner && same_path(
            state_type,
            fact_key,
            item.state_type@,
            item.natural_key@,
        ) {
            match rest {
                Some(v) => if v > item.current_version {
                    Some(v)
                } else {
                    Some(item.current_version)
                },
                None => Some(item.current_version),
            }
        } else {
            rest
        }
    }
}

/// The latest version of the facts at a path.
pub fn current_version_at_path(
    data: &StoreData,
    tenant_id: &str,
    owner_user_id: &str,
    state_type: &str,
    fact_key: &str,
) -> (r: Option<u64>)
    ensures
        r == version_at_path(
            data.state_items.values(),
            tenant_id@,
            owner_user_id@,
            state_type@,
            fact_key@,
        ),
{
    let t: &Table<(String, String, String), StateItem> = &data.state_items;
    let n: usize = t.len();
    let ghost items = t.values();
    let type_slug: String = sanitize_slug(state_type);
    let key_slug: String = sanitize_slug(fact_key);
    let mut version: Option<u64> = None;
    let mut i: usize = 0;
    while i < n
        invariant
            i <= n == t.rows().len(),
            items == t.values(),
            items.len() == n,
            type_slug@ == slug(state_type@),
            key_slug@ == slug(fact_key@),
            version == version_at_path(
                items.take(i as int),
                tenant_id@,
                owner_user_id@,
                state_type@,
                fact_key@,
            ),
        decreases n - i,
    {
        assert(items.take(i + 1).drop_last() =~= items.take(i as int));
        let item: &StateItem = t.value_at(i);
        if text_eq(item.tenant_id.as_str(), tenant_id) && text_eq(
            item.owner_user_id.as_str(),
            owner_user_id,
        ) && text_eq(sanitize_slug(item.state_type.as_str()).as_str(), type_slug.as_str())
            && text_eq(sanitize_slug(item.natural_key.as_str()).as_str(), key_slug.as_str()) {
            version = match version {
                Some(v) => if v > item.current_version {
                    Some(v)
                } else {
                    Some(item.current_version)
                },
                None => Some(item.current_version),
            };
        }
        i += 1;
    }
    assert(items.take(i as int) =~= items);
    version
}

/// Whether an operation that is not settled changes the fact.
pub open spec fn is_prior_operation(
    operation: OperationRecord,
    tenant_id: Seq<char>,
    owner: Seq<char>,
    state_type: Seq<char>,
    fact_key: Seq<char>,
    current_operation_id: Option<Seq<char>>,
) -> bool {
    &&& operation.tenant_id@ == tenant_id
    &&& current_operation_id != Some(operation.id@)
    &&& match operation.plan.primary.resource@ {
        ResourceView::StateItem { item } => item.owner_user_id@ == owner && (item.natural_key@
            == fact_key || same_path(state_type, fact_key, item.state_type@, item.natural_key@)),
        _ => false,
    }
    &&& operation.status != OperationStatus::Completed || operation.indexing_state
        != OperationIndexingState::Completed
}

/// The order of operations by age, then by id.
pub open spec fn operations_by_age() -> spec_fn(OperationRecord, OperationRecord) -> bool {
    |a: OperationRecord, b: OperationRecord|
        a.created_at < b.created_at || (a.created_at == b.created_at && text_lt(a.id@, b.id@))
}

/// The operations that are not settled and change the fact, the oldest first.
pub open spec fn prior_operations(
    d: StoreData,
    tenant_id: Seq<char>,
    owner: Seq<char>,
    state_type: Seq<char>,
    fact_key: Seq<char>,
    current_operation_id: Option<Seq<char>>,
) -> Seq<OperationRecord> {
    sorted_by(
        d.operations.values().filter(
            |operation: OperationRecord|
                is_prior_operation(
                    operation,
                    tenant_id,
                    owner,
                    state_type,
                    fact_key,
                    current_operation_id,
                ),
        ),
        operations_by_age(),
    )
}

fn check_prior_operation(
    operation: &OperationRecord,
    tenant_id: &str,
    owner: &str,
    state_type: &str,
    fact_key: &str,
    current_operation_id: Option<&str>,
) -> (r: bool)
    ensures
        r == is_prior_operation(
            *operation,
            tenant_id@,
            owner@,
            state_type@,
            fact_key@,
            opt_str(current_operation_id),
        ),
{
    if !text_eq(operation.tenant_id.as_str(), tenant_id) {
        return false;
    }
    match current_operation_id {
        Some(id) => {
            if text_eq(id, operation.id.as_str()) {
                return false;
            }
        },
        None => {},
    }
    let targets: bool = match &operation.plan.primary.resource {
        OperationResource::StateItem { item } => text_eq(item.owner_user_id.as_str(), owner) && (
        text_eq(item.natural_key.as_str(), fact_key) || (text_eq(
            sanitize_slug(item.state_type.as_str()).as_str(),
            sanitize_slug(state_type).as_str(),
        ) && text_eq(
            sanitize_slug(item.natural_key.as_str()).as_str(),
            sanitize_slug(fact_key).as_str(),
        ))),
        _ => false,
    };
    targets && (operation.status != OperationStatus::Completed || operation.indexing_state
        != OperationIndexingState::Completed)
}

/// The operations that are not settled and change the fact, the oldest first.
pub fn prior_state_operations(
    data: &StoreData,
    tenant_id: &str,
    owner_user_id: &str,
    state_type: &str,
    fact_key: &str,
    current_operation_id: Option<&str>,
) -> (r: Vec<OperationRecord>)
    ensures
        r@ == prior_operations(
            *data,
            tenant_id@,
            owner_user_id@,
            state_type@,
            fact_key@,
            opt_str(current_operation_id),
        ),
{
    let ghost current = opt_str(current_operation_id);
    let ghost p = |operation: OperationRecord|
        is_prior_operation(
            operation,
            tenant_id@,
            owner_user_id@,
            state_type@,
            fact_key@,
            current,
        );
    let t: &Table<String, OperationRecord> = &data.operations;
    let n: usize = t.len();
    let ghost all = t.values();
    let mut found: Vec<OperationRecord> = Vec::new();
    let mut i: usize = 0;
    assert(all.take(0).filter(p) =~= Seq::<OperationRecord>::empty()) by {
        reveal(Seq::filter);
    }
    while i < n
        invariant
            i <= n == t.rows().len(),
            all == t.values(),
            all.len() == n,
            current == opt_str(current_operation_id),
            p == (|operation: OperationRecord|
                is_prior_operation(
                    operation,
                    tenant_id@,
                    owner_user_id@,
                    state_type@,
                    fact_key@,
                    current,
                )),
            found@ == all.take(i as int).filter(p),
        decreases n - i,
    {
        assert(all.take(i + 1).drop_last() =~= all.take(i as int));
        assert(all.take(i + 1).filter(p) == (if p(all[i as int]) {
            found@.push(all[i as int])
        } else {
            found@
        })) by {
            reveal(Seq::filter);
        }
        let operation: &OperationRecord = t.value_at(i);
        if check_prior_operation(
            operation,
            tenant_id,
            owner_user_id,
            state_type,
            fact_key,
            current_operation_id,
        ) {
            found.push(operation.clone());
        }
        i += 1;
    }
    assert(all.take(i as int) =~= all);
    let ghost lt = operations_by_age();
    let before = |a: &OperationRecord, b: &OperationRecord| -> (c: bool)
        ensures
            c == lt(*a, *b),
        {
            a.created_at < b.created_at || (a.created_at == b.created_at && text_before(
                a.id.as_str(),
                b.id.as_str(),
            ))
        };
    sort_by(found, before, Ghost(lt))
}

/// What becomes of a new change of a fact because of an earlier one.
pub enum GenerationStep {
    /// The earlier one is finished but for the index: it may be reconciled first.
    Reconcile,
    /// The new change is refused.
    Refuse(ApiError),
}

/// The error where an earlier change of a fact has to be settled first.
pub open spec fn earlier_change() -> ErrorView {
    ErrorView::Conflict(
        "a previous update for this state fact must be reconciled before a newer update"@,
    )
}

/// Why an earlier operation refuses a new change of a fact, whatever becomes of the operation.
pub open spec fn generation_refusal(
    item: StateItem,
    state_type: Seq<char>,
    fact_key: Seq<char>,
    current_version: Option<u64>,
) -> Option<ErrorView> {
    match identity_conflict(state_type, fact_key, item.state_type@, item.natural_key@) {
        Some(e) => Some(e),
        None => match current_version {
            Some(version) => if version > item.current_version {
                Some(earlier_change())
            } else {
                None
            },
            None => None,
        },
    }
}

/// Whether an operation is finished but for the index.
pub open spec fn awaits_index(operation: OperationRecord) -> bool {
    operation.status == OperationStatus::Completed && operation.indexing_state
        == OperationIndexingState::Pending
}

/// Decides what becomes of a new change of a fact because of an earlier operation: it is refused,
/// unless the operation only waits for the index.
pub fn state_generation_step(
    operation: &OperationRecord,
    state_type: &str,
    fact_key: &str,
    current_version: Option<u64>,
) -> (r: GenerationStep)
    requires
        operation.plan.primary.resource@ is StateItem,
    ensures
        ({
            let item = operation.plan.primary.resource@->StateItem_item;
            match generation_refusal(item, state_type@, fact_key@, current_version) {
                Some(e) => r is Refuse && r->Refuse_0@ == e,
                None => if awaits_index(*operation) {
                    r is Reconcile
                } else {
                    r is Refuse && r->Refuse_0@ == earlier_change()
                },
            }
        }),
{
    match &operation.plan.primary.resource {
        OperationResource::StateItem { item } => {
            match check_identity(
                state_type,
                fact_key,
                item.state_type.as_str(),
                item.natural_key.as_str(),
            ) {
                Err(error) => {
                    return GenerationStep::Refuse(error);
                },
                Ok(_) => {},
            }
            match current_version {
                Some(version) => {
                    if version > item.current_version {
                        return GenerationStep::Refuse(
                            ApiError::conflict(
                                "a previous update for this state fact must be reconciled before a newer update",
                            ),
                        );
                    }
                },
                None => {},
            }
        },
        _ => {},
    }
    if operation.status == OperationStatus::Completed && operation.indexing_state
        == OperationIndexingState::Pending {
        return GenerationStep::Reconcile;
    }
    GenerationStep::Refuse(
        ApiError::conflict(
            "a previous update for this state fact must be reconciled before a newer update",
        ),
    )
}

/// Whether the way is free once an operation was reconciled.
pub fn generation_is_ready(reconciled: Option<&OperationRecord>) -> (r: Result<(), ApiError>)
    ensures
        if reconciled is Some && reconciled->Some_0.status == OperationStatus::Completed
            && reconciled->Some_0.indexing_state == OperationIndexingState::Completed {
            r is Ok
        } else {
            fails_with(r, earlier_change())
        },
{
    match reconciled {
        Some(record) => {
            if record.status == OperationStatus::Completed && record.indexing_state
                == OperationIndexingState::Completed {
                return Ok(());
            }
        },
        None => {},
    }
    Err(
        ApiError::conflict(
            "a previous update for this state fact must be reconciled before a newer update",
        ),
    )
}

/// The URIs of the documents of a fact that the context of its owner names, each once.
pub fn state_document_uris(
    data: &StoreData,
    resolver: &EventIndexResolver,
    tenant_id: &str,
    owner_user_id: &str,
    state_type: &str,
    fact_key: &str,
) -> (r: Vec<String>)
    ensures
        texts(r@) == crate::operations::distinct(
            document_uris(
                list_at(
                    lists(data.personal_context@),
                    resolver.context_of(tenant_id@, owner_user_id@),
                ),
                tenant_id@,
                owner_user_id@,
                fact_source_id(owner_user_id@, state_type@, fact_key@),
            ),
        ),
{
    let source_id: String = state_document_source_id(owner_user_id, state_type, fact_key);
    let uid: String = resolver.resolve(tenant_id, owner_user_id).personal_context_index_uid;
    let mut out: Vec<String> = Vec::new();
    assert(texts(out@) =~= Seq::<Seq<char>>::empty());
    match data.personal_context.get(&uid) {
        Some(nodes) => {
            let mut i: usize = 0;
            while i < nodes.len()
                invariant
                    i <= nodes.len(),
                    source_id@ == fact_source_id(owner_user_id@, state_type@, fact_key@),
                    texts(out@) == crate::operations::distinct(
                        document_uris(
                            nodes@.take(i as int),
                            tenant_id@,
                            owner_user_id@,
                            source_id@,
                        ),
                    ),
                decreases nodes.len() - i,
            {
                assert(nodes@.take(i + 1).drop_last() =~= nodes@.take(i as int));
                let node: &ContextNode = &nodes[i];
                if text_eq(node.tenant_id.as_str(), tenant_id) && opt_is(
                    &node.owner_user_id,
                    owner_user_id,
                ) && opt_is(&node.source_id, source_id.as_str()) {
                    match &node.source_document_uri {
                        Some(uri) => {
                            let ghost front = document_uris(
                                nodes@.take(i as int),
                                tenant_id@,
                                owner_user_id@,
                                source_id@,
                            );
                            proof {
                                crate::text::texts_push(out@, *uri);
                                assert(front.push(uri@).drop_last() =~= front);
                            }
                            texts_add(&mut out, uri.clone());
                        },
                        None => {},
                    }
                }
                i += 1;
            }
            assert(nodes@.take(i as int) =~= nodes@);
        },
        None => {},
    }
    out
}

/// The URIs of the documents that the nodes of a source name, in order.
pub open spec fn document_uris(
    nodes: Seq<ContextNode>,
    tenant_id: Seq<char>,
    owner: Seq<char>,
    source_id: Seq<char>,
) -> Seq<Seq<char>>
    decreases nodes.len(),
{
    if nodes.len() == 0 {
        Seq::empty()
    } else {
        let rest = document_uris(nodes.drop_last(), tenant_id, owner, source_id);
        let node = nodes.last();
        if node.tenant_id@ == tenant_id && opt_text(node.owner_user_id) == Some(owner) && opt_text(
            node.source_id,
        ) == Some(source_id) && node.source_document_uri is Some {
            rest.push(node.source_document_uri->Some_0@)
        } else {
            rest
        }
    }
}

/// Refuses a document that was read for a fact and does not belong to it.
pub fn check_state_document(
    document: &SourceDocument,
    tenant_id: &str,
    owner_user_id: &str,
    source_id: &str,
) -> (r: Result<(), ApiError>)
    ensures
        if document.tenant_id@ == tenant_id@ && opt_text(document.owner_user_id) == Some(
            owner_user_id@,
        ) && document.source_id@ == source_id@ {
            r is Ok
        } else {
            fails_with(
                r,
                ErrorView::Internal(
                    "repository state source document does not match its requested aggregate"@,
                ),
            )
        },
{
    if text_eq(document.tenant_id.as_str(), tenant_id) && opt_is(
        &document.owner_user_id,
        owner_user_id,
    ) && text_eq(document.source_id.as_str(), source_id) {
        Ok(())
    } else {
        Err(
            ApiError::internal(
                "repository state source document does not match its requested aggregate",
            ),
        )
    }
}

/// Refuses a document that was read for a source of the company and does not belong to it.
pub fn check_company_document(
    document: &SourceDocument,
    tenant_id: &str,
    source_id: &str,
) -> (r: Result<(), ApiError>)
    ensures
        if document.tenant_id@ == tenant_id@ && document.owner_user_id is None
            && document.source_id@ == source_id@ {
            r is Ok
        } else {
            fails_with(
                r,
                ErrorView::Internal(
                    "repository company source document does not match its requested aggregate"@,
                ),
            )
        },
{
    if text_eq(document.tenant_id.as_str(), tenant_id) && document.owner_user_id.is_none()
        && text_eq(document.source_id.as_str(), source_id) {
        Ok(())
    } else {
        Err(
            ApiError::internal(
                "repository company source document does not match its requested aggregate",
            ),
        )
    }
}

/// The key of a fact.
pub type FactKey = (Seq<char>, Seq<char>, Seq<char>);

/// The keys of the facts of a tenant with a name, in the order of the table.
pub open spec fn keys_named(
    rows: Seq<((String, String, String), StateItem)>,
    tenant_id: Seq<char>,
    fact_key: Seq<char>,
) -> Seq<FactKey>
    decreases rows.len(),
{
    if rows.len() == 0 {
        Seq::empty()
    } else {
        let k = rows.last().0;
        let rest = keys_named(rows.drop_last(), tenant_id, fact_key);
        if k.0@ == tenant_id && k.2@ == fact_key {
            rest.push(k@)
        } else {
            rest
        }
    }
}

/// The key of the fact that is asked for: without an owner the name alone has to tell it.
pub open spec fn resolved_key(
    d: StoreData,
    tenant_id: Seq<char>,
    fact_key: Seq<char>,
    owner_user_id: Option<Seq<char>>,
) -> Result<FactKey, ErrorView> {
    match owner_user_id {
        Some(owner) => Ok((tenant_id, owner, fact_key)),
        None => {
            let keys = keys_named(d.state_items.rows(), tenant_id, fact_key);
            if keys.len() == 0 {
                Err(ErrorView::NotFound("state item not found"@))
            } else if keys.len() == 1 {
                Ok(keys[0])
            } else {
                Err(
                    ErrorView::BadRequest(
                        "owner_user_id is required because fact_key is ambiguous"@,
                    ),
                )
            }
        },
    }
}

/// The key of the fact that is asked for.
pub fn resolve_state_key(
    data: &StoreData,
    tenant_id: &str,
    fact_key: &str,
    owner_user_id: Option<&str>,
) -> (r: Result<(String, String, String), ApiError>)
    ensures
        match resolved_key(*data, tenant_id@, fact_key@, opt_str(owner_user_id)) {
            Ok(k) => r is Ok && r->Ok_0@ == k,
            Err(e) => fails_with(r, e),
        },
{
    match owner_user_id {
        Some(owner) => {
            return Ok((tenant_id.to_owned(), owner.to_owned(), fact_key.to_owned()));
        },
        None => {},
    }
    let t: &Table<(String, String, String), StateItem> = &data.state_items;
    let n: usize = t.len();
    let ghost rows = t.rows();
    let mut count: usize = 0;
    let mut first: Option<(String, String, String)> = None;
    let mut i: usize = 0;
    while i < n
        invariant
            i <= n == rows.len(),
            rows == t.rows(),
            count <= i,
            count == keys_named(rows.take(i as int), tenant_id@, fact_key@).len(),
            count > 0 ==> first is Some && first->Some_0@ == keys_named(
                rows.take(i as int),
                tenant_id@,
                fact_key@,
            )[0],
        decreases n - i,
    {
        assert(rows.take(i + 1).drop_last() =~= rows.take(i as int));
        let k: &(String, String, String) = t.key_at(i);
        if text_eq(k.0.as_str(), tenant_id) && text_eq(k.2.as_str(), fact_key) {
            if count == 0 {
                first = Some((k.0.clone(), k.1.clone(), k.2.clone()));
            }
            count += 1;
        }
        i += 1;
    }
    assert(rows.take(i as int) =~= rows);
    if count == 0 {
        return Err(ApiError::not_found("state item not found"));
    }
    if count > 1 {
        return Err(
            ApiError::bad_request("owner_user_id is required because fact_key is ambiguous"),
        );
    }
    match first {
        Some(k) => Ok(k),
        None => Err(ApiError::not_found("state item not found")),
    }
}

/// What a fact is said to be in its abstract.
pub open spec fn fact_abstract(item: StateItem, secrets: Seq<Seq<char>>) -> Seq<char> {
    first_chars(
        fragment_masked(
            fragment_masked(item.title@, secrets) + ": "@ + fragment_masked(
                item.statement@,
                secrets,
            ),
            secrets,
        ),
        ABSTRACT_CHARS as nat,
    )
}

/// Whether `nodes` are the layers of the entry of a fact.
pub open spec fn are_fact_nodes(
    nodes: Seq<ContextNode>,
    item: StateItem,
    overview: Seq<char>,
    index_uid: Seq<char>,
    secrets: Seq<Seq<char>>,
    now: i64,
) -> bool {
    let base = item.context_uri@;
    let tenant = item.tenant_id@;
    let owner = item.owner_user_id@;
    &&& nodes.len() == 2
    &&& is_node(
        nodes[0],
        personal_part(
            base + "/.abstract"@,
            item.title@,
            0,
            fact_abstract(item, secrets),
            index_uid,
            tenant,
            owner,
        ),
        now,
    )
    &&& is_node(
        nodes[1],
        personal_part(
            base + "/.overview"@,
            item.title@,
            1,
            overview,
            index_uid,
            tenant,
            owner,
        ),
        now,
    )
}

/// The state after the entry of a fact was written.
pub open spec fn fact_context_written(
    before: StoreData,
    after: StoreData,
    item: StateItem,
    overview: Seq<char>,
    index_uid: Seq<char>,
    secrets: Seq<Seq<char>>,
    now: i64,
) -> bool {
    exists|nodes: Seq<ContextNode>|
        are_fact_nodes(nodes, item, overview, index_uid, secrets, now) && #[trigger] nodes_put(
            before,
            after,
            index_uid,
            nodes,
        )
}

/// Writes the entry of a fact into the context of its owner.
pub fn write_state_context(
    data: &mut StoreData,
    index_uid: &str,
    item: &StateItem,
    overview: &str,
    secrets: &Vec<String>,
    now: i64,
)
    ensures
        fact_context_written(
            *old(data),
            *final(data),
            *item,
            overview@,
            index_uid@,
            texts(secrets@),
            now,
        ),
{
    let mut body: String = mask_secret_fragment_projection_preserving_chars(
        item.title.as_str(),
        secrets,
    );
    let statement: String = mask_secret_fragment_projection_preserving_chars(
        item.statement.as_str(),
        secrets,
    );
    body.append(": ");
    body.append(statement.as_str());
    let masked: String = mask_secret_fragment_projection_preserving_chars(body.as_str(), secrets);
    let abstract_body: String = truncate_chars(masked.as_str(), ABSTRACT_CHARS);
    let mut nodes: Vec<ContextNode> = Vec::new();
    nodes.push(
        personal_node(
            item.context_uri.as_str(),
            "/.abstract",
            item.title.as_str(),
            0,
            abstract_body.as_str(),
            index_uid,
            item.tenant_id.as_str(),
            item.owner_user_id.as_str(),
            now,
        ),
    );
    nodes.push(
        personal_node(
            item.context_uri.as_str(),
            "/.overview",
            item.title.as_str(),
            1,
            overview,
            index_uid,
            item.tenant_id.as_str(),
            item.owner_user_id.as_str(),
            now,
        ),
    );
    put_personal_nodes(data, index_uid, &nodes);
    assert(are_fact_nodes(nodes@, *item, overview@, index_uid@, texts(secrets@), now));
    assert(nodes_put(*old(data), *data, index_uid@, nodes@));
}

} // verus!
