//! Which fact a name stands for: that no two facts of an owner share a place, that a newer change
//! waits for an older one, and that a name without an owner is only taken where it is clear.

use vstd::prelude::*;

use crate::data::StoreData;
use crate::laws::choosing::what_is_sorted_out;
use crate::model::knowledge::StateItem;
use crate::model::operation::{OperationIndexingState, OperationRecord, OperationStatus};
use crate::naming::slug;
use crate::order::strict_order;
use crate::state::{
    first_conflict, generation_refusal, identity_conflict, is_prior_operation, keys_named,
    operations_by_age, prior_operations, resolved_key, version_at_path,
};
use crate::text::{text_lt, text_lt_irreflexive, text_lt_total, text_lt_transitive};

verus! {

/// Two facts of one owner can stand side by side if and only if they are the same fact, or have
/// neither their key in common nor the place that type and key come to.
pub proof fn facts_stand_side_by_side(
    state_type: Seq<char>,
    fact_key: Seq<char>,
    other_type: Seq<char>,
    other_key: Seq<char>,
)
    ensures
        identity_conflict(state_type, fact_key, other_type, other_key) is None <==> (other_type
            == state_type && other_key == fact_key) || (other_key != fact_key && !(slug(other_type)
            == slug(state_type) && slug(other_key) == slug(fact_key))),
        identity_conflict(state_type, fact_key, other_type, other_key) is Some
            ==> identity_conflict(state_type, fact_key, other_type, other_key)->0 is Conflict,
        identity_conflict(state_type, fact_key, other_type, other_key) is None
            <==> identity_conflict(other_type, other_key, state_type, fact_key) is None,
{
}

/// A fact has its name to itself if and only if it can stand beside every fact of its owner; the
/// facts of others are no matter.
pub proof fn a_name_is_free_beside_all_others(
    items: Seq<StateItem>,
    tenant_id: Seq<char>,
    owner: Seq<char>,
    state_type: Seq<char>,
    fact_key: Seq<char>,
)
    ensures
        first_conflict(items, tenant_id, owner, state_type, fact_key) is None <==> forall|i: int|
            0 <= i < items.len() && (#[trigger] items[i]).tenant_id@ == tenant_id
                && items[i].owner_user_id@ == owner ==> identity_conflict(
                state_type,
                fact_key,
                items[i].state_type@,
                items[i].natural_key@,
            ) is None,
    decreases items.len(),
{
    if items.len() > 0 {
        let front = items.drop_last();
        let n = items.len() - 1;
        a_name_is_free_beside_all_others(front, tenant_id, owner, state_type, fact_key);
        assert(forall|i: int| 0 <= i < n ==> #[trigger] front[i] == items[i]);
        assert(items.last() == items[n]);
        if first_conflict(items, tenant_id, owner, state_type, fact_key) is None {
            assert forall|i: int|
                0 <= i < items.len() && (#[trigger] items[i]).tenant_id@ == tenant_id
                    && items[i].owner_user_id@ == owner implies identity_conflict(
                state_type,
                fact_key,
                items[i].state_type@,
                items[i].natural_key@,
            ) is None by {
                if i < n {
                    assert(front[i] == items[i]);
                }
            }
        }
    }
}

/// The version at a place is the greatest of the versions that the owner's facts have there.
pub proof fn the_version_at_a_place_is_the_greatest(
    items: Seq<StateItem>,
    tenant_id: Seq<char>,
    owner: Seq<char>,
    state_type: Seq<char>,
    fact_key: Seq<char>,
)
    ensures
        ({
            let found = version_at_path(items, tenant_id, owner, state_type, fact_key);
            &&& forall|i: int|
                0 <= i < items.len() && (#[trigger] items[i]).tenant_id@ == tenant_id
                    && items[i].owner_user_id@ == owner && slug(items[i].state_type@) == slug(
                    state_type,
                ) && slug(items[i].natural_key@) == slug(fact_key) ==> found is Some && found->0
                    >= items[i].current_version
            &&& found is Some ==> exists|i: int|
                0 <= i < items.len() && (#[trigger] items[i]).tenant_id@ == tenant_id
                    && items[i].owner_user_id@ == owner && slug(items[i].state_type@) == slug(
                    state_type,
                ) && slug(items[i].natural_key@) == slug(fact_key) && found->0
                    == items[i].current_version
        }),
    decreases items.len(),
{
    if items.len() > 0 {
        let front = items.drop_last();
        let n = items.len() - 1;
        the_version_at_a_place_is_the_greatest(front, tenant_id, owner, state_type, fact_key);
        assert(forall|i: int| 0 <= i < n ==> #[trigger] front[i] == items[i]);
        assert(items.last() == items[n]);
        let found = version_at_path(items, tenant_id, owner, state_type, fact_key);
        let earlier = version_at_path(front, tenant_id, owner, state_type, fact_key);
        assert forall|i: int|
            0 <= i < items.len() && (#[trigger] items[i]).tenant_id@ == tenant_id
                && items[i].owner_user_id@ == owner && slug(items[i].state_type@) == slug(
                state_type,
            ) && slug(items[i].natural_key@) == slug(fact_key) implies found is Some && found->0
            >= items[i].current_version by {
            if i < n {
                assert(front[i] == items[i]);
            }
        }
        if earlier is Some {
            let i = choose|i: int|
                0 <= i < front.len() && (#[trigger] front[i]).tenant_id@ == tenant_id
                    && front[i].owner_user_id@ == owner && slug(front[i].state_type@) == slug(
                    state_type,
                ) && slug(front[i].natural_key@) == slug(fact_key) && earlier->0
                    == front[i].current_version;
            assert(items[i] == front[i]);
        }
    }
}

/// The order of operations is an order.
proof fn lemma_by_age()
    ensures
        strict_order(operations_by_age()),
{
    let lt = operations_by_age();
    assert forall|a: OperationRecord, b: OperationRecord| lt(a, b) implies !#[trigger] lt(b, a) by {
        text_lt_irreflexive(a.id@);
        if text_lt(b.id@, a.id@) && text_lt(a.id@, b.id@) {
            text_lt_transitive(a.id@, b.id@, a.id@);
        }
    }
    assert forall|a: OperationRecord, b: OperationRecord, c: OperationRecord|
        !#[trigger] lt(b, a) && !#[trigger] lt(c, b) implies !lt(c, a) by {
        if lt(c, a) {
            text_lt_total(a.id@, b.id@);
            text_lt_total(b.id@, c.id@);
            if text_lt(a.id@, b.id@) && text_lt(c.id@, a.id@) {
                text_lt_transitive(c.id@, a.id@, b.id@);
            }
            if text_lt(b.id@, c.id@) && text_lt(c.id@, a.id@) {
                text_lt_transitive(b.id@, c.id@, a.id@);
            }
        }
    }
}

/// The changes that a newer change of a fact waits for are those of the same owner and the same
/// key or place that are not wholly done, but for itself, the oldest first.
pub proof fn a_newer_change_waits_for_older_ones(
    d: StoreData,
    tenant_id: Seq<char>,
    owner: Seq<char>,
    state_type: Seq<char>,
    fact_key: Seq<char>,
    current: Option<Seq<char>>,
)
    ensures
        ({
            let r = prior_operations(d, tenant_id, owner, state_type, fact_key, current);
            &&& forall|i: int|
                0 <= i < r.len() ==> {
                    &&& d.operations.values().contains(#[trigger] r[i])
                    &&& r[i].tenant_id@ == tenant_id
                    &&& current is Some ==> r[i].id@ != current->0
                    &&& r[i].plan.primary.resource@ is StateItem
                    &&& r[i].plan.primary.resource@->StateItem_item.owner_user_id@ == owner
                    &&& !(r[i].status == OperationStatus::Completed && r[i].indexing_state
                        == OperationIndexingState::Completed)
                }
            &&& forall|i: int, j: int|
                0 <= i < j < r.len() ==> (#[trigger] r[i]).created_at <= (
                #[trigger] r[j]).created_at
            &&& forall|operation: OperationRecord| #[trigger]
                d.operations.values().contains(operation) && operation.tenant_id@ == tenant_id
                    && current != Some(operation.id@) && operation.plan.primary.resource@
                    is StateItem && operation.plan.primary.resource@->StateItem_item.owner_user_id@
                    == owner && operation.plan.primary.resource@->StateItem_item.natural_key@
                    == fact_key && !(operation.status == OperationStatus::Completed
                    && operation.indexing_state == OperationIndexingState::Completed)
                    ==> r.contains(operation)
        }),
{
    lemma_by_age();
    let p = |operation: OperationRecord|
        is_prior_operation(operation, tenant_id, owner, state_type, fact_key, current);
    what_is_sorted_out(d.operations.values(), p, operations_by_age());
    let r = prior_operations(d, tenant_id, owner, state_type, fact_key, current);
    assert(r == crate::order::sorted_by(d.operations.values().filter(p), operations_by_age()));
    assert forall|operation: OperationRecord| #[trigger]
        d.operations.values().contains(operation) && operation.tenant_id@ == tenant_id && current
            != Some(operation.id@) && operation.plan.primary.resource@ is StateItem
            && operation.plan.primary.resource@->StateItem_item.owner_user_id@ == owner
            && operation.plan.primary.resource@->StateItem_item.natural_key@ == fact_key && !(
        operation.status == OperationStatus::Completed && operation.indexing_state
            == OperationIndexingState::Completed) implies r.contains(operation) by {
        assert(p(operation));
    }
}

/// An older change of a fact is stepped over if and only if it is of a fact that can stand beside
/// the newer one, and the fact has not gone past it.
pub proof fn an_older_change_is_not_run_over(
    item: StateItem,
    state_type: Seq<char>,
    fact_key: Seq<char>,
    current_version: Option<u64>,
)
    ensures
        generation_refusal(item, state_type, fact_key, current_version) is None
            <==> identity_conflict(state_type, fact_key, item.state_type@, item.natural_key@)
            is None && (current_version is Some ==> current_version->0 <= item.current_version),
        generation_refusal(item, state_type, fact_key, current_version) is Some
            ==> generation_refusal(item, state_type, fact_key, current_version)->0 is Conflict,
{
}

/// The keys that go by a name are those of the rows that the tenant keeps under it.
proof fn lemma_keys_named(
    rows: Seq<((String, String, String), StateItem)>,
    tenant_id: Seq<char>,
    fact_key: Seq<char>,
)
    ensures
        ({
            let keys = keys_named(rows, tenant_id, fact_key);
            &&& keys.len() <= rows.len()
            &&& forall|k: int|
                0 <= k < keys.len() ==> exists|i: int|
                    0 <= i < rows.len() && (#[trigger] rows[i]).0@ == #[trigger] keys[k]
                        && rows[i].0.0@ == tenant_id && rows[i].0.2@ == fact_key
            &&& forall|i: int|
                0 <= i < rows.len() && (#[trigger] rows[i]).0.0@ == tenant_id && rows[i].0.2@
                    == fact_key ==> keys.contains(rows[i].0@)
            &&& forall|i: int, j: int|
                0 <= i < j < rows.len() && (#[trigger] rows[i]).0.0@ == tenant_id && rows[i].0.2@
                    == fact_key && (#[trigger] rows[j]).0.0@ == tenant_id && rows[j].0.2@
                    == fact_key ==> keys.len() >= 2
        }),
    decreases rows.len(),
{
    if rows.len() > 0 {
        let front = rows.drop_last();
        let n = rows.len() - 1;
        lemma_keys_named(front, tenant_id, fact_key);
        let rest = keys_named(front, tenant_id, fact_key);
        let keys = keys_named(rows, tenant_id, fact_key);
        assert(forall|i: int| 0 <= i < n ==> #[trigger] front[i] == rows[i]);
        assert(rows.last() == rows[n]);
        assert forall|k: int| 0 <= k < keys.len() implies exists|i: int|
            0 <= i < rows.len() && (#[trigger] rows[i]).0@ == #[trigger] keys[k] && rows[i].0.0@
                == tenant_id && rows[i].0.2@ == fact_key by {
            if k < rest.len() {
                assert(rest[k] == keys[k]);
                let i = choose|i: int|
                    0 <= i < front.len() && (#[trigger] front[i]).0@ == rest[k] && front[i].0.0@
                        == tenant_id && front[i].0.2@ == fact_key;
                assert(rows[i].0@ == keys[k]);
            } else {
                assert(rows[n].0@ == keys[k]);
            }
        }
        assert forall|i: int|
            0 <= i < rows.len() && (#[trigger] rows[i]).0.0@ == tenant_id && rows[i].0.2@
                == fact_key implies keys.contains(rows[i].0@) by {
            if i < n {
                assert(front[i] == rows[i]);
                let k = choose|k: int| 0 <= k < rest.len() && rest[k] == rows[i].0@;
                assert(keys[k] == rows[i].0@);
            } else {
                assert(keys[keys.len() - 1] == rows[i].0@);
            }
        }
        assert forall|i: int, j: int|
            0 <= i < j < rows.len() && (#[trigger] rows[i]).0.0@ == tenant_id && rows[i].0.2@
                == fact_key && (#[trigger] rows[j]).0.0@ == tenant_id && rows[j].0.2@
                == fact_key implies keys.len() >= 2 by {
            assert(front[i] == rows[i]);
            assert(rest.contains(rows[i].0@));
            if j < n {
                assert(front[j] == rows[j]);
            }
        }
    }
}

/// A name with an owner stands for that owner's fact. A name without one stands for the one fact
/// that the tenant keeps under it; where there is none it is not found, and where there are more
/// the owner has to be told.
pub proof fn a_name_stands_for_one_fact(
    d: StoreData,
    tenant_id: Seq<char>,
    fact_key: Seq<char>,
    owner: Option<Seq<char>>,
)
    ensures
        ({
            let r = resolved_key(d, tenant_id, fact_key, owner);
            let rows = d.state_items.rows();
            &&& owner is Some ==> r is Ok && r->Ok_0 == (tenant_id, owner->0, fact_key)
            &&& owner is None && r is Ok ==> exists|i: int|
                0 <= i < rows.len() && (#[trigger] rows[i]).0@ == r->Ok_0 && rows[i].0.0@
                    == tenant_id && rows[i].0.2@ == fact_key
            &&& owner is None && r is Err ==> r->Err_0 is NotFound || r->Err_0 is BadRequest
            &&& owner is None ==> (r is Err && r->Err_0 is NotFound <==> forall|i: int|
                0 <= i < rows.len() ==> !((#[trigger] rows[i]).0.0@ == tenant_id && rows[i].0.2@
                    == fact_key))
            &&& owner is None ==> forall|i: int, j: int|
                0 <= i < j < rows.len() && (#[trigger] rows[i]).0.0@ == tenant_id && rows[i].0.2@
                    == fact_key && (#[trigger] rows[j]).0.0@ == tenant_id && rows[j].0.2@
                    == fact_key ==> r is Err && r->Err_0 is BadRequest
        }),
{
    let rows = d.state_items.rows();
    lemma_keys_named(rows, tenant_id, fact_key);
    let keys = keys_named(rows, tenant_id, fact_key);
    if keys.len() > 0 {
        let i = choose|i: int|
            0 <= i < rows.len() && (#[trigger] rows[i]).0@ == keys[0] && rows[i].0.0@ == tenant_id
                && rows[i].0.2@ == fact_key;
        assert(rows[i].0@ == keys[0]);
    }
}

} // verus!
