//! What comes in many at once: events that are appended together, indexes that are brought up to
//! date, events that are gathered from two places, and pages that are checked.

use vstd::prelude::*;

use crate::data::StoreData;
use crate::grouping::{holds, lists_values};
use crate::history::{chosen_owner, event_owner, AppendHistoryEventRequest};
use crate::history_search::{
    bulk_owner, first_refusal, indexes_reconciled, merged_order, reconcile_step, reconciles_through,
    rows_of_tenant, shows_indexes, Reconciling,
};
use crate::listing::{page_in_scope, OperationListItem, OperationListRequest};
use crate::masking::{egress_masked, fragment_masked};
use crate::merge::inserted_all;
use crate::model::knowledge::{ContextNode, HistoryEvent, UserEventIndex};
use crate::nodes::is_egress_node;
use crate::resolver::EventIndexResolver;
use crate::text::{opt_text, texts};

verus! {

/// A batch of events has no refusal if no event has.
proof fn lemma_first_refusal(owner: Seq<char>, events: Seq<AppendHistoryEventRequest>)
    ensures
        first_refusal(owner, events) is None <==> forall|i: int|
            0 <= i < events.len() ==> event_owner(Some(owner), #[trigger] events[i]) is Ok,
    decreases events.len(),
{
    if events.len() > 0 {
        let front = events.drop_last();
        let n = events.len() - 1;
        lemma_first_refusal(owner, front);
        assert(forall|i: int| 0 <= i < n ==> #[trigger] front[i] == events[i]);
        assert(events.last() == events[n]);
        if first_refusal(owner, events) is None {
            assert forall|i: int| 0 <= i < events.len() implies event_owner(
                Some(owner),
                #[trigger] events[i],
            ) is Ok by {
                if i < n {
                    assert(front[i] == events[i]);
                }
            }
        }
    }
}

/// A batch of events is taken for an owner if and only if there is an event in it, not too many
/// where that is bounded, none with a key of its own, and every one of them can be taken for that
/// owner.
pub proof fn a_batch_is_taken_whole(
    path: Option<Seq<char>>,
    events: Seq<AppendHistoryEventRequest>,
    bounded: bool,
)
    ensures
        ({
            let r = bulk_owner(path, events, bounded);
            let owner = chosen_owner(path, opt_text(events[0].owner_user_id));
            &&& r is Ok <==> {
                &&& events.len() > 0
                &&& bounded ==> events.len() <= 500
                &&& forall|i: int|
                    0 <= i < events.len() ==> (#[trigger] events[i]).idempotency_key is None
                &&& owner is Ok
                &&& forall|i: int|
                    0 <= i < events.len() ==> event_owner(
                        Some(owner->Ok_0),
                        #[trigger] events[i],
                    ) is Ok
            }
            &&& r is Ok ==> r->Ok_0 == owner->Ok_0
            &&& r is Ok && path is Some ==> r->Ok_0 == path->0
        }),
{
    let owner = chosen_owner(path, opt_text(events[0].owner_user_id));
    if owner is Ok {
        lemma_first_refusal(owner->Ok_0, events);
    }
    let p = |req: AppendHistoryEventRequest| req.idempotency_key is Some;
    assert(crate::history_search::some_key(events) <==> exists|i: int|
        0 <= i < events.len() && (#[trigger] events[i]).idempotency_key is Some) by {
        if crate::history_search::some_key(events) {
            let i = choose|i: int| 0 <= i < events.len() && p(#[trigger] events[i]);
            assert(events[i].idempotency_key is Some);
        }
        if exists|i: int| 0 <= i < events.len() && (#[trigger] events[i]).idempotency_key is Some {
            let i = choose|i: int|
                0 <= i < events.len() && (#[trigger] events[i]).idempotency_key is Some;
            assert(p(events[i]));
        }
    }
}

/// An event is for the owner in its address and in its body; where both are told they have to be
/// the same, and where neither is there is no owner.
pub proof fn an_event_has_one_owner(path: Option<Seq<char>>, body: Option<Seq<char>>)
    ensures
        chosen_owner(path, body) is Ok <==> (path is Some || body is Some) && (path is Some && body
            is Some ==> path->0 == body->0),
        chosen_owner(path, body) is Ok && path is Some ==> chosen_owner(path, body)->Ok_0
            == path->0,
        chosen_owner(path, body) is Ok && body is Some ==> chosen_owner(path, body)->Ok_0
            == body->0,
        chosen_owner(path, body) is Err ==> chosen_owner(path, body)->Err_0 is BadRequest,
{
}

/// As many steps as have been made have listed as many indexes where missing ones are made, and
/// none has been made where they are not.
proof fn lemma_reconciling(
    steps: Seq<Reconciling>,
    owners: Seq<Seq<char>>,
    create_missing: bool,
    resolver: EventIndexResolver,
    tenant_id: Seq<char>,
    now: i64,
    n: int,
)
    requires
        reconciles_through(steps, owners, create_missing, resolver, tenant_id, now),
        steps[0].indexes.len() == 0,
        steps[0].created == 0,
        0 <= n <= owners.len(),
    ensures
        create_missing ==> steps[n].indexes.len() == n,
        !create_missing ==> steps[n].created == 0,
        steps[n].created <= steps[n].indexes.len() <= n,
    decreases n,
{
    if n > 0 {
        lemma_reconciling(steps, owners, create_missing, resolver, tenant_id, now, n - 1);
        let owner = owners[n - 1];
        assert(reconcile_step(
            steps[n - 1],
            steps[n - 1 + 1],
            owner,
            create_missing,
            resolver,
            tenant_id,
            now,
        ));
    }
}

/// Bringing the indexes of some owners up to date lists one for each owner where missing ones are
/// made, and makes none where they are not.
pub proof fn missing_indexes_are_made_where_asked(
    before: StoreData,
    after: StoreData,
    owners: Seq<Seq<char>>,
    create_missing: bool,
    resolver: EventIndexResolver,
    tenant_id: Seq<char>,
    indexes: Seq<UserEventIndex>,
    created: nat,
    now: i64,
)
    requires
        indexes_reconciled(
            before,
            after,
            owners,
            create_missing,
            resolver,
            tenant_id,
            indexes,
            created,
            now,
        ),
    ensures
        create_missing ==> indexes.len() == owners.len(),
        !create_missing ==> created == 0,
        created <= indexes.len() <= owners.len(),
{
    let steps = choose|steps: Seq<Reconciling>|
        {
            &&& #[trigger] reconciles_through(
                steps,
                owners,
                create_missing,
                resolver,
                tenant_id,
                now,
            )
            &&& steps[0] == (Reconciling { state: before, indexes: Seq::empty(), created: 0 })
            &&& steps[owners.len() as int] == (Reconciling { state: after, indexes, created })
        };
    lemma_reconciling(
        steps,
        owners,
        create_missing,
        resolver,
        tenant_id,
        now,
        owners.len() as int,
    );
}

/// The indexes of a tenant are those that are kept under it.
pub proof fn the_indexes_of_a_tenant_are_its_own(
    rows: Seq<((String, String), UserEventIndex)>,
    tenant_id: Seq<char>,
    index: UserEventIndex,
)
    ensures
        rows_of_tenant(rows, tenant_id).contains(index) <==> exists|i: int|
            0 <= i < rows.len() && (#[trigger] rows[i]).0.0@ == tenant_id && rows[i].1 == index,
    decreases rows.len(),
{
    if rows.len() > 0 {
        let front = rows.drop_last();
        let n = rows.len() - 1;
        the_indexes_of_a_tenant_are_its_own(front, tenant_id, index);
        let rest = rows_of_tenant(front, tenant_id);
        let all = rows_of_tenant(rows, tenant_id);
        assert(forall|i: int| 0 <= i < n ==> #[trigger] front[i] == rows[i]);
        assert(rows.last() == rows[n]);
        if rest.contains(index) {
            let k = choose|k: int| 0 <= k < rest.len() && rest[k] == index;
            assert(all[k] == index);
            let i = choose|i: int|
                0 <= i < front.len() && (#[trigger] front[i]).0.0@ == tenant_id && front[i].1
                    == index;
            assert(rows[i] == front[i]);
        }
        if all.contains(index) && !rest.contains(index) {
            let k = choose|k: int| 0 <= k < all.len() && all[k] == index;
            if k < rest.len() {
                assert(rest[k] == index);
            }
            assert(rows[n].0.0@ == tenant_id && rows[n].1 == index);
        }
        if rows[n].0.0@ == tenant_id && rows[n].1 == index {
            assert(all[rest.len() as int] == index);
        }
        if exists|i: int|
            0 <= i < rows.len() && (#[trigger] rows[i]).0.0@ == tenant_id && rows[i].1 == index {
            let i = choose|i: int|
                0 <= i < rows.len() && (#[trigger] rows[i]).0.0@ == tenant_id && rows[i].1
                    == index;
            if i < n {
                assert(front[i] == rows[i]);
            }
        }
    }
}

/// A trial shows indexes as they are but for saying that it is a trial; else they are shown as
/// they are.
pub proof fn a_trial_says_so(
    shown: Seq<UserEventIndex>,
    indexes: Seq<UserEventIndex>,
    dry_run: bool,
    i: int,
)
    requires
        shows_indexes(shown, indexes, dry_run),
        0 <= i < indexes.len(),
    ensures
        shown.len() == indexes.len(),
        dry_run ==> shown[i].status@ == "dry_run"@ && shown[i].id@ == indexes[i].id@
            && shown[i].owner_user_id_hash@ == indexes[i].owner_user_id_hash@
            && shown[i].event_index_uid@ == indexes[i].event_index_uid@,
        !dry_run ==> shown[i] == indexes[i],
{
    assert(crate::history_search::shows_index(shown[i], indexes[i], dry_run));
}

/// What is put in under its key is one of the rows, or what was there before.
proof fn lemma_inserted(m: Map<Seq<char>, HistoryEvent>, rows: Seq<HistoryEvent>)
    ensures
        forall|k: Seq<char>| #[trigger]
            inserted_all::<String, HistoryEvent>(m, rows).dom().contains(k) <==> m.dom().contains(
                k,
            ) || exists|i: int| 0 <= i < rows.len() && (#[trigger] rows[i]).id@ == k,
        forall|k: Seq<char>| #[trigger]
            inserted_all::<String, HistoryEvent>(m, rows).dom().contains(k) && (exists|i: int|
                0 <= i < rows.len() && (#[trigger] rows[i]).id@ == k) ==> rows.contains(
                inserted_all::<String, HistoryEvent>(m, rows)[k],
            ) && inserted_all::<String, HistoryEvent>(m, rows)[k].id@ == k,
        forall|k: Seq<char>| #[trigger]
            inserted_all::<String, HistoryEvent>(m, rows).dom().contains(k) && !(exists|i: int|
                0 <= i < rows.len() && (#[trigger] rows[i]).id@ == k) ==> inserted_all::<
                String,
                HistoryEvent,
            >(m, rows)[k] == m[k],
    decreases rows.len(),
{
    if rows.len() > 0 {
        let front = rows.drop_last();
        let n = rows.len() - 1;
        lemma_inserted(m, front);
        let rest = inserted_all::<String, HistoryEvent>(m, front);
        let all = inserted_all::<String, HistoryEvent>(m, rows);
        assert(forall|i: int| 0 <= i < n ==> #[trigger] front[i] == rows[i]);
        assert(rows.last() == rows[n]);
        assert(all == rest.insert(rows[n].id@, rows[n]));
        assert(rows.contains(rows[n]));
        assert forall|k: Seq<char>| #[trigger] all.dom().contains(k) <==> m.dom().contains(k)
            || exists|i: int| 0 <= i < rows.len() && (#[trigger] rows[i]).id@ == k by {
            if rest.dom().contains(k) && !m.dom().contains(k) {
                let i = choose|i: int| 0 <= i < front.len() && (#[trigger] front[i]).id@ == k;
                assert(rows[i].id@ == k);
            }
            if exists|i: int| 0 <= i < rows.len() && (#[trigger] rows[i]).id@ == k {
                let i = choose|i: int| 0 <= i < rows.len() && (#[trigger] rows[i]).id@ == k;
                if i < n {
                    assert(front[i].id@ == k);
                    assert(rest.dom().contains(k));
                }
            }
        }
        assert forall|k: Seq<char>| #[trigger]
            all.dom().contains(k) && (exists|i: int|
                0 <= i < rows.len() && (#[trigger] rows[i]).id@ == k) implies rows.contains(all[k])
            && all[k].id@ == k by {
            if k != rows[n].id@ {
                let i = choose|i: int| 0 <= i < rows.len() && (#[trigger] rows[i]).id@ == k;
                assert(front[i].id@ == k);
                assert(rest.dom().contains(k));
                assert(front.contains(rest[k]));
                let j = choose|j: int| 0 <= j < front.len() && front[j] == rest[k];
                assert(rows[j] == rest[k]);
            }
        }
        assert forall|k: Seq<char>| #[trigger]
            all.dom().contains(k) && !(exists|i: int|
                0 <= i < rows.len() && (#[trigger] rows[i]).id@ == k) implies all[k] == m[k] by {
            if k == rows[n].id@ {
                assert(rows[n].id@ == k);
            }
            assert(rest.dom().contains(k));
            assert forall|i: int| 0 <= i < front.len() implies (#[trigger] front[i]).id@ != k by {
                assert(rows[i].id@ != k);
            }
        }
    }
}

/// Events that are gathered from the store and from its own memory are all among the two, the one
/// in memory is taken where both have one under the same id, none is left out, and the latest
/// comes first.
pub proof fn events_are_gathered_from_both(
    all: Seq<HistoryEvent>,
    stored: Seq<HistoryEvent>,
    local: Seq<HistoryEvent>,
)
    requires
        lists_values(
            all,
            inserted_all::<String, HistoryEvent>(
                inserted_all::<String, HistoryEvent>(Map::empty(), stored),
                local,
            ),
            merged_order(),
        ),
    ensures
        forall|i: int|
            0 <= i < all.len() ==> local.contains(#[trigger] all[i]) || (stored.contains(all[i])
                && forall|j: int| 0 <= j < local.len() ==> (#[trigger] local[j]).id@ != all[i].id@),
        forall|j: int|
            0 <= j < local.len() ==> exists|i: int|
                0 <= i < all.len() && (#[trigger] all[i]).id@ == (#[trigger] local[j]).id@,
        forall|j: int|
            0 <= j < stored.len() ==> exists|i: int|
                0 <= i < all.len() && (#[trigger] all[i]).id@ == (#[trigger] stored[j]).id@,
        forall|i: int, j: int|
            0 <= i < j < all.len() ==> (#[trigger] all[i]).occurred_at >= (
            #[trigger] all[j]).occurred_at,
{
    let m = inserted_all::<String, HistoryEvent>(Map::empty(), stored);
    let both = inserted_all::<String, HistoryEvent>(m, local);
    lemma_inserted(Map::empty(), stored);
    lemma_inserted(m, local);
    assert forall|i: int| 0 <= i < all.len() implies local.contains(#[trigger] all[i]) || (
    stored.contains(all[i]) && forall|j: int|
        0 <= j < local.len() ==> (#[trigger] local[j]).id@ != all[i].id@) by {
        assert(holds(both, all[i]));
        let k = choose|k: Seq<char>| #[trigger] both.dom().contains(k) && both[k] == all[i];
        if exists|j: int| 0 <= j < local.len() && (#[trigger] local[j]).id@ == k {
            assert(local.contains(both[k]));
        } else {
            assert(both[k] == m[k]);
            assert(m.dom().contains(k));
            assert(stored.contains(m[k]) && m[k].id@ == k);
        }
    }
    assert forall|j: int| 0 <= j < local.len() implies exists|i: int|
        0 <= i < all.len() && (#[trigger] all[i]).id@ == (#[trigger] local[j]).id@ by {
        let k = local[j].id@;
        assert(both.dom().contains(k));
        assert(all.contains(both[k]));
        let i = choose|i: int| 0 <= i < all.len() && all[i] == both[k];
        assert(all[i].id@ == k);
    }
    assert forall|j: int| 0 <= j < stored.len() implies exists|i: int|
        0 <= i < all.len() && (#[trigger] all[i]).id@ == (#[trigger] stored[j]).id@ by {
        let k = stored[j].id@;
        assert(m.dom().contains(k));
        assert(both.dom().contains(k));
        assert(all.contains(both[k]));
        let i = choose|i: int| 0 <= i < all.len() && all[i] == both[k];
        assert(both[k].id@ == k);
        assert(all[i].id@ == k);
    }
    assert forall|i: int, j: int| 0 <= i < j < all.len() implies (#[trigger] all[i]).occurred_at
        >= (#[trigger] all[j]).occurred_at by {
        assert(!merged_order()(all[j], all[i]));
    }
}

/// A page from the repository is taken if and only if every operation on it is of the tenant, has
/// a status and a kind that were asked for, and shows its plan just where plans were asked for.
pub proof fn a_page_is_what_was_asked_for(
    operations: Seq<OperationListItem>,
    req: OperationListRequest,
    tenant_id: Seq<char>,
)
    ensures
        page_in_scope(operations, req, tenant_id) <==> forall|i: int|
            0 <= i < operations.len() ==> {
                let item = #[trigger] operations[i];
                &&& item.summary.tenant_id@ == tenant_id
                &&& req.statuses@.len() > 0 ==> req.statuses@.contains(item.summary.status)
                &&& req.operation_kinds@.len() > 0 ==> texts(req.operation_kinds@).contains(
                    item.summary.operation_kind@,
                )
                &&& req.include_plan <==> item.plan is Some
            },
{
    if forall|i: int|
        0 <= i < operations.len() ==> {
            let item = #[trigger] operations[i];
            &&& item.summary.tenant_id@ == tenant_id
            &&& req.statuses@.len() > 0 ==> req.statuses@.contains(item.summary.status)
            &&& req.operation_kinds@.len() > 0 ==> texts(req.operation_kinds@).contains(
                item.summary.operation_kind@,
            )
            &&& req.include_plan <==> item.plan is Some
        } {
        assert forall|i: int| 0 <= i < operations.len() implies crate::listing::item_wanted(
            #[trigger] operations[i],
            req,
            tenant_id,
        ) by {}
    }
    if page_in_scope(operations, req, tenant_id) {
        assert forall|i: int| 0 <= i < operations.len() implies {
            let item = #[trigger] operations[i];
            &&& item.summary.tenant_id@ == tenant_id
            &&& req.statuses@.len() > 0 ==> req.statuses@.contains(item.summary.status)
            &&& req.operation_kinds@.len() > 0 ==> texts(req.operation_kinds@).contains(
                item.summary.operation_kind@,
            )
            &&& req.include_plan <==> item.plan is Some
        } by {
            assert(crate::listing::item_wanted(operations[i], req, tenant_id));
        }
    }
}

/// A node that leaves the store is what it is but for its texts, which are masked.
pub proof fn a_node_that_leaves_is_masked(
    r: ContextNode,
    node: ContextNode,
    secrets: Seq<Seq<char>>,
)
    requires
        is_egress_node(r, node, secrets),
    ensures
        r.title@ == egress_masked(node.title@, secrets),
        node.node_kind@ == "fragment"@ || node.node_kind@ == "abstract"@ ==> r.body@
            == fragment_masked(node.body@, secrets),
        !(node.node_kind@ == "fragment"@ || node.node_kind@ == "abstract"@) ==> r.body@
            == egress_masked(node.body@, secrets),
        r.section_path@.len() == node.section_path@.len(),
        forall|i: int|
            0 <= i < r.section_path@.len() ==> (#[trigger] r.section_path@[i])@ == egress_masked(
                node.section_path@[i]@,
                secrets,
            ),
        r.uri@ == node.uri@,
        r.layer == node.layer,
        r.tenant_id@ == node.tenant_id@,
        opt_text(r.owner_user_id) == opt_text(node.owner_user_id),
        r.status@ == node.status@,
        r.index_uid@ == node.index_uid@,
{
    let masked = crate::masking::all_egress_masked(texts(node.section_path@), secrets);
    assert(texts(r.section_path@).len() == r.section_path@.len());
    assert(masked.len() == node.section_path@.len());
    assert forall|i: int| 0 <= i < r.section_path@.len() implies (
    #[trigger] r.section_path@[i])@ == egress_masked(node.section_path@[i]@, secrets) by {
        assert(texts(r.section_path@)[i] == masked[i]);
    }
}

} // verus!
