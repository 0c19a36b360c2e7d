//! Merging accepted rows into tables and lists.

use vstd::prelude::*;

use crate::model::ingest::{IngestTask, IngestTaskResult, SourceDocument};
use crate::model::knowledge::{ContextNode, InsightRecord, KnowledgeLink, StateItem};
use crate::data::SourceDocumentKey;
use crate::order::{find_where, first_where, first_where_facts};
use crate::record::Row;
use crate::table::{Table, TableKey};
use crate::text::{text_eq, texts, texts_contain};

verus! {

/// A row that knows when it was last changed.
pub trait Stamped<K: TableKey>: Row<K> {
    spec fn stamp(&self) -> i64;

    fn stamp_of(&self) -> (r: i64)
        ensures
            r == self.stamp(),
    ;
}

impl Stamped<(String, String, String)> for StateItem {
    open spec fn stamp(&self) -> i64 {
        self.updated_at
    }

    fn stamp_of(&self) -> (r: i64) {
        self.updated_at
    }
}

impl Stamped<String> for InsightRecord {
    open spec fn stamp(&self) -> i64 {
        self.updated_at
    }

    fn stamp_of(&self) -> (r: i64) {
        self.updated_at
    }
}

impl Stamped<String> for KnowledgeLink {
    open spec fn stamp(&self) -> i64 {
        self.updated_at
    }

    fn stamp_of(&self) -> (r: i64) {
        self.updated_at
    }
}

impl Stamped<SourceDocumentKey> for SourceDocument {
    open spec fn stamp(&self) -> i64 {
        self.updated_at
    }

    fn stamp_of(&self) -> (r: i64) {
        self.updated_at
    }
}

impl Stamped<String> for IngestTask {
    open spec fn stamp(&self) -> i64 {
        self.updated_at
    }

    fn stamp_of(&self) -> (r: i64) {
        self.updated_at
    }
}

impl Stamped<String> for IngestTaskResult {
    open spec fn stamp(&self) -> i64 {
        self.task.updated_at
    }

    fn stamp_of(&self) -> (r: i64) {
        self.task.updated_at
    }
}

/// Whether the row that a table has under the key of `row` was changed after `row`.
pub open spec fn has_newer<K: TableKey, R: Stamped<K>>(m: Map<K::V, R>, row: R) -> bool {
    m.dom().contains(row.key()) && m[row.key()].stamp() > row.stamp()
}

/// `row` under its key, unless a newer row stands there.
pub open spec fn merged<K: TableKey, R: Stamped<K>>(m: Map<K::V, R>, row: R) -> Map<K::V, R> {
    if has_newer::<K, R>(m, row) {
        m
    } else {
        m.insert(row.key(), row)
    }
}

/// The rows merged one after the other.
pub open spec fn merged_all<K: TableKey, R: Stamped<K>>(m: Map<K::V, R>, rows: Seq<R>) -> Map<
    K::V,
    R,
>
    decreases rows.len(),
{
    if rows.len() == 0 {
        m
    } else {
        merged::<K, R>(merged_all::<K, R>(m, rows.drop_last()), rows.last())
    }
}

/// Puts `row` under its key, unless a newer row stands there; says whether it did.
pub fn merge_row<K: TableKey, R: Stamped<K>>(t: &mut Table<K, R>, row: R) -> (put: bool)
    ensures
        final(t)@ == merged::<K, R>(old(t)@, row),
        put == !has_newer::<K, R>(old(t)@, row),
{
    let newer: bool = match t.get(&row.key_of()) {
        Some(existing) => existing.stamp_of() > row.stamp_of(),
        None => false,
    };
    if !newer {
        t.insert(row.key_of(), row);
    }
    !newer
}

/// Merges copies of the rows one after the other.
pub fn merge_rows<K: TableKey, R: Stamped<K>>(t: &mut Table<K, R>, rows: &Vec<R>)
    ensures
        final(t)@ == merged_all::<K, R>(old(t)@, rows@),
{
    let mut i: usize = 0;
    while i < rows.len()
        invariant
            i <= rows.len(),
            t@ == merged_all::<K, R>(old(t)@, rows@.take(i as int)),
        decreases rows.len() - i,
    {
        merge_row(t, rows[i].copy());
        i += 1;
        assert(rows@.take(i as int).drop_last() =~= rows@.take(i - 1));
    }
    assert(rows@.take(i as int) =~= rows@);
}

/// Merging never puts an older row in the place of a newer one.
pub proof fn merging_keeps_the_newer<K: TableKey, R: Stamped<K>>(
    m: Map<K::V, R>,
    rows: Seq<R>,
    k: K::V,
)
    requires
        m.dom().contains(k),
    ensures
        merged_all::<K, R>(m, rows).dom().contains(k),
        merged_all::<K, R>(m, rows)[k].stamp() >= m[k].stamp(),
    decreases rows.len(),
{
    if rows.len() > 0 {
        merging_keeps_the_newer::<K, R>(m, rows.drop_last(), k);
    }
}

/// Merging touches no key but those of the rows.
pub proof fn merging_keeps_other_keys<K: TableKey, R: Stamped<K>>(
    m: Map<K::V, R>,
    rows: Seq<R>,
    k: K::V,
)
    requires
        forall|i: int| 0 <= i < rows.len() ==> (#[trigger] rows[i]).key() != k,
    ensures
        merged_all::<K, R>(m, rows).dom().contains(k) == m.dom().contains(k),
        m.dom().contains(k) ==> merged_all::<K, R>(m, rows)[k] == m[k],
    decreases rows.len(),
{
    if rows.len() > 0 {
        assert(rows[rows.len() - 1].key() != k);
        assert forall|i: int| 0 <= i < rows.drop_last().len() implies (
        #[trigger] rows.drop_last()[i]).key() != k by {
            assert(rows[i].key() != k);
        }
        merging_keeps_other_keys::<K, R>(m, rows.drop_last(), k);
    }
}

/// Merging the same row a second time changes nothing.
pub proof fn merging_twice_is_merging_once<K: TableKey, R: Stamped<K>>(m: Map<K::V, R>, row: R)
    ensures
        merged::<K, R>(merged::<K, R>(m, row), row) == merged::<K, R>(m, row),
{
    assert(merged::<K, R>(merged::<K, R>(m, row), row) =~= merged::<K, R>(m, row));
}

/// The rows put under their keys one after the other.
pub open spec fn inserted_all<K: TableKey, R: Row<K>>(m: Map<K::V, R>, rows: Seq<R>) -> Map<K::V, R>
    decreases rows.len(),
{
    if rows.len() == 0 {
        m
    } else {
        inserted_all::<K, R>(m, rows.drop_last()).insert(rows.last().key(), rows.last())
    }
}

/// Puts copies of the rows under their keys one after the other.
pub fn insert_rows<K: TableKey, R: Row<K>>(t: &mut Table<K, R>, rows: &Vec<R>)
    ensures
        final(t)@ == inserted_all::<K, R>(old(t)@, rows@),
{
    let mut i: usize = 0;
    while i < rows.len()
        invariant
            i <= rows.len(),
            t@ == inserted_all::<K, R>(old(t)@, rows@.take(i as int)),
        decreases rows.len() - i,
    {
        t.insert(rows[i].key_of(), rows[i].copy());
        i += 1;
        assert(rows@.take(i as int).drop_last() =~= rows@.take(i - 1));
    }
    assert(rows@.take(i as int) =~= rows@);
}

/// `current` with the entries of `staged` whose id was accepted.
pub open spec fn with_accepted<K>(
    current: Map<K, String>,
    staged: Map<K, String>,
    accepted_ids: Seq<Seq<char>>,
) -> Map<K, String> {
    Map::new(
        |k: K|
            current.dom().contains(k) || (staged.dom().contains(k) && accepted_ids.contains(
                staged[k]@,
            )),
        |k: K|
            if staged.dom().contains(k) && accepted_ids.contains(staged[k]@) {
                staged[k]
            } else {
                current[k]
            },
    )
}

/// Copies the entries of `staged` whose id was accepted into `current`.
pub fn copy_idempotency_entries<K: TableKey>(
    current: &mut Table<K, String>,
    staged: &Table<K, String>,
    accepted_ids: &Vec<String>,
)
    ensures
        final(current)@ == with_accepted(old(current)@, staged@, texts(accepted_ids@)),
{
    let mut i: usize = 0;
    let n: usize = staged.len();
    let ghost start = current@;
    let ghost ids = texts(accepted_ids@);
    while i < n
        invariant
            i <= n == staged.rows().len(),
            staged.wf(),
            ids == texts(accepted_ids@),
            start == old(current)@,
            forall|k: K::V| #[trigger]
                current@.dom().contains(k) == (start.dom().contains(k) || exists|j: int|
                    0 <= j < i && (#[trigger] staged.rows()[j]).0@ == k && ids.contains(
                        staged.rows()[j].1@,
                    )),
            forall|k: K::V| #[trigger]
                current@.dom().contains(k) ==> current@[k] == (if exists|j: int|
                    0 <= j < i && (#[trigger] staged.rows()[j]).0@ == k && ids.contains(
                        staged.rows()[j].1@,
                    ) {
                    staged@[k]
                } else {
                    start[k]
                }),
        decreases n - i,
    {
        let ghost before = current@;
        proof {
            staged.row_facts(i as int);
        }
        let id: &String = staged.value_at(i);
        if texts_contain(accepted_ids, id.as_str()) {
            current.insert(staged.key_at(i).copy_key(), id.clone());
        }
        i += 1;
    }
    assert forall|k: K::V| #[trigger]
        current@.dom().contains(k) == with_accepted(start, staged@, ids).dom().contains(k) && (
        current@.dom().contains(k) ==> current@[k] == with_accepted(start, staged@, ids)[k]) by {
        if staged@.dom().contains(k) {
            staged.key_facts(k);
        }
        if exists|j: int|
            0 <= j < n && (#[trigger] staged.rows()[j]).0@ == k && ids.contains(
                staged.rows()[j].1@,
            ) {
            let j = choose|j: int|
                0 <= j < n && (#[trigger] staged.rows()[j]).0@ == k && ids.contains(
                    staged.rows()[j].1@,
                );
            staged.row_facts(j);
        }
    }
    assert(current@ =~= with_accepted(start, staged@, ids));
}

/// Whether two nodes stand for the same place of an index.
pub open spec fn same_place(a: ContextNode, b: ContextNode) -> bool {
    a.tenant_id@ == b.tenant_id@ && a.uri@ == b.uri@ && a.layer == b.layer
}

/// `node` in its place, unless a newer node stands there; a new place comes last.
pub open spec fn with_node(target: Seq<ContextNode>, node: ContextNode) -> Seq<ContextNode> {
    let at = first_where(target, |existing: ContextNode| same_place(existing, node));
    if at < target.len() {
        if target[at].updated_at <= node.updated_at {
            target.update(at, node)
        } else {
            target
        }
    } else {
        target.push(node)
    }
}

/// The nodes put in their places one after the other.
pub open spec fn with_nodes(target: Seq<ContextNode>, nodes: Seq<ContextNode>) -> Seq<ContextNode>
    decreases nodes.len(),
{
    if nodes.len() == 0 {
        target
    } else {
        with_node(with_nodes(target, nodes.drop_last()), nodes.last())
    }
}

/// Puts copies of the nodes in their places; a newer node keeps its place.
pub fn upsert_context_nodes(target: &mut Vec<ContextNode>, nodes: &Vec<ContextNode>)
    ensures
        final(target)@ == with_nodes(old(target)@, nodes@),
{
    let mut i: usize = 0;
    while i < nodes.len()
        invariant
            i <= nodes.len(),
            target@ == with_nodes(old(target)@, nodes@.take(i as int)),
        decreases nodes.len() - i,
    {
        upsert_context_node(target, nodes[i].clone());
        i += 1;
        assert(nodes@.take(i as int).drop_last() =~= nodes@.take(i - 1));
    }
    assert(nodes@.take(i as int) =~= nodes@);
}

/// Puts a node in its place; a newer node keeps its place.
pub fn upsert_context_node(target: &mut Vec<ContextNode>, node: ContextNode)
    ensures
        final(target)@ == with_node(old(target)@, node),
{
    let ghost p = |existing: ContextNode| same_place(existing, node);
    let wanted: &ContextNode = &node;
    let accept = |existing: &ContextNode| -> (b: bool)
        ensures
            b == same_place(*existing, *wanted),
        {
            text_eq(existing.tenant_id.as_str(), wanted.tenant_id.as_str()) && text_eq(
                existing.uri.as_str(),
                wanted.uri.as_str(),
            ) && existing.layer == wanted.layer
        };
    let at: usize = find_where(target, accept, Ghost(p));
    if at < target.len() {
        if target[at].updated_at <= node.updated_at {
            target.set(at, node);
        }
    } else {
        target.push(node);
    }
}

/// Putting nodes in never replaces a node by an older one, and never removes a place.
pub proof fn upserting_keeps_the_newer(
    target: Seq<ContextNode>,
    nodes: Seq<ContextNode>,
    i: int,
)
    requires
        0 <= i < target.len(),
    ensures
        i < with_nodes(target, nodes).len(),
        same_place(with_nodes(target, nodes)[i], target[i]),
        with_nodes(target, nodes)[i].updated_at >= target[i].updated_at,
    decreases nodes.len(),
{
    if nodes.len() > 0 {
        upserting_keeps_the_newer(target, nodes.drop_last(), i);
        let s = with_nodes(target, nodes.drop_last());
        first_where_facts(s, |existing: ContextNode| same_place(existing, nodes.last()));
    }
}

/// Putting a node in a second time changes nothing.
pub proof fn upserting_twice_is_upserting_once(target: Seq<ContextNode>, node: ContextNode)
    ensures
        with_node(with_node(target, node), node) == with_node(target, node),
{
    let p = |existing: ContextNode| same_place(existing, node);
    first_where_facts(target, p);
    let once = with_node(target, node);
    let at = first_where(target, p);
    assert forall|j: int| 0 <= j < at implies !p(#[trigger] once[j]) by {
        assert(once[j] == target[j]);
    }
    crate::order::first_where_is(once, p, at);
    assert(with_node(once, node) =~= once);
}

/// Whether no two nodes stand for the same place.
pub open spec fn one_per_place(nodes: Seq<ContextNode>) -> bool {
    forall|i: int, j: int|
        0 <= i < j < nodes.len() ==> !same_place(#[trigger] nodes[i], #[trigger] nodes[j])
}

/// Whether one of `nodes` stands for the place of `node`.
pub open spec fn placed(nodes: Seq<ContextNode>, node: ContextNode) -> bool {
    exists|i: int| 0 <= i < nodes.len() && same_place(#[trigger] nodes[i], node)
}

/// The first node of each place that is new to `target`, in the order of `nodes`.
pub open spec fn new_places(target: Seq<ContextNode>, nodes: Seq<ContextNode>) -> Seq<ContextNode>
    decreases nodes.len(),
{
    if nodes.len() == 0 {
        Seq::empty()
    } else {
        let front = new_places(target, nodes.drop_last());
        if placed(target, nodes.last()) || placed(nodes.drop_last(), nodes.last()) {
            front
        } else {
            front.push(nodes.last())
        }
    }
}

/// Whether `node` is the candidate at `k`, and of the candidates for its place the latest, or of
/// several latest the last.
pub open spec fn is_latest(candidates: Seq<ContextNode>, k: int, node: ContextNode) -> bool {
    &&& 0 <= k < candidates.len()
    &&& candidates[k] == node
    &&& forall|j: int|
        0 <= j < candidates.len() && same_place(#[trigger] candidates[j], node)
            ==> candidates[j].updated_at < node.updated_at || (candidates[j].updated_at
            == node.updated_at && j <= k)
}

/// Whether every node of `r` is the latest of its place among the candidates.
pub open spec fn all_latest(r: Seq<ContextNode>, candidates: Seq<ContextNode>) -> bool {
    forall|i: int| 0 <= i < r.len() ==> stands_out(candidates, #[trigger] r[i])
}

/// Whether `node` is the latest of its place among the candidates.
pub open spec fn stands_out(candidates: Seq<ContextNode>, node: ContextNode) -> bool {
    exists|k: int| is_latest(candidates, k, node)
}

proof fn lemma_with_node(target: Seq<ContextNode>, node: ContextNode) -> (at: int)
    ensures
        0 <= at <= target.len(),
        at < target.len() ==> same_place(target[at], node),
        at < target.len() && target[at].updated_at <= node.updated_at ==> with_node(target, node)
            == target.update(at, node),
        at < target.len() && target[at].updated_at > node.updated_at ==> with_node(target, node)
            == target,
        at == target.len() ==> with_node(target, node) == target.push(node) && !placed(
            target,
            node,
        ),
{
    let p = |existing: ContextNode| same_place(existing, node);
    first_where_facts(target, p);
    let at = first_where(target, p);
    assert(forall|j: int| 0 <= j < at ==> !p(#[trigger] target[j]));
    at
}

proof fn lemma_upserted(target: Seq<ContextNode>, nodes: Seq<ContextNode>)
    requires
        one_per_place(target),
    ensures
        one_per_place(with_nodes(target, nodes)),
        forall|j: int|
            0 <= j < target.len() + nodes.len() ==> placed(
                with_nodes(target, nodes),
                #[trigger] (target + nodes)[j],
            ),
        all_latest(with_nodes(target, nodes), target + nodes),
    decreases nodes.len(),
{
    let c = target + nodes;
    if nodes.len() == 0 {
        assert(c =~= target);
        assert forall|i: int| 0 <= i < target.len() implies stands_out(c, #[trigger] target[i]) by {
            assert forall|j: int| 0 <= j < c.len() && same_place(
                #[trigger] c[j],
                target[i],
            ) implies j == i by {
                if j < i {
                    assert(!same_place(target[j], target[i]));
                } else if i < j {
                    assert(!same_place(target[i], target[j]));
                }
            }
            assert(is_latest(c, i, target[i]));
        }
        assert forall|j: int| 0 <= j < c.len() implies placed(target, #[trigger] c[j]) by {
            assert(same_place(target[j], c[j]));
        }
    } else {
        let front = nodes.drop_last();
        let node = nodes.last();
        let b = target + front;
        let last = c.len() - 1;
        lemma_upserted(target, front);
        let mid = with_nodes(target, front);
        let r = with_nodes(target, nodes);
        let at = lemma_with_node(mid, node);
        assert(c =~= b.push(node));
        assert forall|i: int, j: int| 0 <= i < j < r.len() implies !same_place(
            #[trigger] r[i],
            #[trigger] r[j],
        ) by {
            if j < mid.len() {
                assert(!same_place(mid[i], mid[j]));
            } else {
                assert(!same_place(mid[i], node));
            }
        }
        assert forall|j: int| 0 <= j < c.len() implies placed(r, #[trigger] c[j]) by {
            if j < last {
                assert(c[j] == b[j]);
                assert(placed(mid, b[j]));
                let i = choose|i: int| 0 <= i < mid.len() && same_place(#[trigger] mid[i], b[j]);
                assert(same_place(r[i], c[j]));
            } else {
                assert(same_place(r[at], c[j]));
            }
        }
        assert forall|i: int| 0 <= i < r.len() implies stands_out(c, #[trigger] r[i]) by {
            if i < mid.len() && r[i] == mid[i] && !(i == at && mid[at].updated_at
                <= node.updated_at) {
                assert(stands_out(b, mid[i]));
                let k = choose|k: int| is_latest(b, k, mid[i]);
                assert forall|j: int| 0 <= j < c.len() && same_place(
                    #[trigger] c[j],
                    r[i],
                ) implies c[j].updated_at < r[i].updated_at || (c[j].updated_at
                    == r[i].updated_at && j <= k) by {
                    if j < last {
                        assert(c[j] == b[j]);
                    } else {
                        assert(same_place(mid[i], node));
                        assert(at < mid.len());
                        if i < at {
                            assert(!same_place(mid[i], mid[at]));
                        } else if at < i {
                            assert(!same_place(mid[at], mid[i]));
                        }
                    }
                }
                assert(is_latest(c, k, r[i]));
            } else {
                assert(i == at && r[i] == node);
                assert forall|j: int| 0 <= j < c.len() && same_place(
                    #[trigger] c[j],
                    r[i],
                ) implies c[j].updated_at < r[i].updated_at || (c[j].updated_at
                    == r[i].updated_at && j <= last) by {
                    if j < last {
                        assert(c[j] == b[j]);
                        assert(placed(mid, b[j]));
                        let m = choose|m: int|
                            0 <= m < mid.len() && same_place(#[trigger] mid[m], b[j]);
                        assert(same_place(mid[m], node));
                        assert(at < mid.len());
                        if m < at {
                            assert(!same_place(mid[m], mid[at]));
                        } else if at < m {
                            assert(!same_place(mid[at], mid[m]));
                        }
                        assert(stands_out(b, mid[at]));
                        let k = choose|k: int| is_latest(b, k, mid[at]);
                        assert(same_place(b[j], mid[at]));
                    }
                }
                assert(is_latest(c, last, r[i]));
            }
        }
    }
}

/// Putting nodes in leaves one node in each place, where there was no more than one before. It is
/// the latest of those that stood there or were given for it; of several latest the last.
pub proof fn the_latest_node_stands_alone(
    target: Seq<ContextNode>,
    nodes: Seq<ContextNode>,
)
    requires
        one_per_place(target),
    ensures
        one_per_place(with_nodes(target, nodes)),
        all_latest(with_nodes(target, nodes), target + nodes),
{
    lemma_upserted(target, nodes);
}

/// Putting nodes in leaves every place where it was; the places that are new come behind them, in
/// the order in which they were given.
pub proof fn new_places_come_last(target: Seq<ContextNode>, nodes: Seq<ContextNode>)
    ensures
        with_nodes(target, nodes).len() == target.len() + new_places(target, nodes).len(),
        forall|i: int|
            0 <= i < target.len() ==> same_place(
                #[trigger] with_nodes(target, nodes)[i],
                target[i],
            ),
        forall|i: int|
            target.len() <= i < with_nodes(target, nodes).len() ==> same_place(
                #[trigger] with_nodes(target, nodes)[i],
                new_places(target, nodes)[i - target.len()],
            ),
        forall|node: ContextNode| #[trigger]
            placed(with_nodes(target, nodes), node) <==> placed(target, node) || placed(
                nodes,
                node,
            ),
    decreases nodes.len(),
{
    let r = with_nodes(target, nodes);
    if nodes.len() > 0 {
        let front = nodes.drop_last();
        let last = nodes.last();
        new_places_come_last(target, front);
        let mid = with_nodes(target, front);
        let at = lemma_with_node(mid, last);
        if at < mid.len() {
            assert(placed(mid, last));
        }
        assert forall|node: ContextNode| #[trigger] placed(r, node) <==> placed(target, node)
            || placed(nodes, node) by {
            assert(placed(mid, node) <==> placed(target, node) || placed(front, node));
            if placed(r, node) {
                let i = choose|i: int| 0 <= i < r.len() && same_place(#[trigger] r[i], node);
                if i < mid.len() {
                    assert(same_place(mid[i], node));
                    if placed(front, node) {
                        let j = choose|j: int|
                            0 <= j < front.len() && same_place(#[trigger] front[j], node);
                        assert(same_place(nodes[j], node));
                    }
                } else {
                    assert(same_place(nodes[nodes.len() - 1], node));
                }
            }
            if placed(target, node) || placed(nodes, node) {
                if placed(mid, node) {
                    let i = choose|i: int| 0 <= i < mid.len() && same_place(#[trigger] mid[i], node);
                    assert(same_place(r[i], node));
                } else {
                    let j = choose|j: int|
                        0 <= j < nodes.len() && same_place(#[trigger] nodes[j], node);
                    if j < front.len() {
                        assert(same_place(front[j], node));
                    }
                    assert(same_place(r[at], node));
                }
            }
        }
    }
}

proof fn lemma_same_latest(
    target: Seq<ContextNode>,
    once: Seq<ContextNode>,
    nodes: Seq<ContextNode>,
    i: int,
    again: ContextNode,
)
    requires
        0 <= i < once.len(),
        one_per_place(once),
        stands_out(target + nodes, once[i]),
        stands_out(once + nodes, again),
        same_place(again, once[i]),
    ensures
        again == once[i],
{
    let c = target + nodes;
    let d = once + nodes;
    let k = choose|k: int| is_latest(c, k, once[i]);
    let m = choose|m: int| is_latest(d, m, again);
    assert(d[i] == once[i]);
    if m < once.len() {
        assert(d[m] == once[m]);
        if m < i {
            assert(!same_place(once[m], once[i]));
        } else if i < m {
            assert(!same_place(once[i], once[m]));
        }
    } else {
        let other = target.len() + (m - once.len());
        assert(c[other] == d[m]);
        assert(other <= k);
        let here = once.len() + (k - target.len());
        assert(d[here] == c[k]);
        assert(here <= m);
    }
}

/// Putting the same nodes in a second time changes nothing.
pub proof fn upserting_all_twice_is_upserting_all_once(
    target: Seq<ContextNode>,
    nodes: Seq<ContextNode>,
)
    requires
        one_per_place(target),
    ensures
        with_nodes(with_nodes(target, nodes), nodes) == with_nodes(target, nodes),
{
    let once = with_nodes(target, nodes);
    let twice = with_nodes(once, nodes);
    lemma_upserted(target, nodes);
    lemma_upserted(once, nodes);
    assert(new_places(once, nodes).len() == 0) by {
        new_places_come_last(target, nodes);
        lemma_nothing_new(once, nodes, nodes.len() as int);
        assert(nodes.take(nodes.len() as int) =~= nodes);
    }
    new_places_come_last(once, nodes);
    assert forall|i: int| 0 <= i < once.len() implies twice[i] == #[trigger] once[i] by {
        assert(same_place(twice[i], once[i]));
        lemma_same_latest(target, once, nodes, i, twice[i]);
    }
    assert(twice =~= once);
}

proof fn lemma_nothing_new(target: Seq<ContextNode>, nodes: Seq<ContextNode>, m: int)
    requires
        0 <= m <= nodes.len(),
        forall|node: ContextNode| #[trigger] placed(nodes, node) ==> placed(target, node),
    ensures
        new_places(target, nodes.take(m)).len() == 0,
    decreases m,
{
    if m > 0 {
        let part = nodes.take(m);
        lemma_nothing_new(target, nodes, m - 1);
        assert(part.drop_last() =~= nodes.take(m - 1));
        assert(same_place(nodes[m - 1], part.last()));
        assert(placed(nodes, part.last()));
    }
}

} // verus!
