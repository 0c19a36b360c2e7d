//! What is put right when the store starts: ingest tasks that were interrupted, results that
//! disagree with their tasks, and artifacts that only a result still holds.

use vstd::prelude::*;
use vstd::string::*;

use crate::data::{ArtifactKeyView, ParseArtifactKey};
use crate::error::{ApiError, ErrorView};
use crate::grouping::{lists_values, sorted_values};
use crate::hydration::{domain_fails, HydrationFailure, HydrationStage};
use crate::ingest::{
    apply_ingest_task_transition, is_nonterminal_ingest_state, moved, under_way,
    INGEST_ERROR_INTERRUPTED,
};
use crate::merge::{inserted_all, insert_rows};
use crate::model::ingest::{IngestTask, IngestTaskResult, ParseArtifact};
use crate::model::operation::{resource_views, OperationResource, ResourceView};
use crate::operations::{distinct, MutationPrimary};
use crate::order::{find_where, first_where, strict_order};
use crate::record::{select, Record, Row};
use crate::table::Table;
use crate::text::{
    opt_eq, opt_text, text_before, text_eq, text_lt, text_lt_irreflexive, text_lt_total,
    text_lt_transitive, texts, texts_add, texts_contain, texts_push,
};

verus! {

/// A task after the start: one that was under way has failed.
pub open spec fn recovered_task(before: IngestTask, after: IngestTask, now: i64) -> bool {
    if under_way(before.state@) {
        moved(before, after, "failed"@, Some(INGEST_ERROR_INTERRUPTED@), now)
    } else {
        after == before
    }
}

/// The ids of the tasks that were under way, in order.
pub open spec fn interrupted_ids(tasks: Seq<IngestTask>) -> Seq<Seq<char>>
    decreases tasks.len(),
{
    if tasks.len() == 0 {
        Seq::empty()
    } else if under_way(tasks.last().state@) {
        interrupted_ids(tasks.drop_last()).push(tasks.last().task_id@)
    } else {
        interrupted_ids(tasks.drop_last())
    }
}

/// Fails every task that was under way; says which those are.
pub fn recover_tasks(tasks: &mut Vec<IngestTask>, now: i64) -> (r: Vec<String>)
    ensures
        final(tasks)@.len() == old(tasks)@.len(),
        forall|i: int|
            0 <= i < old(tasks)@.len() ==> recovered_task(
                old(tasks)@[i],
                #[trigger] final(tasks)@[i],
                now,
            ),
        texts(r@) == distinct(interrupted_ids(old(tasks)@)),
{
    let mut ids: Vec<String> = Vec::new();
    let ghost all = tasks@;
    let mut i: usize = 0;
    assert(texts(ids@) =~= Seq::<Seq<char>>::empty());
    while i < tasks.len()
        invariant
            i <= tasks@.len() == all.len(),
            all == old(tasks)@,
            forall|j: int| 0 <= j < i ==> recovered_task(all[j], #[trigger] tasks@[j], now),
            forall|j: int| i <= j < all.len() ==> #[trigger] tasks@[j] == all[j],
            texts(ids@) == distinct(interrupted_ids(all.take(i as int))),
        decreases tasks@.len() - i,
    {
        assert(all.take(i + 1).drop_last() =~= all.take(i as int));
        if is_nonterminal_ingest_state(tasks[i].state.as_str()) {
            let mut task: IngestTask = tasks[i].clone();
            apply_ingest_task_transition(&mut task, "failed", Some(INGEST_ERROR_INTERRUPTED), now);
            let ghost before_ids = interrupted_ids(all.take(i as int));
            let ghost ids0 = ids@;
            assert(before_ids.push(task.task_id@).drop_last() =~= before_ids);
            proof {
                texts_push(ids0, task.task_id);
            }
            texts_add(&mut ids, task.task_id.clone());
            tasks.set(i, task);
        }
        i += 1;
    }
    assert(all.take(i as int) =~= all);
    ids
}

/// A result that tells of its task what the task itself says.
pub open spec fn corrected(result: IngestTaskResult, tasks: Seq<IngestTask>) -> IngestTaskResult {
    let at = first_where(tasks, |task: IngestTask| task.task_id@ == result.task.task_id@);
    if 0 <= at < tasks.len() && !result.task.same_as(&tasks[at]) {
        IngestTaskResult { task: tasks[at], ..result }
    } else {
        result
    }
}

/// Whether a result disagrees with its task.
pub open spec fn disagrees(result: IngestTaskResult, tasks: Seq<IngestTask>) -> bool {
    let at = first_where(tasks, |task: IngestTask| task.task_id@ == result.task.task_id@);
    0 <= at < tasks.len() && !result.task.same_as(&tasks[at])
}

/// The ids of the tasks with which a result disagrees, in order.
pub open spec fn corrected_ids(results: Seq<IngestTaskResult>, tasks: Seq<IngestTask>) -> Seq<
    Seq<char>,
>
    decreases results.len(),
{
    if results.len() == 0 {
        Seq::empty()
    } else if disagrees(results.last(), tasks) {
        corrected_ids(results.drop_last(), tasks).push(results.last().task.task_id@)
    } else {
        corrected_ids(results.drop_last(), tasks)
    }
}

/// The results, each telling of its task what the task itself says.
pub open spec fn all_corrected(results: Seq<IngestTaskResult>, tasks: Seq<IngestTask>) -> Seq<
    IngestTaskResult,
> {
    Seq::new(results.len(), |i: int| corrected(results[i], tasks))
}

/// Makes every result tell of its task what the task itself says; says which tasks those are.
pub fn recover_results(results: &mut Vec<IngestTaskResult>, tasks: &Vec<IngestTask>) -> (r: Vec<
    String,
>)
    ensures
        final(results)@ == all_corrected(old(results)@, tasks@),
        texts(r@) == distinct(corrected_ids(old(results)@, tasks@)),
{
    let mut ids: Vec<String> = Vec::new();
    let ghost all = results@;
    let mut i: usize = 0;
    assert(texts(ids@) =~= Seq::<Seq<char>>::empty());
    while i < results.len()
        invariant
            i <= results@.len() == all.len(),
            all == old(results)@,
            forall|j: int| 0 <= j < i ==> #[trigger] results@[j] == corrected(all[j], tasks@),
            forall|j: int| i <= j < all.len() ==> #[trigger] results@[j] == all[j],
            texts(ids@) == distinct(corrected_ids(all.take(i as int), tasks@)),
        decreases results@.len() - i,
    {
        assert(all.take(i + 1).drop_last() =~= all.take(i as int));
        let mut result: IngestTaskResult = results[i].clone();
        let wanted: String = result.task.task_id.clone();
        let ghost p = |task: IngestTask| task.task_id@ == result.task.task_id@;
        let accept = |task: &IngestTask| -> (b: bool)
            ensures
                b == p(*task),
            { text_eq(task.task_id.as_str(), wanted.as_str()) };
        let at: usize = find_where(tasks, accept, Ghost(p));
        if at < tasks.len() && !result.task.same(&tasks[at]) {
            let ghost before_ids = corrected_ids(all.take(i as int), tasks@);
            assert(before_ids.push(wanted@).drop_last() =~= before_ids);
            proof {
                texts_push(ids@, wanted);
            }
            texts_add(&mut ids, wanted);
            result.task = tasks[at].clone();
            results.set(i, result);
        }
        i += 1;
    }
    assert(all.take(i as int) =~= all);
    assert(results@ =~= all_corrected(all, tasks@));
    ids
}

/// Whether every artifact belongs to a tenant.
pub open spec fn of_tenant(artifacts: Seq<ParseArtifact>, tenant_id: Seq<char>) -> bool {
    forall|i: int| 0 <= i < artifacts.len() ==> (#[trigger] artifacts[i]).tenant_id@ == tenant_id
}

/// Refuses artifacts of another tenant.
pub fn ensure_artifacts_in_scope(artifacts: &Vec<ParseArtifact>, tenant_id: &str) -> (r: Result<
    (),
    HydrationFailure,
>)
    ensures
        if of_tenant(artifacts@, tenant_id@) {
            r is Ok
        } else {
            domain_fails(
                r,
                "parse_artifacts"@,
                ErrorView::Internal("parse artifact row does not match its tenant scope"@),
            )
        },
{
    let mut i: usize = 0;
    while i < artifacts.len()
        invariant
            i <= artifacts.len(),
            forall|j: int| 0 <= j < i ==> (#[trigger] artifacts@[j]).tenant_id@ == tenant_id@,
        decreases artifacts.len() - i,
    {
        if !text_eq(artifacts[i].tenant_id.as_str(), tenant_id) {
            return Err(
                HydrationFailure {
                    domain: "parse_artifacts",
                    error: ApiError::internal("parse artifact row does not match its tenant scope"),
                },
            );
        }
        i += 1;
    }
    Ok(())
}

/// Whether an artifact of a result belongs to the tenant and to the owner of the task.
pub open spec fn artifact_in_scope(
    artifact: ParseArtifact,
    result: IngestTaskResult,
    tenant_id: Seq<char>,
) -> bool {
    artifact.tenant_id@ == tenant_id && opt_text(artifact.owner_user_id) == opt_text(
        result.task.owner_user_id,
    )
}

/// Whether every artifact of a result belongs to the tenant and to the owner of the task.
pub open spec fn result_in_scope(result: IngestTaskResult, tenant_id: Seq<char>) -> bool {
    forall|i: int|
        0 <= i < result.parse_artifacts@.len() ==> artifact_in_scope(
            #[trigger] result.parse_artifacts@[i],
            result,
            tenant_id,
        )
}

/// Whether every artifact of every result belongs to the tenant and to the owner of its task.
pub open spec fn results_in_scope(results: Seq<IngestTaskResult>, tenant_id: Seq<char>) -> bool {
    forall|i: int| 0 <= i < results.len() ==> result_in_scope(#[trigger] results[i], tenant_id)
}

fn check_result_scope(result: &IngestTaskResult, tenant_id: &str) -> (r: bool)
    ensures
        r == result_in_scope(*result, tenant_id@),
{
    let mut i: usize = 0;
    while i < result.parse_artifacts.len()
        invariant
            i <= result.parse_artifacts@.len(),
            forall|j: int|
                0 <= j < i ==> artifact_in_scope(
                    #[trigger] result.parse_artifacts@[j],
                    *result,
                    tenant_id@,
                ),
        decreases result.parse_artifacts@.len() - i,
    {
        let artifact: &ParseArtifact = &result.parse_artifacts[i];
        if !text_eq(artifact.tenant_id.as_str(), tenant_id) || !opt_eq(
            &artifact.owner_user_id,
            &result.task.owner_user_id,
        ) {
            assert(!artifact_in_scope(
                result.parse_artifacts@[i as int],
                *result,
                tenant_id@,
            ));
            return false;
        }
        i += 1;
    }
    true
}

fn check_results_scope(results: &Vec<IngestTaskResult>, tenant_id: &str) -> (r: bool)
    ensures
        r == results_in_scope(results@, tenant_id@),
{
    let mut i: usize = 0;
    while i < results.len()
        invariant
            i <= results@.len(),
            forall|j: int| 0 <= j < i ==> result_in_scope(#[trigger] results@[j], tenant_id@),
        decreases results@.len() - i,
    {
        if !check_result_scope(&results[i], tenant_id) {
            assert(!result_in_scope(results@[i as int], tenant_id@));
            return false;
        }
        i += 1;
    }
    true
}

/// The artifacts of the results, in order.
pub open spec fn result_artifacts(results: Seq<IngestTaskResult>) -> Seq<ParseArtifact>
    decreases results.len(),
{
    if results.len() == 0 {
        Seq::empty()
    } else {
        result_artifacts(results.drop_last()) + results.last().parse_artifacts@
    }
}

fn gather_artifacts(results: &Vec<IngestTaskResult>) -> (r: Vec<ParseArtifact>)
    ensures
        r@ == result_artifacts(results@),
{
    let mut out: Vec<ParseArtifact> = Vec::new();
    let mut i: usize = 0;
    while i < results.len()
        invariant
            i <= results.len(),
            out@ == result_artifacts(results@.take(i as int)),
        decreases results.len() - i,
    {
        assert(results@.take(i + 1).drop_last() =~= results@.take(i as int));
        let ghost before = out@;
        let list: &Vec<ParseArtifact> = &results[i].parse_artifacts;
        let mut j: usize = 0;
        while j < list.len()
            invariant
                j <= list@.len(),
                out@ == before + list@.take(j as int),
            decreases list@.len() - j,
        {
            out.push(list[j].clone());
            j += 1;
            assert(list@.take(j as int) =~= list@.take(j - 1).push(list@[j - 1]));
            assert(out@ =~= before + list@.take(j as int));
        }
        assert(list@.take(j as int) =~= list@);
        i += 1;
    }
    assert(results@.take(i as int) =~= results@);
    out
}

/// Artifacts by key, with those of `more` whose key had none.
pub open spec fn completed(
    m: Map<ArtifactKeyView, ParseArtifact>,
    more: Seq<ParseArtifact>,
) -> Map<ArtifactKeyView, ParseArtifact>
    decreases more.len(),
{
    if more.len() == 0 {
        m
    } else {
        let rest = completed(m, more.drop_last());
        if rest.dom().contains(more.last().key()) {
            rest
        } else {
            rest.insert(more.last().key(), more.last())
        }
    }
}

/// The artifacts of `more` whose key had none, in order.
pub open spec fn missing(
    m: Map<ArtifactKeyView, ParseArtifact>,
    more: Seq<ParseArtifact>,
) -> Seq<ParseArtifact>
    decreases more.len(),
{
    if more.len() == 0 {
        Seq::empty()
    } else if completed(m, more.drop_last()).dom().contains(more.last().key()) {
        missing(m, more.drop_last())
    } else {
        missing(m, more.drop_last()).push(more.last())
    }
}

fn complete(t: &mut Table<ParseArtifactKey, ParseArtifact>, more: &Vec<ParseArtifact>) -> (r: Vec<
    ParseArtifact,
>)
    ensures
        final(t)@ == completed(old(t)@, more@),
        r@ == missing(old(t)@, more@),
{
    let mut out: Vec<ParseArtifact> = Vec::new();
    let mut i: usize = 0;
    while i < more.len()
        invariant
            i <= more.len(),
            t@ == completed(old(t)@, more@.take(i as int)),
            out@ == missing(old(t)@, more@.take(i as int)),
        decreases more.len() - i,
    {
        assert(more@.take(i + 1).drop_last() =~= more@.take(i as int));
        let key: ParseArtifactKey = ParseArtifactKey::from_artifact(&more[i]);
        if !t.contains_key(&key) {
            out.push(more[i].clone());
            t.insert(key, more[i].clone());
        }
        i += 1;
    }
    assert(more@.take(i as int) =~= more@);
    out
}

/// Whether an optional text comes before another; an absent one comes first.
pub open spec fn opt_lt(a: Option<Seq<char>>, b: Option<Seq<char>>) -> bool {
    match (a, b) {
        (None, Some(_)) => true,
        (Some(x), Some(y)) => text_lt(x, y),
        _ => false,
    }
}

/// Whether an artifact comes before another: by age, then by id, then by owner.
pub open spec fn artifact_lt(a: ParseArtifact, b: ParseArtifact) -> bool {
    a.created_at < b.created_at || (a.created_at == b.created_at && (text_lt(a.id@, b.id@) || (a.id@
        == b.id@ && opt_lt(opt_text(a.owner_user_id), opt_text(b.owner_user_id)))))
}

/// The order of artifacts.
pub open spec fn by_age() -> spec_fn(ParseArtifact, ParseArtifact) -> bool {
    |a: ParseArtifact, b: ParseArtifact| artifact_lt(a, b)
}

proof fn lemma_opt_lt(a: Option<Seq<char>>, b: Option<Seq<char>>, c: Option<Seq<char>>)
    ensures
        opt_lt(a, b) ==> !opt_lt(b, a),
        !opt_lt(b, a) && !opt_lt(c, b) ==> !opt_lt(c, a),
        !opt_lt(a, b) && !opt_lt(b, a) ==> a == b,
{
    if a is Some && b is Some {
        lemma_text_order(a->Some_0, b->Some_0, if c is Some {
            c->Some_0
        } else {
            a->Some_0
        });
    }
}

proof fn lemma_text_order(a: Seq<char>, b: Seq<char>, c: Seq<char>)
    ensures
        text_lt(a, b) ==> !text_lt(b, a),
        !text_lt(b, a) && !text_lt(c, b) ==> !text_lt(c, a),
        !text_lt(a, b) && !text_lt(b, a) ==> a == b,
{
    text_lt_total(a, b);
    text_lt_total(b, c);
    text_lt_irreflexive(a);
    text_lt_irreflexive(c);
    if text_lt(a, b) && text_lt(b, a) {
        text_lt_transitive(a, b, a);
    }
    if !text_lt(b, a) && !text_lt(c, b) && text_lt(c, a) {
        if text_lt(a, b) {
            text_lt_transitive(c, a, b);
        }
    }
}

/// The order of artifacts is strict.
pub proof fn artifact_order_is_strict()
    ensures
        strict_order(by_age()),
{
    let lt = by_age();
    assert forall|a: ParseArtifact, b: ParseArtifact| lt(a, b) implies !#[trigger] lt(b, a) by {
        lemma_text_order(a.id@, b.id@, a.id@);
        lemma_opt_lt(
            opt_text(a.owner_user_id),
            opt_text(b.owner_user_id),
            opt_text(a.owner_user_id),
        );
    }
    assert forall|a: ParseArtifact, b: ParseArtifact, c: ParseArtifact|
        !#[trigger] lt(b, a) && !#[trigger] lt(c, b) implies !lt(c, a) by {
        lemma_text_order(a.id@, b.id@, c.id@);
        lemma_text_order(b.id@, c.id@, a.id@);
        lemma_text_order(c.id@, a.id@, b.id@);
        lemma_opt_lt(
            opt_text(a.owner_user_id),
            opt_text(b.owner_user_id),
            opt_text(c.owner_user_id),
        );
    }
}

fn artifact_before(a: &ParseArtifact, b: &ParseArtifact) -> (r: bool)
    ensures
        r == artifact_lt(*a, *b),
{
    if a.created_at != b.created_at {
        return a.created_at < b.created_at;
    }
    proof {
        text_lt_irreflexive(a.id@);
    }
    if !text_eq(a.id.as_str(), b.id.as_str()) {
        return text_before(a.id.as_str(), b.id.as_str());
    }
    match (&a.owner_user_id, &b.owner_user_id) {
        (None, Some(_)) => true,
        (Some(x), Some(y)) => text_before(x.as_str(), y.as_str()),
        _ => false,
    }
}

fn list_artifacts(t: &Table<ParseArtifactKey, ParseArtifact>) -> (r: Vec<ParseArtifact>)
    ensures
        lists_values(r@, t@, by_age()),
{
    let ghost lt = by_age();
    let before = |a: &ParseArtifact, b: &ParseArtifact| -> (c: bool)
        ensures
            c == lt(*a, *b),
        { artifact_before(a, b) };
    proof {
        artifact_order_is_strict();
    }
    sorted_values(t, before, Ghost(lt))
}

/// The repairs that the start has to make durable.
pub struct IngestRecovery {
    pub resources: Vec<OperationResource>,
    pub primary_kind: MutationPrimary,
    pub domain: &'static str,
}

/// The tasks whose id is among `ids`.
pub open spec fn tasks_among(tasks: Seq<IngestTask>, ids: Seq<Seq<char>>) -> Seq<IngestTask> {
    tasks.filter(|task: IngestTask| ids.contains(task.task_id@))
}

/// The results of the tasks whose id is among `ids`.
pub open spec fn results_among(results: Seq<IngestTaskResult>, ids: Seq<Seq<char>>) -> Seq<
    IngestTaskResult,
> {
    results.filter(|result: IngestTaskResult| ids.contains(result.task.task_id@))
}

/// One repair to each of `results`.
pub open spec fn result_repairs(results: Seq<IngestTaskResult>) -> Seq<ResourceView> {
    Seq::new(results.len(), |i: int| ResourceView::IngestResult { result: results[i] })
}

/// The repairs: the tasks, then the artifacts, then the results, where there are any.
pub open spec fn repairs(
    tasks: Seq<IngestTask>,
    artifacts: Seq<ParseArtifact>,
    results: Seq<IngestTaskResult>,
) -> Seq<ResourceView> {
    (if tasks.len() > 0 {
        seq![ResourceView::IngestTasks { tasks }]
    } else {
        Seq::empty()
    }) + (if artifacts.len() > 0 {
        seq![ResourceView::ParseArtifacts { artifacts }]
    } else {
        Seq::empty()
    }) + result_repairs(results)
}

/// Whether a recovery makes these repairs, the first one primary.
pub open spec fn recovers(
    recovery: IngestRecovery,
    tasks: Seq<IngestTask>,
    artifacts: Seq<ParseArtifact>,
    results: Seq<IngestTaskResult>,
) -> bool {
    &&& resource_views(recovery.resources@) == repairs(tasks, artifacts, results)
    &&& if tasks.len() > 0 {
        recovery.primary_kind == MutationPrimary::IngestTask && recovery.domain@ == "ingest_tasks"@
    } else if artifacts.len() > 0 {
        recovery.primary_kind == MutationPrimary::ParseArtifacts && recovery.domain@
            == "parse_artifacts"@
    } else {
        recovery.primary_kind == MutationPrimary::IngestResult && recovery.domain@
            == "ingest_results"@
    }
}

fn repair_list(
    tasks: Vec<IngestTask>,
    artifacts: Vec<ParseArtifact>,
    results: Vec<IngestTaskResult>,
) -> (r: Option<IngestRecovery>)
    ensures
        match r {
            Some(recovery) => repairs(tasks@, artifacts@, results@).len() > 0 && recovers(
                recovery,
                tasks@,
                artifacts@,
                results@,
            ),
            None => tasks@.len() == 0 && artifacts@.len() == 0 && results@.len() == 0,
        },
{
    let ghost ts = tasks@;
    let ghost arts = artifacts@;
    let has_tasks: bool = tasks.len() > 0;
    let has_artifacts: bool = artifacts.len() > 0;
    if !has_tasks && !has_artifacts && results.len() == 0 {
        return None;
    }
    let mut resources: Vec<OperationResource> = Vec::new();
    if has_tasks {
        resources.push(OperationResource::IngestTasks { tasks: std::sync::Arc::new(tasks) });
    }
    if has_artifacts {
        resources.push(
            OperationResource::ParseArtifacts { artifacts: std::sync::Arc::new(artifacts) },
        );
    }
    let ghost head = resource_views(resources@);
    assert(head =~= repairs(ts, arts, Seq::empty()));
    let mut i: usize = 0;
    while i < results.len()
        invariant
            i <= results@.len(),
            resource_views(resources@) == head + result_repairs(results@.take(i as int)),
        decreases results@.len() - i,
    {
        let ghost before = resources@;
        resources.push(OperationResource::IngestResult { result: results[i].clone() });
        i += 1;
        assert(resource_views(resources@) =~= resource_views(before).push(
            ResourceView::IngestResult { result: results@[i - 1] },
        ));
        assert(result_repairs(results@.take(i as int)) =~= result_repairs(
            results@.take(i - 1),
        ).push(ResourceView::IngestResult { result: results@[i - 1] }));
        assert(resource_views(resources@) =~= head + result_repairs(results@.take(i as int)));
    }
    assert(results@.take(i as int) =~= results@);
    assert(head + result_repairs(results@) =~= repairs(ts, arts, results@));
    let (primary_kind, domain): (MutationPrimary, &'static str) = if has_tasks {
        (MutationPrimary::IngestTask, "ingest_tasks")
    } else if has_artifacts {
        (MutationPrimary::ParseArtifacts, "parse_artifacts")
    } else {
        (MutationPrimary::IngestResult, "ingest_results")
    };
    Some(IngestRecovery { resources, primary_kind, domain })
}

/// The first repair of a recovery is one that can be primary.
pub proof fn a_recovery_starts_with_its_primary(
    recovery: IngestRecovery,
    tasks: Seq<IngestTask>,
    artifacts: Seq<ParseArtifact>,
    results: Seq<IngestTaskResult>,
)
    requires
        recovers(recovery, tasks, artifacts, results),
        repairs(tasks, artifacts, results).len() > 0,
    ensures
        recovery.resources@.len() > 0,
        recovery.primary_kind.accepts(recovery.resources@[0]@),
{
    let views = resource_views(recovery.resources@);
    assert(views[0] == recovery.resources@[0]@);
    assert(views[0] == repairs(tasks, artifacts, results)[0]);
}

/// The artifacts that were loaded, by key.
pub open spec fn loaded_artifacts(artifacts: Seq<ParseArtifact>) -> Map<
    ArtifactKeyView,
    ParseArtifact,
> {
    inserted_all::<ParseArtifactKey, ParseArtifact>(Map::empty(), artifacts)
}

/// What was put right in a stage.
pub open spec fn stage_recovered(
    before: HydrationStage,
    after: HydrationStage,
    recovery: Option<IngestRecovery>,
    now: i64,
) -> bool {
    let ids = distinct(interrupted_ids(before.ingest_tasks@));
    let m = loaded_artifacts(before.parse_artifacts@);
    let more = result_artifacts(after.ingest_results@);
    let tasks = tasks_among(after.ingest_tasks@, ids);
    let results = results_among(
        after.ingest_results@,
        distinct(corrected_ids(before.ingest_results@, after.ingest_tasks@)),
    );
    &&& after == (HydrationStage {
        ingest_tasks: after.ingest_tasks,
        ingest_results: after.ingest_results,
        parse_artifacts: after.parse_artifacts,
        recovered_ingest_tasks: after.recovered_ingest_tasks,
        recovered_parse_artifacts: after.recovered_parse_artifacts,
        ..before
    })
    &&& after.ingest_tasks@.len() == before.ingest_tasks@.len()
    &&& forall|i: int|
        0 <= i < before.ingest_tasks@.len() ==> recovered_task(
            before.ingest_tasks@[i],
            #[trigger] after.ingest_tasks@[i],
            now,
        )
    &&& after.recovered_ingest_tasks == ids.len()
    &&& after.ingest_results@ == all_corrected(before.ingest_results@, after.ingest_tasks@)
    &&& lists_values(after.parse_artifacts@, completed(m, more), by_age())
    &&& after.recovered_parse_artifacts == missing(m, more).len()
    &&& match recovery {
        Some(r) => repairs(tasks, missing(m, more), results).len() > 0 && recovers(
            r,
            tasks,
            missing(m, more),
            results,
        ),
        None => tasks.len() == 0 && missing(m, more).len() == 0 && results.len() == 0,
    }
}

/// Puts a stage right and says which repairs have to be made durable. A result with an artifact of
/// another tenant or owner is refused.
pub fn recover_ingest(stage: &mut HydrationStage, tenant_id: &str, now: i64) -> (r: Result<
    Option<IngestRecovery>,
    HydrationFailure,
>)
    ensures
        match r {
            Ok(recovery) => {
                &&& results_in_scope(final(stage).ingest_results@, tenant_id@)
                &&& stage_recovered(*old(stage), *final(stage), recovery, now)
            },
            Err(_) => {
                &&& !results_in_scope(final(stage).ingest_results@, tenant_id@)
                &&& final(stage).ingest_results@ == all_corrected(
                    old(stage).ingest_results@,
                    final(stage).ingest_tasks@,
                )
                &&& final(stage).ingest_tasks@.len() == old(stage).ingest_tasks@.len()
                &&& forall|i: int|
                    0 <= i < old(stage).ingest_tasks@.len() ==> recovered_task(
                        old(stage).ingest_tasks@[i],
                        #[trigger] final(stage).ingest_tasks@[i],
                        now,
                    )
                &&& domain_fails(
                    r,
                    "parse_artifacts"@,
                    ErrorView::Internal("ingest-result artifact does not match its task scope"@),
                )
            },
        },
{
    let recovered_ids: Vec<String> = recover_tasks(&mut stage.ingest_tasks, now);
    let corrected: Vec<String> = recover_results(&mut stage.ingest_results, &stage.ingest_tasks);
    stage.recovered_ingest_tasks = recovered_ids.len();
    if !check_results_scope(&stage.ingest_results, tenant_id) {
        return Err(
            HydrationFailure {
                domain: "parse_artifacts",
                error: ApiError::internal("ingest-result artifact does not match its task scope"),
            },
        );
    }
    let mut by_key: Table<ParseArtifactKey, ParseArtifact> = Table::new();
    insert_rows(&mut by_key, &stage.parse_artifacts);
    let more: Vec<ParseArtifact> = gather_artifacts(&stage.ingest_results);
    let recovered_artifacts: Vec<ParseArtifact> = complete(&mut by_key, &more);
    stage.recovered_parse_artifacts = recovered_artifacts.len();
    stage.parse_artifacts = list_artifacts(&by_key);
    let ghost ids = texts(recovered_ids@);
    let ghost p = |task: IngestTask| ids.contains(task.task_id@);
    let among = |task: &IngestTask| -> (b: bool)
        ensures
            b == p(*task),
        { texts_contain(&recovered_ids, task.task_id.as_str()) };
    let recovered_tasks: Vec<IngestTask> = select(&stage.ingest_tasks, among, Ghost(p));
    let ghost cids = texts(corrected@);
    let ghost q = |result: IngestTaskResult| cids.contains(result.task.task_id@);
    let changed = |result: &IngestTaskResult| -> (b: bool)
        ensures
            b == q(*result),
        { texts_contain(&corrected, result.task.task_id.as_str()) };
    let corrected_results: Vec<IngestTaskResult> = select(
        &stage.ingest_results,
        changed,
        Ghost(q),
    );
    assert(texts(recovered_ids@).len() == recovered_ids@.len());
    Ok(repair_list(recovered_tasks, recovered_artifacts, corrected_results))
}

/// After the start no task is under way.
pub proof fn no_task_is_left_under_way(before: IngestTask, after: IngestTask, now: i64)
    requires
        recovered_task(before, after, now),
    ensures
        !under_way(after.state@),
        after.task_id@ == before.task_id@,
{
    if under_way(before.state@) {
        if under_way("failed"@) {
            crate::ingest::a_task_under_way_has_not_ended("failed"@);
        }
    }
}

} // verus!
