//! What is made good when a store is loaded: tasks that were cut off are told to be, results
//! follow their tasks, and no artifact that a result holds is lost.

use vstd::prelude::*;

use crate::data::ArtifactKeyView;
use crate::hydration::{
    is_initial, recovered_in, HydrationDomainReport, HydrationReport, HydrationStage,
    HydrationStatus,
};
use crate::loading::{holds_rows, stage_fault, StageRows};
use crate::model::ingest::{IngestTask, IngestTaskResult, ParseArtifact};
use crate::model::knowledge::UserEventIndex;
use crate::model::operation::{resource_views, ResourceView};
use crate::order::{first_where, first_where_facts};
use crate::record::{Record, Row};
use crate::recovery::{
    completed, corrected, interrupted_ids, missing, recovered_task, recovers, results_in_scope,
    IngestRecovery,
};
use crate::text::opt_text;

verus! {

/// A task that was under way is failed when the store is loaded, at that time; one that had ended
/// is left as it was.
pub proof fn a_task_cut_off_is_failed(before: IngestTask, after: IngestTask, now: i64)
    requires
        recovered_task(before, after, now),
    ensures
        ({
            let cut_off = before.state@ == "queued"@ || before.state@ == "parsing"@
                || before.state@ == "parsed"@ || before.state@ == "fragmenting"@ || before.state@
                == "indexing"@;
            &&& cut_off ==> after.state@ == "failed"@ && after.updated_at == now
            &&& !cut_off ==> after == before
            &&& after.task_id@ == before.task_id@
            &&& after.tenant_id@ == before.tenant_id@
            &&& opt_text(after.owner_user_id) == opt_text(before.owner_user_id)
        }),
{
}

/// The ids of the tasks that were cut off are those of the tasks that were under way.
pub proof fn the_tasks_cut_off_are_those_under_way(tasks: Seq<IngestTask>, id: Seq<char>)
    ensures
        interrupted_ids(tasks).contains(id) <==> exists|i: int|
            0 <= i < tasks.len() && crate::ingest::under_way((#[trigger] tasks[i]).state@)
                && tasks[i].task_id@ == id,
    decreases tasks.len(),
{
    if tasks.len() > 0 {
        let front = tasks.drop_last();
        let n = tasks.len() - 1;
        the_tasks_cut_off_are_those_under_way(front, id);
        let rest = interrupted_ids(front);
        let all = interrupted_ids(tasks);
        assert(forall|i: int| 0 <= i < n ==> #[trigger] front[i] == tasks[i]);
        assert(tasks.last() == tasks[n]);
        if rest.contains(id) {
            let k = choose|k: int| 0 <= k < rest.len() && rest[k] == id;
            assert(all[k] == id);
            let i = choose|i: int|
                0 <= i < front.len() && crate::ingest::under_way((#[trigger] front[i]).state@)
                    && front[i].task_id@ == id;
            assert(tasks[i] == front[i]);
        }
        if all.contains(id) && !rest.contains(id) {
            let k = choose|k: int| 0 <= k < all.len() && all[k] == id;
            if k < rest.len() {
                assert(rest[k] == id);
            }
            assert(crate::ingest::under_way(tasks[n].state@) && tasks[n].task_id@ == id);
        }
        if crate::ingest::under_way(tasks[n].state@) && tasks[n].task_id@ == id {
            assert(all[rest.len() as int] == id);
        }
        if exists|i: int|
            0 <= i < tasks.len() && crate::ingest::under_way((#[trigger] tasks[i]).state@)
                && tasks[i].task_id@ == id {
            let i = choose|i: int|
                0 <= i < tasks.len() && crate::ingest::under_way((#[trigger] tasks[i]).state@)
                    && tasks[i].task_id@ == id;
            if i < n {
                assert(front[i] == tasks[i]);
            }
        }
    }
}

/// A result tells of its task as the task now stands, and of all else as it did.
pub proof fn a_result_follows_its_task(
    result: IngestTaskResult,
    tasks: Seq<IngestTask>,
    i: int,
)
    requires
        0 <= i < tasks.len(),
        tasks[i].task_id@ == result.task.task_id@,
        forall|j: int| 0 <= j < i ==> (#[trigger] tasks[j]).task_id@ != result.task.task_id@,
    ensures
        corrected(result, tasks).task == tasks[i] || (result.task.same_as(&tasks[i]) && corrected(
            result,
            tasks,
        ).task == result.task),
        corrected(result, tasks).parse_artifacts@ == result.parse_artifacts@,
        corrected(result, tasks).parsed_blocks@ == result.parsed_blocks@,
{
    let p = |task: IngestTask| task.task_id@ == result.task.task_id@;
    first_where_facts(tasks, p);
    let at = first_where(tasks, p);
    assert(p(tasks[i]));
    if at > i {
        assert(!p(tasks[i]));
    }
    if at < i {
        assert(p(tasks[at]));
    }
    assert(at == i);
    assert(at == first_where(tasks, |task: IngestTask| task.task_id@ == result.task.task_id@));
}

/// Artifacts are made complete: those that are there stay as they are, and every one of the others
/// has its place.
pub proof fn no_artifact_is_lost(
    m: Map<ArtifactKeyView, ParseArtifact>,
    more: Seq<ParseArtifact>,
)
    ensures
        forall|k: ArtifactKeyView| #[trigger]
            m.dom().contains(k) ==> completed(m, more).dom().contains(k) && completed(m, more)[k]
                == m[k],
        forall|i: int|
            0 <= i < more.len() ==> completed(m, more).dom().contains((#[trigger] more[i]).key()),
        forall|k: ArtifactKeyView| #[trigger]
            completed(m, more).dom().contains(k) && !m.dom().contains(k) ==> more.contains(
                completed(m, more)[k],
            ) && completed(m, more)[k].key() == k,
    decreases more.len(),
{
    if more.len() > 0 {
        let front = more.drop_last();
        let n = more.len() - 1;
        no_artifact_is_lost(m, front);
        let rest = completed(m, front);
        assert(forall|i: int| 0 <= i < n ==> #[trigger] front[i] == more[i]);
        assert(more.last() == more[n]);
        assert forall|i: int| 0 <= i < more.len() implies completed(m, more).dom().contains(
            (#[trigger] more[i]).key(),
        ) by {
            if i < n {
                assert(rest.dom().contains(front[i].key()));
            }
        }
        assert forall|k: ArtifactKeyView| #[trigger]
            completed(m, more).dom().contains(k) && !m.dom().contains(k) implies more.contains(
            completed(m, more)[k],
        ) && completed(m, more)[k].key() == k by {
            if rest.dom().contains(k) {
                assert(front.contains(rest[k]));
                let j = choose|j: int| 0 <= j < front.len() && front[j] == rest[k];
                assert(more[j] == rest[k]);
            } else {
                assert(more[n] == completed(m, more)[k]);
            }
        }
    }
}

/// The artifacts that were missing are some of those that are added, under keys that were not
/// there before, and there is one for each such key.
pub proof fn the_missing_are_those_not_there(
    m: Map<ArtifactKeyView, ParseArtifact>,
    more: Seq<ParseArtifact>,
)
    ensures
        forall|x: ParseArtifact| #[trigger]
            missing(m, more).contains(x) ==> more.contains(x) && !m.dom().contains(x.key()),
        forall|i: int|
            0 <= i < more.len() && !m.dom().contains((#[trigger] more[i]).key()) ==> exists|k: int|
                0 <= k < missing(m, more).len() && (#[trigger] missing(m, more)[k]).key()
                    == more[i].key(),
    decreases more.len(),
{
    if more.len() > 0 {
        let front = more.drop_last();
        let n = more.len() - 1;
        the_missing_are_those_not_there(m, front);
        no_artifact_is_lost(m, front);
        let rest = missing(m, front);
        let all = missing(m, more);
        assert(forall|i: int| 0 <= i < n ==> #[trigger] front[i] == more[i]);
        assert(more.last() == more[n]);
        assert forall|x: ParseArtifact| #[trigger] all.contains(x) implies more.contains(x)
            && !m.dom().contains(x.key()) by {
            let k = choose|k: int| 0 <= k < all.len() && all[k] == x;
            if k < rest.len() {
                assert(rest[k] == x);
                assert(rest.contains(x));
                let j = choose|j: int| 0 <= j < front.len() && front[j] == x;
                assert(more[j] == x);
            } else {
                assert(more[n] == x);
            }
        }
        assert forall|i: int|
            0 <= i < more.len() && !m.dom().contains((#[trigger] more[i]).key()) implies exists|
            k: int,
        |
            0 <= k < all.len() && (#[trigger] all[k]).key() == more[i].key() by {
            if i < n {
                assert(front[i] == more[i]);
                let k = choose|k: int|
                    0 <= k < rest.len() && (#[trigger] rest[k]).key() == front[i].key();
                assert(all[k] == rest[k]);
            } else if completed(m, front).dom().contains(more[n].key()) {
                let x = completed(m, front)[more[n].key()];
                assert(front.contains(x));
                let j = choose|j: int| 0 <= j < front.len() && front[j] == x;
                let k = choose|k: int|
                    0 <= k < rest.len() && (#[trigger] rest[k]).key() == front[j].key();
                assert(all[k] == rest[k]);
            } else {
                assert(all[rest.len() as int] == more[n]);
            }
        }
    }
}

/// Results are in scope if and only if each artifact that they hold is of the tenant and of the
/// owner of its task.
pub proof fn results_keep_to_their_scope(results: Seq<IngestTaskResult>, tenant_id: Seq<char>)
    ensures
        results_in_scope(results, tenant_id) <==> forall|i: int, j: int|
            0 <= i < results.len() && 0 <= j < results[i].parse_artifacts@.len() ==> (
            #[trigger] results[i].parse_artifacts@[j]).tenant_id@ == tenant_id && opt_text(
                results[i].parse_artifacts@[j].owner_user_id,
            ) == opt_text(results[i].task.owner_user_id),
{
    if results_in_scope(results, tenant_id) {
        assert forall|i: int, j: int|
            0 <= i < results.len() && 0 <= j < results[i].parse_artifacts@.len() implies (
        #[trigger] results[i].parse_artifacts@[j]).tenant_id@ == tenant_id && opt_text(
            results[i].parse_artifacts@[j].owner_user_id,
        ) == opt_text(results[i].task.owner_user_id) by {
            assert(crate::recovery::result_in_scope(results[i], tenant_id));
        }
    }
    if forall|i: int, j: int|
        0 <= i < results.len() && 0 <= j < results[i].parse_artifacts@.len() ==> (
        #[trigger] results[i].parse_artifacts@[j]).tenant_id@ == tenant_id && opt_text(
            results[i].parse_artifacts@[j].owner_user_id,
        ) == opt_text(results[i].task.owner_user_id) {
        assert forall|i: int| 0 <= i < results.len() implies crate::recovery::result_in_scope(
            #[trigger] results[i],
            tenant_id,
        ) by {}
    }
}

/// What is made good is written: the tasks together, the artifacts together, and each result.
pub proof fn what_is_made_good_is_written(
    recovery: IngestRecovery,
    tasks: Seq<IngestTask>,
    artifacts: Seq<ParseArtifact>,
    results: Seq<IngestTaskResult>,
)
    requires
        recovers(recovery, tasks, artifacts, results),
    ensures
        tasks.len() > 0 ==> resource_views(recovery.resources@).contains(
            ResourceView::IngestTasks { tasks },
        ),
        artifacts.len() > 0 ==> resource_views(recovery.resources@).contains(
            ResourceView::ParseArtifacts { artifacts },
        ),
        forall|i: int|
            0 <= i < results.len() ==> resource_views(recovery.resources@).contains(
                ResourceView::IngestResult { result: #[trigger] results[i] },
            ),
        resource_views(recovery.resources@).len() == results.len() + (if tasks.len() > 0 {
            1int
        } else {
            0int
        }) + (if artifacts.len() > 0 {
            1int
        } else {
            0int
        }),
{
    let all = resource_views(recovery.resources@);
    let a: int = if tasks.len() > 0 {
        1
    } else {
        0
    };
    let b: int = if artifacts.len() > 0 {
        1
    } else {
        0
    };
    assert(all == crate::recovery::repairs(tasks, artifacts, results));
    if tasks.len() > 0 {
        assert(all[0] == ResourceView::IngestTasks { tasks });
    }
    if artifacts.len() > 0 {
        assert(all[a] == ResourceView::ParseArtifacts { artifacts });
    }
    assert forall|i: int| 0 <= i < results.len() implies all.contains(
        ResourceView::IngestResult { result: #[trigger] results[i] },
    ) by {
        assert(all[a + b + i] == ResourceView::IngestResult { result: results[i] });
    }
}

/// A store can be loaded only if the rows of every domain could be had.
pub proof fn no_domain_may_be_missing(rows: StageRows)
    ensures
        stage_fault(rows) is None <==> {
            &&& rows.company_context is Ok && rows.company_context->Ok_0 is Some
            &&& rows.state_items is Ok && rows.state_items->Ok_0 is Some
            &&& rows.insights is Ok && rows.insights->Ok_0 is Some
            &&& rows.links is Ok && rows.links->Ok_0 is Some
            &&& rows.sources is Ok && rows.sources->Ok_0 is Some
            &&& rows.source_revisions is Ok && rows.source_revisions->Ok_0 is Some
            &&& rows.datasets is Ok && rows.datasets->Ok_0 is Some
            &&& rows.snapshots is Ok && rows.snapshots->Ok_0 is Some
            &&& rows.structured_summaries is Ok && rows.structured_summaries->Ok_0 is Some
            &&& rows.sessions is Ok && rows.sessions->Ok_0 is Some
            &&& rows.traces is Ok && rows.traces->Ok_0 is Some
            &&& rows.harness_components is Ok && rows.harness_components->Ok_0 is Some
            &&& rows.harness_revisions is Ok && rows.harness_revisions->Ok_0 is Some
            &&& rows.harness_changes is Ok && rows.harness_changes->Ok_0 is Some
            &&& rows.harness_verdicts is Ok && rows.harness_verdicts->Ok_0 is Some
            &&& rows.eval_cases is Ok && rows.eval_cases->Ok_0 is Some
            &&& rows.eval_runs is Ok && rows.eval_runs->Ok_0 is Some
            &&& rows.ingest_tasks is Ok && rows.ingest_tasks->Ok_0 is Some
            &&& rows.ingest_results is Ok && rows.ingest_results->Ok_0 is Some
            &&& rows.parse_artifacts is Ok && rows.parse_artifacts->Ok_0 is Some
        },
{
}

/// A stage holds the rows that were loaded, all of them as they were, and has made nothing good
/// yet.
pub proof fn a_stage_holds_what_was_loaded(
    stage: HydrationStage,
    rows: StageRows,
    user_indexes: Vec<UserEventIndex>,
)
    requires
        holds_rows(stage, rows, user_indexes),
    ensures
        stage.user_indexes@ == user_indexes@,
        stage.company_context@ == rows.company_context->Ok_0->Some_0@,
        stage.state_items@ == rows.state_items->Ok_0->Some_0@,
        stage.insights@ == rows.insights->Ok_0->Some_0@,
        stage.links@ == rows.links->Ok_0->Some_0@,
        stage.sources@ == rows.sources->Ok_0->Some_0@,
        stage.source_revisions@ == rows.source_revisions->Ok_0->Some_0@,
        stage.datasets@ == rows.datasets->Ok_0->Some_0@,
        stage.snapshots@ == rows.snapshots->Ok_0->Some_0@,
        stage.structured_summaries@ == rows.structured_summaries->Ok_0->Some_0@,
        stage.sessions@ == rows.sessions->Ok_0->Some_0@,
        stage.traces@ == rows.traces->Ok_0->Some_0@,
        stage.harness_components@ == rows.harness_components->Ok_0->Some_0@,
        stage.harness_revisions@ == rows.harness_revisions->Ok_0->Some_0@,
        stage.harness_changes@ == rows.harness_changes->Ok_0->Some_0@,
        stage.harness_verdicts@ == rows.harness_verdicts->Ok_0->Some_0@,
        stage.eval_cases@ == rows.eval_cases->Ok_0->Some_0@,
        stage.eval_runs@ == rows.eval_runs->Ok_0->Some_0@,
        stage.ingest_tasks@ == rows.ingest_tasks->Ok_0->Some_0@,
        stage.ingest_results@ == rows.ingest_results->Ok_0->Some_0@,
        stage.parse_artifacts@ == rows.parse_artifacts->Ok_0->Some_0@,
        stage.operations@.len() == 0,
        stage.recovered_ingest_tasks == 0,
        stage.recovered_parse_artifacts == 0,
{
}

/// A store over a durable backend begins unready and waits to be loaded; any other is ready at
/// once.
pub proof fn a_report_begins_with_its_backend(
    r: HydrationReport,
    tenant_id: Seq<char>,
    backend: Seq<char>,
    now: i64,
)
    requires
        is_initial(r, tenant_id, backend, now),
    ensures
        r.tenant_id@ == tenant_id,
        r.backend@ == backend,
        r.started_at == now,
        r.ready <==> backend != "meili"@,
        r.status == HydrationStatus::Pending <==> backend == "meili"@,
        r.completed_at is Some <==> r.ready,
        forall|i: int|
            0 <= i < r.domains@.len() ==> (#[trigger] r.domains@[i]).loaded == 0
                && r.domains@[i].recovered == 0 && r.domains@[i].error_category is None,
{
}

/// How much was made good in a domain is told by the first report of that name.
pub proof fn what_was_made_good_is_told(
    s: Seq<HydrationDomainReport>,
    name: Seq<char>,
    i: int,
)
    requires
        0 <= i < s.len(),
        s[i].name@ == name,
        forall|j: int| 0 <= j < i ==> (#[trigger] s[j]).name@ != name,
    ensures
        recovered_in(s, name) == s[i].recovered,
    decreases s.len(),
{
    if i > 0 {
        assert(s[0].name@ != name);
        let rest = s.drop_first();
        assert(rest[i - 1] == s[i]);
        assert forall|j: int| 0 <= j < i - 1 implies (#[trigger] rest[j]).name@ != name by {
            assert(rest[j] == s[j + 1]);
        }
        what_was_made_good_is_told(rest, name, i - 1);
    }
}

} // verus!
