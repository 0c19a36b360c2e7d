//! What changes to the retrieval harness can be relied on for: which revision is in use, what a
//! comparison finds and what follows from it.

use vstd::prelude::*;

use crate::components::{
    component_rolled, earlier_revision, is_earlier, is_new_change, iteration_of, last_iteration,
    revision_made, revisions_of, rollback_target, rolled_to, CreateHarnessChangeManifestRequest,
    CreateHarnessComponentRevisionRequest, RollbackHarnessComponentRequest,
};
use crate::data::StoreData;
use crate::documents::{DocumentIngestResult, RetrievalText};
use crate::json::Json;
use crate::laws::choosing::a_filter_keeps_what_it_accepts;
use crate::laws::publishing::{reads, same_but, what_is_put_is_read};
use crate::model::harness::{
    HarnessChangeManifest, HarnessComponentRevision, RagEvalCase, RagEvalCaseResult, RagEvalMetrics,
    RagEvalOverview, RagEvalRun, RegressionGuardResult,
};
use crate::model::ingest::SourceDocument;
use crate::nodes::FragmentChunk;
use crate::order::{any_where, first_where_facts, greatest_last_facts};
use crate::runs::{
    are_case_reports, case_failed, case_reports_stored, guard_broken, history_broken, is_new_case,
    is_run, results_with, run_kept, run_recorded, CreateRagEvalCaseRequest,
};
use crate::text::{opt_text, texts};
use crate::verdicts::{
    by_case, confirmed, confirms, finds_delta, is_delta, latest_run, made_at, made_for,
    matches_label, regressed_ids, run_results, EvalDeltaReport, Finding, RiskCaseResult,
};

verus! {

/// A change that is recorded is proposed, says what was asked for and has the id that was given, else
/// a new one.
pub proof fn a_new_change_is_as_asked(
    c: HarnessChangeManifest,
    req: CreateHarnessChangeManifestRequest,
    tenant_id: Seq<char>,
    new_id: Seq<char>,
    now: i64,
)
    requires
        is_new_change(c, req, tenant_id, new_id, now),
    ensures
        c.status@ == "proposed"@,
        req.id is Some ==> c.id@ == req.id->0@,
        req.id is None ==> c.id@ == new_id,
        req.iteration is Some ==> c.iteration == req.iteration->0,
        req.iteration is None ==> c.iteration == 1,
        req.component_id is Some && c.component_id@ == req.component_id->0@,
        req.change_type is Some && c.change_type@ == req.change_type->0@,
        req.failure_pattern is Some && c.failure_pattern@ == req.failure_pattern->0@,
        req.root_cause is Some && c.root_cause@ == req.root_cause->0@,
        req.targeted_fix is Some && c.targeted_fix@ == req.targeted_fix->0@,
        req.why_this_component is Some && c.why_this_component@ == req.why_this_component->0@,
        c.predicted_fixes@ == req.predicted_fixes@,
        c.risk_cases@ == req.risk_cases@,
        c.files@ == req.files@,
        c.baseline_eval_run_id == req.baseline_eval_run_id,
        c.candidate_eval_run_id == req.candidate_eval_run_id,
        c.tenant_id@ == tenant_id,
        c.created_at == now,
{
}

proof fn lemma_last_iteration(revisions: Seq<HarnessComponentRevision>, i: int)
    requires
        0 <= i < revisions.len(),
    ensures
        revisions[i].iteration <= last_iteration(revisions),
    decreases revisions.len(),
{
    if i < revisions.len() - 1 {
        lemma_last_iteration(revisions.drop_last(), i);
    }
}

/// A new revision of a component comes after all others, has the content that was given, and is the
/// one that the component uses; the change that it carries out is applied. No other component and no
/// other change is touched, and the older revisions keep what they hold.
pub proof fn a_new_revision_is_the_one_in_use(
    before: StoreData,
    after: StoreData,
    r: HarnessComponentRevision,
    tenant_id: Seq<char>,
    component_id: Seq<char>,
    req: CreateHarnessComponentRevisionRequest,
    new_id: Seq<char>,
    now: i64,
    i: int,
    other: Seq<char>,
)
    requires
        revision_made(before, after, r, tenant_id, component_id, req, new_id, now),
    ensures
        ({
            let had = revisions_of(before, component_id);
            let has = revisions_of(after, component_id);
            let manifest_id = req.manifest_id->0@;
            &&& has.len() == had.len() + 1
            &&& has[had.len() as int] == r
            &&& 0 <= i < had.len() ==> {
                &&& r.iteration > had[i].iteration
                &&& has[i].id == had[i].id
                &&& has[i].content == had[i].content
                &&& has[i].files == had[i].files
                &&& has[i].iteration == had[i].iteration
                &&& had[i].status@ != "active"@ ==> has[i].status == had[i].status
                &&& had[i].status@ == "active"@ ==> has[i].status@ == "superseded"@
            }
            &&& had.len() == 0 ==> r.iteration == 1
            &&& r.content == req.content
            &&& req.files@.len() > 0 ==> r.files@ == req.files@
            &&& req.files@.len() == 0 ==> r.files@ == before.harness_changes@[manifest_id].files@
            &&& r.id@ == new_id
            &&& r.component_id@ == component_id
            &&& r.tenant_id@ == tenant_id
            &&& r.status@ == "active"@
            &&& req.manifest_id is Some && r.manifest_id@ == manifest_id
            &&& opt_text(after.harness_components@[component_id].current_revision_id) == Some(
                new_id,
            )
            &&& after.harness_components@[component_id].status@ == "active"@
            &&& same_but(before.harness_components@, after.harness_components@, component_id)
            &&& after.harness_changes@[manifest_id].status@ == "applied"@
            &&& after.harness_changes@[manifest_id].component_id
                == before.harness_changes@[manifest_id].component_id
            &&& same_but(before.harness_changes@, after.harness_changes@, manifest_id)
            &&& other != component_id ==> revisions_of(after, other) == revisions_of(before, other)
        }),
{
    let had = revisions_of(before, component_id);
    let has = revisions_of(after, component_id);
    if 0 <= i < had.len() {
        lemma_last_iteration(had, i);
        assert(has.drop_last()[i] == has[i]);
        assert(crate::components::retired()(had[i], has.drop_last()[i]));
    }
}

/// Without a target a component goes back to the latest revision that it does not use and that was not
/// rolled back before.
pub proof fn a_rollback_goes_to_the_latest_other_revision(
    revisions: Seq<HarnessComponentRevision>,
    current: Option<Seq<char>>,
    other: HarnessComponentRevision,
)
    ensures
        match earlier_revision(revisions, current) {
            Some(id) => {
                &&& current != Some(id)
                &&& exists|r: HarnessComponentRevision|
                    {
                        &&& #[trigger] revisions.contains(r)
                        &&& r.id@ == id
                        &&& r.status@ != "rolled_back"@
                        &&& revisions.contains(other) && Some(other.id@) != current && other.status@
                            != "rolled_back"@ ==> other.iteration <= r.iteration
                    }
            },
            None => revisions.contains(other) ==> Some(other.id@) == current || other.status@
                == "rolled_back"@,
        },
{
    let p = is_earlier(current);
    let kept = revisions.filter(p);
    greatest_last_facts(kept, iteration_of());
    a_filter_keeps_what_it_accepts(revisions, p, other);
    match crate::order::greatest_last(kept, iteration_of()) {
        Some(r) => {
            a_filter_keeps_what_it_accepts(revisions, p, r);
            assert(revisions.contains(r));
            if revisions.contains(other) && p(other) {
                let k = choose|k: int| 0 <= k < kept.len() && kept[k] == other;
                assert(iteration_of()(kept[k]) <= iteration_of()(r));
            }
        },
        None => {
            if kept.contains(other) {
                assert(kept.len() > 0);
            }
        },
    }
}

/// A component that is rolled back uses the target from then on; the revision that it used is rolled
/// back, and every revision keeps what it holds. No other component is touched.
pub proof fn a_rolled_back_component_uses_the_target(
    before: StoreData,
    after: StoreData,
    component_id: Seq<char>,
    req: RollbackHarnessComponentRequest,
    now: i64,
    i: int,
    other: Seq<char>,
)
    requires
        component_rolled(before, after, component_id, req, now),
    ensures
        ({
            let target = rollback_target(before, component_id, req)->0;
            let was = before.harness_components@[component_id];
            let is = after.harness_components@[component_id];
            let had = revisions_of(before, component_id);
            let has = revisions_of(after, component_id);
            &&& req.target_revision_id is Some ==> target == req.target_revision_id->0@
            &&& opt_text(is.current_revision_id) == Some(target)
            &&& is.status@ == "active"@
            &&& is.id == was.id
            &&& is.updated_at == now
            &&& has.len() == had.len()
            &&& 0 <= i < had.len() ==> {
                &&& has[i].id == had[i].id
                &&& has[i].content == had[i].content
                &&& has[i].iteration == had[i].iteration
                &&& has[i].id@ == target ==> has[i].status@ == "active"@
                &&& has[i].id@ != target && opt_text(was.current_revision_id) == Some(has[i].id@)
                    ==> has[i].status@ == "rolled_back"@
            }
            &&& same_but(before.harness_components@, after.harness_components@, component_id)
            &&& other != component_id ==> revisions_of(after, other) == revisions_of(before, other)
            &&& after.harness_changes == before.harness_changes
        }),
{
    let target = rollback_target(before, component_id, req)->0;
    let current = opt_text(before.harness_components@[component_id].current_revision_id);
    let had = revisions_of(before, component_id);
    let has = revisions_of(after, component_id);
    if 0 <= i < had.len() {
        assert(rolled_to(target, current)(had[i], has[i]));
    }
}

/// The latest run of a change was made for it, and no other that was made for it is later.
pub proof fn the_latest_run_is_the_last_made(d: StoreData, change_id: Seq<char>, other: RagEvalRun)
    ensures
        match latest_run(d, change_id) {
            Some(run) => {
                &&& d.eval_runs.values().contains(run)
                &&& opt_text(run.change_id) == Some(change_id)
                &&& d.eval_runs.values().contains(other) && opt_text(other.change_id) == Some(
                    change_id,
                ) ==> other.created_at <= run.created_at
            },
            None => d.eval_runs.values().contains(other) ==> opt_text(other.change_id) != Some(
                change_id,
            ),
        },
{
    let p = made_for(change_id);
    let values = d.eval_runs.values();
    let kept = values.filter(p);
    greatest_last_facts(kept, made_at());
    a_filter_keeps_what_it_accepts(values, p, other);
    match latest_run(d, change_id) {
        Some(run) => {
            a_filter_keeps_what_it_accepts(values, p, run);
            if kept.contains(other) {
                let k = choose|k: int| 0 <= k < kept.len() && kept[k] == other;
                assert(made_at()(kept[k]) <= made_at()(run));
            }
        },
        None => {
            if kept.contains(other) {
                assert(kept.len() > 0);
            }
        },
    }
}

proof fn lemma_results(m: Map<Seq<char>, RagEvalCaseResult>, ids: Seq<Seq<char>>, id: Seq<char>)
    ensures
        ({
            let all = by_case(results_with(m, ids));
            &&& all.dom().contains(id) ==> {
                &&& all[id].case_id@ == id
                &&& exists|k: int|
                    0 <= k < ids.len() && m.dom().contains(#[trigger] ids[k]) && m[ids[k]] == all[id]
            }
            &&& forall|k: int|
                0 <= k < ids.len() && m.dom().contains(#[trigger] ids[k]) && m[ids[k]].case_id@ == id
                    ==> all.dom().contains(id)
        }),
    decreases ids.len(),
{
    if ids.len() > 0 {
        let front = ids.drop_last();
        lemma_results(m, front, id);
        let last = ids.last();
        assert(ids[ids.len() - 1] == last);
        let some = by_case(results_with(m, front));
        let all = by_case(results_with(m, ids));
        if m.dom().contains(last) {
            assert(results_with(m, ids).drop_last() =~= results_with(m, front));
            assert(all == some.insert(m[last].case_id@, m[last]));
        }
        if all.dom().contains(id) && some.dom().contains(id) && all[id] == some[id] {
            let k = choose|k: int|
                0 <= k < front.len() && m.dom().contains(#[trigger] front[k]) && m[front[k]]
                    == some[id];
            assert(m.dom().contains(ids[k]));
        }
        assert forall|k: int|
            0 <= k < ids.len() && m.dom().contains(#[trigger] ids[k]) && m[ids[k]].case_id@
                == id implies all.dom().contains(id) by {
            if k < front.len() {
                assert(m.dom().contains(front[k]));
            }
        }
    }
}

/// The results of a run are those that it names, each under its case; a case is among them exactly
/// where the run names a result of it that is there.
pub proof fn the_results_of_a_run_are_those_it_names(d: StoreData, run: RagEvalRun, id: Seq<char>)
    ensures
        run_results(d, run).dom().contains(id) <==> exists|k: int|
            0 <= k < run.result_ids@.len() && d.eval_case_results@.dom().contains(
                (#[trigger] run.result_ids@[k])@,
            ) && d.eval_case_results@[run.result_ids@[k]@].case_id@ == id,
        run_results(d, run).dom().contains(id) ==> {
            &&& run_results(d, run)[id].case_id@ == id
            &&& exists|k: int|
                0 <= k < run.result_ids@.len() && d.eval_case_results@.dom().contains(
                    (#[trigger] run.result_ids@[k])@,
                ) && d.eval_case_results@[run.result_ids@[k]@] == run_results(d, run)[id]
        },
{
    let m = d.eval_case_results@;
    let ids = texts(run.result_ids@);
    lemma_results(m, ids, id);
    let all = run_results(d, run);
    if all.dom().contains(id) {
        let k = choose|k: int|
            0 <= k < ids.len() && m.dom().contains(#[trigger] ids[k]) && m[ids[k]] == all[id];
        assert(ids[k] == run.result_ids@[k]@);
        assert(m.dom().contains(run.result_ids@[k]@));
    }
    if exists|k: int|
        0 <= k < run.result_ids@.len() && m.dom().contains((#[trigger] run.result_ids@[k])@) && m[
            run.result_ids@[k]@
        ].case_id@ == id {
        let k = choose|k: int|
            0 <= k < run.result_ids@.len() && m.dom().contains((#[trigger] run.result_ids@[k])@)
                && m[run.result_ids@[k]@].case_id@ == id;
        assert(m.dom().contains(ids[k]));
    }
}

/// Whether a case has a status in the results of a run.
pub open spec fn ended(d: StoreData, run_id: Seq<char>, id: Seq<char>, status: Seq<char>) -> bool {
    let results = run_results(d, d.eval_runs@[run_id]);
    results.dom().contains(id) && results[id].status@ == status
}

/// A comparison finds a case fixed where it failed before and passes now, regressed where it passed
/// before and fails now, and unchanged where it ends alike; and it finds no others.
pub proof fn a_comparison_tells_how_cases_went<D: Fn(&RagEvalMetrics, &RagEvalMetrics) -> Json>(
    r: EvalDeltaReport,
    d: StoreData,
    change_id: Seq<char>,
    runs: (Seq<char>, Seq<char>),
    deltas: D,
    now: i64,
    id: Seq<char>,
)
    requires
        is_delta(r, d, change_id, runs, deltas, now),
    ensures
        r.baseline_run_id@ == runs.0,
        r.candidate_run_id@ == runs.1,
        texts(r.fixed_cases@).contains(id) <==> ended(d, runs.0, id, "failed"@) && ended(
            d,
            runs.1,
            id,
            "passed"@,
        ),
        texts(r.regressed_cases@).contains(id) <==> ended(d, runs.0, id, "passed"@) && ended(
            d,
            runs.1,
            id,
            "failed"@,
        ),
        texts(r.unchanged_failed_cases@).contains(id) <==> ended(d, runs.0, id, "failed"@) && ended(
            d,
            runs.1,
            id,
            "failed"@,
        ),
        texts(r.unchanged_passed_cases@).contains(id) <==> ended(d, runs.0, id, "passed"@) && ended(
            d,
            runs.1,
            id,
            "passed"@,
        ),
        forall|i: int|
            0 <= i < r.risk_matrix@.len() ==> {
                let row = #[trigger] r.risk_matrix@[i];
                &&& row.regressed <==> ended(d, runs.0, row.case_id@, "passed"@) && ended(
                    d,
                    runs.1,
                    row.case_id@,
                    "failed"@,
                )
                &&& row.candidate_status@ == "missing"@ || ended(
                    d,
                    runs.1,
                    row.case_id@,
                    row.candidate_status@,
                )
                &&& row.baseline_status@ == "missing"@ || ended(
                    d,
                    runs.0,
                    row.case_id@,
                    row.baseline_status@,
                )
            },
{
    reveal_strlit("missing");
    reveal_strlit("failed");
    reveal_strlit("passed");
    assert("missing"@[0] != "failed"@[0]);
    assert("missing"@[0] != "passed"@[0]);
    assert("failed"@[0] != "passed"@[0]);
    let baseline = run_results(d, d.eval_runs@[runs.0]);
    let candidate = run_results(d, d.eval_runs@[runs.1]);
    assert(texts(r.fixed_cases@).contains(id) == crate::verdicts::went(
        baseline,
        candidate,
        "failed"@,
        "passed"@,
    )(id));
    assert(texts(r.regressed_cases@).contains(id) == crate::verdicts::went(
        baseline,
        candidate,
        "passed"@,
        "failed"@,
    )(id));
    assert(texts(r.unchanged_failed_cases@).contains(id) == crate::verdicts::went(
        baseline,
        candidate,
        "failed"@,
        "failed"@,
    )(id));
    assert(texts(r.unchanged_passed_cases@).contains(id) == crate::verdicts::went(
        baseline,
        candidate,
        "passed"@,
        "passed"@,
    )(id));
    assert forall|i: int| 0 <= i < r.risk_matrix@.len() implies {
        let row = #[trigger] r.risk_matrix@[i];
        &&& row.regressed <==> ended(d, runs.0, row.case_id@, "passed"@) && ended(
            d,
            runs.1,
            row.case_id@,
            "failed"@,
        )
        &&& row.candidate_status@ == "missing"@ || ended(
            d,
            runs.1,
            row.case_id@,
            row.candidate_status@,
        )
        &&& row.baseline_status@ == "missing"@ || ended(
            d,
            runs.0,
            row.case_id@,
            row.baseline_status@,
        )
    } by {
        assert(crate::verdicts::is_risk_row(
            r.risk_matrix@[i],
            r.risk_matrix@[i].case_id@,
            baseline,
            candidate,
        ));
    }
}

proof fn lemma_regressed(rows: Seq<RiskCaseResult>, id: Seq<char>)
    ensures
        regressed_ids(rows).contains(id) <==> exists|i: int|
            0 <= i < rows.len() && (#[trigger] rows[i]).regressed && rows[i].case_id@ == id,
        regressed_ids(rows).len() > 0 <==> exists|i: int|
            0 <= i < rows.len() && (#[trigger] rows[i]).regressed,
    decreases rows.len(),
{
    if rows.len() > 0 {
        let front = rows.drop_last();
        lemma_regressed(front, id);
        let a = regressed_ids(front);
        let b = regressed_ids(rows);
        assert(rows[rows.len() - 1] == rows.last());
        if b.contains(id) {
            let n = choose|n: int| 0 <= n < b.len() && b[n] == id;
            if n < a.len() {
                assert(a[n] == id);
                let i = choose|i: int|
                    0 <= i < front.len() && (#[trigger] front[i]).regressed && front[i].case_id@
                        == id;
                assert(rows[i].regressed && rows[i].case_id@ == id);
            }
        }
        if exists|i: int| 0 <= i < rows.len() && (#[trigger] rows[i]).regressed && rows[i].case_id@
            == id {
            let i = choose|i: int|
                0 <= i < rows.len() && (#[trigger] rows[i]).regressed && rows[i].case_id@ == id;
            if i < front.len() {
                assert(front[i].regressed && front[i].case_id@ == id);
                let n = choose|n: int| 0 <= n < a.len() && a[n] == id;
                assert(b[n] == id);
            } else {
                assert(b[b.len() - 1] == id);
            }
        }
        if a.len() > 0 {
            let i = choose|i: int| 0 <= i < front.len() && (#[trigger] front[i]).regressed;
            assert(rows[i].regressed);
        }
        if exists|i: int| 0 <= i < rows.len() && (#[trigger] rows[i]).regressed {
            let i = choose|i: int| 0 <= i < rows.len() && (#[trigger] rows[i]).regressed;
            if i < front.len() {
                assert(front[i].regressed);
            }
        }
    }
}

/// A verdict follows from what got worse and what got better: what made a case at risk worse is taken
/// back, what made none worse and confirmed every prediction is kept, and the rest is to be improved.
/// A prediction is confirmed only if it was made, and if it names a case that was fixed it is.
pub proof fn a_verdict_follows_from_the_comparison<W: Fn(&EvalDeltaReport) -> Json>(
    f: Finding,
    predicted: Seq<Seq<char>>,
    delta: EvalDeltaReport,
    written: W,
    fix: Seq<char>,
)
    requires
        finds_delta(f, predicted, delta, written),
    ensures
        ({
            let worse = exists|i: int|
                0 <= i < delta.risk_matrix@.len() && (#[trigger] delta.risk_matrix@[i]).regressed;
            let fixes = texts(f.predicted_fixes_confirmed@);
            &&& worse ==> f.verdict@ == "rollback"@ || f.verdict@ == "rollback_and_pivot"@
            &&& worse && fixes.len() > 0 ==> f.verdict@ == "rollback"@
            &&& worse && fixes.len() == 0 ==> f.verdict@ == "rollback_and_pivot"@
            &&& !worse ==> f.verdict@ == "keep"@ || f.verdict@ == "improve"@
            &&& f.verdict@ == "keep"@ ==> !worse && fixes.len() > 0 && fixes.len()
                >= predicted.len()
            &&& !worse && fixes.len() > 0 && fixes.len() >= predicted.len() ==> f.verdict@
                == "keep"@
            &&& texts(f.risk_cases_regressed@).contains(fix) <==> exists|i: int|
                0 <= i < delta.risk_matrix@.len() && (#[trigger] delta.risk_matrix@[i]).regressed
                    && delta.risk_matrix@[i].case_id@ == fix
            &&& predicted.len() > 0 && fixes.contains(fix) ==> predicted.contains(fix) && (texts(
                delta.fixed_cases@,
            ).contains(fix) || exists|i: int|
                0 <= i < delta.risk_matrix@.len() && texts(delta.fixed_cases@).contains(
                    (#[trigger] delta.risk_matrix@[i]).case_id@,
                ))
            &&& predicted.contains(fix) && texts(delta.fixed_cases@).contains(fix) ==> fixes.contains(
                fix,
            )
            &&& predicted.len() == 0 ==> fixes == texts(delta.fixed_cases@)
        }),
{
    reveal_strlit("rollback");
    reveal_strlit("rollback_and_pivot");
    reveal_strlit("keep");
    reveal_strlit("improve");
    assert("keep"@[0] != "improve"@[0]);
    assert("keep"@[0] != "rollback"@[0]);
    assert("keep"@[0] != "rollback_and_pivot"@[0]);
    lemma_regressed(delta.risk_matrix@, fix);
    let p = confirms(delta);
    let fixes = texts(f.predicted_fixes_confirmed@);
    a_filter_keeps_what_it_accepts(predicted, p, fix);
    if predicted.len() > 0 && fixes.contains(fix) && !texts(delta.fixed_cases@).contains(fix) {
        let i = choose|i: int|
            0 <= i < delta.risk_matrix@.len() && texts(delta.fixed_cases@).contains(
                delta.risk_matrix@[i].case_id@,
            ) && #[trigger] matches_label(delta.risk_matrix@[i], fix);
        assert(texts(delta.fixed_cases@).contains(delta.risk_matrix@[i].case_id@));
    }
}

/// A run passes exactly if every guard held and no case failed. It names its cases and results in
/// their order; with a guard on the history broken, nothing of the history counts as consistent.
pub proof fn a_run_passes_if_nothing_failed(
    run: RagEvalRun,
    run_id: Seq<char>,
    tenant_id: Seq<char>,
    change_id: Option<Seq<char>>,
    created_by: Option<Seq<char>>,
    cases: Seq<RagEvalCase>,
    results: Seq<RagEvalCaseResult>,
    trace_ids: Seq<Seq<char>>,
    guards: Seq<RegressionGuardResult>,
    false_ready: bool,
    now: i64,
    i: int,
)
    requires
        is_run(
            run,
            run_id,
            tenant_id,
            change_id,
            created_by,
            cases,
            results,
            trace_ids,
            guards,
            false_ready,
            now,
        ),
    ensures
        run.status@ == "passed"@ || run.status@ == "failed"@,
        run.status@ == "passed"@ <==> (forall|k: int|
            0 <= k < guards.len() ==> (#[trigger] guards[k]).passed) && (forall|k: int|
            0 <= k < results.len() ==> (#[trigger] results[k]).status@ != "failed"@),
        run.id@ == run_id,
        run.tenant_id@ == tenant_id,
        opt_text(run.change_id) == change_id,
        run.case_ids@.len() == cases.len(),
        run.result_ids@.len() == results.len(),
        0 <= i < cases.len() ==> run.case_ids@[i]@ == cases[i].id@,
        0 <= i < results.len() ==> run.result_ids@[i]@ == results[i].id@,
        run.guard_results@ == guards,
        run.metrics.llm_health_false_ready_rate.part == (if false_ready {
            1int
        } else {
            0
        }),
        run.metrics.state_history_consistency_rate.part == 1 <==> forall|k: int|
            0 <= k < guards.len() && !(#[trigger] guards[k]).passed ==> guards[k].name@
                != "state_change_writes_history_event"@ && guards[k].name@
                != "current_state_has_history_evidence"@,
{
    reveal_strlit("failed");
    reveal_strlit("passed");
    assert("failed"@[0] != "passed"@[0]);
    let p = guard_broken();
    let q = case_failed();
    let h = history_broken();
    first_where_facts(guards, p);
    first_where_facts(results, q);
    first_where_facts(guards, h);
    if any_where(guards, p) {
        let k = crate::order::first_where(guards, p);
        assert(!guards[k].passed);
    }
    if any_where(results, q) {
        let k = crate::order::first_where(results, q);
        assert(results[k].status@ == "failed"@);
    }
    if exists|k: int| 0 <= k < guards.len() && !(#[trigger] guards[k]).passed {
        let k = choose|k: int| 0 <= k < guards.len() && !(#[trigger] guards[k]).passed;
        assert(p(guards[k]));
    }
    if exists|k: int| 0 <= k < results.len() && (#[trigger] results[k]).status@ == "failed"@ {
        let k = choose|k: int| 0 <= k < results.len() && (#[trigger] results[k]).status@ == "failed"@;
        assert(q(results[k]));
    }
    if any_where(guards, h) {
        let k = crate::order::first_where(guards, h);
        assert(h(guards[k]));
        assert(!guards[k].passed);
    }
    if exists|k: int| 0 <= k < guards.len() && h(#[trigger] guards[k]) {
        let k = choose|k: int| 0 <= k < guards.len() && h(#[trigger] guards[k]);
        assert(h(guards[k]));
    }
    assert(forall|k: int|
        0 <= k < guards.len() && !(#[trigger] guards[k]).passed && !h(guards[k]) ==> guards[k].name@
            != "state_change_writes_history_event"@ && guards[k].name@
            != "current_state_has_history_evidence"@);
    if 0 <= i < cases.len() {
        assert(texts(run.case_ids@)[i] == cases[i].id@);
    }
    if 0 <= i < results.len() {
        assert(texts(run.result_ids@)[i] == results[i].id@);
    }
    assert(texts(run.case_ids@).len() == cases.len());
    assert(texts(run.result_ids@).len() == results.len());
}

/// A run that is recorded is read under its id, with its status and metrics; so is its overview, and
/// each of its results under its own. No other run is touched.
pub proof fn a_recorded_run_is_read<C: Fn(&RetrievalText) -> Vec<FragmentChunk>>(
    before: StoreData,
    after: StoreData,
    r: RagEvalRun,
    tenant_id: Seq<char>,
    run: RagEvalRun,
    overview: RagEvalOverview,
    results: Seq<RagEvalCaseResult>,
    cut: C,
    secrets: Seq<Seq<char>>,
    now: i64,
    i: int,
)
    requires
        run_recorded(
            before,
            after,
            r,
            tenant_id,
            run,
            overview,
            results,
            cut,
            secrets,
            now,
        ),
    ensures
        reads(after.eval_runs@, run.id@, r),
        same_but(before.eval_runs@, after.eval_runs@, run.id@),
        r.id == run.id,
        r.status == run.status,
        r.metrics == run.metrics,
        r.case_ids == run.case_ids,
        r.result_ids == run.result_ids,
        r.guard_results == run.guard_results,
        r.report_source_document_uris@.len() == run.report_source_document_uris@.len()
            + results.len(),
        r.overview_source_document_uri is Some,
        after.eval_overviews@.dom().contains(run.id@),
        after.eval_overviews@[run.id@].overview_markdown == overview.overview_markdown,
        after.eval_overviews@[run.id@].metrics == overview.metrics,
        same_but(before.eval_overviews@, after.eval_overviews@, run.id@),
        0 <= i < results.len() && (forall|j: int|
            i < j < results.len() ==> (#[trigger] results[j]).id@ != results[i].id@) ==> reads(
            after.eval_case_results@,
            results[i].id@,
            results[i],
        ),
        after.harness_changes == before.harness_changes,
        after.eval_cases == before.eval_cases,
{
    let new = crate::runs::overview_document(run.id@, tenant_id, overview.overview_markdown@);
    let (docs, mid, written, ingest, fragments, kept) = choose|
        docs: Seq<SourceDocument>,
        mid: StoreData,
        written: StoreData,
        ingest: DocumentIngestResult,
        fragments: Vec<FragmentChunk>,
        kept: RagEvalOverview,
    |
        {
            &&& are_case_reports(docs, results, run.id@, tenant_id, now)
            &&& #[trigger] case_reports_stored(before, mid, docs)
            &&& #[trigger] crate::documents::plain_document_written(
                mid,
                written,
                ingest,
                new,
                None,
                cut,
                fragments,
                secrets,
                now,
            )
            &&& r == (RagEvalRun {
                report_source_document_uris: r.report_source_document_uris,
                overview_source_document_uri: r.overview_source_document_uri,
                ..run
            })
            &&& texts(r.report_source_document_uris@) == texts(run.report_source_document_uris@)
                + crate::runs::uris_of_documents(docs)
            &&& opt_text(r.overview_source_document_uri) == Some(new.uri)
            &&& kept == (RagEvalOverview {
                case_report_uris: kept.case_report_uris,
                overview_source_document_uri: kept.overview_source_document_uri,
                ..overview
            })
            &&& texts(kept.case_report_uris@) == texts(overview.case_report_uris@)
                + crate::runs::uris_of_documents(docs)
            &&& opt_text(kept.overview_source_document_uri) == Some(new.uri)
            &&& #[trigger] run_kept(written, after, r, kept, results)
        };
    crate::laws::facts::lemma_writing_keeps_records(
        mid,
        written,
        ingest,
        new,
        None,
        cut,
        fragments,
        secrets,
        now,
    );
    assert(texts(r.report_source_document_uris@).len() == r.report_source_document_uris@.len());
    assert(texts(run.report_source_document_uris@).len() == run.report_source_document_uris@.len());
    if 0 <= i < results.len() && (forall|j: int|
        i < j < results.len() ==> (#[trigger] results[j]).id@ != results[i].id@) {
        what_is_put_is_read::<String, RagEvalCaseResult>(written.eval_case_results@, results, i);
    }
}

/// A case that is recorded asks and expects what was given.
pub proof fn a_new_case_is_as_asked(
    c: RagEvalCase,
    req: CreateRagEvalCaseRequest,
    tenant_id: Seq<char>,
    new_id: Seq<char>,
    now: i64,
)
    requires
        is_new_case(c, req, tenant_id, new_id, now),
    ensures
        req.question is Some && c.question@ == req.question->0@,
        req.id is Some ==> c.id@ == req.id->0@,
        req.id is None ==> c.id@ == new_id,
        c.expected_context_uris@ == req.expected_context_uris@,
        c.expected_source_document_uris@ == req.expected_source_document_uris@,
        c.expected_answer_contains@ == req.expected_answer_contains@,
        c.owner_user_id == req.owner_user_id,
        c.tenant_id@ == tenant_id,
        c.created_at == now,
{
}

} // verus!
