//! How a change is judged: which runs are held against each other, what speaks against the change,
//! and what a verdict says.

use vstd::prelude::*;

use crate::data::StoreData;
use crate::json::Json;
use crate::model::harness::{
    HarnessChangeManifest, HarnessChangeVerdict, RagEvalMetrics, RagEvalOverview, RagEvalRun,
    RegressionGuardResult,
};
use crate::text::{blank, has_part, opt_text, texts, unicode_lowered};
use crate::verdicts::{
    broken_names, compared_runs, finds_plain, holds_folded, is_verdict, regressed_ids, verdict_run,
    CreateHarnessChangeVerdictRequest, EvalDeltaReport, Finding, RiskCaseResult,
};

verus! {

/// The runs that are held against each other are there, and are the ones that are named; where
/// none is named, the change's own are taken.
pub proof fn the_runs_named_are_compared(
    d: StoreData,
    change_id: Seq<char>,
    baseline: Option<Seq<char>>,
    candidate: Option<Seq<char>>,
)
    ensures
        ({
            let r = compared_runs(d, change_id, baseline, candidate);
            let change = d.harness_changes@[change_id];
            &&& !d.harness_changes@.dom().contains(change_id) ==> r is Err && r->Err_0 is NotFound
            &&& r is Ok ==> {
                &&& d.harness_changes@.dom().contains(change_id)
                &&& d.eval_runs@.dom().contains(r->Ok_0.0)
                &&& d.eval_runs@.dom().contains(r->Ok_0.1)
                &&& baseline is Some ==> r->Ok_0.0 == baseline->0
                &&& baseline is None ==> opt_text(change.baseline_eval_run_id) == Some(r->Ok_0.0)
                &&& candidate is Some ==> r->Ok_0.1 == candidate->0
                &&& candidate is None && change.candidate_eval_run_id is Some ==> r->Ok_0.1
                    == change.candidate_eval_run_id->0@
            }
            &&& d.harness_changes@.dom().contains(change_id) && baseline is Some && candidate
                is Some && d.eval_runs@.dom().contains(baseline->0) && d.eval_runs@.dom().contains(
                candidate->0,
            ) ==> r is Ok
        }),
{
}

/// The run that a verdict is given on is the one that is named, if it is there.
pub proof fn a_verdict_is_on_the_run_named(d: StoreData, change_id: Seq<char>, id: Seq<char>)
    requires
        d.eval_runs@.dom().contains(id),
    ensures
        verdict_run(d, change_id, Some(id)) == Some(d.eval_runs@[id]),
{
}

/// The guards that are told to be broken are those that did not hold.
pub proof fn the_broken_guards_are_named(guards: Seq<RegressionGuardResult>, name: Seq<char>)
    ensures
        broken_names(guards).contains(name) <==> exists|i: int|
            0 <= i < guards.len() && !(#[trigger] guards[i]).passed && guards[i].name@ == name,
    decreases guards.len(),
{
    if guards.len() > 0 {
        let front = guards.drop_last();
        let n = guards.len() - 1;
        the_broken_guards_are_named(front, name);
        let rest = broken_names(front);
        let all = broken_names(guards);
        assert(forall|i: int| 0 <= i < n ==> #[trigger] front[i] == guards[i]);
        assert(guards.last() == guards[n]);
        if rest.contains(name) {
            let k = choose|k: int| 0 <= k < rest.len() && rest[k] == name;
            assert(all[k] == name);
            let i = choose|i: int|
                0 <= i < front.len() && !(#[trigger] front[i]).passed && front[i].name@ == name;
            assert(guards[i] == front[i]);
        }
        if all.contains(name) && !rest.contains(name) {
            let k = choose|k: int| 0 <= k < all.len() && all[k] == name;
            if k < rest.len() {
                assert(rest[k] == name);
            }
            assert(!guards[n].passed && guards[n].name@ == name);
        }
        if !guards[n].passed && guards[n].name@ == name {
            assert(all[rest.len() as int] == name);
        }
        if exists|i: int|
            0 <= i < guards.len() && !(#[trigger] guards[i]).passed && guards[i].name@ == name {
            let i = choose|i: int|
                0 <= i < guards.len() && !(#[trigger] guards[i]).passed && guards[i].name@ == name;
            if i < n {
                assert(front[i] == guards[i]);
            }
        }
    }
}

/// The cases that are told to have got worse are those of the rows that say so.
pub proof fn the_cases_got_worse_are_named(rows: Seq<RiskCaseResult>, id: Seq<char>)
    ensures
        regressed_ids(rows).contains(id) <==> exists|i: int|
            0 <= i < rows.len() && (#[trigger] rows[i]).regressed && rows[i].case_id@ == id,
    decreases rows.len(),
{
    if rows.len() > 0 {
        let front = rows.drop_last();
        let n = rows.len() - 1;
        the_cases_got_worse_are_named(front, id);
        let rest = regressed_ids(front);
        let all = regressed_ids(rows);
        assert(forall|i: int| 0 <= i < n ==> #[trigger] front[i] == rows[i]);
        assert(rows.last() == rows[n]);
        if rest.contains(id) {
            let k = choose|k: int| 0 <= k < rest.len() && rest[k] == id;
            assert(all[k] == id);
            let i = choose|i: int|
                0 <= i < front.len() && (#[trigger] front[i]).regressed && front[i].case_id@ == id;
            assert(rows[i] == front[i]);
        }
        if all.contains(id) && !rest.contains(id) {
            let k = choose|k: int| 0 <= k < all.len() && all[k] == id;
            if k < rest.len() {
                assert(rest[k] == id);
            }
            assert(rows[n].regressed && rows[n].case_id@ == id);
        }
        if rows[n].regressed && rows[n].case_id@ == id {
            assert(all[rest.len() as int] == id);
        }
        if exists|i: int|
            0 <= i < rows.len() && (#[trigger] rows[i]).regressed && rows[i].case_id@ == id {
            let i = choose|i: int|
                0 <= i < rows.len() && (#[trigger] rows[i]).regressed && rows[i].case_id@ == id;
            if i < n {
                assert(front[i] == rows[i]);
            }
        }
    }
}

/// A word is found in a text whatever the case of its letters, and a blank one never is.
pub proof fn a_word_is_found_in_any_case(haystack: Seq<char>, needle: Seq<char>)
    ensures
        holds_folded(haystack, needle) <==> !blank(needle) && has_part(
            unicode_lowered(haystack),
            unicode_lowered(needle),
        ),
{
}

/// On a single run, what was foretold counts as fixed only if the run passed; a change that made
/// something worse is taken back, and one that did not is kept if and only if its run passed
/// through and through.
pub proof fn a_single_run_is_judged(
    f: Finding,
    change: HarnessChangeManifest,
    run: Option<RagEvalRun>,
    overview: Option<RagEvalOverview>,
    worse: Seq<Seq<char>>,
)
    requires
        finds_plain(f, change, run, overview, worse),
    ensures
        ({
            let passed = run is Some && run->0.status@ == "passed"@;
            let whole = passed && run->0.metrics.pass_rate.whole > 0
                && run->0.metrics.pass_rate.part >= run->0.metrics.pass_rate.whole;
            &&& texts(f.risk_cases_regressed@) == worse
            &&& passed ==> texts(f.predicted_fixes_confirmed@) == texts(change.predicted_fixes@)
            &&& !passed ==> f.predicted_fixes_confirmed@.len() == 0
            &&& worse.len() > 0 && passed && change.predicted_fixes@.len() > 0 ==> f.verdict@
                == "rollback"@
            &&& worse.len() > 0 && !(passed && change.predicted_fixes@.len() > 0) ==> f.verdict@
                == "rollback_and_pivot"@
            &&& worse.len() == 0 && whole ==> f.verdict@ == "keep"@
            &&& worse.len() == 0 && !whole ==> f.verdict@ == "improve"@
        }),
{
    assert(texts(f.predicted_fixes_confirmed@).len() == f.predicted_fixes_confirmed@.len());
    assert(texts(change.predicted_fixes@).len() == change.predicted_fixes@.len());
}

/// A verdict is of the change and the tenant that it was asked for, on the run that was named, and
/// by the one who asked, with what was measured where that was given.
pub proof fn a_verdict_is_as_asked<
    D: Fn(&RagEvalMetrics, &RagEvalMetrics) -> Json,
    M: Fn(&RagEvalMetrics) -> Json,
    W: Fn(&EvalDeltaReport) -> Json,
>(
    v: HarnessChangeVerdict,
    d: StoreData,
    tenant_id: Seq<char>,
    change_id: Seq<char>,
    req: CreateHarnessChangeVerdictRequest,
    deltas: D,
    measured: M,
    written: W,
    new_id: Seq<char>,
    now: i64,
)
    requires
        is_verdict(v, d, tenant_id, change_id, req, deltas, measured, written, new_id, now),
    ensures
        v.id@ == new_id,
        v.tenant_id@ == tenant_id,
        v.change_id@ == change_id,
        v.created_at == now,
        req.created_by is Some ==> v.created_by@ == req.created_by->0@,
        !(req.observed_metric_deltas is Null) ==> v.observed_metric_deltas
            == req.observed_metric_deltas,
        req.eval_run_id is Some && d.eval_runs@.dom().contains(req.eval_run_id->0@)
            ==> v.eval_run_id is Some && v.eval_run_id->0@ == d.eval_runs@[req.eval_run_id->0@].id@,
{
}

} // verus!
