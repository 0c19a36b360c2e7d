//! What a change did: two runs held against each other case by case, and the verdict on it.

use vstd::prelude::*;
use vstd::string::*;

use crate::components::change_with_status;
use crate::data::StoreData;
use crate::error::{fails_with, ApiError, ErrorView};
use crate::json::{is_opt_text, is_text, opt_json, Json};
use crate::model::harness::{
    FailurePatternCluster, HarnessChangeManifest, HarnessChangeVerdict, RagEvalCaseResult,
    RagEvalMetrics, RagEvalOverview, RagEvalRun, RegressionGuardResult,
};
use crate::order::{find_greatest, greatest_last};
use crate::record::{select_values, List};
use crate::runs::{results_of_run, results_with};
use crate::table::Table;
use crate::text::{
    blank, contains_text, either, either_text, has_part, is_blank, join, joined,
    lemma_filter_ascends, lists_all, opt_is, opt_text, owned_or, select_texts, sorted_set, text_eq,
    text_or, texts, texts_concat, texts_contain, texts_copy, texts_push, to_lowercase,
    unicode_lowered,
};

verus! {

/// How a case fared in two runs.
pub struct RiskCaseResult {
    pub case_id: String,
    pub baseline_status: String,
    pub candidate_status: String,
    pub regressed: bool,
    pub baseline_failures: List<String>,
    pub candidate_failures: List<String>,
}

/// Two runs held against each other.
pub struct EvalDeltaReport {
    pub change_id: String,
    pub baseline_run_id: String,
    pub candidate_run_id: String,
    pub fixed_cases: Vec<String>,
    pub regressed_cases: Vec<String>,
    pub unchanged_failed_cases: Vec<String>,
    pub unchanged_passed_cases: Vec<String>,
    pub metric_deltas: Json,
    pub risk_matrix: Vec<RiskCaseResult>,
    pub generated_at: i64,
}

/// Results by case.
pub type Results = Map<Seq<char>, RagEvalCaseResult>;

/// Whether a run was made for a change.
pub open spec fn made_for(change_id: Seq<char>) -> spec_fn(RagEvalRun) -> bool {
    |run: RagEvalRun| opt_text(run.change_id) == Some(change_id)
}

/// When a run was made.
pub open spec fn made_at() -> spec_fn(RagEvalRun) -> int {
    |run: RagEvalRun| run.created_at as int
}

/// The latest run for a change.
pub open spec fn latest_run(d: StoreData, change_id: Seq<char>) -> Option<RagEvalRun> {
    greatest_last(d.eval_runs.values().filter(made_for(change_id)), made_at())
}

/// The latest run for a change.
pub fn latest_eval_run_for_change(data: &StoreData, change_id: &str) -> (r: Option<RagEvalRun>)
    ensures
        r == latest_run(*data, change_id@),
{
    let ghost p = made_for(change_id@);
    let accept = |run: &RagEvalRun| -> (b: bool)
        ensures
            b == p(*run),
        { opt_is(&run.change_id, change_id) };
    let runs: Vec<RagEvalRun> = select_values(&data.eval_runs, accept, Ghost(p));
    let ghost key = made_at();
    let key_of = |run: &RagEvalRun| -> (k: i128)
        ensures
            k as int == key(*run),
        { run.created_at as i128 };
    let at: usize = find_greatest(&runs, key_of, Ghost(key));
    if at < runs.len() {
        Some(runs[at].clone())
    } else {
        None
    }
}

/// The result that each case has; a later one takes the place of an earlier one.
pub open spec fn by_case(results: Seq<RagEvalCaseResult>) -> Results
    decreases results.len(),
{
    if results.len() == 0 {
        Map::empty()
    } else {
        by_case(results.drop_last()).insert(results.last().case_id@, results.last())
    }
}

/// The results of a run, by case.
pub open spec fn run_results(d: StoreData, run: RagEvalRun) -> Results {
    by_case(results_with(d.eval_case_results@, texts(run.result_ids@)))
}

/// The results of a run, by case.
pub fn eval_results_by_case(data: &StoreData, run: &RagEvalRun) -> (r: Table<
    String,
    RagEvalCaseResult,
>)
    ensures
        r@ == run_results(*data, *run),
{
    let results: Vec<RagEvalCaseResult> = results_of_run(data, run);
    let mut out: Table<String, RagEvalCaseResult> = Table::new();
    let mut i: usize = 0;
    while i < results.len()
        invariant
            i <= results@.len(),
            out@ == by_case(results@.take(i as int)),
        decreases results.len() - i,
    {
        assert(results@.take(i + 1).drop_last() =~= results@.take(i as int));
        out.insert(results[i].case_id.clone(), results[i].clone());
        i += 1;
    }
    assert(results@.take(i as int) =~= results@);
    out
}

/// How a case fared.
pub open spec fn status_of(m: Results, id: Seq<char>) -> Seq<char> {
    if m.dom().contains(id) {
        m[id].status@
    } else {
        "missing"@
    }
}

/// In what a case failed.
pub open spec fn failures_of(m: Results, id: Seq<char>) -> Seq<Seq<char>> {
    if m.dom().contains(id) {
        texts(m[id].failures@)
    } else {
        Seq::empty()
    }
}

fn case_status(t: &Table<String, RagEvalCaseResult>, id: &String) -> (r: String)
    ensures
        r@ == status_of(t@, id@),
{
    match t.get(id) {
        Some(result) => result.status.clone(),
        None => "missing".to_owned(),
    }
}

fn case_failures(t: &Table<String, RagEvalCaseResult>, id: &String) -> (r: List<String>)
    ensures
        texts(r@) == failures_of(t@, id@),
{
    match t.get(id) {
        Some(result) => result.failures.clone(),
        None => {
            let none: Vec<String> = Vec::new();
            assert(texts(none@) =~= Seq::<Seq<char>>::empty());
            std::sync::Arc::new(none)
        },
    }
}

/// Whether a label is that of a result: its case, or something that it failed in.
pub open spec fn matches_label(result: RiskCaseResult, label: Seq<char>) -> bool {
    result.case_id@ == label || texts(result.baseline_failures@).contains(label) || texts(
        result.candidate_failures@,
    ).contains(label)
}

/// Tells whether a label is that of a result.
pub fn result_matches_label(result: &RiskCaseResult, label: &str) -> (r: bool)
    ensures
        r == matches_label(*result, label@),
{
    text_eq(result.case_id.as_str(), label) || texts_contain(&result.baseline_failures, label)
        || texts_contain(&result.candidate_failures, label)
}

/// Whether a report confirms a fix: the case was fixed, or a fixed case failed in what it names.
pub open spec fn confirms(delta: EvalDeltaReport) -> spec_fn(Seq<char>) -> bool {
    |fix: Seq<char>|
        texts(delta.fixed_cases@).contains(fix) || exists|i: int|
            0 <= i < delta.risk_matrix@.len() && texts(delta.fixed_cases@).contains(
                delta.risk_matrix@[i].case_id@,
            ) && #[trigger] matches_label(delta.risk_matrix@[i], fix)
}

/// The predicted fixes that a report confirms; where none was predicted, the fixed cases.
pub open spec fn confirmed(predicted: Seq<Seq<char>>, delta: EvalDeltaReport) -> Seq<Seq<char>> {
    if predicted.len() == 0 {
        texts(delta.fixed_cases@)
    } else {
        predicted.filter(confirms(delta))
    }
}

fn check_confirms(delta: &EvalDeltaReport, fix: &str) -> (r: bool)
    ensures
        r == confirms(*delta)(fix@),
{
    if texts_contain(&delta.fixed_cases, fix) {
        return true;
    }
    let mut i: usize = 0;
    while i < delta.risk_matrix.len()
        invariant
            i <= delta.risk_matrix@.len(),
            forall|j: int|
                0 <= j < i ==> !(texts(delta.fixed_cases@).contains(
                    delta.risk_matrix@[j].case_id@,
                ) && #[trigger] matches_label(delta.risk_matrix@[j], fix@)),
        decreases delta.risk_matrix.len() - i,
    {
        let risk: &RiskCaseResult = &delta.risk_matrix[i];
        if texts_contain(&delta.fixed_cases, risk.case_id.as_str()) && result_matches_label(
            risk,
            fix,
        ) {
            assert(matches_label(delta.risk_matrix@[i as int], fix@));
            return true;
        }
        i += 1;
    }
    false
}

/// The predicted fixes that a report confirms; where none was predicted, the fixed cases.
pub fn predicted_fix_confirmations(
    predicted_fixes: &Vec<String>,
    delta: &EvalDeltaReport,
) -> (r: Vec<String>)
    ensures
        texts(r@) == confirmed(texts(predicted_fixes@), *delta),
{
    if predicted_fixes.len() == 0 {
        return texts_copy(&delta.fixed_cases);
    }
    let ghost p = confirms(*delta);
    let accept = |fix: &str| -> (b: bool)
        ensures
            b == p(fix@),
        { check_confirms(delta, fix) };
    select_texts(predicted_fixes, accept, Ghost(p))
}

/// Whether a result failed in something of a name.
pub open spec fn fails_like(result: RagEvalCaseResult, name: Seq<char>) -> bool {
    texts(result.failures@).contains(name) || texts(result.guard_failures@).contains(name)
}

/// Whether a risk names a case: by its id, or by what it failed in.
pub open spec fn risk_names(
    risk: Seq<char>,
    baseline: Results,
    candidate: Results,
    id: Seq<char>,
) -> bool {
    ||| id == risk && (baseline.dom().contains(id) || candidate.dom().contains(id))
    ||| candidate.dom().contains(id) && fails_like(candidate[id], risk)
}

/// Whether some risk names a case.
pub open spec fn some_risk_names(
    risks: Seq<Seq<char>>,
    baseline: Results,
    candidate: Results,
    id: Seq<char>,
) -> bool {
    exists|k: int| 0 <= k < risks.len() && #[trigger] risk_names(risks[k], baseline, candidate, id)
}

/// Whether a case is at risk: a risk names it, or it got worse.
pub open spec fn at_risk(
    risks: Seq<Seq<char>>,
    baseline: Results,
    candidate: Results,
    regressed: Seq<Seq<char>>,
) -> spec_fn(Seq<char>) -> bool {
    |id: Seq<char>| regressed.contains(id) || some_risk_names(risks, baseline, candidate, id)
}

/// Whether a row tells how a case fared.
pub open spec fn is_risk_row(
    r: RiskCaseResult,
    id: Seq<char>,
    baseline: Results,
    candidate: Results,
) -> bool {
    &&& r.case_id@ == id
    &&& r.baseline_status@ == status_of(baseline, id)
    &&& r.candidate_status@ == status_of(candidate, id)
    &&& r.regressed == (status_of(baseline, id) == "passed"@ && status_of(candidate, id)
        == "failed"@)
    &&& texts(r.baseline_failures@) == failures_of(baseline, id)
    &&& texts(r.candidate_failures@) == failures_of(candidate, id)
}

/// The cases of rows.
pub open spec fn row_ids(rows: Seq<RiskCaseResult>) -> Seq<Seq<char>> {
    Seq::new(rows.len(), |i: int| rows[i].case_id@)
}

/// Whether rows tell how the cases at risk fared, each once and by id.
pub open spec fn is_risk_matrix(
    rows: Seq<RiskCaseResult>,
    risks: Seq<Seq<char>>,
    baseline: Results,
    candidate: Results,
    regressed: Seq<Seq<char>>,
) -> bool {
    &&& lists_all(row_ids(rows), at_risk(risks, baseline, candidate, regressed))
    &&& forall|i: int|
        0 <= i < rows.len() ==> is_risk_row(
            #[trigger] rows[i],
            rows[i].case_id@,
            baseline,
            candidate,
        )
}

fn cases_of_risk(
    risk: &String,
    baseline: &Table<String, RagEvalCaseResult>,
    candidate: &Table<String, RagEvalCaseResult>,
) -> (r: Vec<String>)
    ensures
        forall|x: Seq<char>| #[trigger]
            texts(r@).contains(x) <==> risk_names(risk@, baseline@, candidate@, x),
{
    let mut out: Vec<String> = Vec::new();
    let known: bool = baseline.contains_key(risk) || candidate.contains_key(risk);
    if known {
        out.push(risk.clone());
    }
    let n: usize = candidate.len();
    let ghost rows = candidate.rows();
    let mut i: usize = 0;
    proof {
        if known {
            assert(texts(out@)[0] == risk@);
        }
    }
    while i < n
        invariant
            i <= n == rows.len(),
            rows == candidate.rows(),
            candidate.wf(),
            known == (baseline@.dom().contains(risk@) || candidate@.dom().contains(risk@)),
            forall|x: Seq<char>| #[trigger]
                texts(out@).contains(x) <==> (known && x == risk@) || exists|j: int|
                    0 <= j < i && (#[trigger] rows[j]).0@ == x && fails_like(rows[j].1, risk@),
        decreases n - i,
    {
        let result: &RagEvalCaseResult = candidate.value_at(i);
        if texts_contain(&result.failures, risk.as_str()) || texts_contain(
            &result.guard_failures,
            risk.as_str(),
        ) {
            let id: String = candidate.key_at(i).clone();
            let ghost before = texts(out@);
            proof {
                texts_push(out@, id);
            }
            out.push(id);
            proof {
                assert forall|x: Seq<char>| #[trigger] texts(out@).contains(x) <==> (known && x
                    == risk@) || exists|j: int|
                    0 <= j < i + 1 && (#[trigger] rows[j]).0@ == x && fails_like(
                        rows[j].1,
                        risk@,
                    ) by {
                    let after = texts(out@);
                    assert(after == before.push(id@));
                    if after.contains(x) {
                        let k = choose|k: int| 0 <= k < after.len() && after[k] == x;
                        if k < before.len() {
                            assert(before[k] == x);
                            assert(before.contains(x));
                        } else {
                            assert(rows[i as int].0@ == x);
                        }
                    }
                    if before.contains(x) {
                        let k = choose|k: int| 0 <= k < before.len() && before[k] == x;
                        assert(after[k] == x);
                    }
                    if x == id@ {
                        assert(after[before.len() as int] == x);
                    }
                }
            }
        }
        i += 1;
    }
    proof {
        assert forall|x: Seq<char>| #[trigger] texts(out@).contains(x) <==> risk_names(
            risk@,
            baseline@,
            candidate@,
            x,
        ) by {
            if texts(out@).contains(x) && !(known && x == risk@) {
                let j = choose|j: int|
                    0 <= j < n && (#[trigger] rows[j]).0@ == x && fails_like(rows[j].1, risk@);
                candidate.row_facts(j);
            }
            if candidate@.dom().contains(x) && fails_like(candidate@[x], risk@) {
                candidate.key_facts(x);
                let j = crate::table::row_of(rows, x);
                assert(rows[j].0@ == x);
            }
        }
    }
    out
}

fn cases_at_risk(
    risks: &Vec<String>,
    baseline: &Table<String, RagEvalCaseResult>,
    candidate: &Table<String, RagEvalCaseResult>,
    regressed: &Vec<String>,
) -> (r: Vec<String>)
    ensures
        lists_all(
            texts(r@),
            at_risk(texts(risks@), baseline@, candidate@, texts(regressed@)),
        ),
{
    let ghost all = texts(risks@);
    let ghost worse = texts(regressed@);
    let mut out: Vec<String> = texts_copy(regressed);
    let mut i: usize = 0;
    while i < risks.len()
        invariant
            i <= risks@.len(),
            all == texts(risks@),
            worse == texts(regressed@),
            forall|x: Seq<char>| #[trigger]
                texts(out@).contains(x) <==> worse.contains(x) || some_risk_names(
                    all.take(i as int),
                    baseline@,
                    candidate@,
                    x,
                ),
        decreases risks.len() - i,
    {
        let mut more: Vec<String> = cases_of_risk(&risks[i], baseline, candidate);
        let ghost before = texts(out@);
        let ghost added = texts(more@);
        proof {
            texts_concat(out@, more@);
        }
        out.append(&mut more);
        proof {
            let front = all.take(i as int);
            let next = all.take(i + 1);
            assert forall|x: Seq<char>| #[trigger] texts(out@).contains(x) <==> worse.contains(x)
                || some_risk_names(next, baseline@, candidate@, x) by {
                let after = texts(out@);
                assert(after == before + added);
                assert(after.contains(x) <==> before.contains(x) || added.contains(x)) by {
                    if after.contains(x) {
                        let k = choose|k: int| 0 <= k < after.len() && after[k] == x;
                        if k < before.len() {
                            assert(before[k] == x);
                        } else {
                            assert(added[k - before.len()] == x);
                        }
                    }
                    if before.contains(x) {
                        let k = choose|k: int| 0 <= k < before.len() && before[k] == x;
                        assert(after[k] == x);
                    }
                    if added.contains(x) {
                        let k = choose|k: int| 0 <= k < added.len() && added[k] == x;
                        assert(after[before.len() + k] == x);
                    }
                }
                assert(next[i as int] == risks@[i as int]@);
                if some_risk_names(front, baseline@, candidate@, x) {
                    let k = choose|k: int|
                        0 <= k < front.len() && #[trigger] risk_names(
                            front[k],
                            baseline@,
                            candidate@,
                            x,
                        );
                    assert(risk_names(next[k], baseline@, candidate@, x));
                }
                if some_risk_names(next, baseline@, candidate@, x) {
                    let k = choose|k: int|
                        0 <= k < next.len() && #[trigger] risk_names(
                            next[k],
                            baseline@,
                            candidate@,
                            x,
                        );
                    if k < i {
                        assert(risk_names(front[k], baseline@, candidate@, x));
                    }
                }
                if added.contains(x) {
                    assert(risk_names(next[i as int], baseline@, candidate@, x));
                }
            }
        }
        i += 1;
    }
    assert(all.take(i as int) =~= all);
    sorted_set(out)
}

/// How the cases at risk fared, each once and by id: those that a risk of the change names, and
/// those that got worse.
pub fn risk_matrix_for_change(
    change: &HarnessChangeManifest,
    baseline_results: &Table<String, RagEvalCaseResult>,
    candidate_results: &Table<String, RagEvalCaseResult>,
    regressed_cases: &Vec<String>,
) -> (r: Vec<RiskCaseResult>)
    ensures
        is_risk_matrix(
            r@,
            texts(change.risk_cases@),
            baseline_results@,
            candidate_results@,
            texts(regressed_cases@),
        ),
{
    let ids: Vec<String> = cases_at_risk(
        &change.risk_cases,
        baseline_results,
        candidate_results,
        regressed_cases,
    );
    let mut out: Vec<RiskCaseResult> = Vec::new();
    let mut i: usize = 0;
    while i < ids.len()
        invariant
            i <= ids@.len(),
            out@.len() == i,
            forall|j: int|
                0 <= j < i ==> is_risk_row(
                    #[trigger] out@[j],
                    ids@[j]@,
                    baseline_results@,
                    candidate_results@,
                ),
        decreases ids.len() - i,
    {
        let baseline_status: String = case_status(baseline_results, &ids[i]);
        let candidate_status: String = case_status(candidate_results, &ids[i]);
        let regressed: bool = text_eq(baseline_status.as_str(), "passed") && text_eq(
            candidate_status.as_str(),
            "failed",
        );
        out.push(
            RiskCaseResult {
                case_id: ids[i].clone(),
                baseline_status,
                candidate_status,
                regressed,
                baseline_failures: case_failures(baseline_results, &ids[i]),
                candidate_failures: case_failures(candidate_results, &ids[i]),
            },
        );
        i += 1;
    }
    assert(row_ids(out@) =~= texts(ids@));
    out
}

/// Whether a case fared in one way in one run and in another way in the other.
pub open spec fn went(
    baseline: Results,
    candidate: Results,
    from: Seq<char>,
    to: Seq<char>,
) -> spec_fn(Seq<char>) -> bool {
    |id: Seq<char>| status_of(baseline, id) == from && status_of(candidate, id) == to
}

/// The cases of results.
fn cases_in(t: &Table<String, RagEvalCaseResult>) -> (r: Vec<String>)
    ensures
        forall|x: Seq<char>| #[trigger] texts(r@).contains(x) <==> t@.dom().contains(x),
{
    let n: usize = t.len();
    let mut out: Vec<String> = Vec::new();
    let mut i: usize = 0;
    while i < n
        invariant
            i <= n == t.rows().len(),
            out@.len() == i,
            forall|j: int| 0 <= j < i ==> (#[trigger] out@[j])@ == t.rows()[j].0@,
        decreases n - i,
    {
        out.push(t.key_at(i).clone());
        i += 1;
    }
    proof {
        assert forall|x: Seq<char>| #[trigger]
            texts(out@).contains(x) <==> t@.dom().contains(x) by {
            if texts(out@).contains(x) {
                let j = choose|j: int| 0 <= j < texts(out@).len() && texts(out@)[j] == x;
                assert(out@[j]@ == x);
                t.row_facts(j);
            }
            if t@.dom().contains(x) {
                t.key_facts(x);
                let j = crate::table::row_of(t.rows(), x);
                assert(out@[j]@ == x);
                assert(texts(out@)[j] == x);
            }
        }
    }
    out
}

fn all_cases(
    baseline: &Table<String, RagEvalCaseResult>,
    candidate: &Table<String, RagEvalCaseResult>,
) -> (r: Vec<String>)
    ensures
        lists_all(
            texts(r@),
            |id: Seq<char>| baseline@.dom().contains(id) || candidate@.dom().contains(id),
        ),
{
    let mut ids: Vec<String> = cases_in(baseline);
    let mut more: Vec<String> = cases_in(candidate);
    let ghost a = texts(ids@);
    let ghost b = texts(more@);
    proof {
        texts_concat(ids@, more@);
    }
    ids.append(&mut more);
    proof {
        assert forall|x: Seq<char>| #[trigger] texts(ids@).contains(x) <==> a.contains(x)
            || b.contains(x) by {
            let c = texts(ids@);
            assert(c == a + b);
            if c.contains(x) {
                let k = choose|k: int| 0 <= k < c.len() && c[k] == x;
                if k < a.len() {
                    assert(a[k] == x);
                } else {
                    assert(b[k - a.len()] == x);
                }
            }
            if a.contains(x) {
                let k = choose|k: int| 0 <= k < a.len() && a[k] == x;
                assert(c[k] == x);
            }
            if b.contains(x) {
                let k = choose|k: int| 0 <= k < b.len() && b[k] == x;
                assert(c[a.len() + k] == x);
            }
        }
    }
    sorted_set(ids)
}

fn cases_that_went(
    ids: &Vec<String>,
    baseline: &Table<String, RagEvalCaseResult>,
    candidate: &Table<String, RagEvalCaseResult>,
    from: &str,
    to: &str,
) -> (r: Vec<String>)
    requires
        lists_all(
            texts(ids@),
            |id: Seq<char>| baseline@.dom().contains(id) || candidate@.dom().contains(id),
        ),
        from@ != "missing"@,
    ensures
        lists_all(texts(r@), went(baseline@, candidate@, from@, to@)),
{
    let ghost p = went(baseline@, candidate@, from@, to@);
    let accept = |id: &str| -> (b: bool)
        ensures
            b == p(id@),
        {
            let key: String = id.to_owned();
            text_eq(case_status(baseline, &key).as_str(), from) && text_eq(
                case_status(candidate, &key).as_str(),
                to,
            )
        };
    let r: Vec<String> = select_texts(ids, accept, Ghost(p));
    proof {
        lemma_filter_ascends(texts(ids@), p);
    }
    r
}

/// The id of a run.
pub open spec fn id_of_run(run: Option<RagEvalRun>) -> Option<Seq<char>> {
    match run {
        Some(run) => Some(run.id@),
        None => None,
    }
}

/// The two runs that are held against each other for a change: those that are named, else those of
/// the change, else the latest for the change as the second.
pub open spec fn compared_runs(
    d: StoreData,
    change_id: Seq<char>,
    baseline: Option<Seq<char>>,
    candidate: Option<Seq<char>>,
) -> Result<(Seq<char>, Seq<char>), ErrorView> {
    let change = d.harness_changes@[change_id];
    let first = either(baseline, opt_text(change.baseline_eval_run_id));
    let second = either(
        either(candidate, opt_text(change.candidate_eval_run_id)),
        id_of_run(latest_run(d, change_id)),
    );
    if !d.harness_changes@.dom().contains(change_id) {
        Err(ErrorView::NotFound("harness change not found"@))
    } else if first is None {
        Err(ErrorView::BadRequest("baseline_eval_run_id is required"@))
    } else if second is None {
        Err(ErrorView::BadRequest("candidate_eval_run_id is required"@))
    } else if !d.eval_runs@.dom().contains(first->0) {
        Err(ErrorView::NotFound("baseline eval run not found"@))
    } else if !d.eval_runs@.dom().contains(second->0) {
        Err(ErrorView::NotFound("candidate eval run not found"@))
    } else {
        Ok((first->0, second->0))
    }
}

/// Whether a report holds two runs against each other for a change.
pub open spec fn is_delta<D: Fn(&RagEvalMetrics, &RagEvalMetrics) -> Json>(
    r: EvalDeltaReport,
    d: StoreData,
    change_id: Seq<char>,
    runs: (Seq<char>, Seq<char>),
    deltas: D,
    now: i64,
) -> bool {
    let baseline = run_results(d, d.eval_runs@[runs.0]);
    let candidate = run_results(d, d.eval_runs@[runs.1]);
    &&& r.change_id@ == change_id
    &&& r.baseline_run_id@ == runs.0
    &&& r.candidate_run_id@ == runs.1
    &&& lists_all(texts(r.fixed_cases@), went(baseline, candidate, "failed"@, "passed"@))
    &&& lists_all(texts(r.regressed_cases@), went(baseline, candidate, "passed"@, "failed"@))
    &&& lists_all(texts(r.unchanged_failed_cases@), went(baseline, candidate, "failed"@, "failed"@))
    &&& lists_all(texts(r.unchanged_passed_cases@), went(baseline, candidate, "passed"@, "passed"@))
    &&& deltas.ensures(
        (&d.eval_runs@[runs.0].metrics, &d.eval_runs@[runs.1].metrics),
        r.metric_deltas,
    )
    &&& is_risk_matrix(
        r.risk_matrix@,
        texts(d.harness_changes@[change_id].risk_cases@),
        baseline,
        candidate,
        texts(r.regressed_cases@),
    )
    &&& r.generated_at == now
}

/// Holds two runs against each other for a change, case by case. `deltas` writes how far the
/// measurements of the second are from those of the first.
pub fn compare_harness_change<D: Fn(&RagEvalMetrics, &RagEvalMetrics) -> Json>(
    data: &StoreData,
    change_id: &str,
    baseline_eval_run_id: &Option<String>,
    candidate_eval_run_id: &Option<String>,
    deltas: &D,
    now: i64,
) -> (r: Result<EvalDeltaReport, ApiError>)
    requires
        forall|a: RagEvalMetrics, b: RagEvalMetrics| #[trigger] deltas.requires((&a, &b)),
    ensures
        match compared_runs(
            *data,
            change_id@,
            opt_text(*baseline_eval_run_id),
            opt_text(*candidate_eval_run_id),
        ) {
            Ok(runs) => r is Ok && is_delta(r->Ok_0, *data, change_id@, runs, *deltas, now),
            Err(e) => fails_with(r, e),
        },
{
    let key: String = change_id.to_owned();
    let change: HarnessChangeManifest = match data.harness_changes.get(&key) {
        Some(change) => change.clone(),
        None => {
            return Err(ApiError::not_found("harness change not found"));
        },
    };
    let baseline_run_id: String = match either_text(
        baseline_eval_run_id,
        &change.baseline_eval_run_id,
    ) {
        Some(id) => id,
        None => {
            return Err(ApiError::bad_request("baseline_eval_run_id is required"));
        },
    };
    let named: Option<String> = either_text(candidate_eval_run_id, &change.candidate_eval_run_id);
    let candidate_run_id: String = match named {
        Some(id) => id,
        None => match latest_eval_run_for_change(data, change_id) {
            Some(run) => run.id.clone(),
            None => {
                return Err(ApiError::bad_request("candidate_eval_run_id is required"));
            },
        },
    };
    let baseline_run: &RagEvalRun = match data.eval_runs.get(&baseline_run_id) {
        Some(run) => run,
        None => {
            return Err(ApiError::not_found("baseline eval run not found"));
        },
    };
    let candidate_run: &RagEvalRun = match data.eval_runs.get(&candidate_run_id) {
        Some(run) => run,
        None => {
            return Err(ApiError::not_found("candidate eval run not found"));
        },
    };
    let baseline: Table<String, RagEvalCaseResult> = eval_results_by_case(data, baseline_run);
    let candidate: Table<String, RagEvalCaseResult> = eval_results_by_case(data, candidate_run);
    let ids: Vec<String> = all_cases(&baseline, &candidate);
    proof {
        reveal_strlit("missing");
        reveal_strlit("failed");
        reveal_strlit("passed");
        assert("missing"@[0] == 'm' && "failed"@[0] == 'f' && "passed"@[0] == 'p');
    }
    let fixed_cases: Vec<String> = cases_that_went(
        &ids,
        &baseline,
        &candidate,
        "failed",
        "passed",
    );
    let regressed_cases: Vec<String> = cases_that_went(
        &ids,
        &baseline,
        &candidate,
        "passed",
        "failed",
    );
    let unchanged_failed_cases: Vec<String> = cases_that_went(
        &ids,
        &baseline,
        &candidate,
        "failed",
        "failed",
    );
    let unchanged_passed_cases: Vec<String> = cases_that_went(
        &ids,
        &baseline,
        &candidate,
        "passed",
        "passed",
    );
    let risk_matrix: Vec<RiskCaseResult> = risk_matrix_for_change(
        &change,
        &baseline,
        &candidate,
        &regressed_cases,
    );
    let metric_deltas: Json = deltas(&baseline_run.metrics, &candidate_run.metrics);
    Ok(
        EvalDeltaReport {
            change_id: change_id.to_owned(),
            baseline_run_id,
            candidate_run_id,
            fixed_cases,
            regressed_cases,
            unchanged_failed_cases,
            unchanged_passed_cases,
            metric_deltas,
            risk_matrix,
            generated_at: now,
        },
    )
}

/// The names of broken guards.
pub open spec fn broken_names(guards: Seq<RegressionGuardResult>) -> Seq<Seq<char>>
    decreases guards.len(),
{
    if guards.len() == 0 {
        Seq::empty()
    } else {
        let front = broken_names(guards.drop_last());
        if guards.last().passed {
            front
        } else {
            front.push(guards.last().name@)
        }
    }
}

/// What clusters of failures say.
pub open spec fn cluster_parts(clusters: Seq<FailurePatternCluster>) -> Seq<Seq<char>>
    decreases clusters.len(),
{
    if clusters.len() == 0 {
        Seq::empty()
    } else {
        cluster_parts(clusters.drop_last()).push(clusters.last().pattern@) + texts(
            clusters.last().root_cause_notes@,
        )
    }
}

/// What a run and its report say against a change: the status, the broken guards, and the failures
/// with their causes.
pub open spec fn evidence_parts(
    run: Option<RagEvalRun>,
    overview: Option<RagEvalOverview>,
) -> Seq<Seq<char>> {
    (match run {
        Some(run) => seq![run.status@] + broken_names(run.guard_results@),
        None => Seq::empty(),
    }) + (match overview {
        Some(overview) => cluster_parts(overview.failure_patterns@),
        None => Seq::empty(),
    })
}

fn add_broken_names(out: &mut Vec<String>, guards: &Vec<RegressionGuardResult>)
    ensures
        texts(final(out)@) == texts(old(out)@) + broken_names(guards@),
{
    let ghost front = texts(out@);
    let mut i: usize = 0;
    assert(front + broken_names(guards@.take(0)) =~= front);
    while i < guards.len()
        invariant
            i <= guards@.len(),
            texts(out@) == front + broken_names(guards@.take(i as int)),
        decreases guards.len() - i,
    {
        assert(guards@.take(i + 1).drop_last() =~= guards@.take(i as int));
        if !guards[i].passed {
            let name: String = guards[i].name.clone();
            proof {
                texts_push(out@, name);
                assert((front + broken_names(guards@.take(i as int))).push(name@) =~= front
                    + broken_names(guards@.take(i + 1)));
            }
            out.push(name);
        }
        i += 1;
    }
    assert(guards@.take(i as int) =~= guards@);
}

fn add_cluster_parts(out: &mut Vec<String>, clusters: &Vec<FailurePatternCluster>)
    ensures
        texts(final(out)@) == texts(old(out)@) + cluster_parts(clusters@),
{
    let ghost front = texts(out@);
    let mut i: usize = 0;
    assert(front + cluster_parts(clusters@.take(0)) =~= front);
    while i < clusters.len()
        invariant
            i <= clusters@.len(),
            texts(out@) == front + cluster_parts(clusters@.take(i as int)),
        decreases clusters.len() - i,
    {
        assert(clusters@.take(i + 1).drop_last() =~= clusters@.take(i as int));
        let pattern: String = clusters[i].pattern.clone();
        let mut notes: Vec<String> = texts_copy(&clusters[i].root_cause_notes);
        proof {
            texts_push(out@, pattern);
            texts_concat(out@.push(pattern), notes@);
            let part = cluster_parts(clusters@.take(i as int));
            assert((front + part).push(pattern@) + texts(notes@) =~= front + (part.push(pattern@)
                + texts(notes@)));
        }
        out.push(pattern);
        out.append(&mut notes);
        i += 1;
    }
    assert(clusters@.take(i as int) =~= clusters@);
}

/// What a run and its report say against a change, part by part.
pub fn verdict_evidence_parts(
    run: Option<&RagEvalRun>,
    overview: Option<&RagEvalOverview>,
) -> (r: Vec<String>)
    ensures
        texts(r@) == evidence_parts(
            match run {
                Some(run) => Some(*run),
                None => None,
            },
            match overview {
                Some(overview) => Some(*overview),
                None => None,
            },
        ),
{
    let mut parts: Vec<String> = Vec::new();
    assert(texts(parts@) =~= Seq::<Seq<char>>::empty());
    match run {
        Some(run) => {
            let status: String = run.status.clone();
            proof {
                texts_push(parts@, status);
                assert(Seq::<Seq<char>>::empty().push(status@) =~= seq![status@]);
            }
            parts.push(status);
            add_broken_names(&mut parts, &run.guard_results);
        },
        None => {},
    }
    let ghost front = texts(parts@);
    match overview {
        Some(overview) => {
            add_cluster_parts(&mut parts, &overview.failure_patterns);
        },
        None => {
            assert(front + Seq::<Seq<char>>::empty() =~= front);
        },
    }
    parts
}

/// What a run and its report say against a change, in lower case.
pub fn verdict_evidence_text(
    run: Option<&RagEvalRun>,
    overview: Option<&RagEvalOverview>,
) -> (r: String)
    ensures
        r@ == unicode_lowered(
            joined(
                evidence_parts(
                    match run {
                        Some(run) => Some(*run),
                        None => None,
                    },
                    match overview {
                        Some(overview) => Some(*overview),
                        None => None,
                    },
                ),
                "\n"@,
            ),
        ),
{
    let parts: Vec<String> = verdict_evidence_parts(run, overview);
    to_lowercase(join(&parts, "\n").as_str())
}

/// Whether a text holds another that is not blank, whatever the case of the letters.
pub open spec fn holds_folded(haystack: Seq<char>, needle: Seq<char>) -> bool {
    !blank(needle) && has_part(unicode_lowered(haystack), unicode_lowered(needle))
}

/// Tells whether a text holds another that is not blank, whatever the case of the letters.
pub fn contains_folded(haystack: &str, needle: &str) -> (r: bool)
    ensures
        r == holds_folded(haystack@, needle@),
{
    !is_blank(needle) && contains_text(
        to_lowercase(haystack).as_str(),
        to_lowercase(needle).as_str(),
    )
}

/// The verdict on a change: one that made something worse is taken back, and another is tried where
/// it fixed nothing.
pub open spec fn verdict_word(worse: bool, better: bool, holds: bool) -> Seq<char> {
    if worse {
        if better {
            "rollback"@
        } else {
            "rollback_and_pivot"@
        }
    } else if holds {
        "keep"@
    } else {
        "improve"@
    }
}

/// The verdict on a change.
pub fn choose_verdict(worse: bool, better: bool, holds: bool) -> (r: String)
    ensures
        r@ == verdict_word(worse, better, holds),
{
    if worse {
        if better {
            "rollback".to_owned()
        } else {
            "rollback_and_pivot".to_owned()
        }
    } else if holds {
        "keep".to_owned()
    } else {
        "improve".to_owned()
    }
}

/// A verdict to be made on a change.
pub struct CreateHarnessChangeVerdictRequest {
    pub eval_run_id: Option<String>,
    pub observed_metric_deltas: Json,
    pub created_by: Option<String>,
}

/// The run that a verdict rests on: the one that is named, where it is there, else the latest for
/// the change.
pub open spec fn verdict_run(d: StoreData, change_id: Seq<char>, named: Option<Seq<char>>) -> Option<
    RagEvalRun,
> {
    match named {
        Some(id) => if d.eval_runs@.dom().contains(id) {
            Some(d.eval_runs@[id])
        } else {
            latest_run(d, change_id)
        },
        None => latest_run(d, change_id),
    }
}

/// The report of a run.
pub open spec fn report_of(d: StoreData, run: Option<RagEvalRun>) -> Option<RagEvalOverview> {
    match run {
        Some(run) => if d.eval_overviews@.dom().contains(run.id@) {
            Some(d.eval_overviews@[run.id@])
        } else {
            None
        },
        None => None,
    }
}

/// The cases that got worse.
pub open spec fn regressed_ids(rows: Seq<RiskCaseResult>) -> Seq<Seq<char>>
    decreases rows.len(),
{
    if rows.len() == 0 {
        Seq::empty()
    } else {
        let front = regressed_ids(rows.drop_last());
        if rows.last().regressed {
            front.push(rows.last().case_id@)
        } else {
            front
        }
    }
}

fn list_regressed(rows: &Vec<RiskCaseResult>) -> (r: Vec<String>)
    ensures
        texts(r@) == regressed_ids(rows@),
{
    let mut out: Vec<String> = Vec::new();
    let mut i: usize = 0;
    assert(texts(out@) =~= regressed_ids(rows@.take(0)));
    while i < rows.len()
        invariant
            i <= rows@.len(),
            texts(out@) == regressed_ids(rows@.take(i as int)),
        decreases rows.len() - i,
    {
        assert(rows@.take(i + 1).drop_last() =~= rows@.take(i as int));
        if rows[i].regressed {
            let id: String = rows[i].case_id.clone();
            proof {
                texts_push(out@, id);
            }
            out.push(id);
        }
        i += 1;
    }
    assert(rows@.take(i as int) =~= rows@);
    out
}

/// Whether a run passed.
pub open spec fn run_passed(run: Option<RagEvalRun>) -> bool {
    match run {
        Some(run) => run.status@ == "passed"@,
        None => false,
    }
}

/// Whether a run passed with every case.
pub open spec fn run_passed_whole(run: Option<RagEvalRun>) -> bool {
    match run {
        Some(run) => run.status@ == "passed"@ && run.metrics.pass_rate.whole > 0
            && run.metrics.pass_rate.part >= run.metrics.pass_rate.whole,
        None => false,
    }
}

/// What a verdict finds.
pub struct Finding {
    pub predicted_fixes_confirmed: Vec<String>,
    pub risk_cases_regressed: Vec<String>,
    pub verdict: String,
    pub evidence: Json,
}

/// Whether a verdict finds what two runs held against each other show.
pub open spec fn finds_delta<W: Fn(&EvalDeltaReport) -> Json>(
    f: Finding,
    predicted: Seq<Seq<char>>,
    delta: EvalDeltaReport,
    written: W,
) -> bool {
    let fixes = texts(f.predicted_fixes_confirmed@);
    let worse = texts(f.risk_cases_regressed@);
    &&& fixes == confirmed(predicted, delta)
    &&& worse == regressed_ids(delta.risk_matrix@)
    &&& f.verdict@ == verdict_word(
        worse.len() > 0,
        fixes.len() > 0,
        fixes.len() > 0 && fixes.len() >= predicted.len(),
    )
    &&& match f.evidence {
        Json::Object(m) => m@.len() == 1 && m@[0].0@ == "delta"@ && written.ensures(
            (&delta,),
            m@[0].1,
        ),
        _ => false,
    }
}

/// What two runs held against each other show of a change. `written` writes the report.
pub fn find_in_delta<W: Fn(&EvalDeltaReport) -> Json>(
    predicted_fixes: &Vec<String>,
    delta: &EvalDeltaReport,
    written: &W,
) -> (r: Finding)
    requires
        forall|a: EvalDeltaReport| #[trigger] written.requires((&a,)),
    ensures
        finds_delta(r, texts(predicted_fixes@), *delta, *written),
{
    let risk_cases_regressed: Vec<String> = list_regressed(&delta.risk_matrix);
    let predicted_fixes_confirmed: Vec<String> = predicted_fix_confirmations(
        predicted_fixes,
        delta,
    );
    assert(texts(predicted_fixes_confirmed@).len() == predicted_fixes_confirmed@.len());
    assert(texts(risk_cases_regressed@).len() == risk_cases_regressed@.len());
    assert(texts(predicted_fixes@).len() == predicted_fixes@.len());
    let verdict: String = choose_verdict(
        risk_cases_regressed.len() > 0,
        predicted_fixes_confirmed.len() > 0,
        predicted_fixes_confirmed.len() > 0 && predicted_fixes_confirmed.len()
            >= predicted_fixes.len(),
    );
    let mut m: Vec<(String, Json)> = Vec::new();
    m.push(("delta".to_owned(), written(delta)));
    Finding {
        predicted_fixes_confirmed,
        risk_cases_regressed,
        verdict,
        evidence: Json::Object(std::sync::Arc::new(m)),
    }
}

/// Whether evidence names the pattern, the status of the run and its report.
pub open spec fn is_plain_evidence(
    j: Json,
    pattern: Seq<char>,
    run: Option<RagEvalRun>,
    overview: Option<RagEvalOverview>,
) -> bool {
    match j {
        Json::Object(m) => {
            &&& m@.len() == 3
            &&& m@[0].0@ == "change_failure_pattern"@ && is_text(m@[0].1, pattern)
            &&& m@[1].0@ == "eval_run_status"@ && is_opt_text(
                m@[1].1,
                match run {
                    Some(run) => Some(run.status@),
                    None => None,
                },
            )
            &&& m@[2].0@ == "overview"@ && is_opt_text(
                m@[2].1,
                match overview {
                    Some(overview) => Some(overview.overview_markdown@),
                    None => None,
                },
            )
        },
        _ => false,
    }
}

/// Whether a verdict finds what one run shows of a change. `worse` are the risks that the evidence
/// names.
pub open spec fn finds_plain(
    f: Finding,
    change: HarnessChangeManifest,
    run: Option<RagEvalRun>,
    overview: Option<RagEvalOverview>,
    worse: Seq<Seq<char>>,
) -> bool {
    let fixes = texts(f.predicted_fixes_confirmed@);
    &&& texts(f.risk_cases_regressed@) == worse
    &&& fixes == (if run_passed(run) {
        texts(change.predicted_fixes@)
    } else {
        Seq::empty()
    })
    &&& f.verdict@ == verdict_word(worse.len() > 0, fixes.len() > 0, run_passed_whole(run))
    &&& is_plain_evidence(f.evidence, change.failure_pattern@, run, overview)
}

/// What one run shows of a change, where some of its risks are named in the evidence.
pub fn find_in_run(
    change: &HarnessChangeManifest,
    run: &Option<RagEvalRun>,
    overview: &Option<RagEvalOverview>,
    risk_cases_regressed: Vec<String>,
) -> (r: Finding)
    ensures
        finds_plain(r, *change, *run, *overview, texts(risk_cases_regressed@)),
{
    let passed: bool = match run {
        Some(run) => text_eq(run.status.as_str(), "passed"),
        None => false,
    };
    let whole: bool = match run {
        Some(run) => text_eq(run.status.as_str(), "passed") && run.metrics.pass_rate.whole > 0
            && run.metrics.pass_rate.part >= run.metrics.pass_rate.whole,
        None => false,
    };
    let predicted_fixes_confirmed: Vec<String> = if passed {
        texts_copy(&change.predicted_fixes)
    } else {
        Vec::new()
    };
    assert(texts(predicted_fixes_confirmed@).len() == predicted_fixes_confirmed@.len());
    assert(texts(risk_cases_regressed@).len() == risk_cases_regressed@.len());
    assert(!passed ==> texts(predicted_fixes_confirmed@) =~= Seq::<Seq<char>>::empty());
    let verdict: String = choose_verdict(
        risk_cases_regressed.len() > 0,
        predicted_fixes_confirmed.len() > 0,
        whole,
    );
    let status: Option<String> = match run {
        Some(run) => Some(run.status.clone()),
        None => None,
    };
    let markdown: Option<String> = match overview {
        Some(overview) => Some(overview.overview_markdown.clone()),
        None => None,
    };
    let mut m: Vec<(String, Json)> = Vec::new();
    m.push(("change_failure_pattern".to_owned(), Json::Text(change.failure_pattern.clone())));
    m.push(("eval_run_status".to_owned(), opt_json(&status)));
    m.push(("overview".to_owned(), opt_json(&markdown)));
    Finding {
        predicted_fixes_confirmed,
        risk_cases_regressed,
        verdict,
        evidence: Json::Object(std::sync::Arc::new(m)),
    }
}

/// Whether the evidence of a run names a risk.
pub open spec fn evidence_names(
    run: Option<RagEvalRun>,
    overview: Option<RagEvalOverview>,
) -> spec_fn(Seq<char>) -> bool {
    |risk: Seq<char>|
        holds_folded(unicode_lowered(joined(evidence_parts(run, overview), "\n"@)), risk)
}

/// What a verdict on a change finds: what two runs held against each other show, where they can be,
/// else what one run shows.
pub open spec fn is_finding<D: Fn(&RagEvalMetrics, &RagEvalMetrics) -> Json, W: Fn(
    &EvalDeltaReport,
) -> Json>(
    f: Finding,
    d: StoreData,
    change_id: Seq<char>,
    named: Option<Seq<char>>,
    deltas: D,
    written: W,
    now: i64,
) -> bool {
    let change = d.harness_changes@[change_id];
    let run = verdict_run(d, change_id, named);
    match compared_runs(d, change_id, None, named) {
        Ok(runs) => exists|delta: EvalDeltaReport| #[trigger]
            is_delta(delta, d, change_id, runs, deltas, now) && finds_delta(
                f,
                texts(change.predicted_fixes@),
                delta,
                written,
            ),
        Err(_) => finds_plain(
            f,
            change,
            run,
            report_of(d, run),
            texts(change.risk_cases@).filter(evidence_names(run, report_of(d, run))),
        ),
    }
}

/// Whether a verdict says what was found.
pub open spec fn says(v: HarnessChangeVerdict, f: Finding) -> bool {
    &&& v.verdict@ == f.verdict@
    &&& texts(v.predicted_fixes_confirmed@) == texts(f.predicted_fixes_confirmed@)
    &&& texts(v.risk_cases_regressed@) == texts(f.risk_cases_regressed@)
    &&& v.evidence == f.evidence
}

/// Whether `v` is the verdict that a request asks for.
pub open spec fn is_verdict<
    D: Fn(&RagEvalMetrics, &RagEvalMetrics) -> Json,
    M: Fn(&RagEvalMetrics) -> Json,
    W: Fn(&EvalDeltaReport) -> Json,
>(
    v: HarnessChangeVerdict,
    d: StoreData,
    tenant_id: Seq<char>,
    change_id: Seq<char>,
    req: CreateHarnessChangeVerdictRequest,
    deltas: D,
    measured: M,
    written: W,
    new_id: Seq<char>,
    now: i64,
) -> bool {
    let run = verdict_run(d, change_id, opt_text(req.eval_run_id));
    &&& v.id@ == new_id
    &&& v.tenant_id@ == tenant_id
    &&& v.change_id@ == change_id
    &&& opt_text(v.eval_run_id) == id_of_run(run)
    &&& exists|f: Finding| #[trigger]
        is_finding(f, d, change_id, opt_text(req.eval_run_id), deltas, written, now) && says(v, f)
    &&& (if req.observed_metric_deltas is Null {
        match report_of(d, run) {
            Some(overview) => measured.ensures((&overview.metrics,), v.observed_metric_deltas),
            None => match v.observed_metric_deltas {
                Json::Object(m) => m@.len() == 0,
                _ => false,
            },
        }
    } else {
        v.observed_metric_deltas == req.observed_metric_deltas
    })
    &&& v.created_by@ == text_or(opt_text(req.created_by), "admin"@)
    &&& v.created_at == now
}

fn choose_run(data: &StoreData, change_id: &str, named: &Option<String>) -> (r: Option<RagEvalRun>)
    ensures
        r == verdict_run(*data, change_id@, opt_text(*named)),
{
    match named {
        Some(id) => match data.eval_runs.get(id) {
            Some(run) => Some(run.clone()),
            None => latest_eval_run_for_change(data, change_id),
        },
        None => latest_eval_run_for_change(data, change_id),
    }
}

fn find_report(data: &StoreData, run: &Option<RagEvalRun>) -> (r: Option<RagEvalOverview>)
    ensures
        r == report_of(*data, *run),
{
    match run {
        Some(run) => match data.eval_overviews.get(&run.id) {
            Some(overview) => Some(overview.clone()),
            None => None,
        },
        None => None,
    }
}

fn risks_in_evidence(
    risks: &Vec<String>,
    run: &Option<RagEvalRun>,
    overview: &Option<RagEvalOverview>,
) -> (r: Vec<String>)
    ensures
        texts(r@) == texts(risks@).filter(evidence_names(*run, *overview)),
{
    let evidence: String = verdict_evidence_text(
        match run {
            Some(run) => Some(run),
            None => None,
        },
        match overview {
            Some(overview) => Some(overview),
            None => None,
        },
    );
    let ghost p = evidence_names(*run, *overview);
    let accept = |risk: &str| -> (b: bool)
        ensures
            b == p(risk@),
        { contains_folded(evidence.as_str(), risk) };
    select_texts(risks, accept, Ghost(p))
}

/// Makes a verdict on a change and gives the change its status. `deltas` and `measured` write
/// measurements, `written` a report.
pub fn create_harness_verdict<
    D: Fn(&RagEvalMetrics, &RagEvalMetrics) -> Json,
    M: Fn(&RagEvalMetrics) -> Json,
    W: Fn(&EvalDeltaReport) -> Json,
>(
    data: &mut StoreData,
    tenant_id: &str,
    change_id: &str,
    req: &CreateHarnessChangeVerdictRequest,
    deltas: &D,
    measured: &M,
    written: &W,
    new_id: &str,
    now: i64,
) -> (r: Result<HarnessChangeVerdict, ApiError>)
    requires
        forall|a: RagEvalMetrics, b: RagEvalMetrics| #[trigger] deltas.requires((&a, &b)),
        forall|a: RagEvalMetrics| #[trigger] measured.requires((&a,)),
        forall|a: EvalDeltaReport| #[trigger] written.requires((&a,)),
    ensures
        if old(data).harness_changes@.dom().contains(change_id@) {
            let after = final(data).harness_changes@[change_id@];
            &&& r is Ok
            &&& is_verdict(
                r->Ok_0,
                *old(data),
                tenant_id@,
                change_id@,
                *req,
                *deltas,
                *measured,
                *written,
                new_id@,
                now,
            )
            &&& *final(data) == (StoreData {
                harness_changes: final(data).harness_changes,
                harness_verdicts: final(data).harness_verdicts,
                ..*old(data)
            })
            &&& change_with_status(
                old(data).harness_changes@[change_id@],
                after,
                r->Ok_0.verdict@,
            )
            &&& final(data).harness_changes@ == old(data).harness_changes@.insert(change_id@, after)
            &&& final(data).harness_verdicts@ == old(data).harness_verdicts@.insert(
                new_id@,
                r->Ok_0,
            )
        } else {
            *final(data) == *old(data) && fails_with(
                r,
                ErrorView::NotFound("harness change not found"@),
            )
        },
{
    let key: String = change_id.to_owned();
    let change: HarnessChangeManifest = match data.harness_changes.get(&key) {
        Some(change) => change.clone(),
        None => {
            return Err(ApiError::not_found("harness change not found"));
        },
    };
    let run: Option<RagEvalRun> = choose_run(data, change_id, &req.eval_run_id);
    let overview: Option<RagEvalOverview> = find_report(data, &run);
    let observed_metric_deltas: Json = match &req.observed_metric_deltas {
        Json::Null => match &overview {
            Some(overview) => measured(&overview.metrics),
            None => Json::Object(std::sync::Arc::new(Vec::new())),
        },
        given => given.clone(),
    };
    let compared: Result<EvalDeltaReport, ApiError> = compare_harness_change(
        data,
        change_id,
        &None,
        &req.eval_run_id,
        deltas,
        now,
    );
    let found: Finding = match compared {
        Ok(delta) => {
            let found: Finding = find_in_delta(&change.predicted_fixes, &delta, written);
            proof {
                let runs = compared_runs(*data, change_id@, None, opt_text(req.eval_run_id))->Ok_0;
                assert(is_delta(delta, *data, change_id@, runs, *deltas, now));
            }
            found
        },
        Err(_) => find_in_run(
            &change,
            &run,
            &overview,
            risks_in_evidence(&change.risk_cases, &run, &overview),
        ),
    };
    let ghost seen = found;
    assert(is_finding(
        seen,
        *old(data),
        change_id@,
        opt_text(req.eval_run_id),
        *deltas,
        *written,
        now,
    ));
    let verdict: HarnessChangeVerdict = HarnessChangeVerdict {
        id: new_id.to_owned(),
        tenant_id: tenant_id.to_owned(),
        change_id: change_id.to_owned(),
        eval_run_id: match &run {
            Some(run) => Some(run.id.clone()),
            None => None,
        },
        verdict: found.verdict,
        predicted_fixes_confirmed: std::sync::Arc::new(found.predicted_fixes_confirmed),
        risk_cases_regressed: std::sync::Arc::new(found.risk_cases_regressed),
        observed_metric_deltas,
        evidence: found.evidence,
        created_by: owned_or(&req.created_by, "admin"),
        created_at: now,
    };
    assert(says(verdict, seen));
    data.harness_changes.insert(
        key,
        HarnessChangeManifest { status: verdict.verdict.clone(), ..change },
    );
    data.harness_verdicts.insert(verdict.id.clone(), verdict.clone());
    Ok(verdict)
}

/// A case that a report counts as one that got worse is in its risks, and marked as such.
pub proof fn what_got_worse_is_a_risk<D: Fn(&RagEvalMetrics, &RagEvalMetrics) -> Json>(
    r: EvalDeltaReport,
    d: StoreData,
    change_id: Seq<char>,
    runs: (Seq<char>, Seq<char>),
    deltas: D,
    now: i64,
    id: Seq<char>,
)
    requires
        is_delta(r, d, change_id, runs, deltas, now),
        texts(r.regressed_cases@).contains(id),
    ensures
        exists|i: int|
            0 <= i < r.risk_matrix@.len() && (#[trigger] r.risk_matrix@[i]).case_id@ == id
                && r.risk_matrix@[i].regressed,
{
    let ids = row_ids(r.risk_matrix@);
    assert(ids.contains(id));
    let i = choose|i: int| 0 <= i < ids.len() && ids[i] == id;
    assert(r.risk_matrix@[i].case_id@ == id);
}

/// No case is counted twice over: what was fixed did not get worse, and what stayed as it was did
/// neither.
pub proof fn a_case_goes_one_way<D: Fn(&RagEvalMetrics, &RagEvalMetrics) -> Json>(
    r: EvalDeltaReport,
    d: StoreData,
    change_id: Seq<char>,
    runs: (Seq<char>, Seq<char>),
    deltas: D,
    now: i64,
    id: Seq<char>,
)
    requires
        is_delta(r, d, change_id, runs, deltas, now),
    ensures
        texts(r.fixed_cases@).contains(id) ==> !texts(r.regressed_cases@).contains(id) && !texts(
            r.unchanged_failed_cases@,
        ).contains(id) && !texts(r.unchanged_passed_cases@).contains(id),
        texts(r.regressed_cases@).contains(id) ==> !texts(r.unchanged_failed_cases@).contains(id)
            && !texts(r.unchanged_passed_cases@).contains(id),
        texts(r.unchanged_failed_cases@).contains(id) ==> !texts(
            r.unchanged_passed_cases@,
        ).contains(id),
{
    reveal_strlit("failed");
    reveal_strlit("passed");
    assert("failed"@[0] == 'f' && "passed"@[0] == 'p');
}

/// A change that made something worse is never kept.
pub proof fn what_made_things_worse_is_taken_back<W: Fn(&EvalDeltaReport) -> Json>(
    f: Finding,
    predicted: Seq<Seq<char>>,
    delta: EvalDeltaReport,
    written: W,
)
    requires
        finds_delta(f, predicted, delta, written),
        exists|i: int| 0 <= i < delta.risk_matrix@.len() && (#[trigger] delta.risk_matrix@[i]).regressed,
    ensures
        f.verdict@ == "rollback"@ || f.verdict@ == "rollback_and_pivot"@,
{
    lemma_some_regressed(delta.risk_matrix@);
}

proof fn lemma_some_regressed(rows: Seq<RiskCaseResult>)
    requires
        exists|i: int| 0 <= i < rows.len() && (#[trigger] rows[i]).regressed,
    ensures
        regressed_ids(rows).len() > 0,
    decreases rows.len(),
{
    let i = choose|i: int| 0 <= i < rows.len() && (#[trigger] rows[i]).regressed;
    if i < rows.len() - 1 {
        assert(rows.drop_last()[i].regressed);
        lemma_some_regressed(rows.drop_last());
    }
}

} // verus!
