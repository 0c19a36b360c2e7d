//! Evaluation cases and runs: choosing the cases, putting a run together, and keeping it.

use vstd::prelude::*;
use vstd::string::*;
use vstd::utf8::*;

use crate::data::{SourceDocumentKey, StoreData};
use crate::documents::{
    is_cutter, plain_document_written, write_plain_document, DocumentIngestResult, NewDocument,
    NewDocumentView, RetrievalText,
};
use crate::error::{fails_with, ApiError, ErrorView};
use crate::facts::is_required;
use crate::json::Json;
use crate::merge::{insert_rows, inserted_all};
use crate::model::harness::{
    RagEvalCase, RagEvalCaseResult, RagEvalMetrics, RagEvalOverview, RagEvalRun, Rate,
    RegressionGuardResult,
};
use crate::model::ingest::SourceDocument;
use crate::naming::{
    bytes_of, document_id, hmac_hex, keyed_digest, sanitize_slug, slug, source_document_id,
};
use crate::nodes::FragmentChunk;
use crate::order::{any_where, find_where, sort_by, sorted_by};
use crate::publish::COMPANY_CONTEXT_INDEX;
use crate::reading::{first_of, first_value, require_string};
use crate::record::{all_values, copy_all, List};
use crate::reports::{aggregate_eval_metrics, are_metrics, case_result_markdown, case_text};
use crate::text::{
    as_deref, blank, opt_str, opt_text, text_eq, text_or, texts, texts_copy, texts_push,
};

verus! {

/// A case to be kept.
pub struct CreateRagEvalCaseRequest {
    pub id: Option<String>,
    pub owner_user_id: Option<String>,
    pub question: Option<String>,
    pub expected_context_uris: List<String>,
    pub expected_source_document_uris: List<String>,
    pub expected_answer_contains: List<String>,
    pub tags: List<String>,
    pub metadata: Json,
}

/// Whether `c` is the case that a request asks to keep.
pub open spec fn is_new_case(
    c: RagEvalCase,
    req: CreateRagEvalCaseRequest,
    tenant_id: Seq<char>,
    new_id: Seq<char>,
    now: i64,
) -> bool {
    &&& c.id@ == text_or(opt_text(req.id), new_id)
    &&& c.tenant_id@ == tenant_id
    &&& c.owner_user_id == req.owner_user_id
    &&& opt_text(req.question) == Some(c.question@)
    &&& c.expected_context_uris == req.expected_context_uris
    &&& c.expected_source_document_uris == req.expected_source_document_uris
    &&& c.expected_answer_contains == req.expected_answer_contains
    &&& c.tags == req.tags
    &&& c.metadata == req.metadata
    &&& c.created_at == now
}

/// Why a case is not kept.
pub open spec fn case_refusal(
    d: StoreData,
    req: CreateRagEvalCaseRequest,
    new_id: Seq<char>,
) -> Option<ErrorView> {
    let id = text_or(opt_text(req.id), new_id);
    if req.id is Some && blank(id) {
        Some(is_required("id"@))
    } else if crate::history::missing(opt_text(req.question)) {
        Some(is_required("question"@))
    } else if d.eval_cases@.dom().contains(id) {
        Some(ErrorView::Conflict("eval case already exists"@))
    } else {
        None
    }
}

/// Keeps a case.
pub fn create_eval_case(
    data: &mut StoreData,
    tenant_id: &str,
    req: &CreateRagEvalCaseRequest,
    new_id: &str,
    now: i64,
) -> (r: Result<RagEvalCase, ApiError>)
    ensures
        match case_refusal(*old(data), *req, new_id@) {
            Some(e) => *final(data) == *old(data) && fails_with(r, e),
            None => {
                &&& r is Ok
                &&& is_new_case(r->Ok_0, *req, tenant_id@, new_id@, now)
                &&& *final(data) == (StoreData { eval_cases: final(data).eval_cases, ..*old(data) })
                &&& final(data).eval_cases@ == old(data).eval_cases@.insert(
                    r->Ok_0.id@,
                    r->Ok_0,
                )
            },
        },
{
    let id: String = match &req.id {
        Some(id) => match require_string(Some(id.as_str()), "id") {
            Ok(id) => id,
            Err(error) => {
                return Err(error);
            },
        },
        None => new_id.to_owned(),
    };
    let question: String = match require_string(as_deref(&req.question), "question") {
        Ok(question) => question,
        Err(error) => {
            return Err(error);
        },
    };
    if data.eval_cases.contains_key(&id) {
        return Err(ApiError::conflict("eval case already exists"));
    }
    let case: RagEvalCase = RagEvalCase {
        id: id.clone(),
        tenant_id: tenant_id.to_owned(),
        owner_user_id: req.owner_user_id.clone(),
        question,
        expected_context_uris: req.expected_context_uris.clone(),
        expected_source_document_uris: req.expected_source_document_uris.clone(),
        expected_answer_contains: req.expected_answer_contains.clone(),
        tags: req.tags.clone(),
        metadata: req.metadata.clone(),
        created_at: now,
    };
    data.eval_cases.insert(id, case.clone());
    Ok(case)
}

/// The order of cases with the oldest first.
pub open spec fn cases_by_age() -> spec_fn(RagEvalCase, RagEvalCase) -> bool {
    |a: RagEvalCase, b: RagEvalCase| a.created_at < b.created_at
}

fn sort_cases(v: Vec<RagEvalCase>) -> (r: Vec<RagEvalCase>)
    ensures
        r@ == sorted_by(v@, cases_by_age()),
{
    let ghost lt = cases_by_age();
    let older = |a: &RagEvalCase, b: &RagEvalCase| -> (c: bool)
        ensures
            c == lt(*a, *b),
        { a.created_at < b.created_at };
    sort_by(v, older, Ghost(lt))
}

/// The cases, the oldest first.
pub fn list_eval_cases(data: &StoreData) -> (r: Vec<RagEvalCase>)
    ensures
        r@ == sorted_by(data.eval_cases.values(), cases_by_age()),
{
    sort_cases(all_values(&data.eval_cases))
}

/// The cases with some ids, where all of them are there.
pub open spec fn cases_with(m: Map<Seq<char>, RagEvalCase>, ids: Seq<Seq<char>>) -> Option<
    Seq<RagEvalCase>,
>
    decreases ids.len(),
{
    if ids.len() == 0 {
        Some(Seq::empty())
    } else {
        match cases_with(m, ids.drop_last()) {
            Some(front) => if m.dom().contains(ids.last()) {
                Some(front.push(m[ids.last()]))
            } else {
                None
            },
            None => None,
        }
    }
}

proof fn lemma_cases_missing(m: Map<Seq<char>, RagEvalCase>, ids: Seq<Seq<char>>, n: int)
    requires
        0 <= n <= ids.len(),
        cases_with(m, ids.take(n)) is None,
    ensures
        cases_with(m, ids) is None,
    decreases ids.len() - n,
{
    if n == ids.len() {
        assert(ids.take(n) =~= ids);
    } else {
        assert(ids.take(n + 1).drop_last() =~= ids.take(n));
        lemma_cases_missing(m, ids, n + 1);
    }
}

fn find_cases(data: &StoreData, ids: &Vec<String>) -> (r: Option<Vec<RagEvalCase>>)
    ensures
        match (r, cases_with(data.eval_cases@, texts(ids@))) {
            (Some(a), Some(b)) => a@ == b,
            (None, None) => true,
            _ => false,
        },
{
    let ghost all = texts(ids@);
    let ghost m = data.eval_cases@;
    let mut out: Vec<RagEvalCase> = Vec::new();
    let mut i: usize = 0;
    assert(out@ =~= Seq::<RagEvalCase>::empty());
    while i < ids.len()
        invariant
            i <= ids.len(),
            all == texts(ids@),
            m == data.eval_cases@,
            cases_with(m, all.take(i as int)) == Some(out@),
        decreases ids.len() - i,
    {
        assert(all.take(i + 1).drop_last() =~= all.take(i as int));
        assert(all.take(i + 1).last() == ids@[i as int]@);
        match data.eval_cases.get(&ids[i]) {
            Some(case) => {
                out.push(case.clone());
            },
            None => {
                proof {
                    lemma_cases_missing(m, all, i + 1);
                }
                return None;
            },
        }
        i += 1;
    }
    assert(all.take(i as int) =~= all);
    Some(out)
}

/// The cases of a run: those with the ids that are named, else all of them; the oldest first.
pub fn select_eval_cases(data: &StoreData, case_ids: &Vec<String>) -> (r: Result<
    Vec<RagEvalCase>,
    ApiError,
>)
    ensures
        ({
            let chosen = if case_ids@.len() == 0 {
                Some(data.eval_cases.values())
            } else {
                cases_with(data.eval_cases@, texts(case_ids@))
            };
            match chosen {
                None => fails_with(r, ErrorView::NotFound("eval case not found"@)),
                Some(cases) => if cases.len() == 0 {
                    fails_with(r, ErrorView::BadRequest("at least one eval case is required"@))
                } else {
                    r is Ok && r->Ok_0@ == sorted_by(cases, cases_by_age())
                },
            }
        }),
{
    let cases: Vec<RagEvalCase> = if case_ids.len() == 0 {
        all_values(&data.eval_cases)
    } else {
        match find_cases(data, case_ids) {
            Some(cases) => cases,
            None => {
                return Err(ApiError::not_found("eval case not found"));
            },
        }
    };
    if cases.len() == 0 {
        return Err(ApiError::bad_request("at least one eval case is required"));
    }
    Ok(sort_cases(cases))
}

/// The ids of cases.
pub open spec fn ids_of_cases(cases: Seq<RagEvalCase>) -> Seq<Seq<char>> {
    Seq::new(cases.len(), |i: int| cases[i].id@)
}

/// The ids of results.
pub open spec fn ids_of_results(results: Seq<RagEvalCaseResult>) -> Seq<Seq<char>> {
    Seq::new(results.len(), |i: int| results[i].id@)
}

/// Whether a guard looks at the history of facts and was broken.
pub open spec fn history_broken() -> spec_fn(RegressionGuardResult) -> bool {
    |g: RegressionGuardResult|
        (g.name@ == "state_change_writes_history_event"@ || g.name@
            == "current_state_has_history_evidence"@) && !g.passed
}

/// Whether a guard was broken.
pub open spec fn guard_broken() -> spec_fn(RegressionGuardResult) -> bool {
    |g: RegressionGuardResult| !g.passed
}

/// Whether a case failed.
pub open spec fn case_failed() -> spec_fn(RagEvalCaseResult) -> bool {
    |result: RagEvalCaseResult| result.status@ == "failed"@
}

/// All or nothing as a fraction.
pub open spec fn whole_if(applies: bool) -> Rate {
    if applies {
        Rate { part: 1, whole: 1 }
    } else {
        Rate { part: 0, whole: 1 }
    }
}

/// Whether `m` are the measurements of a run with what its guards say.
pub open spec fn are_run_metrics(
    m: RagEvalMetrics,
    results: Seq<RagEvalCaseResult>,
    guards: Seq<RegressionGuardResult>,
    false_ready: bool,
) -> bool {
    exists|plain: RagEvalMetrics| #[trigger]
        are_metrics(plain, results) && m == (RagEvalMetrics {
            llm_health_false_ready_rate: whole_if(false_ready),
            state_history_consistency_rate: whole_if(!any_where(guards, history_broken())),
            ..plain
        })
}

/// Whether `run` is put together from its cases, results and guards.
pub open spec fn is_run(
    run: RagEvalRun,
    run_id: Seq<char>,
    tenant_id: Seq<char>,
    change_id: Option<Seq<char>>,
    created_by: Option<Seq<char>>,
    cases: Seq<RagEvalCase>,
    results: Seq<RagEvalCaseResult>,
    trace_ids: Seq<Seq<char>>,
    guards: Seq<RegressionGuardResult>,
    false_ready: bool,
    now: i64,
) -> bool {
    &&& run.id@ == run_id
    &&& run.tenant_id@ == tenant_id
    &&& opt_text(run.change_id) == change_id
    &&& texts(run.case_ids@) == ids_of_cases(cases)
    &&& texts(run.result_ids@) == ids_of_results(results)
    &&& texts(run.trace_ids@) == trace_ids
    &&& run.status@ == (if any_where(guards, guard_broken()) || any_where(results, case_failed()) {
        "failed"@
    } else {
        "passed"@
    })
    &&& are_run_metrics(run.metrics, results, guards, false_ready)
    &&& run.guard_results@ == guards
    &&& run.overview_source_document_uri is None
    &&& run.report_source_document_uris@.len() == 0
    &&& run.created_by@ == text_or(created_by, "admin"@)
    &&& run.created_at == now
    &&& run.completed_at == Some(now)
}

fn list_case_ids(cases: &Vec<RagEvalCase>) -> (r: Vec<String>)
    ensures
        texts(r@) == ids_of_cases(cases@),
{
    let mut out: Vec<String> = Vec::new();
    let mut i: usize = 0;
    while i < cases.len()
        invariant
            i <= cases.len(),
            out@.len() == i,
            forall|j: int| 0 <= j < i ==> (#[trigger] out@[j])@ == cases@[j].id@,
        decreases cases.len() - i,
    {
        out.push(cases[i].id.clone());
        i += 1;
    }
    assert(texts(out@) =~= ids_of_cases(cases@));
    out
}

fn list_result_ids(results: &Vec<RagEvalCaseResult>) -> (r: Vec<String>)
    ensures
        texts(r@) == ids_of_results(results@),
{
    let mut out: Vec<String> = Vec::new();
    let mut i: usize = 0;
    while i < results.len()
        invariant
            i <= results.len(),
            out@.len() == i,
            forall|j: int| 0 <= j < i ==> (#[trigger] out@[j])@ == results@[j].id@,
        decreases results.len() - i,
    {
        out.push(results[i].id.clone());
        i += 1;
    }
    assert(texts(out@) =~= ids_of_results(results@));
    out
}

fn all_or_nothing(applies: bool) -> (r: Rate)
    ensures
        r == whole_if(applies),
{
    if applies {
        Rate { part: 1, whole: 1 }
    } else {
        Rate { part: 0, whole: 1 }
    }
}

/// Puts a run together: it failed where a case failed or a guard was broken.
pub fn assemble_run(
    run_id: &str,
    tenant_id: &str,
    change_id: Option<&str>,
    created_by: Option<&str>,
    cases: &Vec<RagEvalCase>,
    results: &Vec<RagEvalCaseResult>,
    trace_ids: &Vec<String>,
    guards: &Vec<RegressionGuardResult>,
    llm_health_false_ready: bool,
    now: i64,
) -> (r: RagEvalRun)
    ensures
        is_run(
            r,
            run_id@,
            tenant_id@,
            opt_str(change_id),
            opt_str(created_by),
            cases@,
            results@,
            texts(trace_ids@),
            guards@,
            llm_health_false_ready,
            now,
        ),
{
    let ghost h = history_broken();
    let history = |g: &RegressionGuardResult| -> (b: bool)
        ensures
            b == h(*g),
        {
            (text_eq(g.name.as_str(), "state_change_writes_history_event") || text_eq(
                g.name.as_str(),
                "current_state_has_history_evidence",
            )) && !g.passed
        };
    let history_lost: bool = find_where(guards, history, Ghost(h)) < guards.len();
    let ghost b = guard_broken();
    let broken = |g: &RegressionGuardResult| -> (c: bool)
        ensures
            c == b(*g),
        { !g.passed };
    let some_broken: bool = find_where(guards, broken, Ghost(b)) < guards.len();
    let ghost f = case_failed();
    let failed = |result: &RagEvalCaseResult| -> (c: bool)
        ensures
            c == f(*result),
        { text_eq(result.status.as_str(), "failed") };
    let some_failed: bool = find_where(results, failed, Ghost(f)) < results.len();
    let plain: RagEvalMetrics = aggregate_eval_metrics(results);
    let ghost measured = plain;
    let metrics: RagEvalMetrics = RagEvalMetrics {
        llm_health_false_ready_rate: all_or_nothing(llm_health_false_ready),
        state_history_consistency_rate: all_or_nothing(!history_lost),
        ..plain
    };
    assert(are_metrics(measured, results@));
    RagEvalRun {
        id: run_id.to_owned(),
        tenant_id: tenant_id.to_owned(),
        change_id: crate::text::opt_owned(change_id),
        case_ids: std::sync::Arc::new(list_case_ids(cases)),
        result_ids: std::sync::Arc::new(list_result_ids(results)),
        trace_ids: std::sync::Arc::new(texts_copy(trace_ids)),
        status: if some_broken || some_failed {
            "failed".to_owned()
        } else {
            "passed".to_owned()
        },
        metrics,
        guard_results: std::sync::Arc::new(copy_all(guards)),
        overview_source_document_uri: None,
        report_source_document_uris: std::sync::Arc::new(Vec::new()),
        created_by: match created_by {
            Some(name) => name.to_owned(),
            None => "admin".to_owned(),
        },
        created_at: now,
        completed_at: Some(now),
    }
}

/// Where the report of a case is.
pub open spec fn case_report_uri(run_id: Seq<char>, case_id: Seq<char>) -> Seq<char> {
    "ctx://harness/eval/"@ + slug(run_id) + "/cases/"@ + slug(case_id) + "/report"@
}

/// Whether `d` is the report of a case.
pub open spec fn is_case_report(
    d: SourceDocument,
    result: RagEvalCaseResult,
    run_id: Seq<char>,
    tenant_id: Seq<char>,
    now: i64,
) -> bool {
    let source_id = "eval-case:"@ + result.id@;
    &&& d.id@ == document_id(tenant_id, opt_text(result.owner_user_id), source_id, run_id)
    &&& d.tenant_id@ == tenant_id
    &&& d.owner_user_id == result.owner_user_id
    &&& d.source_kind@ == "eval_case_report"@
    &&& d.source_id@ == source_id
    &&& d.revision_id@ == run_id
    &&& d.uri@ == case_report_uri(run_id, result.case_id@)
    &&& d.title@ == "Eval case "@ + result.case_id@ + " report"@
    &&& d.content@ == case_text(result)
    &&& d.checksum@ == keyed_digest(
        encode_utf8(tenant_id),
        "eval-case-report"@,
        result.id@ + ":"@ + case_text(result),
        32,
    )
    &&& d.status@ == "active"@
    &&& !d.retrieval_enabled
    &&& d.created_at == now
    &&& d.updated_at == now
}

/// Whether documents are the reports of cases, one by one.
pub open spec fn are_case_reports(
    docs: Seq<SourceDocument>,
    results: Seq<RagEvalCaseResult>,
    run_id: Seq<char>,
    tenant_id: Seq<char>,
    now: i64,
) -> bool {
    docs.len() == results.len() && forall|i: int|
        0 <= i < results.len() ==> is_case_report(
            #[trigger] docs[i],
            results[i],
            run_id,
            tenant_id,
            now,
        )
}

fn case_report(result: &RagEvalCaseResult, run_id: &str, tenant_id: &str, now: i64) -> (r:
    SourceDocument)
    ensures
        is_case_report(r, *result, run_id@, tenant_id@, now),
{
    let mut uri: String = "ctx://harness/eval/".to_owned();
    uri.append(sanitize_slug(run_id).as_str());
    uri.append("/cases/");
    uri.append(sanitize_slug(result.case_id.as_str()).as_str());
    uri.append("/report");
    let content: String = case_result_markdown(result);
    let mut digested: String = result.id.clone();
    digested.append(":");
    digested.append(content.as_str());
    let checksum: String = hmac_hex(
        bytes_of(tenant_id).as_slice(),
        "eval-case-report",
        digested.as_str(),
        32,
    );
    let source_id: String = "eval-case:".to_owned().concat(result.id.as_str());
    let mut title: String = "Eval case ".to_owned();
    title.append(result.case_id.as_str());
    title.append(" report");
    SourceDocument {
        id: source_document_id(
            tenant_id,
            as_deref(&result.owner_user_id),
            source_id.as_str(),
            run_id,
        ),
        tenant_id: tenant_id.to_owned(),
        owner_user_id: result.owner_user_id.clone(),
        source_kind: "eval_case_report".to_owned(),
        source_id,
        revision_id: run_id.to_owned(),
        uri,
        title,
        content,
        checksum,
        status: "active".to_owned(),
        retrieval_enabled: false,
        created_at: now,
        updated_at: now,
    }
}

/// The URIs of documents.
pub open spec fn uris_of_documents(docs: Seq<SourceDocument>) -> Seq<Seq<char>> {
    Seq::new(docs.len(), |i: int| docs[i].uri@)
}

/// The document in which the report of a run is stored.
pub open spec fn overview_document(run_id: Seq<char>, tenant_id: Seq<char>, markdown: Seq<char>) -> NewDocumentView {
    NewDocumentView {
        tenant_id,
        owner_user_id: None,
        source_kind: "eval_overview_report"@,
        source_id: "eval-overview:"@ + run_id,
        revision_id: run_id,
        uri: "ctx://harness/eval/"@ + slug(run_id) + "/overview"@,
        title: "Eval overview "@ + run_id,
        content: markdown,
        checksum: keyed_digest(
            encode_utf8(tenant_id),
            "eval-overview-report"@,
            run_id + ":"@ + markdown,
            32,
        ),
        index_kind: "company"@,
        index_uid: COMPANY_CONTEXT_INDEX@,
    }
}

fn write_overview_document<C: Fn(&RetrievalText) -> Vec<FragmentChunk>>(
    data: &mut StoreData,
    tenant_id: &str,
    run_id: &str,
    markdown: &str,
    cut: C,
    secrets: &Vec<String>,
    now: i64,
) -> (r: DocumentIngestResult)
    requires
        is_cutter(cut),
    ensures
        ({
            let new = overview_document(run_id@, tenant_id@, markdown@);
            &&& r.source_document_uri@ == new.uri
            &&& exists|fragments: Vec<FragmentChunk>| #[trigger]
                plain_document_written(
                    *old(data),
                    *final(data),
                    r,
                    new,
                    None,
                    cut,
                    fragments,
                    texts(secrets@),
                    now,
                )
        }),
{
    let mut uri: String = "ctx://harness/eval/".to_owned();
    uri.append(sanitize_slug(run_id).as_str());
    uri.append("/overview");
    let mut digested: String = run_id.to_owned();
    digested.append(":");
    digested.append(markdown);
    let checksum: String = hmac_hex(
        bytes_of(tenant_id).as_slice(),
        "eval-overview-report",
        digested.as_str(),
        32,
    );
    let source_id: String = "eval-overview:".to_owned().concat(run_id);
    let title: String = "Eval overview ".to_owned().concat(run_id);
    let new: NewDocument<'_> = NewDocument {
        tenant_id,
        owner_user_id: None,
        source_kind: "eval_overview_report",
        source_id: source_id.as_str(),
        revision_id: run_id,
        uri: uri.as_str(),
        title: title.as_str(),
        content: markdown,
        checksum: checksum.as_str(),
        index_kind: "company",
        index_uid: COMPANY_CONTEXT_INDEX,
    };
    assert(new@ == overview_document(run_id@, tenant_id@, markdown@));
    write_plain_document(data, &new, &None, cut, secrets, now)
}

/// The state after the reports of the cases of a run were stored.
pub open spec fn case_reports_stored(
    before: StoreData,
    after: StoreData,
    docs: Seq<SourceDocument>,
) -> bool {
    &&& after == (StoreData { source_documents: after.source_documents, ..before })
    &&& after.source_documents@ == inserted_all::<SourceDocumentKey, SourceDocument>(
        before.source_documents@,
        docs,
    )
}

/// The state after a run, its report and its results were kept.
pub open spec fn run_kept(
    before: StoreData,
    after: StoreData,
    run: RagEvalRun,
    overview: RagEvalOverview,
    results: Seq<RagEvalCaseResult>,
) -> bool {
    &&& after == (StoreData {
        eval_case_results: after.eval_case_results,
        eval_overviews: after.eval_overviews,
        eval_runs: after.eval_runs,
        ..before
    })
    &&& after.eval_case_results@ == inserted_all::<String, RagEvalCaseResult>(
        before.eval_case_results@,
        results,
    )
    &&& after.eval_overviews@ == before.eval_overviews@.insert(run.id@, overview)
    &&& after.eval_runs@ == before.eval_runs@.insert(run.id@, run)
}

/// What keeping a run leads to: its reports are stored as documents, and the run says where.
pub open spec fn run_recorded<C: Fn(&RetrievalText) -> Vec<FragmentChunk>>(
    before: StoreData,
    after: StoreData,
    r: RagEvalRun,
    tenant_id: Seq<char>,
    run: RagEvalRun,
    overview: RagEvalOverview,
    results: Seq<RagEvalCaseResult>,
    cut: C,
    secrets: Seq<Seq<char>>,
    now: i64,
) -> bool {
    let new = overview_document(run.id@, tenant_id, overview.overview_markdown@);
    exists|
        docs: Seq<SourceDocument>,
        mid: StoreData,
        written: StoreData,
        ingest: DocumentIngestResult,
        fragments: Vec<FragmentChunk>,
        kept: RagEvalOverview,
    |
        {
            &&& are_case_reports(docs, results, run.id@, tenant_id, now)
            &&& #[trigger] case_reports_stored(before, mid, docs)
            &&& #[trigger] plain_document_written(
                mid,
                written,
                ingest,
                new,
                None,
                cut,
                fragments,
                secrets,
                now,
            )
            &&& r == (RagEvalRun {
                report_source_document_uris: r.report_source_document_uris,
                overview_source_document_uri: r.overview_source_document_uri,
                ..run
            })
            &&& texts(r.report_source_document_uris@) == texts(run.report_source_document_uris@)
                + uris_of_documents(docs)
            &&& opt_text(r.overview_source_document_uri) == Some(new.uri)
            &&& kept == (RagEvalOverview {
                case_report_uris: kept.case_report_uris,
                overview_source_document_uri: kept.overview_source_document_uri,
                ..overview
            })
            &&& texts(kept.case_report_uris@) == texts(overview.case_report_uris@)
                + uris_of_documents(docs)
            &&& opt_text(kept.overview_source_document_uri) == Some(new.uri)
            &&& #[trigger] run_kept(written, after, r, kept, results)
        }
}

fn with_uris(front: &Vec<String>, docs: &Vec<SourceDocument>) -> (r: Vec<String>)
    ensures
        texts(r@) == texts(front@) + uris_of_documents(docs@),
{
    let mut out: Vec<String> = texts_copy(front);
    let ghost head = texts(front@);
    let ghost all = uris_of_documents(docs@);
    let mut i: usize = 0;
    assert(head + all.take(0) =~= head);
    while i < docs.len()
        invariant
            i <= docs.len(),
            all == uris_of_documents(docs@),
            texts(out@) == head + all.take(i as int),
        decreases docs.len() - i,
    {
        let uri: String = docs[i].uri.clone();
        proof {
            texts_push(out@, uri);
            assert((head + all.take(i as int)).push(uri@) =~= head + all.take(i + 1));
        }
        out.push(uri);
        i += 1;
    }
    assert(all.take(i as int) =~= all);
    out
}

/// Keeps a run: the reports of its cases and its own are stored as documents, its own with the
/// fragments that `cut` makes of it.
pub fn record_eval_run<C: Fn(&RetrievalText) -> Vec<FragmentChunk>>(
    data: &mut StoreData,
    tenant_id: &str,
    run: &RagEvalRun,
    overview: &RagEvalOverview,
    results: &Vec<RagEvalCaseResult>,
    cut: C,
    secrets: &Vec<String>,
    now: i64,
) -> (r: RagEvalRun)
    requires
        is_cutter(cut),
    ensures
        run_recorded(
            *old(data),
            *final(data),
            r,
            tenant_id@,
            *run,
            *overview,
            results@,
            cut,
            texts(secrets@),
            now,
        ),
{
    let mut docs: Vec<SourceDocument> = Vec::new();
    let mut i: usize = 0;
    while i < results.len()
        invariant
            i <= results.len(),
            docs@.len() == i,
            forall|j: int|
                0 <= j < i ==> is_case_report(
                    #[trigger] docs@[j],
                    results@[j],
                    run.id@,
                    tenant_id@,
                    now,
                ),
        decreases results.len() - i,
    {
        docs.push(case_report(&results[i], run.id.as_str(), tenant_id, now));
        i += 1;
    }
    insert_rows(&mut data.source_documents, &docs);
    let ghost mid = *data;
    let ingest: DocumentIngestResult = write_overview_document(
        data,
        tenant_id,
        run.id.as_str(),
        overview.overview_markdown.as_str(),
        cut,
        secrets,
        now,
    );
    let ghost written = *data;
    let r: RagEvalRun = RagEvalRun {
        report_source_document_uris: std::sync::Arc::new(
            with_uris(&run.report_source_document_uris, &docs),
        ),
        overview_source_document_uri: Some(ingest.source_document_uri.clone()),
        ..run.clone()
    };
    let kept: RagEvalOverview = RagEvalOverview {
        case_report_uris: std::sync::Arc::new(with_uris(&overview.case_report_uris, &docs)),
        overview_source_document_uri: Some(ingest.source_document_uri.clone()),
        ..overview.clone()
    };
    insert_rows(&mut data.eval_case_results, results);
    data.eval_overviews.insert(run.id.clone(), kept.clone());
    data.eval_runs.insert(run.id.clone(), r.clone());
    proof {
        assert(case_reports_stored(*old(data), mid, docs@));
        let fragments = choose|fragments: Vec<FragmentChunk>| #[trigger]
            plain_document_written(
                mid,
                written,
                ingest,
                overview_document(run.id@, tenant_id@, overview.overview_markdown@),
                None,
                cut,
                fragments,
                texts(secrets@),
                now,
            );
        assert(plain_document_written(
            mid,
            written,
            ingest,
            overview_document(run.id@, tenant_id@, overview.overview_markdown@),
            None,
            cut,
            fragments,
            texts(secrets@),
            now,
        ));
        assert(run_kept(written, *data, r, kept, results@));
    }
    r
}

/// A run.
pub fn get_eval_run(data: &StoreData, run_id: &str) -> (r: Result<RagEvalRun, ApiError>)
    ensures
        if data.eval_runs@.dom().contains(run_id@) {
            r == Ok::<RagEvalRun, ApiError>(data.eval_runs@[run_id@])
        } else {
            fails_with(r, ErrorView::NotFound("eval run not found"@))
        },
{
    let key: String = run_id.to_owned();
    match data.eval_runs.get(&key) {
        Some(run) => Ok(run.clone()),
        None => Err(ApiError::not_found("eval run not found")),
    }
}

/// The report of a run.
pub fn eval_overview(data: &StoreData, run_id: &str) -> (r: Result<RagEvalOverview, ApiError>)
    ensures
        if data.eval_overviews@.dom().contains(run_id@) {
            r == Ok::<RagEvalOverview, ApiError>(data.eval_overviews@[run_id@])
        } else {
            fails_with(r, ErrorView::NotFound("eval overview not found"@))
        },
{
    let key: String = run_id.to_owned();
    match data.eval_overviews.get(&key) {
        Some(overview) => Ok(overview.clone()),
        None => Err(ApiError::not_found("eval overview not found")),
    }
}

/// The results with some ids, as far as they are there.
pub open spec fn results_with(m: Map<Seq<char>, RagEvalCaseResult>, ids: Seq<Seq<char>>) -> Seq<
    RagEvalCaseResult,
>
    decreases ids.len(),
{
    if ids.len() == 0 {
        Seq::empty()
    } else {
        let front = results_with(m, ids.drop_last());
        if m.dom().contains(ids.last()) {
            front.push(m[ids.last()])
        } else {
            front
        }
    }
}

/// The results of a run, as far as they are there.
pub fn results_of_run(data: &StoreData, run: &RagEvalRun) -> (r: Vec<RagEvalCaseResult>)
    ensures
        r@ == results_with(data.eval_case_results@, texts(run.result_ids@)),
{
    let ghost all = texts(run.result_ids@);
    let ghost m = data.eval_case_results@;
    let mut out: Vec<RagEvalCaseResult> = Vec::new();
    let mut i: usize = 0;
    assert(out@ =~= results_with(m, all.take(0)));
    while i < run.result_ids.len()
        invariant
            i <= run.result_ids@.len(),
            all == texts(run.result_ids@),
            m == data.eval_case_results@,
            out@ == results_with(m, all.take(i as int)),
        decreases run.result_ids.len() - i,
    {
        assert(all.take(i + 1).drop_last() =~= all.take(i as int));
        assert(all.take(i + 1).last() == run.result_ids@[i as int]@);
        match data.eval_case_results.get(&run.result_ids[i]) {
            Some(result) => {
                out.push(result.clone());
            },
            None => {},
        }
        i += 1;
    }
    assert(all.take(i as int) =~= all);
    out
}

/// Everything about a run.
pub struct EvalRunReport {
    pub run: RagEvalRun,
    pub overview: RagEvalOverview,
    pub case_results: Vec<RagEvalCaseResult>,
}

/// Everything about a run.
pub fn eval_run_report(data: &StoreData, run_id: &str) -> (r: Result<EvalRunReport, ApiError>)
    ensures
        if !data.eval_runs@.dom().contains(run_id@) {
            fails_with(r, ErrorView::NotFound("eval run not found"@))
        } else if !data.eval_overviews@.dom().contains(run_id@) {
            fails_with(r, ErrorView::NotFound("eval overview not found"@))
        } else {
            &&& r is Ok
            &&& r->Ok_0.run == data.eval_runs@[run_id@]
            &&& r->Ok_0.overview == data.eval_overviews@[run_id@]
            &&& r->Ok_0.case_results@ == results_with(
                data.eval_case_results@,
                texts(data.eval_runs@[run_id@].result_ids@),
            )
        },
{
    let run: RagEvalRun = match get_eval_run(data, run_id) {
        Ok(run) => run,
        Err(error) => {
            return Err(error);
        },
    };
    let overview: RagEvalOverview = match eval_overview(data, run_id) {
        Ok(overview) => overview,
        Err(error) => {
            return Err(error);
        },
    };
    let case_results: Vec<RagEvalCaseResult> = results_of_run(data, &run);
    Ok(EvalRunReport { run, overview, case_results })
}

/// Whether a result is that of a case in a run.
pub open spec fn result_of(run_id: Seq<char>, case_id: Seq<char>) -> spec_fn(
    RagEvalCaseResult,
) -> bool {
    |result: RagEvalCaseResult| result.run_id@ == run_id && result.case_id@ == case_id
}

/// The result of a case in a run.
pub fn eval_case_result(data: &StoreData, run_id: &str, case_id: &str) -> (r: Result<
    RagEvalCaseResult,
    ApiError,
>)
    ensures
        match first_of(data.eval_case_results.values(), result_of(run_id@, case_id@)) {
            Some(result) => r == Ok::<RagEvalCaseResult, ApiError>(result),
            None => fails_with(r, ErrorView::NotFound("eval case result not found"@)),
        },
{
    let ghost p = result_of(run_id@, case_id@);
    let accept = |result: &RagEvalCaseResult| -> (b: bool)
        ensures
            b == p(*result),
        {
            text_eq(result.run_id.as_str(), run_id) && text_eq(result.case_id.as_str(), case_id)
        };
    match first_value(&data.eval_case_results, accept, Ghost(p)) {
        Some(result) => Ok(result.clone()),
        None => Err(ApiError::not_found("eval case result not found")),
    }
}

} // verus!
