use std::sync::Arc;

use knowledge_store::components::{create_harness_change, CreateHarnessChangeManifestRequest};
use knowledge_store::data::{SourceDocumentKey, StoreData};
use knowledge_store::error::ApiError;
use knowledge_store::evaluation::{count_words, evaluate_case_result, guard_name_for_failure};
use knowledge_store::guards::{part_of_links_guard, regression_guard_results, state_history_guard};
use knowledge_store::history::{ensure_user_index, EnsureUserEventIndexRequest};
use knowledge_store::json::Json;
use knowledge_store::model::harness::{
    CaseMetrics, HarnessChangeManifest, RagEvalCase, RagEvalCaseResult, RagEvalMetrics, RagEvalRun,
    Rate,
};
use knowledge_store::model::ingest::SourceDocument;
use knowledge_store::model::knowledge::KnowledgeLink;
use knowledge_store::nodes::{context_node, NodeParts};
use knowledge_store::reports::{
    aggregate_eval_metrics, failure_pattern_clusters, latency_p95, markdown_list,
    root_cause_note_for_failure, suggested_component_for_failure,
};
use knowledge_store::resolver::EventIndexResolver;
use knowledge_store::runs::{
    assemble_run, create_eval_case, eval_case_result, get_eval_run, select_eval_cases,
    CreateRagEvalCaseRequest,
};
use knowledge_store::search::{
    answer_from_context, finish_search, plan_search, search_candidates, ContextSearchOutcome,
    ContextSearchRequest, Score,
};
use knowledge_store::verdicts::{
    choose_verdict, compare_harness_change, contains_folded, create_harness_verdict,
    CreateHarnessChangeVerdictRequest, EvalDeltaReport,
};

const TENANT: &str = "test-tenant";
const NOW: i64 = 1_700_000_000_000_000_000;

fn resolver() -> EventIndexResolver {
    EventIndexResolver { secret: b"test-index-hash-secret".to_vec() }
}

fn accepted<T>(r: Result<T, ApiError>) -> T {
    match r {
        Ok(value) => value,
        Err(_) => panic!("unexpected refusal"),
    }
}

fn refused<T>(r: Result<T, ApiError>) -> String {
    match r {
        Ok(_) => panic!("expected a refusal"),
        Err(ApiError::BadRequest(m)) => m,
        Err(ApiError::NotFound(m)) => m,
        Err(ApiError::Conflict(m)) => m,
        Err(ApiError::Internal(m)) => m,
    }
}

fn list(values: &[&str]) -> Arc<Vec<String>> {
    Arc::new(values.iter().map(|v| v.to_string()).collect())
}

fn rate(r: &Rate) -> f32 {
    if r.whole == 0 {
        0.0
    } else {
        r.part as f32 / r.whole as f32
    }
}

fn mean(rates: &Arc<Vec<Rate>>) -> f32 {
    if rates.is_empty() {
        0.0
    } else {
        rates.iter().map(rate).sum::<f32>() / rates.len() as f32
    }
}

fn number(v: f32) -> Json {
    Json::Number(format!("{v:?}"))
}

fn deltas(base: &RagEvalMetrics, candidate: &RagEvalMetrics) -> Json {
    Json::Object(Arc::new(vec![
        ("pass_rate".to_string(), number(rate(&candidate.pass_rate) - rate(&base.pass_rate))),
        (
            "retrieval_recall_at_5".to_string(),
            number(mean(&candidate.retrieval_recall_at_5) - mean(&base.retrieval_recall_at_5)),
        ),
    ]))
}

fn measured(metrics: &RagEvalMetrics) -> Json {
    Json::Object(Arc::new(vec![("pass_rate".to_string(), number(rate(&metrics.pass_rate)))]))
}

fn written(delta: &EvalDeltaReport) -> Json {
    Json::Object(Arc::new(vec![(
        "change_id".to_string(),
        Json::Text(delta.change_id.clone()),
    )]))
}

fn run_of(id: &str, results: &[&str], recall: (u64, u64)) -> RagEvalRun {
    RagEvalRun {
        id: id.to_string(),
        tenant_id: TENANT.to_string(),
        change_id: Some("delta-change".to_string()),
        case_ids: list(&["case-fixed", "case-risk", "case-still-failed", "case-still-passed"]),
        result_ids: list(results),
        trace_ids: Arc::new(Vec::new()),
        status: "failed".to_string(),
        metrics: RagEvalMetrics {
            pass_rate: Rate { part: 1, whole: 2 },
            retrieval_recall_at_5: Arc::new(vec![Rate { part: recall.0, whole: recall.1 }]),
            ..RagEvalMetrics::default()
        },
        guard_results: Arc::new(Vec::new()),
        overview_source_document_uri: None,
        report_source_document_uris: Arc::new(Vec::new()),
        created_by: "test".to_string(),
        created_at: NOW,
        completed_at: Some(NOW),
    }
}

fn result_of(id: &str, run_id: &str, case_id: &str, status: &str, failures: &[&str]) -> RagEvalCaseResult {
    RagEvalCaseResult {
        id: id.to_string(),
        tenant_id: TENANT.to_string(),
        run_id: run_id.to_string(),
        case_id: case_id.to_string(),
        owner_user_id: None,
        status: status.to_string(),
        question: case_id.to_string(),
        trace_id: "trace".to_string(),
        answer: String::new(),
        citations: Arc::new(Vec::new()),
        retrieved_uris: Arc::new(Vec::new()),
        source_document_uris: Arc::new(Vec::new()),
        failures: list(failures),
        guard_failures: Arc::new(Vec::new()),
        metrics: CaseMetrics::default(),
        latency_ms: 0,
        created_at: NOW,
    }
}

#[test]
fn eval_delta_reports_fixed_and_regressed_risk_cases_for_verdict() {
    let mut data = StoreData::empty();
    data.harness_changes.insert(
        "delta-change".to_string(),
        HarnessChangeManifest {
            id: "delta-change".to_string(),
            tenant_id: TENANT.to_string(),
            iteration: 1,
            change_type: "improvement".to_string(),
            component_id: "retrieval.context_search".to_string(),
            files: list(&["src/store.rs"]),
            failure_pattern: "retrieval_recall".to_string(),
            root_cause: "test".to_string(),
            targeted_fix: "test".to_string(),
            predicted_fixes: list(&["case-fixed"]),
            risk_cases: list(&["case-risk"]),
            expected_metric_deltas: Json::Object(Arc::new(vec![(
                "pass_rate".to_string(),
                Json::Number("0.5".to_string()),
            )])),
            baseline_eval_run_id: Some("baseline-run".to_string()),
            candidate_eval_run_id: Some("candidate-run".to_string()),
            why_this_component: "test".to_string(),
            created_by: "test".to_string(),
            created_at: NOW,
            status: "proposed".to_string(),
        },
    );
    data.eval_runs.insert(
        "baseline-run".to_string(),
        run_of(
            "baseline-run",
            &["baseline-fixed", "baseline-risk", "baseline-still-failed", "baseline-still-passed"],
            (1, 2),
        ),
    );
    data.eval_runs.insert(
        "candidate-run".to_string(),
        run_of(
            "candidate-run",
            &[
                "candidate-fixed",
                "candidate-risk",
                "candidate-still-failed",
                "candidate-still-passed",
            ],
            (1, 1),
        ),
    );
    let none: &[&str] = &[];
    for (id, run_id, case_id, status, failures) in [
        ("baseline-fixed", "baseline-run", "case-fixed", "failed", &["retrieval_recall"][..]),
        ("candidate-fixed", "candidate-run", "case-fixed", "passed", none),
        ("baseline-risk", "baseline-run", "case-risk", "passed", none),
        ("candidate-risk", "candidate-run", "case-risk", "failed", &["citation_precision"][..]),
        (
            "baseline-still-failed",
            "baseline-run",
            "case-still-failed",
            "failed",
            &["retrieval_recall"][..],
        ),
        (
            "candidate-still-failed",
            "candidate-run",
            "case-still-failed",
            "failed",
            &["retrieval_recall"][..],
        ),
        ("baseline-still-passed", "baseline-run", "case-still-passed", "passed", none),
        ("candidate-still-passed", "candidate-run", "case-still-passed", "passed", none),
    ] {
        data.eval_case_results
            .insert(id.to_string(), result_of(id, run_id, case_id, status, failures));
    }

    let delta =
        accepted(compare_harness_change(&data, "delta-change", &None, &None, &deltas, NOW));
    assert_eq!(delta.fixed_cases, vec!["case-fixed"]);
    assert_eq!(delta.regressed_cases, vec!["case-risk"]);
    assert_eq!(delta.unchanged_failed_cases, vec!["case-still-failed"]);
    assert_eq!(delta.unchanged_passed_cases, vec!["case-still-passed"]);
    assert_eq!(
        delta.metric_deltas.get("retrieval_recall_at_5"),
        Some(&Json::Number("0.5".to_string()))
    );
    assert!(delta.risk_matrix.iter().any(|risk| risk.case_id == "case-risk" && risk.regressed));

    let req = CreateHarnessChangeVerdictRequest {
        eval_run_id: Some("candidate-run".to_string()),
        observed_metric_deltas: Json::Null,
        created_by: None,
    };
    let verdict = accepted(create_harness_verdict(
        &mut data,
        TENANT,
        "delta-change",
        &req,
        &deltas,
        &measured,
        &written,
        "verdict-1",
        NOW,
    ));
    assert_eq!(verdict.verdict, "rollback");
    assert_eq!(*verdict.predicted_fixes_confirmed, vec!["case-fixed"]);
    assert_eq!(*verdict.risk_cases_regressed, vec!["case-risk"]);
    assert!(verdict.evidence.get("delta").is_some());
    assert_eq!(data.harness_changes.get(&"delta-change".to_string()).unwrap().status, "rollback");
}

#[test]
fn a_verdict_on_an_unknown_change_is_refused() {
    let mut data = StoreData::empty();
    assert_eq!(
        refused(compare_harness_change(&data, "none", &None, &None, &deltas, NOW)),
        "harness change not found"
    );
    let req = CreateHarnessChangeVerdictRequest {
        eval_run_id: None,
        observed_metric_deltas: Json::Null,
        created_by: None,
    };
    assert_eq!(
        refused(create_harness_verdict(
            &mut data, TENANT, "none", &req, &deltas, &measured, &written, "v", NOW,
        )),
        "harness change not found"
    );
}

#[test]
fn verdicts_follow_what_was_found() {
    assert_eq!(choose_verdict(true, true, true), "rollback");
    assert_eq!(choose_verdict(false, true, true), "keep");
    assert!(contains_folded("Recall IMPROVED", "improved"));
    assert!(!contains_folded("recall", "recall improved"));
}

/// One score for every node that holds the query.
fn scores(nodes: &Vec<knowledge_store::model::knowledge::ContextNode>, query: &str) -> Vec<Option<Score>> {
    nodes
        .iter()
        .map(|node| {
            if node.body.contains(query) {
                Some(Score {
                    bits: 1.0f32.to_bits(),
                    written: Json::Number("1.0".to_string()),
                    breakdown: Json::Object(Arc::new(Vec::new())),
                })
            } else {
                None
            }
        })
        .collect()
}

fn search(data: &mut StoreData, case: &RagEvalCase, is_admin: bool) -> ContextSearchOutcome {
    let req = ContextSearchRequest {
        query: Some(case.question.clone()),
        mode: "hybrid".to_string(),
        owner_user_id: case.owner_user_id.clone(),
        filters: Json::Null,
        limit: 5,
        extras: Vec::new(),
        return_profile: "standard".to_string(),
        debug: false,
    };
    let plan = accepted(plan_search(&req));
    let nodes = search_candidates(data, &resolver(), TENANT, &plan);
    let scored = scores(&nodes, &case.question);
    finish_search(
        data, TENANT, &plan, "hybrid", false, is_admin, &nodes, &scored, &None, &Vec::new(), "trace-1",
        NOW,
    )
}

fn case_for(data: &mut StoreData, owner: Option<&str>, question: &str) -> RagEvalCase {
    let req = CreateRagEvalCaseRequest {
        id: None,
        owner_user_id: owner.map(|o| o.to_string()),
        question: Some(question.to_string()),
        expected_context_uris: Arc::new(Vec::new()),
        expected_source_document_uris: Arc::new(Vec::new()),
        expected_answer_contains: Arc::new(Vec::new()),
        tags: Arc::new(Vec::new()),
        metadata: Json::Null,
    };
    accepted(create_eval_case(data, TENANT, &req, "case-1", NOW))
}

fn run_case(data: &mut StoreData, case: &RagEvalCase) -> RagEvalRun {
    let cases = accepted(select_eval_cases(data, &vec![case.id.clone()]));
    let outcome = search(data, case, false);
    let answer = answer_from_context(&outcome, "memory", "answer-1");
    let result = evaluate_case_result(
        data, &resolver(), TENANT, "run-1", case, &outcome, &answer, 3, "result-1", NOW,
    );
    let results = vec![result];
    let guards = regression_guard_results(data, TENANT, &results, false);
    assemble_run(
        "run-1",
        TENANT,
        None,
        None,
        &cases,
        &results,
        &vec!["trace-1".to_string()],
        &guards,
        false,
        NOW,
    )
}

#[test]
fn source_doc_leak_guard_fails_when_source_doc_is_retrieved() {
    let mut data = StoreData::empty();
    let uri = "ctx://test/source/leaky";
    let mut node = context_node(
        &NodeParts {
            uri,
            title: "Leaky source doc",
            layer: 2,
            body: "source-doc-leak-keyword",
            index_kind: "company",
            index_uid: "rag_company_context",
            tenant_id: TENANT,
            owner_user_id: None,
            source_id: Some("leaky-source"),
            revision_id: Some("v1"),
        },
        NOW,
    );
    node.node_kind = "source_doc".to_string();
    node.retrieval_role = "fragment".to_string();
    node.retrieval_enabled = true;
    node.source_document_uri = Some(uri.to_string());
    data.company_context.push(node);
    data.source_documents.insert(
        SourceDocumentKey::new(TENANT, None, uri),
        SourceDocument {
            id: "source-doc-leak-fixture".to_string(),
            tenant_id: TENANT.to_string(),
            owner_user_id: None,
            source_kind: "test".to_string(),
            source_id: "leaky-source".to_string(),
            revision_id: "v1".to_string(),
            uri: uri.to_string(),
            title: "Leaky source doc".to_string(),
            content: "source-doc-leak-keyword".to_string(),
            checksum: "checksum".to_string(),
            status: "active".to_string(),
            retrieval_enabled: false,
            created_at: NOW,
            updated_at: NOW,
        },
    );
    let case = case_for(&mut data, None, "source-doc-leak-keyword");
    let run = run_case(&mut data, &case);
    assert_eq!(run.status, "failed");
    assert!(run
        .guard_results
        .iter()
        .any(|guard| guard.name == "source_doc_not_default_retrieved" && !guard.passed));
}

#[test]
fn misrouted_personal_row_is_filtered_before_owner_retrieval() {
    let mut data = StoreData::empty();
    let req = EnsureUserEventIndexRequest {
        schema_version: None,
        create_personal_context_index: true,
        force_reapply_settings: false,
    };
    let routing =
        accepted(ensure_user_index(&mut data, &resolver(), TENANT, "u1", &req, NOW)).routing;
    let index = routing.personal_context_index_uid.clone();
    let mut node = context_node(
        &NodeParts {
            uri: "ctx://test/private/cross-owner/fragments/0001",
            title: "Cross owner fragment",
            layer: 2,
            body: "cross-owner-leak-keyword",
            index_kind: "personal",
            index_uid: &index,
            tenant_id: TENANT,
            owner_user_id: Some("u2"),
            source_id: Some("cross-owner-source"),
            revision_id: Some("v1"),
        },
        NOW,
    );
    node.node_kind = "fragment".to_string();
    node.retrieval_role = "fragment".to_string();
    node.retrieval_enabled = true;
    node.source_document_uri = Some("ctx://test/private/cross-owner/source".to_string());
    let mut rows = data.personal_context.remove(&index).unwrap_or_default();
    rows.push(node);
    data.personal_context.insert(index, rows);
    let case = case_for(&mut data, Some("u1"), "cross-owner-leak-keyword");
    let run = run_case(&mut data, &case);
    assert_eq!(run.status, "failed");
    assert!(run
        .guard_results
        .iter()
        .any(|guard| guard.name == "owner_acl_never_leaks" && guard.passed));
}

#[test]
fn a_search_finds_only_what_the_owner_may_see() {
    let mut data = StoreData::empty();
    for (uri, owner) in [("ctx://company/a", None), ("ctx://company/b", Some("u2"))] {
        let mut node = context_node(
            &NodeParts {
                uri,
                title: "Note",
                layer: 2,
                body: "shared-keyword",
                index_kind: "company",
                index_uid: "rag_company_context",
                tenant_id: TENANT,
                owner_user_id: owner,
                source_id: None,
                revision_id: None,
            },
            NOW,
        );
        node.node_kind = "fragment".to_string();
        node.retrieval_role = "fragment".to_string();
        node.retrieval_enabled = true;
        data.company_context.push(node);
    }
    let case = case_for(&mut data, Some("u1"), "shared-keyword");
    let outcome = search(&mut data, &case, false);
    let uris: Vec<&str> = outcome.response.hits.iter().map(|h| h.uri.as_str()).collect();
    assert_eq!(uris, vec!["ctx://company/a"]);
    assert_eq!(outcome.response.trace_id, "trace-1");
    assert!(data.traces.contains_key(&"trace-1".to_string()));
    let answer = answer_from_context(&outcome, "memory", "answer-1");
    assert_eq!(answer.citations.len(), 1);
}

#[test]
fn a_run_that_is_not_there_is_refused() {
    let data = StoreData::empty();
    assert_eq!(refused(get_eval_run(&data, "none")), "eval run not found");
    assert_eq!(refused(eval_case_result(&data, "none", "case")), "eval case result not found");
}

#[test]
fn metrics_are_counted_over_the_results() {
    let mut a = result_of("a", "run", "case-a", "passed", &[]);
    a.latency_ms = 10;
    a.metrics.retrieval_recall_at_5 = Some(Rate { part: 1, whole: 2 });
    let mut b = result_of("b", "run", "case-b", "failed", &["retrieval_recall"]);
    b.latency_ms = 30;
    b.metrics.source_doc_leak = Some(true);
    let results = vec![a, b];
    let metrics = aggregate_eval_metrics(&results);
    assert_eq!((metrics.pass_rate.part, metrics.pass_rate.whole), (1, 2));
    assert_eq!(
        (metrics.source_doc_leak_rate.part, metrics.source_doc_leak_rate.whole),
        (1, 2)
    );
    assert_eq!(metrics.retrieval_recall_at_5.len(), 2);
    assert_eq!(metrics.retrieval_recall_at_5[0], Rate { part: 1, whole: 2 });
    assert_eq!(metrics.retrieval_recall_at_5[1], Rate { part: 0, whole: 1 });
    assert_eq!(metrics.latency_p95, 30);
    assert_eq!(latency_p95(&Vec::new()), 0);
    let clusters = failure_pattern_clusters(&results);
    assert_eq!(clusters.len(), 1);
    assert_eq!(clusters[0].pattern, "retrieval_recall");
    assert_eq!(clusters[0].count, 1);
    assert_eq!(
        clusters[0].suggested_target_component,
        suggested_component_for_failure("retrieval_recall")
    );
    assert_eq!(clusters[0].root_cause_notes[0], root_cause_note_for_failure("retrieval_recall"));
}

#[test]
fn words_and_lists_are_written_plainly() {
    assert_eq!(count_words("  two words\n"), 2);
    assert_eq!(count_words(""), 0);
    assert_eq!(markdown_list(&vec!["a".to_string(), "b".to_string()]), "- a\n- b");
    assert_eq!(guard_name_for_failure("source_doc_leak"), Some("source_doc_not_default_retrieved"));
    assert_eq!(guard_name_for_failure("retrieval_recall"), None);
}

#[test]
fn a_part_of_link_to_nothing_breaks_its_guard() {
    let mut data = StoreData::empty();
    assert!(part_of_links_guard(&data, TENANT).0);
    assert!(state_history_guard(&data, TENANT).0);
    data.links.insert(
        "link-1".to_string(),
        KnowledgeLink {
            id: "link-1".to_string(),
            tenant_id: TENANT.to_string(),
            owner_user_id: None,
            source_uri: "ctx://a".to_string(),
            target_uri: "ctx://b".to_string(),
            source_title: None,
            target_title: None,
            relation: "part_of".to_string(),
            rationale: None,
            evidence_text: None,
            confidence: 1.0f32.to_bits(),
            created_by: "system".to_string(),
            status: "active".to_string(),
            tags: Arc::new(Vec::new()),
            created_at: NOW,
            updated_at: NOW,
        },
    );
    let mut fragment = context_node(
        &NodeParts {
            uri: "ctx://c",
            title: "c",
            layer: 2,
            body: "c",
            index_kind: "company",
            index_uid: "rag_company_context",
            tenant_id: TENANT,
            owner_user_id: None,
            source_id: Some("s"),
            revision_id: Some("r"),
        },
        NOW,
    );
    fragment.node_kind = "fragment".to_string();
    fragment.retrieval_role = "fragment".to_string();
    fragment.source_document_uri = Some("ctx://d".to_string());
    data.company_context.push(fragment);
    assert!(!part_of_links_guard(&data, TENANT).0);
}

#[test]
fn a_change_needs_its_component_and_its_reasons() {
    let mut data = StoreData::empty();
    data.seed_harness_components(TENANT, NOW);
    let req = |component: &str, pattern: Option<&str>| CreateHarnessChangeManifestRequest {
        id: None,
        iteration: None,
        change_type: Some("new".to_string()),
        component_id: Some(component.to_string()),
        files: Arc::new(Vec::new()),
        failure_pattern: pattern.map(|p| p.to_string()),
        root_cause: Some("cause".to_string()),
        targeted_fix: Some("fix".to_string()),
        predicted_fixes: Arc::new(Vec::new()),
        risk_cases: Arc::new(Vec::new()),
        expected_metric_deltas: Json::Null,
        baseline_eval_run_id: None,
        candidate_eval_run_id: None,
        why_this_component: Some("why".to_string()),
        created_by: None,
    };
    assert_eq!(
        refused(create_harness_change(&mut data, TENANT, &req("no.such", Some("p")), "c", NOW)),
        "harness component not found"
    );
    assert_eq!(
        refused(create_harness_change(
            &mut data,
            TENANT,
            &req("retrieval.context_search", None),
            "c",
            NOW,
        )),
        "failure_pattern is required"
    );
}
