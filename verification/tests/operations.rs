use std::sync::Arc;

use knowledge_store::cursor::{
    decode_operation_list_cursor, encode_operation_list_cursor, operation_list_cursor_scope,
    status_text, OperationListCursor,
};
use knowledge_store::data::StoreData;
use knowledge_store::error::ApiError;
use knowledge_store::execution::{
    begin_step, check_startup_candidate, next_step, start_execution, startup_batch, step_applied,
    STARTUP_BATCH,
};
use knowledge_store::history::{ensure_user_index_entry, get_user_index};
use knowledge_store::hydration::{
    completed_hydration_report, durability_contract, hydration_ready, hydration_report,
    hydration_response, initial_hydration_report, publish_hydration_failure, reconciled_user_index,
    required_hydration_rows, DurabilityClass, HydrationStage, HydrationStatus,
};
use knowledge_store::json::Json;
use knowledge_store::listing::{
    begin_listing, check_operation_page, list_operations, next_page_cursor, OperationListPage,
    OperationListRequest, OperationSummary, PageSource,
};
use knowledge_store::loading::{
    add_run_rows, assemble_stage, finish_recovery, recovery_plan, Rows, StageRows,
};
use knowledge_store::model::ingest::{IngestTask, IngestTaskResult};
use knowledge_store::model::knowledge::{SessionRecord, UserEventIndex};
use knowledge_store::model::operation::{
    OperationIndexingState, OperationPlan, OperationRecord, OperationResource, OperationStatus,
    OperationStepStatus, StepProgress,
};
use knowledge_store::operations::{
    ensure_operation_request_matches, mutation_course, mutation_plan, mutation_request_fingerprint,
    receipt_action, replay_operation_response, MutationCourse, MutationPlanInput, MutationPrimary,
    ReceiptAction, StepAction, WriteConsistency,
};
use knowledge_store::plan::mutation_resources;
use knowledge_store::reconcile::{
    check_candidates, check_reconcile_request, local_candidates, reconcile_report, ReconcileResult,
};
use knowledge_store::recovery::recover_ingest;
use knowledge_store::resolver::EventIndexResolver;
use knowledge_store::routing::{
    startup_registry, validate_operation_routing, verify_refreshed_startup_registry,
};
use knowledge_store::stage::publish_hydration_stage;
use knowledge_store::staging::staged_copy;
use knowledge_store::table::Table;

const TENANT: &str = "tenant-a";
const NOW: i64 = 1_700_000_000_000_000_000;

fn resolver() -> EventIndexResolver {
    EventIndexResolver { secret: b"test-index-hash-secret".to_vec() }
}

fn message(error: ApiError) -> String {
    match error {
        ApiError::BadRequest(m) => m,
        ApiError::NotFound(m) => m,
        ApiError::Conflict(m) => m,
        ApiError::Internal(m) => m,
    }
}

fn accepted<T>(r: Result<T, ApiError>) -> T {
    match r {
        Ok(value) => value,
        Err(error) => panic!("{}", message(error)),
    }
}

fn refused<T>(r: Result<T, ApiError>) -> String {
    match r {
        Ok(_) => panic!("expected a refusal"),
        Err(error) => message(error),
    }
}

fn session(id: &str, title: &str) -> SessionRecord {
    SessionRecord {
        id: id.to_string(),
        tenant_id: TENANT.to_string(),
        owner_user_id: "owner-a".to_string(),
        title: title.to_string(),
        status: "active".to_string(),
        messages: Arc::new(Vec::new()),
        created_at: NOW,
    }
}

fn plan_of(resources: Vec<OperationResource>, primary_kind: MutationPrimary, key: Option<&str>) -> OperationPlan {
    accepted(mutation_plan(
        &resolver(),
        MutationPlanInput {
            tenant_id: TENANT.to_string(),
            operation_kind: "session.create".to_string(),
            owner_user_id: Some("owner-a".to_string()),
            idempotency_key: key.map(|k| k.to_string()),
            primary_kind,
            resources,
            response_snapshot: Json::Null,
            request_fingerprint: Some("fingerprint".to_string()),
            principal: None,
            request_id: None,
            write_consistency: WriteConsistency::Accepted,
            fresh_operation_id: "op-fresh".to_string(),
            created_at: NOW,
        },
    ))
}

fn record_of(id: &str, plan: OperationPlan, status: OperationStepStatus) -> OperationRecord {
    let mut steps = vec![plan.primary.id.clone()];
    steps.extend(plan.side_effects.iter().map(|s| s.id.clone()));
    OperationRecord {
        id: id.to_string(),
        tenant_id: TENANT.to_string(),
        operation_kind: plan.operation_kind.clone(),
        status: OperationStatus::Pending,
        indexing_state: OperationIndexingState::Pending,
        progress: Arc::new(
            steps
                .into_iter()
                .map(|step_id| StepProgress { step_id, status, task_uids: Arc::new(Vec::new()) })
                .collect(),
        ),
        plan,
        created_at: NOW,
        updated_at: NOW,
    }
}

fn session_record(id: &str, status: OperationStepStatus) -> OperationRecord {
    record_of(
        id,
        plan_of(
            vec![OperationResource::Session { session: session("s", "t") }],
            MutationPrimary::Session,
            None,
        ),
        status,
    )
}

#[test]
fn a_key_names_the_operation_whatever_it_changes() {
    let one = |title: &str| {
        plan_of(
            vec![OperationResource::Session { session: session("s", title) }],
            MutationPrimary::Session,
            Some("key"),
        )
        .id
    };
    assert_eq!(one("a"), one("b"));
    assert_ne!(one("a"), "op-fresh");
    let fresh = plan_of(
        vec![OperationResource::Session { session: session("s", "a") }],
        MutationPrimary::Session,
        None,
    );
    assert_eq!(fresh.id, "op-fresh");
    assert_eq!(fresh.primary.id, "primary");
}

#[test]
fn a_plan_without_its_primary_is_refused() {
    let r = mutation_plan(
        &resolver(),
        MutationPlanInput {
            tenant_id: TENANT.to_string(),
            operation_kind: "trace.write".to_string(),
            owner_user_id: None,
            idempotency_key: None,
            primary_kind: MutationPrimary::Trace,
            resources: vec![OperationResource::Session { session: session("s", "t") }],
            response_snapshot: Json::Null,
            request_fingerprint: None,
            principal: None,
            request_id: None,
            write_consistency: WriteConsistency::Accepted,
            fresh_operation_id: "op".to_string(),
            created_at: NOW,
        },
    );
    assert_eq!(
        refused(r),
        "mutation trace.write did not produce its declared primary resource"
    );
}

#[test]
fn a_change_is_found_and_nothing_else_is() {
    let mut before = StoreData::empty();
    before.sessions.insert("kept".to_string(), session("kept", "kept"));
    let mut after = staged_copy(&before);
    assert!(mutation_resources(TENANT, &before, &after).is_empty());
    after.sessions.insert("new".to_string(), session("new", "new"));
    let resources = mutation_resources(TENANT, &before, &after);
    assert_eq!(resources.len(), 1);
    assert!(matches!(
        &resources[0],
        OperationResource::Session { session } if session.id == "new"
    ));
    assert!(mutation_resources("tenant-b", &before, &after).is_empty());
}

#[test]
fn a_mutation_is_replayed_or_left_or_run() {
    let existing = session_record("op-1", OperationStepStatus::Completed);
    let course = |existing: Option<&OperationRecord>, fingerprint, count, kind| {
        mutation_course(existing, fingerprint, count, WriteConsistency::Accepted, kind)
    };
    assert_eq!(
        accepted(course(Some(&existing), Some("fingerprint"), 1, MutationPrimary::Session)),
        MutationCourse::Replay
    );
    assert_eq!(
        refused(course(Some(&existing), Some("other"), 1, MutationPrimary::Session)),
        "idempotency key was already used for a different request"
    );
    assert!(ensure_operation_request_matches(&existing, None).is_ok());
    assert_eq!(
        accepted(course(None, None, 0, MutationPrimary::Session)),
        MutationCourse::Nothing
    );
    assert_eq!(
        accepted(course(None, None, 1, MutationPrimary::Session)),
        MutationCourse::Run { wait_for_index: false, buffer_publication: false }
    );
    assert_eq!(
        accepted(mutation_course(
            None,
            None,
            1,
            WriteConsistency::WaitForIndex,
            MutationPrimary::DeleteCompanySource,
        )),
        MutationCourse::Run { wait_for_index: true, buffer_publication: false }
    );
}

#[test]
fn an_operation_runs_its_steps_in_order_and_publishes_each() {
    let plan = plan_of(
        vec![
            OperationResource::Session { session: session("s2", "second") },
            OperationResource::Session { session: session("s1", "first") },
        ],
        MutationPrimary::Session,
        None,
    );
    let record = record_of("op-1", plan, OperationStepStatus::Pending);
    let mut staged = StoreData::empty();
    staged.sessions.insert("s1".to_string(), session("s1", "first"));
    staged.sessions.insert("s2".to_string(), session("s2", "second"));
    let mut current = StoreData::empty();
    let mut registry: Table<String, UserEventIndex> = Table::new();
    let mut run = start_execution(&record, false);
    assert_eq!(next_step(&run), Some("primary"));
    let action =
        begin_step(&resolver(), &current, &record, &Ok(()), "primary", false, Some(&registry));
    let action = accepted(action);
    assert!(matches!(action, StepAction::Submit { .. }));
    accepted(step_applied(&mut run, &mut current, &staged, &record, &mut registry));
    assert!(current.sessions.contains_key(&"s2".to_string()));
    assert!(!current.sessions.contains_key(&"s1".to_string()));
    assert_eq!(next_step(&run), Some("effect-0001"));
    accepted(step_applied(&mut run, &mut current, &staged, &record, &mut registry));
    assert!(current.sessions.contains_key(&"s1".to_string()));
    assert_eq!(next_step(&run), None);
    assert!(current.operations.contains_key(&"op-1".to_string()));

    let mut held = StoreData::empty();
    let mut run = start_execution(&record, true);
    accepted(step_applied(&mut run, &mut held, &staged, &record, &mut registry));
    assert_eq!(held.sessions.len(), 0);
    accepted(step_applied(&mut run, &mut held, &staged, &record, &mut registry));
    assert_eq!(held.sessions.len(), 2);
    assert_eq!(
        refused(begin_step(&resolver(), &current, &record, &Ok(()), "effect-0009", false, None)),
        "operation step effect-0009 is missing"
    );
}

#[test]
fn a_step_that_is_done_is_not_submitted_again() {
    let record = session_record("op-1", OperationStepStatus::Completed);
    let data = StoreData::empty();
    assert!(matches!(
        accepted(begin_step(&resolver(), &data, &record, &Ok(()), "primary", true, None)),
        StepAction::Finished
    ));
    let record = session_record("op-1", OperationStepStatus::Submitted);
    assert!(matches!(
        accepted(begin_step(&resolver(), &data, &record, &Ok(()), "primary", true, None)),
        StepAction::AwaitTasks { .. }
    ));
    let resource = OperationResource::Session { session: session("s", "t") };
    assert_eq!(receipt_action(&resource, true, &Vec::new()), ReceiptAction::Complete);
    assert_eq!(
        receipt_action(&resource, false, &vec!["7".to_string()]),
        ReceiptAction::Accept
    );
    assert_eq!(
        receipt_action(&resource, true, &vec!["7".to_string()]),
        ReceiptAction::AcceptAndWait
    );
}

#[test]
fn an_index_of_another_tenant_is_not_written() {
    let mut data = StoreData::empty();
    let (index, _) = ensure_user_index_entry(&mut data, &resolver(), "tenant-b", "owner-b", 1, NOW);
    let plan = plan_of(
        vec![OperationResource::EnsureUserEventIndex { index }],
        MutationPrimary::UserIndex,
        None,
    );
    let record = record_of("op-1", plan, OperationStepStatus::Pending);
    assert!(validate_operation_routing(&resolver(), &record, &Ok(())).is_err());
    assert!(begin_step(&resolver(), &data, &record, &Ok(()), "primary", false, None).is_err());
}

#[test]
fn a_record_that_is_not_in_order_is_refused() {
    let record = session_record("op-1", OperationStepStatus::Pending);
    let bad: Result<(), String> = Err("bad plan".to_string());
    assert_eq!(
        refused(validate_operation_routing(&resolver(), &record, &bad)),
        "invalid persisted operation record: bad plan"
    );
    assert!(validate_operation_routing(&resolver(), &record, &Ok(())).is_ok());
    let both = vec![record.clone(), session_record("op-2", OperationStepStatus::Pending)];
    assert!(check_candidates(&both, &vec![Ok(()), Ok(())]).is_ok());
    assert_eq!(
        refused(check_candidates(&both, &vec![Ok(()), bad])),
        "operation repository returned an invalid record: bad plan"
    );
}

#[test]
fn a_replayed_answer_is_what_was_kept() {
    let mut record = session_record("op-1", OperationStepStatus::Completed);
    record.plan.response_snapshot = Json::Object(Arc::new(vec![
        ("id".to_string(), Json::Text("e1".to_string())),
        ("duplicate".to_string(), Json::Bool(false)),
    ]));
    let replayed = accepted(replay_operation_response(&record));
    assert_eq!(replayed.get("duplicate"), Some(&Json::Bool(true)));
    assert_eq!(replayed.get("id"), Some(&Json::Text("e1".to_string())));
    record.plan.response_snapshot = Json::Null;
    assert!(replay_operation_response(&record).is_err());
}

#[test]
fn a_fingerprint_tells_requests_apart() {
    let secret = b"secret".to_vec();
    let of = |request: &str| mutation_request_fingerprint(&secret, TENANT, "kind", request);
    assert_eq!(of("{}"), of("{}"));
    assert_ne!(of("{}"), of("[]"));
    assert_eq!(of("{}").len(), 32);
}

#[test]
fn a_cursor_is_read_back_only_in_its_scope() {
    let secret = b"secret".to_vec();
    let statuses = vec![OperationStatus::Failed, OperationStatus::Completed];
    let turned = vec![OperationStatus::Completed, OperationStatus::Failed];
    let kinds = vec!["b".to_string(), "a".to_string()];
    let cursor =
        accepted(encode_operation_list_cursor(&secret, TENANT, &statuses, &kinds, 25, "op-9"));
    assert!(cursor.starts_with("op1."));
    let read = accepted(decode_operation_list_cursor(
        &secret,
        TENANT,
        &turned,
        &kinds,
        Some(&cursor),
    ))
    .unwrap();
    assert_eq!(read.offset, 25);
    assert_eq!(read.previous_operation_id, "op-9");
    assert!(accepted(decode_operation_list_cursor(&secret, TENANT, &turned, &kinds, None)).is_none());
    for wrong in [
        decode_operation_list_cursor(&secret, "tenant-b", &statuses, &kinds, Some(&cursor)),
        decode_operation_list_cursor(&secret, TENANT, &Vec::new(), &kinds, Some(&cursor)),
        decode_operation_list_cursor(&b"other".to_vec(), TENANT, &statuses, &kinds, Some(&cursor)),
        decode_operation_list_cursor(&secret, TENANT, &statuses, &kinds, Some("op1.00.00")),
        decode_operation_list_cursor(&secret, TENANT, &statuses, &kinds, Some("op1.zz.00")),
        decode_operation_list_cursor(&secret, TENANT, &statuses, &kinds, Some("")),
    ] {
        assert!(matches!(wrong, Err(ApiError::BadRequest(_))));
    }
    assert_eq!(
        accepted(operation_list_cursor_scope("t\"1", &statuses, &kinds)),
        "[\"t\\\"1\",[\"completed\",\"failed\"],[\"a\",\"b\"]]"
    );
    assert_eq!(
        accepted(operation_list_cursor_scope("t", &Vec::new(), &Vec::new())),
        "[\"t\",[],[]]"
    );
    assert_eq!(status_text(OperationStatus::PartiallyFailed), "partially_failed");
}

#[test]
fn a_page_goes_on_where_the_last_one_ended() {
    let records = |ids: &[&str]| -> Vec<OperationRecord> {
        ids.iter().map(|id| session_record(id, OperationStepStatus::Pending)).collect()
    };
    let secret = b"secret".to_vec();
    let mut req = OperationListRequest {
        statuses: Vec::new(),
        operation_kinds: Vec::new(),
        cursor: None,
        limit: 2,
        include_plan: false,
    };
    let all = || records(&["a", "b", "c"]);
    let start = accepted(begin_listing(&secret, TENANT, &req));
    let first = accepted(list_operations(all(), TENANT, &req, &start));
    assert!(first.has_more);
    let ids: Vec<&str> = first.operations.iter().map(|o| o.summary.id.as_str()).collect();
    assert_eq!(ids, vec!["c", "b"]);
    assert!(first.operations.iter().all(|o| o.plan.is_none()));
    assert!(check_operation_page(&first, &req, TENANT).is_ok());
    assert_eq!(
        refused(check_operation_page(&first, &req, "tenant-b")),
        "operation repository returned a record outside the requested page scope"
    );
    req.include_plan = true;
    assert_eq!(
        refused(check_operation_page(&first, &req, TENANT)),
        "operation repository returned a record outside the requested page scope"
    );
    let planned = accepted(list_operations(all(), TENANT, &req, &start));
    assert!(planned.operations.iter().all(|o| o.plan.is_some()));
    assert!(check_operation_page(&planned, &req, TENANT).is_ok());
    req.include_plan = false;
    req.cursor = accepted(next_page_cursor(
        &secret,
        TENANT,
        &req,
        &start,
        &first,
        PageSource::Journal,
    ));
    let cursor = accepted(begin_listing(&secret, TENANT, &req));
    assert_eq!(
        cursor,
        Some(OperationListCursor { offset: 2, previous_operation_id: "b".to_string() })
    );
    let next = accepted(list_operations(all(), TENANT, &req, &cursor));
    assert!(!next.has_more);
    assert_eq!(next.operations.len(), 1);
    assert_eq!(next.operations[0].summary.id, "a");
    assert!(accepted(next_page_cursor(&secret, TENANT, &req, &cursor, &next, PageSource::Journal))
        .is_none());
    assert_eq!(
        refused(list_operations(records(&["a", "c"]), TENANT, &req, &cursor)),
        "cursor is invalid or stale"
    );
    req.limit = 501;
    assert_eq!(
        refused(begin_listing(&secret, TENANT, &req)),
        "limit must be between 1 and 500"
    );
    let empty = OperationListPage { operations: Vec::new(), has_more: true };
    assert_eq!(
        refused(next_page_cursor(&secret, TENANT, &req, &None, &empty, PageSource::Repository)),
        "operation repository returned an empty page with more results"
    );
}

#[test]
fn a_reconciliation_is_bounded_and_told() {
    assert_eq!(
        refused(check_reconcile_request(0, &Vec::new())),
        "limit must be between 1 and 1000"
    );
    assert_eq!(
        refused(check_reconcile_request(1_001, &Vec::new())),
        "limit must be between 1 and 1000"
    );
    assert_eq!(
        refused(check_reconcile_request(1, &vec![" ".to_string()])),
        "operation_ids must not contain empty values"
    );
    let ids = accepted(check_reconcile_request(
        1_000,
        &vec![" b".to_string(), "a".to_string(), "b".to_string()],
    ));
    assert_eq!(ids, vec!["b".to_string(), "a".to_string()]);

    let mut data = StoreData::empty();
    for (id, age) in [("a", 2), ("b", 1), ("c", 0)] {
        let mut record = session_record(id, OperationStepStatus::Pending);
        record.created_at = NOW - age;
        if id == "c" {
            record.status = OperationStatus::Completed;
            record.indexing_state = OperationIndexingState::Completed;
        }
        data.operations.insert(id.to_string(), record);
    }
    let open: Vec<String> = local_candidates(&data, TENANT, &Vec::new(), &Vec::new(), 10)
        .into_iter()
        .map(|o| o.id)
        .collect();
    assert_eq!(open, vec!["a".to_string(), "b".to_string()]);
    let candidates = local_candidates(
        &data,
        TENANT,
        &vec!["c".to_string(), "a".to_string(), "x".to_string()],
        &Vec::new(),
        1,
    );
    assert_eq!(candidates.len(), 2);
    let report = reconcile_report(
        &candidates,
        &vec![
            ReconcileResult::Left,
            ReconcileResult::Failed {
                category: "transport".to_string(),
                fingerprint: "f".to_string(),
                latest: None,
            },
        ],
    );
    assert_eq!(report.checked, 2);
    assert_eq!(report.tally.skipped, 1);
    assert_eq!(report.tally.reconciled, 1);
    assert_eq!(report.tally.failed, 1);
    assert_eq!(report.errors.len(), 1);
    assert_eq!(report.errors[0].operation_id, "a");
    let shown: &OperationSummary = &report.operations[1];
    assert_eq!(shown.id, "a");
    assert_eq!(shown.operation_kind, candidates[1].operation_kind);
    assert_eq!(shown.progress.len(), candidates[1].progress.len());
}

#[test]
fn a_start_takes_the_oldest_first_and_trusts_no_journal() {
    let mut young = session_record("young", OperationStepStatus::Pending);
    young.created_at = NOW + 1;
    let old = session_record("old", OperationStepStatus::Pending);
    let batch = accepted(startup_batch(Some(vec![young, old])));
    assert_eq!(batch[0].id, "old");
    assert_eq!(
        refused(startup_batch(None)),
        "operation journal is unavailable for the configured backend"
    );
    let many: Vec<OperationRecord> = (0..=STARTUP_BATCH)
        .map(|i| session_record(&format!("op-{i}"), OperationStepStatus::Pending))
        .collect();
    assert_eq!(
        refused(startup_batch(Some(many))),
        "operation journal returned more startup candidates than requested"
    );
    assert!(check_startup_candidate(&batch[0], TENANT, &Ok(())).is_ok());
    assert_eq!(
        refused(check_startup_candidate(&batch[0], "tenant-b", &Ok(()))),
        "operation journal returned a cross-tenant record"
    );
    assert_eq!(
        refused(check_startup_candidate(&batch[0], TENANT, &Err("bad plan".to_string()))),
        "operation journal returned an invalid record: bad plan"
    );
    let mut done = session_record("done", OperationStepStatus::Completed);
    done.status = OperationStatus::Completed;
    done.indexing_state = OperationIndexingState::Completed;
    assert_eq!(
        refused(check_startup_candidate(&done, TENANT, &Ok(()))),
        "operation journal returned a completed startup candidate"
    );
}

fn rows<T>() -> Rows<T> {
    Ok(Some(Vec::new()))
}

fn empty_rows() -> StageRows {
    StageRows {
        company_context: rows(),
        state_items: rows(),
        insights: rows(),
        links: rows(),
        sources: rows(),
        source_revisions: rows(),
        datasets: rows(),
        snapshots: rows(),
        structured_summaries: rows(),
        sessions: rows(),
        traces: rows(),
        harness_components: rows(),
        harness_revisions: rows(),
        harness_changes: rows(),
        harness_verdicts: rows(),
        eval_cases: rows(),
        eval_runs: rows(),
        ingest_tasks: rows(),
        ingest_results: rows(),
        parse_artifacts: rows(),
    }
}

fn stage() -> HydrationStage {
    match assemble_stage(empty_rows(), Vec::new(), TENANT) {
        Ok(stage) => stage,
        Err(failure) => panic!("{}", failure.domain),
    }
}

fn task(id: &str, state: &str) -> IngestTask {
    IngestTask {
        task_id: id.to_string(),
        tenant_id: TENANT.to_string(),
        owner_user_id: None,
        source_id: "s".to_string(),
        revision_id: "r".to_string(),
        source_document_uri: None,
        parser_provider: "builtin".to_string(),
        parser_backend: "text".to_string(),
        state: state.to_string(),
        error: None,
        created_at: NOW - 1,
        updated_at: NOW - 1,
        completed_at: None,
        status_url: None,
        result_url: None,
        queued_ahead: None,
    }
}

#[test]
fn what_a_backend_holds_becomes_the_store() {
    let mut answers = empty_rows();
    answers.sessions = Ok(Some(vec![session("s1", "loaded")]));
    let stage = match assemble_stage(answers, Vec::new(), TENANT) {
        Ok(stage) => stage,
        Err(failure) => panic!("{}", failure.domain),
    };
    let mut data = StoreData::empty();
    data.sessions.insert("stale".to_string(), session("stale", "stale"));
    let mut other = session("other", "other tenant");
    other.tenant_id = "tenant-b".to_string();
    data.sessions.insert("other".to_string(), other);
    let report = completed_hydration_report("meili", TENANT, &stage, NOW);
    assert!(report.ready);
    let loaded = hydration_response(&report).loaded;
    assert!(loaded.iter().any(|(name, n)| name == "sessions" && *n == 1));
    publish_hydration_stage(&mut data, TENANT, &stage, report, NOW);
    assert!(data.sessions.contains_key(&"s1".to_string()));
    assert!(data.sessions.contains_key(&"other".to_string()));
    assert!(!data.sessions.contains_key(&"stale".to_string()));
    assert!(hydration_ready(&data));
}

#[test]
fn a_domain_that_is_not_there_is_named() {
    let mut answers = empty_rows();
    answers.links = Ok(None);
    answers.sessions = Err(ApiError::internal("down"));
    match assemble_stage(answers, Vec::new(), TENANT) {
        Ok(_) => panic!("expected a failure"),
        Err(failure) => {
            assert_eq!(failure.domain, "links");
            assert_eq!(
                message(failure.error),
                "mandatory hydration domain links is unavailable for the configured backend"
            );
        }
    }
    match required_hydration_rows::<u8>("traces", Err(ApiError::conflict("busy"))) {
        Ok(_) => panic!("expected a failure"),
        Err(failure) => assert_eq!(message(failure.error), "busy"),
    }
    let mut stage = stage();
    let r = add_run_rows(&mut stage, Ok(None), Ok(None));
    assert_eq!(r.err().map(|f| f.domain), Some("eval_case_results"));
    assert!(add_run_rows(&mut stage, Ok(Some(Vec::new())), Ok(None)).is_ok());
}

#[test]
fn what_was_under_way_is_put_right_at_the_start() {
    let mut stage = stage();
    stage.ingest_tasks = vec![task("a", "parsing"), task("b", "completed")];
    stage.ingest_results = vec![IngestTaskResult {
        task: task("a", "parsing"),
        source_document_uri: "ctx://d".to_string(),
        source_id: "s".to_string(),
        revision_id: "r".to_string(),
        parse_artifacts: Arc::new(Vec::new()),
        parsed_blocks: Arc::new(Vec::new()),
        fragment_uris: Arc::new(Vec::new()),
        context_uris: Arc::new(Vec::new()),
    }];
    let recovery = match recover_ingest(&mut stage, TENANT, NOW) {
        Ok(Some(recovery)) => recovery,
        _ => panic!("expected repairs"),
    };
    assert_eq!(stage.recovered_ingest_tasks, 1);
    assert_eq!(stage.ingest_tasks[0].state, "failed");
    assert_eq!(stage.ingest_tasks[0].error.as_deref(), Some("ingest_interrupted"));
    assert_eq!(stage.ingest_results[0].task.state, "failed");
    assert_eq!(recovery.domain, "ingest_tasks");
    assert_eq!(recovery.resources.len(), 2);
    let domain = recovery.domain;
    let plan = match recovery_plan(
        &resolver(),
        recovery,
        TENANT,
        WriteConsistency::Accepted,
        None,
        None,
        "op-recover",
        NOW,
    ) {
        Ok(plan) => plan,
        Err(failure) => panic!("{}", failure.domain),
    };
    assert_eq!(plan.operation_kind, "startup.ingest_recovery");
    assert_eq!(plan.id, "op-recover");
    assert_eq!(plan.side_effects.len(), 1);
    let mut failed = record_of("op-recover", plan, OperationStepStatus::Completed);
    failed.progress = Arc::new(vec![
        StepProgress {
            step_id: "primary".to_string(),
            status: OperationStepStatus::Completed,
            task_uids: Arc::new(Vec::new()),
        },
        StepProgress {
            step_id: "effect-0001".to_string(),
            status: OperationStepStatus::Failed,
            task_uids: Arc::new(Vec::new()),
        },
    ]);
    let r = finish_recovery(&mut stage, Err(ApiError::internal("down")), Some(failed), domain);
    assert_eq!(r.err().map(|f| f.domain), Some("ingest_results"));
    let done = session_record("done", OperationStepStatus::Completed);
    assert!(finish_recovery(&mut stage, Ok(done), None, domain).is_ok());
    assert_eq!(stage.operations.len(), 1);
}

#[test]
fn a_registry_row_keeps_its_identity() {
    let mut data = StoreData::empty();
    let r = resolver();
    let index = get_user_index(&mut data, &r, TENANT, "owner-a", NOW).index;
    let hash = r.tenant_hash(TENANT);
    match reconciled_user_index(index.clone(), TENANT, &hash) {
        Ok(index) => assert_eq!(index.schema_version, 1),
        Err(failure) => panic!("{}", failure.domain),
    }
    match reconciled_user_index(index.clone(), "tenant-b", &hash) {
        Ok(_) => panic!("expected a failure"),
        Err(failure) => assert_eq!(
            message(failure.error),
            "user event-index registry identity does not match its tenant scope"
        ),
    }
    let registry = accepted(startup_registry(&vec![index.clone()]));
    assert!(verify_refreshed_startup_registry(TENANT, &registry, &vec![index.clone()]).is_ok());
    assert_eq!(
        refused(verify_refreshed_startup_registry(TENANT, &registry, &Vec::new())),
        "replayed user event-index registry row is not durably visible"
    );
    let mut changed = index.clone();
    changed.status = "closed".to_string();
    assert_eq!(
        refused(verify_refreshed_startup_registry(TENANT, &registry, &vec![changed])),
        "replayed user event-index registry row changed identity"
    );
    assert_eq!(
        refused(startup_registry(&vec![index.clone(), index])),
        "duplicate owner hash in user event-index registry"
    );
}

#[test]
fn a_failed_start_is_told_and_is_not_ready() {
    let mut data = StoreData::empty();
    assert!(hydration_report(&data).is_err());
    data.hydration_report = Some(initial_hydration_report(TENANT, "meili", NOW));
    assert!(!hydration_ready(&data));
    publish_hydration_failure(&mut data, TENANT, "meili", "links", "transport", "f1", NOW);
    let report = accepted(hydration_report(&data));
    assert_eq!(report.status, HydrationStatus::Incomplete);
    let links = report.domains.iter().find(|d| d.name == "links").unwrap();
    assert_eq!(links.status, "incomplete");
    assert_eq!(links.error_category.as_deref(), Some("transport"));
    data.hydration_report = Some(initial_hydration_report(TENANT, "memory", NOW));
    assert!(hydration_ready(&data));
    let contract = durability_contract();
    assert!(contract
        .iter()
        .any(|d| d.name == "operations" && d.durability == DurabilityClass::DurableCanonical));
}
