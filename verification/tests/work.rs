use std::sync::Arc;

use knowledge_store::artifacts::{
    build_parse_artifacts, image_artifact_uri, parse_artifact_id, Origin, ParserOutput,
};
use knowledge_store::audit::{cache_audit_record, MAX_IN_MEMORY_AUDIT_RECORDS};
use knowledge_store::company::{
    activate_revision, create_revision, get_company_doc, list_company_docs, preflight_company_doc,
    preflight_overlaps, CompanyDocPreflightRequest, CreateRevisionRequest,
};
use knowledge_store::components::{
    create_harness_change, create_harness_component_revision, harness_component_detail,
    previous_revision_id, rollback_harness_component, CreateHarnessChangeManifestRequest,
    CreateHarnessComponentRevisionRequest, RollbackHarnessComponentRequest,
};
use knowledge_store::data::{SourceDocumentKey, StoreData};
use knowledge_store::documents::RetrievalText;
use knowledge_store::error::ApiError;
use knowledge_store::history::Stamp;
use knowledge_store::ingest::INGEST_ERROR_FAILED;
use knowledge_store::json::Json;
use knowledge_store::model::ingest::{IngestTask, IngestTaskResult, ParsedBlock};
use knowledge_store::model::knowledge::AuditRecord;
use knowledge_store::nodes::FragmentChunk;
use knowledge_store::resolver::EventIndexResolver;
use knowledge_store::runs::{create_eval_case, select_eval_cases, CreateRagEvalCaseRequest};
use knowledge_store::similarity::token_similarity;
use knowledge_store::source_delete::{delete_company_doc, deletion_answer};
use knowledge_store::staging::staged_copy;
use knowledge_store::tasks::{
    advance_ingest_task, choose_parser, cleanup_ingest_tasks, complete_ingest_task,
    create_ingest_task_record, document_content, fail_nonterminal_ingest_task, get_ingest_task,
    get_ingest_task_result, interrupt_nonterminal_ingest_tasks, original_content,
    store_ingest_outputs, IngestEvent, IngestTaskRequest,
};

const TENANT: &str = "test-tenant";
const NOW: i64 = 1_700_000_000_000_000_000;
const SECOND: i64 = 1_000_000_000;

fn resolver() -> EventIndexResolver {
    EventIndexResolver { secret: b"test-index-hash-secret".to_vec() }
}

fn message(error: &ApiError) -> String {
    match error {
        ApiError::BadRequest(m) => m.clone(),
        ApiError::NotFound(m) => m.clone(),
        ApiError::Conflict(m) => m.clone(),
        ApiError::Internal(m) => m.clone(),
    }
}

fn refused<T>(r: Result<T, ApiError>) -> String {
    match r {
        Ok(_) => panic!("expected a refusal"),
        Err(error) => message(&error),
    }
}

fn accepted<T>(r: Result<T, ApiError>) -> T {
    match r {
        Ok(value) => value,
        Err(error) => panic!("{}", message(&error)),
    }
}

fn chunk(content: &str, index: usize) -> FragmentChunk {
    FragmentChunk {
        fragment_index: index,
        content: content.to_string(),
        char_start: Some(0),
        char_end: Some(content.chars().count()),
        token_estimate: 1,
        checksum: "chunk".to_string(),
        block_type: None,
        page_idx: None,
        bbox: None,
        section_path: Arc::new(Vec::new()),
        heading_level: None,
        asset_refs: Arc::new(Vec::new()),
    }
}

fn audit(id: &str, outcome: &str, occurred_at: i64) -> AuditRecord {
    AuditRecord {
        id: id.to_string(),
        tenant_id: TENANT.to_string(),
        request_id: "request".to_string(),
        principal_scope: "admin".to_string(),
        principal_owner_user_id_hash: None,
        resource_id_hash: format!("hmac:{}", "a".repeat(32)),
        action: "company_doc_delete".to_string(),
        reason_code: "admin_delete".to_string(),
        reason_fingerprint: format!("hmac:{}", "b".repeat(32)),
        outcome: outcome.to_string(),
        error_kind: None,
        operation_id: None,
        occurred_at,
        updated_at: occurred_at,
    }
}

#[test]
fn memory_audit_persistence_updates_one_record_in_place() {
    let mut data = StoreData::empty();
    let mut record = audit("audit-1", "attempted", NOW);
    cache_audit_record(&mut data, &record);
    record.outcome = "success".to_string();
    record.updated_at = NOW + 1;
    cache_audit_record(&mut data, &record);
    assert_eq!(data.audit_records.len(), 1);
    assert_eq!(data.audit_records.get(&record.id).unwrap().outcome, "success");
}

#[test]
fn memory_audit_cache_evicts_the_oldest_record_at_its_fixed_ceiling() {
    let mut data = StoreData::empty();
    let started = NOW - 86_400 * SECOND;
    for offset in 0..MAX_IN_MEMORY_AUDIT_RECORDS {
        let record = audit(&format!("audit-{offset}"), "attempted", started + offset as i64 * 1_000_000);
        data.audit_records.insert(record.id.clone(), record);
    }
    let newest = audit("audit-newest", "attempted", NOW);
    cache_audit_record(&mut data, &newest);
    assert_eq!(data.audit_records.len(), MAX_IN_MEMORY_AUDIT_RECORDS);
    assert!(!data.audit_records.contains_key(&"audit-0".to_string()));
    assert!(data.audit_records.contains_key(&"audit-1".to_string()));
    assert!(data.audit_records.contains_key(&newest.id));
}

fn ingest_task(task_id: &str, state: &str, age_seconds: i64) -> IngestTask {
    let stamp = NOW - age_seconds * SECOND;
    let ended = state == "completed" || state == "failed";
    IngestTask {
        task_id: task_id.to_string(),
        tenant_id: TENANT.to_string(),
        owner_user_id: None,
        source_id: format!("src-{task_id}"),
        revision_id: format!("rev-{task_id}"),
        source_document_uri: None,
        parser_provider: "builtin".to_string(),
        parser_backend: "text".to_string(),
        state: state.to_string(),
        error: None,
        created_at: stamp,
        updated_at: stamp,
        completed_at: if ended { Some(stamp) } else { None },
        status_url: None,
        result_url: None,
        queued_ahead: None,
    }
}

#[test]
fn ingest_polling_sanitizes_legacy_persisted_failure_causes() {
    let mut data = StoreData::empty();
    let task_id = "task-legacy-private-error";
    let private_cause =
        "request failed for http://127.0.0.1/private-runtime-auth-marker/file_parse";
    let mut task = ingest_task(task_id, "failed", 10);
    task.error = Some(private_cause.to_string());
    data.ingest_tasks.insert(task_id.to_string(), task);

    let visible = accepted(get_ingest_task(&data, task_id, None, true));
    assert_eq!(visible.error.as_deref(), Some(INGEST_ERROR_FAILED));
    let error = refused(get_ingest_task_result(&data, task_id, None, true));
    assert_eq!(error, "ingest task failed");
    assert!(!error.contains(private_cause));
}

#[test]
fn ingest_cleanup_prunes_only_expired_terminal_tasks() {
    let mut data = StoreData::empty();
    let uri = "ctx://test/source-doc/task-old-done";
    let expired = ingest_task("task-old-done", "completed", 7_200);
    for task in [
        ingest_task("task-old-done", "completed", 7_200),
        ingest_task("task-old-failed", "failed", 7_200),
        ingest_task("task-old-running", "parsing", 7_200),
        ingest_task("task-new-done", "completed", 10),
    ] {
        data.ingest_tasks.insert(task.task_id.clone(), task);
    }
    data.ingest_results.insert(
        "task-old-done".to_string(),
        IngestTaskResult {
            source_document_uri: uri.to_string(),
            source_id: expired.source_id.clone(),
            revision_id: expired.revision_id.clone(),
            task: expired,
            parse_artifacts: Arc::new(Vec::new()),
            parsed_blocks: Arc::new(Vec::new()),
            fragment_uris: Arc::new(Vec::new()),
            context_uris: Arc::new(Vec::new()),
        },
    );
    data.parsed_blocks.insert(
        SourceDocumentKey::new(TENANT, None, uri),
        vec![ParsedBlock { block_id: "expired-block".to_string(), ..ParsedBlock::default() }],
    );

    let mut pruned = cleanup_ingest_tasks(&mut data, TENANT, 3_600, NOW);
    pruned.sort();
    assert_eq!(pruned, vec!["task-old-done".to_string(), "task-old-failed".to_string()]);
    assert!(!data.ingest_tasks.contains_key(&"task-old-done".to_string()));
    assert!(!data.ingest_tasks.contains_key(&"task-old-failed".to_string()));
    assert!(!data.ingest_results.contains_key(&"task-old-done".to_string()));
    assert!(!data.parsed_blocks.contains_key(&SourceDocumentKey::new(TENANT, None, uri)));
    assert!(data.ingest_tasks.contains_key(&"task-old-running".to_string()));
    assert!(data.ingest_tasks.contains_key(&"task-new-done".to_string()));
}

/// One fragment with all of a text.
fn whole(text: &RetrievalText) -> Vec<FragmentChunk> {
    vec![chunk(&text.content, 0)]
}

fn ingest_request(content: Option<&str>) -> IngestTaskRequest {
    IngestTaskRequest {
        owner_user_id: None,
        title: None,
        file_name: Some("Annual Report.pdf".to_string()),
        content_type: None,
        source_uri: None,
        source_id: None,
        revision_id: Some("r1".to_string()),
        source_document_uri: None,
        content: content.map(|c| c.to_string()),
        bytes: None,
        content_list: None,
        content_list_v2: None,
        middle_json: None,
        model_json: None,
        parser_provider: None,
        parser_backend: None,
        checksum: None,
        fragment_policy: None,
        idempotency_key: None,
    }
}

fn parser_output(markdown: Option<&str>) -> ParserOutput {
    ParserOutput {
        provider: "builtin".to_string(),
        backend: "text".to_string(),
        parser_version: None,
        markdown: markdown.map(|m| m.to_string()),
        content_list: None,
        content_list_v2: None,
        middle_json: None,
        model_json: None,
        images: Vec::new(),
        blocks: Vec::new(),
    }
}

#[test]
fn a_document_is_taken_in_from_the_request_to_the_result() {
    let mut data = StoreData::empty();
    let req = ingest_request(Some("Some words."));
    let parser = choose_parser(&req, "builtin", "pipeline");
    let task = accepted(create_ingest_task_record(
        &mut data, TENANT, &req, &parser, Ok(()), false, 2, "ingest-1", "rev-new", NOW,
    ));
    assert_eq!(task.state, "queued");
    assert_eq!(task.source_id, "ingest:annual-report-pdf");
    assert_eq!(
        task.source_document_uri.as_deref(),
        Some("ctx://company/ingest/ingest-annual-report-pdf/source/r1")
    );
    assert_eq!(task.parser_backend, "text");
    assert_eq!(task.status_url.as_deref(), Some("/v1/ingest/tasks/ingest-1"));
    assert_eq!(task.result_url.as_deref(), Some("/v1/ingest/tasks/ingest-1/result"));
    assert_eq!(task.queued_ahead, Some(2));
    assert_eq!(
        refused(get_ingest_task_result(&data, "ingest-1", None, false)),
        "ingest result is not ready"
    );

    for event in [IngestEvent::Started, IngestEvent::Parsed, IngestEvent::CutBegun] {
        accepted(advance_ingest_task(&mut data, "ingest-1", &event, NOW + 1));
    }
    assert_eq!(accepted(get_ingest_task(&data, "ingest-1", None, false)).state, "fragmenting");

    let parsed = parser_output(Some("Some words."));
    let original = original_content(&req, false);
    let origin = Origin {
        tenant_id: TENANT,
        owner_user_id: None,
        source_document_uri: task.source_document_uri.as_deref().unwrap(),
        source_id: &task.source_id,
        revision_id: &task.revision_id,
    };
    let artifacts = build_parse_artifacts(&origin, &parsed, &original, NOW);
    let kinds: Vec<&str> = artifacts.iter().map(|a| a.artifact_kind.as_str()).collect();
    assert_eq!(kinds, vec!["original", "markdown"]);
    let content = document_content(&parsed, &original, &None);
    assert_eq!(content, "Some words.");
    let ingest = accepted(store_ingest_outputs(
        &mut data,
        &resolver(),
        TENANT,
        None,
        &task,
        "Annual Report.pdf",
        &content,
        "sum",
        &artifacts,
        &parsed.blocks,
        &None,
        whole,
        &Vec::new(),
        NOW + 2,
    ));
    assert_eq!(ingest.fragment_uris.len(), 1);
    accepted(advance_ingest_task(&mut data, "ingest-1", &IngestEvent::OutputsStored, NOW + 3));
    let result = accepted(complete_ingest_task(
        &mut data, TENANT, "ingest-1", &ingest, &artifacts, &parsed.blocks, NOW + 4,
    ));
    assert_eq!(result.task.state, "completed");
    assert_eq!(result.task.completed_at, Some(NOW + 4));
    let read = accepted(get_ingest_task_result(&data, "ingest-1", None, false));
    assert_eq!(read.fragment_uris.len(), 1);
    assert_eq!(read.parse_artifacts.len(), 2);
    assert_eq!(data.source_documents.len(), 1);
    assert_eq!(data.company_context.len(), 1);
    assert_eq!(
        refused(complete_ingest_task(
            &mut data, TENANT, "ingest-1", &ingest, &artifacts, &parsed.blocks, NOW + 5,
        )),
        "ingest task was terminalized before completion"
    );
    assert!(accepted(fail_nonterminal_ingest_task(&mut data, "ingest-1", INGEST_ERROR_FAILED, NOW + 6))
        .is_none());
}

#[test]
fn a_task_without_a_document_is_refused() {
    let mut data = StoreData::empty();
    let mut req = ingest_request(Some("  "));
    let parser = choose_parser(&req, "builtin", "pipeline");
    assert_eq!(
        refused(create_ingest_task_record(
            &mut data, TENANT, &req, &parser, Ok(()), false, 0, "t", "r", NOW,
        )),
        "content, file bytes, or MinerU content_list output is required"
    );
    req.idempotency_key = Some("k".to_string());
    assert_eq!(
        refused(create_ingest_task_record(
            &mut data, TENANT, &req, &parser, Ok(()), true, 0, "t", "r", NOW,
        )),
        "idempotency_key is not supported for ingest tasks"
    );
    req.idempotency_key = None;
    assert_eq!(
        refused(create_ingest_task_record(
            &mut data,
            TENANT,
            &req,
            &parser,
            Err(ApiError::bad_request("unknown parser")),
            true,
            0,
            "t",
            "r",
            NOW,
        )),
        "unknown parser"
    );
    assert_eq!(data.ingest_tasks.len(), 0);
    assert_eq!(
        refused(get_ingest_task(&data, "t", None, true)),
        "ingest task not found"
    );
}

#[test]
fn whatever_is_under_way_is_interrupted() {
    let mut data = StoreData::empty();
    for task in [
        ingest_task("a", "parsing", 5),
        ingest_task("b", "completed", 5),
        ingest_task("c", "queued", 5),
    ] {
        data.ingest_tasks.insert(task.task_id.clone(), task);
    }
    let interrupted = interrupt_nonterminal_ingest_tasks(&mut data, TENANT, NOW);
    let ids: Vec<&str> = interrupted.iter().map(|t| t.task_id.as_str()).collect();
    assert_eq!(ids, vec!["a", "c"]);
    assert!(interrupted.iter().all(|t| t.error.as_deref() == Some("ingest_interrupted")));
    assert_eq!(data.ingest_tasks.get(&"b".to_string()).unwrap().state, "completed");
    assert!(interrupt_nonterminal_ingest_tasks(&mut data, TENANT, NOW).is_empty());
}

#[test]
fn an_artifact_is_named_by_its_digest() {
    assert_eq!(
        parse_artifact_id("abc"),
        "artifact_ba7816bf8f01cfea414140de"
    );
    let image = Json::Object(Arc::new(vec![
        ("path".to_string(), Json::Text("images/1.png".to_string())),
    ]));
    assert_eq!(image_artifact_uri("ctx://d", &image, 3), "images/1.png");
    assert_eq!(image_artifact_uri("ctx://d", &Json::Null, 3), "ctx://d/artifacts/images/0003");
    let blocked = Json::Object(Arc::new(vec![
        ("path".to_string(), Json::Text("images/1.png".to_string())),
        ("uri".to_string(), Json::Null),
    ]));
    assert_eq!(image_artifact_uri("ctx://d", &blocked, 12), "ctx://d/artifacts/images/0012");
}

#[test]
fn each_image_has_one_artifact() {
    let mut parsed = parser_output(None);
    parsed.content_list = Some(Json::Array(Arc::new(Vec::new())));
    parsed.images = vec![Json::Text("img/a.png".to_string())];
    parsed.blocks = vec![
        ParsedBlock { image_ref: Some("img/a.png".to_string()), ..ParsedBlock::default() },
        ParsedBlock { image_ref: Some("img/b.png".to_string()), ..ParsedBlock::default() },
        ParsedBlock { image_ref: Some("img/b.png".to_string()), ..ParsedBlock::default() },
    ];
    let origin = Origin {
        tenant_id: TENANT,
        owner_user_id: Some("owner-a"),
        source_document_uri: "ctx://d",
        source_id: "s",
        revision_id: "r",
    };
    let artifacts = build_parse_artifacts(&origin, &parsed, "", NOW);
    let uris: Vec<&str> = artifacts.iter().map(|a| a.uri.as_str()).collect();
    assert_eq!(uris, vec!["ctx://d/artifacts/content_list", "img/a.png", "img/b.png"]);
    assert_eq!(artifacts[0].byte_size, 2);
    assert_eq!(artifacts[0].owner_user_id.as_deref(), Some("owner-a"));
}

fn revision_request(title: &str, content: &str) -> CreateRevisionRequest {
    CreateRevisionRequest {
        title: Some(title.to_string()),
        source_uri: Some("https://example.com/handbook".to_string()),
        content: Some(content.to_string()),
        checksum: None,
        preflight_decision_id: None,
        force_create: false,
        ingest: false,
        idempotency_key: None,
    }
}

#[test]
fn blank_company_source_id_is_rejected_without_mutation() {
    let mut data = StoreData::empty();
    let secrets: Vec<String> = Vec::new();
    let stamp = Stamp { secrets: &secrets, event_id: "e", job_id: "j", now: NOW };
    let req = CreateRevisionRequest {
        title: None,
        source_uri: None,
        content: None,
        checksum: None,
        preflight_decision_id: None,
        force_create: false,
        ingest: false,
        idempotency_key: None,
    };
    let error = refused(create_revision(
        &mut data, &resolver(), TENANT, "   ", &req, "rev", "job", &stamp,
    ));
    assert_eq!(error, "source_id is required");
    assert_eq!(data.sources.len(), 0);
    assert_eq!(data.source_revisions.len(), 0);
    assert_eq!(data.event_by_id.len(), 0);
}

#[test]
fn the_newest_active_revision_is_listed_first() {
    let mut data = StoreData::empty();
    let secrets: Vec<String> = Vec::new();
    let noon: i64 = 1_767_268_800 * SECOND;
    for (source, id, now) in
        [("s3", "rev-3", noon), ("s1", "rev-1", noon), ("s2", "rev-2", noon + SECOND / 2)]
    {
        let stamp = |event: &'static str| Stamp { secrets: &secrets, event_id: event, job_id: "j", now };
        accepted(create_revision(
            &mut data,
            &resolver(),
            TENANT,
            source,
            &revision_request("A source", "text"),
            id,
            "ingest-job",
            &stamp("e1"),
        ));
        if source != "s3" {
            accepted(activate_revision(
                &mut data, &resolver(), TENANT, source, id, whole, &stamp("e2"),
            ));
        }
    }
    let listed = list_company_docs(&data);
    let ids: Vec<&str> = listed.iter().map(|d| d.source_id.as_str()).collect();
    assert_eq!(ids, vec!["s2", "s1", "s3"]);
    assert_eq!(listed[0].active_revision_created_at, Some(noon + SECOND / 2));
    assert!(listed[2].active_revision_created_at.is_none());
}

#[test]
fn an_active_revision_is_what_is_read_and_deleting_leaves_nothing() {
    let mut data = StoreData::empty();
    let secrets: Vec<String> = Vec::new();
    let stamp = |event: &'static str, now: i64| Stamp {
        secrets: &secrets,
        event_id: event,
        job_id: "j",
        now,
    };
    let source = "hand-book";
    for (id, event, text) in [("rev-1", "e1", "first"), ("rev-2", "e2", "second")] {
        let created = accepted(create_revision(
            &mut data,
            &resolver(),
            TENANT,
            source,
            &revision_request("The Handbook", text),
            id,
            "ingest-job",
            &stamp(event, NOW),
        ));
        assert_eq!(created.status, "staged");
        assert!(created.ingest_job_id.is_none());
        assert_eq!(created.history_event_id.as_deref(), Some(event));
    }
    assert_eq!(accepted(get_company_doc(&data, source)).content, "second");
    let activated = accepted(activate_revision(
        &mut data,
        &resolver(),
        TENANT,
        source,
        "rev-1",
        whole,
        &stamp("e3", NOW + 1),
    ));
    assert_eq!(activated.active_revision_id, "rev-1");
    assert!(activated.previous_revision_id.is_none());
    assert_eq!(activated.fragment_uris.len(), 1);
    let read = accepted(get_company_doc(&data, source));
    assert_eq!(read.content, "first");
    assert_eq!(read.status, "active");
    let listed = list_company_docs(&data);
    assert_eq!(listed.len(), 1);
    assert_eq!(listed[0].revision_count, 2);
    assert_eq!(listed[0].active_revision_id.as_deref(), Some("rev-1"));

    assert_eq!(
        refused(activate_revision(
            &mut data, &resolver(), TENANT, source, "rev-9", whole, &stamp("e4", NOW),
        )),
        "revision not found"
    );
    let mut orphaned = staged_copy(&data);
    orphaned.sources.remove(&source.to_string());
    let documents = orphaned.source_documents.len();
    let statuses = |data: &StoreData| -> Vec<String> {
        data.source_revisions
            .get(&source.to_string())
            .unwrap()
            .iter()
            .map(|revision| revision.status.clone())
            .collect()
    };
    let left = statuses(&orphaned);
    assert_ne!(left[1], "active");
    assert_eq!(
        refused(activate_revision(
            &mut orphaned, &resolver(), TENANT, source, "rev-2", whole, &stamp("e5", NOW),
        )),
        "source not found"
    );
    assert_eq!(statuses(&orphaned), vec![left[0].clone(), "active".to_string()]);
    assert_eq!(orphaned.source_documents.len(), documents);
    assert!(orphaned.event_by_id.get(&"e5".to_string()).is_none());
    accepted(delete_company_doc(&mut data, TENANT, &source.to_string()));
    assert_eq!(data.source_documents.len(), 0);
    assert!(data.company_context.is_empty());
    assert_eq!(
        refused(delete_company_doc(&mut data, TENANT, &source.to_string())),
        "source not found"
    );
    let answer = deletion_answer(source, None);
    assert!(answer.deleted);
    assert!(answer.fragments_task.is_none());
}

#[test]
fn advice_tells_a_new_source_from_a_revision() {
    let mut data = StoreData::empty();
    let secrets: Vec<String> = Vec::new();
    let stamp = Stamp { secrets: &secrets, event_id: "e", job_id: "j", now: NOW };
    let req = |title: &str, uri: Option<&str>| CompanyDocPreflightRequest {
        title: Some(title.to_string()),
        source_uri: uri.map(|u| u.to_string()),
        text_preview: None,
        similarity_threshold: 0.75f32.to_bits(),
    };
    let empty = preflight_company_doc(&mut data, &req("The Handbook", None), &Vec::new(), "d0");
    assert_eq!(empty.recommended_action, "create_source");
    assert_eq!(empty.reasons.len(), 1);
    accepted(create_revision(
        &mut data,
        &resolver(),
        TENANT,
        "handbook",
        &revision_request("The Handbook", "text"),
        "rev",
        "job",
        &stamp,
    ));
    let same_title = req("the handbook", None);
    let overlaps = preflight_overlaps(&data, &same_title);
    assert_eq!((overlaps[0].title.part, overlaps[0].title.whole), (2, 2));
    let advice = preflight_company_doc(&mut data, &same_title, &vec![1.0f32.to_bits()], "d1");
    assert_eq!(advice.recommended_action, "update_revision");
    assert_eq!(advice.confidence, 0.9f32.to_bits());
    assert_eq!(advice.reasons[0], "canonical title matched existing source");
    let same_uri = req("Other", Some("https://example.com/handbook"));
    let advice = preflight_company_doc(&mut data, &same_uri, &vec![0], "d2");
    assert_eq!(advice.confidence, 1.0f32.to_bits());
    let other = preflight_company_doc(&mut data, &req("Other", None), &vec![0.5f32.to_bits()], "d3");
    assert_eq!(other.recommended_action, "create_source");
    assert_eq!(other.confidence, 0);
    let mut forced = revision_request("Other", "x");
    forced.preflight_decision_id = Some("d2".to_string());
    forced.force_create = true;
    assert_eq!(
        refused(create_revision(
            &mut data, &resolver(), TENANT, "other", &forced, "rev2", "job", &stamp,
        )),
        "preflight recommended update_revision; force_create is blocked by default"
    );
}

#[test]
fn similarity_counts_shared_words() {
    let r = token_similarity("Alpha beta, GAMMA", "gamma-delta alpha");
    assert_eq!((r.part, r.whole), (2, 4));
    let r = token_similarity("", "alpha");
    assert_eq!((r.part, r.whole), (0, 0));
}

fn change_request(id: Option<&str>) -> CreateHarnessChangeManifestRequest {
    CreateHarnessChangeManifestRequest {
        id: id.map(|i| i.to_string()),
        iteration: None,
        change_type: Some("new".to_string()),
        component_id: Some("retrieval.context_search".to_string()),
        files: Arc::new(vec!["src/a.rs".to_string()]),
        failure_pattern: Some("failure".to_string()),
        root_cause: Some("cause".to_string()),
        targeted_fix: Some("fix".to_string()),
        predicted_fixes: Arc::new(Vec::new()),
        risk_cases: Arc::new(Vec::new()),
        expected_metric_deltas: Json::Null,
        baseline_eval_run_id: None,
        candidate_eval_run_id: None,
        why_this_component: Some("reason".to_string()),
        created_by: None,
    }
}

#[test]
fn blank_harness_change_id_is_rejected_without_mutation() {
    let mut data = StoreData::empty();
    data.seed_harness_components(TENANT, NOW);
    let error =
        refused(create_harness_change(&mut data, TENANT, &change_request(Some(" \t")), "new", NOW));
    assert_eq!(error, "id is required");
    assert_eq!(data.harness_changes.len(), 0);
}

#[test]
fn a_component_is_revised_and_rolled_back() {
    let mut data = StoreData::empty();
    data.seed_harness_components(TENANT, NOW);
    let component = "retrieval.context_search";
    let change =
        accepted(create_harness_change(&mut data, TENANT, &change_request(None), "change-1", NOW));
    assert_eq!(change.status, "proposed");
    assert_eq!(change.created_by, "admin");
    assert_eq!(
        refused(create_harness_change(
            &mut data, TENANT, &change_request(Some("change-1")), "x", NOW,
        )),
        "harness change already exists"
    );
    let req = CreateHarnessComponentRevisionRequest {
        manifest_id: Some("change-1".to_string()),
        files: Arc::new(Vec::new()),
        content: Json::Null,
        created_by: None,
    };
    let revision = accepted(create_harness_component_revision(
        &mut data, TENANT, component, &req, "hrev-1", NOW + 1,
    ));
    assert_eq!(revision.iteration, 1);
    assert_eq!(revision.files.len(), 1);
    let detail = accepted(harness_component_detail(&data, component));
    assert_eq!(detail.component.current_revision_id.as_deref(), Some("hrev-1"));
    let active: Vec<&str> = detail
        .revisions
        .iter()
        .filter(|r| r.status == "active")
        .map(|r| r.id.as_str())
        .collect();
    assert_eq!(active, vec!["hrev-1"]);
    let before = previous_revision_id(&detail.revisions, Some("hrev-1")).unwrap();

    let secrets: Vec<String> = Vec::new();
    let stamp = Stamp { secrets: &secrets, event_id: "e1", job_id: "j1", now: NOW + 2 };
    let back = RollbackHarnessComponentRequest {
        target_revision_id: None,
        manifest_id: Some("change-1".to_string()),
        reason: None,
        created_by: Some("ops".to_string()),
    };
    let mut half = staged_copy(&data);
    let unknown = RollbackHarnessComponentRequest {
        target_revision_id: None,
        manifest_id: Some("change-9".to_string()),
        reason: None,
        created_by: None,
    };
    assert_eq!(
        refused(rollback_harness_component(
            &mut half, &resolver(), TENANT, component, &unknown, &stamp,
        )),
        "harness change manifest not found"
    );
    let gone = accepted(harness_component_detail(&half, component));
    assert_eq!(gone.component.current_revision_id.as_deref(), Some(before.as_str()));
    assert_eq!(gone.component.updated_at, NOW + 2);
    assert!(gone.revisions.iter().all(|r| (r.status == "active") == (r.id == before)));
    assert_eq!(
        half.harness_changes.get(&"change-1".to_string()).unwrap().status,
        data.harness_changes.get(&"change-1".to_string()).unwrap().status
    );
    assert!(half.event_by_id.get(&"e1".to_string()).is_none());

    let r = accepted(rollback_harness_component(
        &mut data, &resolver(), TENANT, component, &back, &stamp,
    ));
    assert_eq!(r.active_revision.id, before);
    assert_eq!(r.history_event_id, "e1");
    assert_eq!(
        data.event_by_id.get(&"e1".to_string()).unwrap().text,
        "Harness component retrieval.context_search rolled back by ops"
    );
    assert_eq!(data.harness_changes.get(&"change-1".to_string()).unwrap().status, "rollback");
    let detail = accepted(harness_component_detail(&data, component));
    let rolled: Vec<&str> = detail
        .revisions
        .iter()
        .filter(|r| r.status == "rolled_back")
        .map(|r| r.id.as_str())
        .collect();
    assert_eq!(rolled, vec!["hrev-1"]);
    let missing = RollbackHarnessComponentRequest {
        target_revision_id: Some("none".to_string()),
        manifest_id: None,
        reason: None,
        created_by: None,
    };
    assert_eq!(
        refused(rollback_harness_component(
            &mut data, &resolver(), TENANT, component, &missing, &stamp,
        )),
        "target harness revision not found"
    );
}

#[test]
fn blank_eval_case_id_is_rejected_without_mutation() {
    let mut data = StoreData::empty();
    let req = |id: Option<&str>| CreateRagEvalCaseRequest {
        id: id.map(|i| i.to_string()),
        owner_user_id: None,
        question: Some("What changed?".to_string()),
        expected_context_uris: Arc::new(Vec::new()),
        expected_source_document_uris: Arc::new(Vec::new()),
        expected_answer_contains: Arc::new(Vec::new()),
        tags: Arc::new(Vec::new()),
        metadata: Json::Null,
    };
    let error = refused(create_eval_case(&mut data, TENANT, &req(Some("\n")), "new", NOW));
    assert_eq!(error, "id is required");
    assert_eq!(data.eval_cases.len(), 0);
    assert_eq!(
        refused(select_eval_cases(&data, &Vec::new())),
        "at least one eval case is required"
    );
    accepted(create_eval_case(&mut data, TENANT, &req(None), "case-1", NOW));
    assert_eq!(
        refused(create_eval_case(&mut data, TENANT, &req(Some("case-1")), "new", NOW)),
        "eval case already exists"
    );
    assert_eq!(
        refused(select_eval_cases(&data, &vec!["case-2".to_string()])),
        "eval case not found"
    );
    assert_eq!(accepted(select_eval_cases(&data, &Vec::new())).len(), 1);
}
