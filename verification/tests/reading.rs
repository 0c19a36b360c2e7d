use std::sync::Arc;

use knowledge_store::data::{SourceDocumentKey, StoreData};
use knowledge_store::documents::{cache_source_document, retrieval_text, source_document_for_acl};
use knowledge_store::error::ApiError;
use knowledge_store::history::{
    append_event, ensure_user_index, AppendHistoryEventRequest, EnsureUserEventIndexRequest,
};
use knowledge_store::hits::{
    context_hit_from_node, neighbor_fragments_for_hit, source_document_for_hit,
};
use knowledge_store::json::Json;
use knowledge_store::masking::mask_parsed_block_for_retrieval;
use knowledge_store::merge::upsert_context_nodes;
use knowledge_store::model::ingest::{ParsedBlock, SourceDocument};
use knowledge_store::model::knowledge::{
    ContextNode, DatasetRecord, SessionRecord, SourceRef, StructuredSnapshot, TraceRecord,
};
use knowledge_store::model::operation::OperationResource;
use knowledge_store::nodes::{context_node, sanitize_context_node_for_egress, NodeParts};
use knowledge_store::publish::publish_resource_cache;
use knowledge_store::reading::{
    context_scope_for_acl, fs_layer, fs_read, traceback, validate_repository_context_node,
};
use knowledge_store::resolver::{EventIndexResolver, EventRouting};
use knowledge_store::search::{doc_candidates, rank_nodes, Score};
use knowledge_store::usage::usage_snapshot;

const TENANT: &str = "test-tenant";
const NOW: i64 = 1_700_000_000_000_000_000;

fn resolver() -> EventIndexResolver {
    EventIndexResolver { secret: b"test-index-hash-secret".to_vec() }
}

fn one() -> u32 {
    1.0f32.to_bits()
}

fn accepted<T>(r: Result<T, ApiError>) -> T {
    match r {
        Ok(value) => value,
        Err(_) => panic!("unexpected refusal"),
    }
}

fn node(
    uri: &str,
    title: &str,
    body: &str,
    index_kind: &str,
    index_uid: &str,
    tenant_id: &str,
    owner_user_id: Option<&str>,
    source: Option<(&str, &str)>,
) -> ContextNode {
    context_node(
        &NodeParts {
            uri,
            title,
            layer: 2,
            body,
            index_kind,
            index_uid,
            tenant_id,
            owner_user_id,
            source_id: source.map(|s| s.0),
            revision_id: source.map(|s| s.1),
        },
        NOW,
    )
}

fn document(tenant_id: &str, owner_user_id: Option<&str>, uri: &str, marker: &str) -> SourceDocument {
    SourceDocument {
        id: format!("source-document-{marker}"),
        tenant_id: tenant_id.to_string(),
        owner_user_id: owner_user_id.map(|o| o.to_string()),
        source_kind: "test".to_string(),
        source_id: format!("source-{marker}"),
        revision_id: "v1".to_string(),
        uri: uri.to_string(),
        title: format!("{marker} title"),
        content: format!("{marker} content"),
        checksum: format!("{marker}-checksum"),
        status: "active".to_string(),
        retrieval_enabled: false,
        created_at: NOW,
        updated_at: NOW,
    }
}

fn ensure_index(data: &mut StoreData, owner: &str) -> EventRouting {
    let req = EnsureUserEventIndexRequest {
        schema_version: None,
        create_personal_context_index: true,
        force_reapply_settings: false,
    };
    accepted(ensure_user_index(data, &resolver(), TENANT, owner, &req, NOW)).routing
}

fn block(id: &str) -> ParsedBlock {
    ParsedBlock { block_id: id.to_string(), ..ParsedBlock::default() }
}

#[test]
fn local_event_idempotency_rejects_a_different_request_without_a_journal_record() {
    let mut data = StoreData::empty();
    let request = |text: &str| AppendHistoryEventRequest {
        event_type: Some("status.changed".to_string()),
        entity_type: Some("task".to_string()),
        entity_id: Some("task-1".to_string()),
        owner_user_id: Some("owner-a".to_string()),
        occurred_at: Some(NOW),
        observed_at: Some(NOW),
        source_kind: Some("test".to_string()),
        source_ref: Some(SourceRef {
            kind: "test".to_string(),
            id: "source-1".to_string(),
            uri: None,
            meta: None,
        }),
        text: Some(text.to_string()),
        payload: Json::Object(Arc::new(vec![(
            "state".to_string(),
            Json::Text("open".to_string()),
        )])),
        tags: Arc::new(vec!["status".to_string()]),
        privacy: "private".to_string(),
        idempotency_key: Some("stable-key".to_string()),
        event_index_hint: None,
    };
    let secrets: Vec<String> = Vec::new();
    let first = accepted(append_event(
        &mut data,
        &resolver(),
        "tenant-a",
        Some("owner-a"),
        &request("original"),
        &secrets,
        "event-1",
        "job-1",
        NOW,
    ));
    assert!(!first.duplicate);
    let replay = accepted(append_event(
        &mut data,
        &resolver(),
        "tenant-a",
        Some("owner-a"),
        &request("original"),
        &secrets,
        "event-2",
        "job-2",
        NOW,
    ));
    assert!(replay.duplicate);
    assert_eq!(replay.event.id, first.event.id);
    let r = append_event(
        &mut data,
        &resolver(),
        "tenant-a",
        Some("owner-a"),
        &request("different"),
        &secrets,
        "event-3",
        "job-3",
        NOW,
    );
    assert!(matches!(
        r,
        Err(ApiError::Conflict(m)) if m == "idempotency key was already used for a different request"
    ));
}

#[test]
fn accepted_resource_projection_preserves_live_state_and_hides_other_staged_resources() {
    let session = |id: &str, title: &str| SessionRecord {
        id: id.to_string(),
        tenant_id: "tenant-a".to_string(),
        owner_user_id: "owner-a".to_string(),
        title: title.to_string(),
        status: "active".to_string(),
        messages: Arc::new(Vec::new()),
        created_at: NOW,
    };
    let concurrent = session("session-concurrent", "concurrent read-through");
    let unaccepted = session("session-unaccepted", "unaccepted side effect");
    let trace = TraceRecord {
        id: "trace-accepted".to_string(),
        tenant_id: "tenant-a".to_string(),
        owner_user_id: Some("owner-a".to_string()),
        query: "accepted primary".to_string(),
        mode: "hybrid".to_string(),
        stages: Arc::new(Vec::new()),
        context_uris: Arc::new(Vec::new()),
        created_at: NOW,
    };
    let mut current = StoreData::empty();
    current.sessions.insert(concurrent.id.clone(), concurrent.clone());
    let mut staged = StoreData::empty();
    staged.sessions.insert(unaccepted.id.clone(), unaccepted.clone());
    staged.traces.insert(trace.id.clone(), trace.clone());
    publish_resource_cache(
        &mut current,
        &staged,
        "tenant-a",
        &OperationResource::Trace { trace: trace.clone() },
    );
    assert_eq!(
        current.sessions.get(&concurrent.id).map(|s| s.title.as_str()),
        Some("concurrent read-through")
    );
    assert!(!current.sessions.contains_key(&unaccepted.id));
    assert_eq!(
        current.traces.get(&trace.id).map(|t| t.query.as_str()),
        Some("accepted primary")
    );
}

#[test]
fn context_cache_merge_never_replaces_a_newer_local_node() {
    let newer = node(
        "ctx://company/fragments/stable",
        "newer",
        "newer body",
        "company",
        "rag_company_context",
        "tenant-a",
        None,
        None,
    );
    let mut stale = newer.clone();
    stale.title = "stale".to_string();
    stale.body = "stale body".to_string();
    stale.updated_at -= 1_000_000_000;
    let mut nodes = vec![newer];
    upsert_context_nodes(&mut nodes, &vec![stale]);
    assert_eq!(nodes.len(), 1);
    assert_eq!(nodes[0].title, "newer");
    assert_eq!(nodes[0].body, "newer body");
}

#[test]
fn a_newer_node_takes_the_place_of_an_older_one() {
    let older = node("ctx://company/a", "older", "b", "company", "rag_company_context", "t", None, None);
    let mut newer = older.clone();
    newer.title = "newer".to_string();
    newer.updated_at += 1;
    let mut nodes = vec![older];
    upsert_context_nodes(&mut nodes, &vec![newer]);
    assert_eq!(nodes.len(), 1);
    assert_eq!(nodes[0].title, "newer");
}

#[test]
fn each_place_has_one_node_and_the_last_of_the_latest_stands_there() {
    let at = |uri: &str, title: &str, later: i64| {
        let mut n = node(uri, title, "b", "company", "rag_company_context", "t", None, None);
        n.updated_at = later;
        n
    };
    let given = vec![
        at("ctx://new-1", "first", 5),
        at("ctx://old", "tie-1", 9),
        at("ctx://new-2", "only", 1),
        at("ctx://old", "tie-2", 9),
        at("ctx://new-1", "older", 4),
    ];
    let mut nodes = vec![at("ctx://old", "was there", 3)];
    upsert_context_nodes(&mut nodes, &given);
    let shown = |nodes: &Vec<ContextNode>| -> Vec<(String, String)> {
        nodes.iter().map(|n| (n.uri.clone(), n.title.clone())).collect()
    };
    let expected = vec![
        ("ctx://old".to_string(), "tie-2".to_string()),
        ("ctx://new-1".to_string(), "first".to_string()),
        ("ctx://new-2".to_string(), "only".to_string()),
    ];
    assert_eq!(shown(&nodes), expected);
    upsert_context_nodes(&mut nodes, &given);
    assert_eq!(shown(&nodes), expected);
}

#[test]
fn a_ranking_is_as_long_as_was_asked() {
    let nodes = vec![
        node("ctx://a", "a", "b", "company", "rag_company_context", "t", None, None),
        node("ctx://b", "b", "b", "company", "rag_company_context", "t", None, None),
    ];
    let score = |v: f32| {
        Some(Score { bits: v.to_bits(), written: Json::Null, breakdown: Json::Null })
    };
    let scores = vec![score(0.25), score(0.5)];
    assert_eq!(rank_nodes(&nodes, &scores, 0).len(), 0);
    assert_eq!(rank_nodes(&nodes, &scores, 1)[0].0.uri, "ctx://b");
    assert_eq!(rank_nodes(&nodes, &scores, 9).len(), 2);
    assert_eq!(rank_nodes(&nodes, &vec![score(0.0), None], 9).len(), 0);
}

#[test]
fn repository_context_validation_rejects_cross_scope_rows() {
    let r = resolver();
    let routing = r.resolve("tenant-a", "owner-a");
    let personal = node(
        "ctx://private/note",
        "note",
        "body",
        "personal",
        &routing.personal_context_index_uid,
        "tenant-a",
        Some("owner-a"),
        None,
    );
    assert!(validate_repository_context_node(&r, &personal, "tenant-a", Some("owner-a")).is_ok());

    let mut wrong_owner = personal.clone();
    wrong_owner.owner_user_id = Some("owner-b".to_string());
    assert!(validate_repository_context_node(&r, &wrong_owner, "tenant-a", Some("owner-a")).is_err());

    let company = node(
        "ctx://company/note",
        "note",
        "body",
        "company",
        "rag_company_context",
        "tenant-a",
        None,
        None,
    );
    assert!(validate_repository_context_node(&r, &company, "tenant-a", None).is_ok());

    let mut forged_company = company;
    forged_company.owner_user_id = Some("owner-a".to_string());
    assert!(validate_repository_context_node(&r, &forged_company, "tenant-a", None).is_err());

    let mut rows = vec![personal, forged_company];
    rows.retain(|n| validate_repository_context_node(&r, n, "tenant-a", Some("owner-a")).is_ok());
    assert_eq!(rows.len(), 1);
    assert_eq!(rows[0].owner_user_id.as_deref(), Some("owner-a"));
}

#[test]
fn same_uri_source_documents_remain_owner_scoped_in_cache() {
    let mut data = StoreData::empty();
    let r = resolver();
    let uri = "ctx://user/shared/source/v1";
    cache_source_document(&mut data, document(TENANT, Some("owner-a"), uri, "owner-a"));
    cache_source_document(&mut data, document(TENANT, Some("owner-b"), uri, "owner-b"));

    let owner_a = accepted(fs_read(&data, &r, TENANT, uri, Some("owner-a"), false));
    let owner_b = accepted(fs_read(&data, &r, TENANT, uri, Some("owner-b"), false));
    assert_eq!(owner_a.body, "owner-a content");
    assert_eq!(owner_b.body, "owner-b content");
    assert!(matches!(
        fs_read(&data, &r, TENANT, uri, None, true),
        Err(ApiError::BadRequest(_))
    ));

    cache_source_document(&mut data, document(TENANT, None, uri, "company"));
    let company = accepted(fs_read(&data, &r, TENANT, uri, None, true));
    let owner_without_private = accepted(fs_read(&data, &r, TENANT, uri, Some("owner-c"), false));
    assert_eq!(company.body, "company content");
    assert_eq!(owner_without_private.body, "company content");
    assert_eq!(data.source_documents.len(), 3);
}

#[test]
fn context_reads_are_owner_exact_and_admin_rejects_private_uri_ambiguity() {
    let mut data = StoreData::empty();
    let r = resolver();
    let uri = "ctx://user/shared/fragments/0001";
    let owner_a = ensure_index(&mut data, "owner-a");
    let owner_b = ensure_index(&mut data, "owner-b");
    let index_a = owner_a.personal_context_index_uid.clone();
    let index_b = owner_b.personal_context_index_uid.clone();
    let node_a =
        node(uri, "Owner A", "owner-a-body", "personal", &index_a, TENANT, Some("owner-a"), None);
    let node_b =
        node(uri, "Owner B", "owner-b-body", "personal", &index_b, TENANT, Some("owner-b"), None);
    let corrupt = node(
        "ctx://user/corrupt/fragments/0001",
        "Misrouted owner B",
        "must-not-leak",
        "personal",
        &index_a,
        TENANT,
        Some("owner-b"),
        None,
    );
    data.personal_context.insert(index_a, vec![node_a, corrupt]);
    data.personal_context.insert(index_b, vec![node_b]);

    assert_eq!(
        accepted(fs_read(&data, &r, TENANT, uri, Some("owner-a"), false)).body,
        "owner-a-body"
    );
    assert_eq!(
        accepted(fs_read(&data, &r, TENANT, uri, Some("owner-b"), false)).body,
        "owner-b-body"
    );
    assert!(matches!(
        fs_read(&data, &r, TENANT, uri, None, true),
        Err(ApiError::BadRequest(_))
    ));
    assert!(matches!(
        fs_layer(&data, &r, TENANT, uri, 2, None, true),
        Err(ApiError::BadRequest(_))
    ));
    assert!(matches!(
        traceback(&data, &r, TENANT, Some(uri), None, true),
        Err(ApiError::BadRequest(_))
    ));
    assert!(matches!(
        fs_read(&data, &r, TENANT, "ctx://user/corrupt/fragments/0001", Some("owner-a"), false),
        Err(ApiError::NotFound(_))
    ));
}

#[test]
fn document_vector_candidates_resolve_source_by_node_scope() {
    let mut data = StoreData::empty();
    let uri = "ctx://user/shared/source/v1";
    cache_source_document(
        &mut data,
        document(TENANT, Some("owner-a"), uri, "owner-a-vector-marker"),
    );
    cache_source_document(
        &mut data,
        document(TENANT, Some("owner-b"), uri, "owner-b-vector-marker"),
    );
    let mut owner_a_node = node(
        "ctx://user/shared/source/v1/fragments/0000",
        "Owner A fragment",
        "owner-a fragment",
        "personal",
        "owner-a-context-index",
        TENANT,
        Some("owner-a"),
        Some(("source-owner-a", "v1")),
    );
    owner_a_node.source_document_uri = Some(uri.to_string());
    let candidates = doc_candidates(&data, &vec![owner_a_node]);
    assert_eq!(candidates.len(), 1);
    assert!(candidates[0].1.contains("owner-a-vector-marker"));
    assert!(!candidates[0].1.contains("owner-b-vector-marker"));
}

#[test]
fn parsed_block_usage_is_scoped_by_tenant_owner_and_uri() {
    let mut data = StoreData::empty();
    let r = resolver();
    let uri = "ctx://user/shared/source/v1";
    data.parsed_blocks.insert(
        SourceDocumentKey::new(TENANT, Some("owner-a"), uri),
        vec![block("owner-a-1"), block("owner-a-2")],
    );
    data.parsed_blocks.insert(
        SourceDocumentKey::new(TENANT, Some("owner-b"), uri),
        vec![block("owner-b-1")],
    );
    data.parsed_blocks.insert(
        SourceDocumentKey::new("other-tenant", Some("owner-a"), uri),
        vec![block("other-tenant-1")],
    );
    let owner_a = usage_snapshot(&data, &r, TENANT, Some("owner-a"), false, "memory", NOW);
    let owner_b = usage_snapshot(&data, &r, TENANT, Some("owner-b"), false, "memory", NOW);
    let tenant = usage_snapshot(&data, &r, TENANT, None, true, "memory", NOW);
    assert_eq!(owner_a.parsed_block_count, 2);
    assert_eq!(owner_b.parsed_block_count, 1);
    assert_eq!(tenant.parsed_block_count, 3);
}

#[test]
fn default_tenant_rows_are_never_visible_to_another_tenant() {
    let mut data = StoreData::empty();
    let r = resolver();
    let tenant_id = "tenant-b";
    let source_document_uri = "ctx://default/source-document";
    let company = |uri: &str, title: &str, body: &str, tenant: &str, source: (&str, &str), index: usize| {
        let mut n =
            node(uri, title, body, "company", "rag_company_context", tenant, None, Some(source));
        n.source_document_uri = Some(source_document_uri.to_string());
        n.fragment_index = Some(index);
        n
    };
    let default_neighbor = company(
        "ctx://default/fragments/0001",
        "Default neighbor",
        "default-only",
        "default",
        ("source-default", "revision-default"),
        1,
    );
    let tenant_hit = company(
        "ctx://tenant-b/fragments/0001",
        "Tenant hit",
        "tenant-b-hit",
        tenant_id,
        ("source-b", "revision-b"),
        1,
    );
    let tenant_neighbor = company(
        "ctx://tenant-b/fragments/0002",
        "Tenant neighbor",
        "tenant-b-neighbor",
        tenant_id,
        ("source-b", "revision-b"),
        2,
    );
    data.company_context.push(default_neighbor.clone());
    data.company_context.push(tenant_hit.clone());
    data.company_context.push(tenant_neighbor.clone());
    data.source_documents.insert(
        SourceDocumentKey::new("default", None, source_document_uri),
        SourceDocument {
            id: "default-source-document".to_string(),
            tenant_id: "default".to_string(),
            owner_user_id: None,
            source_kind: "test".to_string(),
            source_id: "source-default".to_string(),
            revision_id: "revision-default".to_string(),
            uri: source_document_uri.to_string(),
            title: "Default source".to_string(),
            content: "default-only".to_string(),
            checksum: "default-checksum".to_string(),
            status: "active".to_string(),
            retrieval_enabled: false,
            created_at: NOW,
            updated_at: NOW,
        },
    );
    for scope in ["default", tenant_id] {
        let dataset_key = format!("dataset-{scope}");
        data.datasets.insert(
            dataset_key.clone(),
            DatasetRecord {
                id: format!("dataset-id-{scope}"),
                tenant_id: scope.to_string(),
                dataset_key,
                title: format!("Dataset {scope}"),
                schema_version: 1,
                status: "active".to_string(),
                columns: Arc::new(Vec::new()),
            },
        );
        let snapshot_id = format!("snapshot-{scope}");
        data.snapshots.insert(
            snapshot_id.clone(),
            StructuredSnapshot {
                id: snapshot_id.clone(),
                tenant_id: scope.to_string(),
                dataset_key: format!("dataset-{scope}"),
                owner_user_id: "owner-a".to_string(),
                period_key: "period-a".to_string(),
                period_start: NOW,
                period_end: NOW,
                row_count: 1,
                status: "open".to_string(),
            },
        );
        data.rows_by_snapshot.insert(
            snapshot_id,
            vec![Json::Object(Arc::new(vec![(
                "value".to_string(),
                Json::Text(scope.to_string()),
            )]))],
        );
        data.structured_summaries.insert(
            format!("summary-{scope}"),
            Json::Object(Arc::new(vec![
                ("id".to_string(), Json::Text(format!("summary-{scope}"))),
                ("owner_user_id".to_string(), Json::Text("owner-a".to_string())),
                ("tenant_id".to_string(), Json::Text(scope.to_string())),
            ])),
        );
        data.sessions.insert(
            format!("session-{scope}"),
            SessionRecord {
                id: format!("session-{scope}"),
                tenant_id: scope.to_string(),
                owner_user_id: "owner-a".to_string(),
                title: format!("Session {scope}"),
                status: "active".to_string(),
                messages: Arc::new(vec![Json::Object(Arc::new(vec![(
                    "scope".to_string(),
                    Json::Text(scope.to_string()),
                )]))]),
                created_at: NOW,
            },
        );
    }

    let usage = usage_snapshot(&data, &r, tenant_id, None, true, "memory", NOW);
    assert_eq!(usage.company_context_node_count, 2);
    assert_eq!(usage.dataset_count, 1);
    assert_eq!(usage.snapshot_count, 1);
    assert_eq!(usage.row_count, 1);
    assert_eq!(usage.summary_count, 1);
    assert_eq!(usage.session_count, 1);
    assert_eq!(usage.message_count, 1);

    let scoped = context_scope_for_acl(&data, &r, tenant_id, None, true);
    assert_eq!(scoped.len(), 2);
    assert!(scoped.iter().all(|n| n.tenant_id == tenant_id));
    assert!(accepted(source_document_for_acl(&data, tenant_id, source_document_uri, None, true))
        .is_none());

    let hit = context_hit_from_node(&tenant_hit, one(), None, &Vec::new());
    assert!(source_document_for_hit(&data, tenant_id, None, &hit).is_none());
    let neighbors =
        neighbor_fragments_for_hit(&data, tenant_id, None, &vec![tenant_hit.clone()], &hit);
    assert_eq!(neighbors.len(), 1);
    assert_eq!(neighbors[0].uri, tenant_neighbor.uri);
}

#[test]
fn raw_source_egress_preserves_short_words_while_fragments_break_reconstruction() {
    let secrets = vec!["owner-u1-token".to_string()];
    let mut source = node(
        "ctx://test/source",
        "owner",
        "owner guidance",
        "company",
        "rag_source_documents",
        TENANT,
        None,
        Some(("source", "v1")),
    );
    source.node_kind = "source_doc".to_string();
    source.retrieval_role = "none".to_string();
    let safe_source = sanitize_context_node_for_egress(source, &secrets);
    assert_eq!(safe_source.title, "owner");
    assert_eq!(safe_source.body, "owner guidance");

    let mut fragment = node(
        "ctx://test/source/fragments/0001",
        "owner",
        "owner",
        "company",
        "rag_company_context",
        TENANT,
        None,
        Some(("source", "v1")),
    );
    fragment.node_kind = "fragment".to_string();
    fragment.retrieval_role = "fragment".to_string();
    let safe_fragment = sanitize_context_node_for_egress(fragment, &secrets);
    assert_eq!(safe_fragment.title, "owner");
    assert_eq!(safe_fragment.body, "*****");
}

/// Cuts a text into pieces of at most `size` characters.
fn cut(text: &str, size: usize) -> Vec<String> {
    let chars: Vec<char> = text.chars().collect();
    chars.chunks(size).map(|c| c.iter().collect()).collect()
}

#[test]
fn parsed_block_retrieval_masking_prevents_cross_fragment_secret_splitting() {
    const SECRET: &str = "zxqv-mineru-secret-token-private-value";
    let secrets = vec![SECRET.to_string()];
    let prefix = "parsed-block-boundary ";
    let body = format!("{}{}{SECRET}", prefix, "x".repeat(229 - prefix.len()));
    let parsed = ParsedBlock {
        block_id: "boundary-block".to_string(),
        block_type: "paragraph".to_string(),
        text: Some(body.clone()),
        ..ParsedBlock::default()
    };
    let masked = mask_parsed_block_for_retrieval(parsed, &secrets);
    let text = masked.text.unwrap();
    assert_eq!(text.chars().count(), body.chars().count());

    let fragments = cut(&text, 240);
    assert_eq!(fragments.len(), 2);
    let joined: String = fragments.concat();
    assert!(joined.contains('*'));
    assert!(!joined.contains("zxqv-"));
    assert!(!joined.contains(SECRET));
}

#[test]
fn parsed_block_retrieval_masks_secret_projections_across_block_fields() {
    const SECRET: &str = "zxqv-parsed-block-field-secret-private-value";
    let left = &SECRET[..14];
    let middle = &SECRET[14..30];
    let right = &SECRET[30..];
    let secrets = vec![SECRET.to_string()];
    let masked = mask_parsed_block_for_retrieval(
        ParsedBlock {
            block_id: "multi-field-secret".to_string(),
            block_type: "image".to_string(),
            text: Some(left.to_string()),
            image_ref: Some(middle.to_string()),
            caption: Some(right.to_string()),
            ..ParsedBlock::default()
        },
        &secrets,
    );
    for field in [&masked.text, &masked.image_ref, &masked.caption] {
        let field = field.as_deref().unwrap();
        assert!(field.chars().all(|ch| ch == '*'), "{field}");
    }
    let cut_text = retrieval_text("ignored when parsed blocks exist", &vec![masked], &None, &secrets);
    let b = &cut_text.blocks[0];
    let projection = format!(
        "{}{}{}",
        b.text.as_deref().unwrap(),
        b.image_ref.as_deref().unwrap(),
        b.caption.as_deref().unwrap()
    );
    assert!(!projection.contains(left));
    assert!(!projection.contains(middle));
    assert!(!projection.contains(right));
    assert!(!projection.contains(SECRET));
}

fn snippet_of(index: usize, body: &str, secrets: &Vec<String>) -> String {
    let mut n = node(
        &format!("ctx://test/source/fragments/{index:04}"),
        "Piece",
        body,
        "company",
        "rag_company_context",
        TENANT,
        None,
        Some(("source", "v1")),
    );
    n.node_kind = "fragment".to_string();
    n.retrieval_role = "fragment".to_string();
    context_hit_from_node(&n, one(), None, secrets).snippet
}

#[test]
fn a_secret_split_between_blocks_is_masked_when_it_is_read() {
    const SECRET: &str = "zxqv-split-between-parsed-blocks-private-value";
    let secrets = vec![SECRET.to_string()];
    let left = format!("parsed-block-anchor {}", &SECRET[..18]);
    let right = format!("{} trailing text", &SECRET[18..]);
    let snippets = vec![snippet_of(0, &left, &secrets), snippet_of(1, &right, &secrets)];
    assert!(snippets.iter().all(|s| s.contains('*')));
    assert!(!snippets[0].contains(&SECRET[..18]));
    assert!(!snippets[1].contains(&SECRET[18..]));
    assert!(!snippets.concat().contains(SECRET));
}

#[test]
fn a_secret_in_three_pieces_cannot_be_put_together() {
    let secrets = vec!["abcdefghij".to_string()];
    let snippets: Vec<String> = ["Xabc", "defg", "hij"]
        .iter()
        .enumerate()
        .map(|(i, body)| snippet_of(i, body, &secrets))
        .collect();
    assert_eq!(snippets[0], "Xabc");
    assert_eq!(snippets[1], "****");
    assert_eq!(snippets[2], "hij");
    assert!(!snippets.concat().contains("abcdefghij"));
}

#[test]
fn a_snippet_is_masked_before_it_is_cut() {
    const TOKEN: &str = "zxqv-rotated-codex-token-private-value";
    let prefix = "rotated-secret-boundary-anchor ";
    let body = format!("{}{}{TOKEN}", prefix, "x".repeat(229 - prefix.len()));
    let snippet = snippet_of(1, &body, &vec![TOKEN.to_string()]);
    assert!(snippet.contains('*'), "{snippet}");
    assert!(!snippet.contains("zxqv-"), "{snippet}");
    assert!(!snippet.contains(TOKEN), "{snippet}");
}
