use std::sync::Arc;

use knowledge_store::analysis::{
    admit_analysis, AnalysisInsightMaterialization, AnalysisLimits, AnalysisLinkMaterialization,
    AnalysisMaterializationRequest,
};
use knowledge_store::data::StoreData;
use knowledge_store::error::ApiError;
use knowledge_store::history::Stamp;
use knowledge_store::insights::{
    patch_insight, search_insights, upsert_insight, InsightPatchRequest, InsightSearchRequest,
    InsightUpsertRequest,
};
use knowledge_store::links::{search_links, upsert_link, LinkSearchRequest, LinkUpsertRequest};
use knowledge_store::materialize::{
    materialize_analysis, AnalysisMaterializationResponse, Batch, CandidateMark,
};
use knowledge_store::model::knowledge::InsightRecord;
use knowledge_store::model::operation::{
    OperationIndexingState, OperationPlan, OperationRecord, OperationResource, OperationStatus,
};
use knowledge_store::operations::{mutation_plan, MutationPlanInput, MutationPrimary, WriteConsistency};
use knowledge_store::json::Json;
use knowledge_store::plan::mutation_resources;
use knowledge_store::operations::mutation_request_fingerprint;
use knowledge_store::record::Record;
use knowledge_store::resolver::EventIndexResolver;
use knowledge_store::routing::validate_operation_routing;
use knowledge_store::staging::staged_copy;

const TENANT: &str = "test-tenant";
const NOW: i64 = 1_700_000_000_000_000_000;

fn resolver() -> EventIndexResolver {
    EventIndexResolver { secret: b"test-index-hash-secret".to_vec() }
}

fn bits(value: f32) -> u32 {
    value.to_bits()
}

fn overview(insight: &InsightRecord, evidence: Option<&str>) -> String {
    format!("{}\n{}\n{}", insight.title, insight.statement, evidence.unwrap_or(""))
}

fn limits() -> AnalysisLimits {
    let relations = ["supports", "contradicts", "related", "depends_on", "caused_by"];
    AnalysisLimits {
        links: 20,
        insights: 20,
        relations: relations.iter().map(|r| r.to_string()).collect(),
        title_bytes: 256,
        rationale_bytes: 2_000,
        tags: 8,
        tag_bytes: 64,
        insight_type_bytes: 64,
        statement_bytes: 2_000,
        source_uris: 16,
    }
}

fn link(source: &str, target: &str, relation: &str) -> AnalysisLinkMaterialization {
    AnalysisLinkMaterialization {
        source_uri: source.to_string(),
        target_uri: target.to_string(),
        source_title: None,
        target_title: None,
        relation: relation.to_string(),
        rationale: None,
        confidence: bits(0.8),
        tags: Arc::new(Vec::new()),
    }
}

fn insight(kind: &str, title: &str, statement: &str, source: &str) -> AnalysisInsightMaterialization {
    AnalysisInsightMaterialization {
        insight_type: kind.to_string(),
        title: title.to_string(),
        statement: statement.to_string(),
        confidence: bits(0.8),
        salience: bits(0.5),
        source_uris: Arc::new(vec![source.to_string()]),
    }
}

fn marks(kind: &str, texts: Vec<String>, round: &str) -> Vec<CandidateMark> {
    texts
        .into_iter()
        .enumerate()
        .map(|(i, text)| CandidateMark {
            canonical: text,
            id: format!("{kind}-{round}-{i}"),
            event_id: format!("event-{kind}-{round}-{i}"),
            job_id: format!("job-{kind}-{round}-{i}"),
        })
        .collect()
}

fn materialize(
    data: &mut StoreData,
    req: &AnalysisMaterializationRequest,
    round: &str,
) -> Result<AnalysisMaterializationResponse, ApiError> {
    let owner = "owner-a";
    admit_analysis(req, &limits(), owner)?;
    let resolver = resolver();
    let secrets: Vec<String> = Vec::new();
    let batch = Batch {
        resolver: &resolver,
        tenant_id: TENANT,
        owner,
        max_tags: limits().tags,
        secrets: &secrets,
        now: NOW,
    };
    let link_texts = req
        .links
        .iter()
        .map(|l| format!("{owner}|{}|{}|{}", l.source_uri, l.target_uri, l.relation))
        .collect();
    let insight_texts = req
        .insights
        .iter()
        .map(|i| format!("{owner}|{}|{}|{}", i.insight_type, i.title, i.statement))
        .collect();
    let mut staged = staged_copy(data);
    let r = materialize_analysis(
        &mut staged,
        &batch,
        req,
        &marks("link", link_texts, round),
        &marks("insight", insight_texts, round),
        &overview,
    )?;
    *data = staged;
    Ok(r)
}

fn message(error: &ApiError) -> String {
    match error {
        ApiError::BadRequest(m) => m.clone(),
        ApiError::NotFound(m) => m.clone(),
        ApiError::Conflict(m) => m.clone(),
        ApiError::Internal(m) => m.clone(),
    }
}

fn refused<T>(r: Result<T, ApiError>) -> String {
    match r {
        Ok(_) => panic!("expected a refusal"),
        Err(error) => message(&error),
    }
}

fn accepted<T>(r: Result<T, ApiError>) -> T {
    match r {
        Ok(value) => value,
        Err(error) => panic!("{}", message(&error)),
    }
}

fn insight_request(title: &str, statement: &str, key: Option<&str>) -> InsightUpsertRequest {
    InsightUpsertRequest {
        owner_user_id: Some("owner-a".to_string()),
        insight_type: Some("analysis".to_string()),
        title: Some(title.to_string()),
        statement: Some(statement.to_string()),
        evidence_text: None,
        source_refs: Arc::new(Vec::new()),
        confidence: bits(0.4),
        salience: bits(0.3),
        privacy: "private".to_string(),
        idempotency_key: key.map(|k| k.to_string()),
    }
}

fn save_insight(data: &mut StoreData, tenant: &str, req: &InsightUpsertRequest, id: &str) -> InsightRecord {
    let secrets: Vec<String> = Vec::new();
    let event = format!("event-{id}");
    let stamp = Stamp { secrets: &secrets, event_id: &event, job_id: "job", now: NOW };
    accepted(upsert_insight(data, &resolver(), tenant, req, &overview, id, &stamp)).insight
}

fn link_request(rationale: &str, key: Option<&str>) -> LinkUpsertRequest {
    LinkUpsertRequest {
        owner_user_id: Some("owner-a".to_string()),
        source_uri: Some("ctx://user/source-a".to_string()),
        target_uri: Some("ctx://user/source-b".to_string()),
        source_title: None,
        target_title: None,
        relation: "supports".to_string(),
        rationale: Some(rationale.to_string()),
        evidence_text: None,
        confidence: bits(0.4),
        created_by: "manual".to_string(),
        tags: Arc::new(vec!["manual".to_string()]),
        idempotency_key: key.map(|k| k.to_string()),
    }
}

fn save_link(
    data: &mut StoreData,
    req: &LinkUpsertRequest,
    id: &str,
) -> knowledge_store::links::LinkResponse {
    let secrets: Vec<String> = Vec::new();
    let event = format!("event-{id}");
    let stamp = Stamp { secrets: &secrets, event_id: &event, job_id: "job", now: NOW };
    accepted(upsert_link(data, &resolver(), TENANT, req, id, &stamp))
}

#[test]
fn direct_insight_patch_cannot_cross_tenants() {
    let mut data = StoreData::empty();
    let mut req = insight_request("Tenant-bound insight", "original statement", None);
    req.insight_type = Some("isolation".to_string());
    let created = save_insight(&mut data, "tenant-a", &req, "insight-1");
    let secrets: Vec<String> = Vec::new();
    let stamp = Stamp { secrets: &secrets, event_id: "e2", job_id: "j2", now: NOW };
    let patch = InsightPatchRequest {
        statement: Some("foreign mutation".to_string()),
        status: None,
        confidence: None,
        salience: None,
        privacy: None,
        patch_reason: None,
    };
    let r = patch_insight(&mut data, &resolver(), "tenant-b", &created.id, &patch, &overview, &stamp);
    assert!(matches!(r, Err(ApiError::NotFound(m)) if m == "insight not found"));

    let search = InsightSearchRequest {
        owner_user_id: Some("owner-a".to_string()),
        insight_types: Vec::new(),
        status: "active".to_string(),
        limit: 10,
        matching_ids: None,
    };
    let stored = search_insights(&data, &search);
    assert_eq!(stored.len(), 1);
    assert_eq!(stored[0].statement, "original statement");
}

#[test]
fn a_patch_of_the_own_tenant_changes_the_statement() {
    let mut data = StoreData::empty();
    let created = save_insight(
        &mut data,
        TENANT,
        &insight_request("Title", "original statement", None),
        "insight-1",
    );
    let secrets: Vec<String> = Vec::new();
    let stamp = Stamp { secrets: &secrets, event_id: "e2", job_id: "j2", now: NOW + 5 };
    let patch = InsightPatchRequest {
        statement: Some("changed".to_string()),
        status: None,
        confidence: None,
        salience: None,
        privacy: None,
        patch_reason: None,
    };
    let r = accepted(patch_insight(
        &mut data,
        &resolver(),
        TENANT,
        &created.id,
        &patch,
        &overview,
        &stamp,
    ));
    assert_eq!(r.insight.statement, "changed");
    assert_eq!(r.insight.title, "Title");
    assert_eq!(r.insight.updated_at, NOW + 5);
    assert_eq!(r.insight.created_at, NOW);
}

#[test]
fn invalid_analysis_batch_is_discarded_before_journal_or_publication() {
    let mut data = StoreData::empty();
    let req = AnalysisMaterializationRequest {
        links: vec![link("ctx://user/source-a", "ctx://user/source-b", "related")],
        insights: vec![insight("analysis", "  ", "This candidate must fail", "ctx://user/source-a")],
    };
    assert_eq!(refused(materialize(&mut data, &req, "1")), "insights[0].title is required");
    assert_eq!(data.operations.len(), 0);
    assert_eq!(data.links.len(), 0);
    assert_eq!(data.insights.len(), 0);
    assert_eq!(data.event_by_id.len(), 0);
    assert_eq!(data.user_indexes.len(), 0);
    assert_eq!(data.personal_context.len(), 0);
}

#[test]
fn direct_analysis_materialization_enforces_the_validated_candidate_contract() {
    let mut data = StoreData::empty();
    let req = AnalysisMaterializationRequest {
        links: vec![link("ctx://user/source-a", "ctx://user/source-b", "part_of")],
        insights: Vec::new(),
    };
    assert!(refused(materialize(&mut data, &req, "1")).contains("relation is not allowed"));

    let mut candidate =
        insight("analysis", "Unsafe insight", "unsafe\nstatement", "ctx://user/source-a");
    candidate.confidence = bits(f32::NAN);
    let req = AnalysisMaterializationRequest { links: Vec::new(), insights: vec![candidate] };
    assert!(refused(materialize(&mut data, &req, "2"))
        .contains("statement contains control characters"));

    assert_eq!(data.operations.len(), 0);
    assert_eq!(data.links.len(), 0);
    assert_eq!(data.insights.len(), 0);
}

#[test]
fn analysis_materialization_rejects_colliding_context_identities() {
    let mut data = StoreData::empty();
    let req = AnalysisMaterializationRequest {
        links: Vec::new(),
        insights: vec![
            insight("Analysis", "Same title", "First statement", "ctx://user/source-a"),
            insight("analysis", "same-title", "Second statement", "ctx://user/source-b"),
        ],
    };
    assert_eq!(
        refused(materialize(&mut data, &req, "1")),
        "analysis materialization contains a duplicate insight context identity"
    );
    assert_eq!(data.operations.len(), 0);
    assert_eq!(data.insights.len(), 0);
    assert_eq!(data.personal_context.len(), 0);
}

#[test]
fn analysis_materialization_rejects_lossy_uri_collision_after_identity_reset() {
    let mut data = StoreData::empty();
    let original = save_insight(
        &mut data,
        TENANT,
        &insight_request("Tax/Audit", "Manual insight must remain unchanged", Some("manual-tax-audit")),
        "manual-1",
    );
    data.insight_idempotency = knowledge_store::table::Table::new();
    let req = AnalysisMaterializationRequest {
        links: Vec::new(),
        insights: vec![insight(
            "analysis",
            "Tax Audit",
            "Provider replacement must be rejected",
            "ctx://user/source-a",
        )],
    };
    assert_eq!(
        refused(materialize(&mut data, &req, "1")),
        "analysis insight context identity collides with an existing insight"
    );
    let persisted = data.insights.get(&original.id).unwrap();
    assert_eq!(persisted.title, "Tax/Audit");
    assert_eq!(persisted.statement, "Manual insight must remain unchanged");
    assert_eq!(data.insights.len(), 1);
    assert_eq!(data.operations.len(), 0);
}

#[test]
fn analysis_materialization_rejects_duplicate_normalized_link_identities() {
    let mut data = StoreData::empty();
    let req = AnalysisMaterializationRequest {
        links: vec![
            link("ctx://user/source-a/.overview", "ctx://user/source-b/detail", "supports"),
            link("ctx://user/source-a", "ctx://user/source-b", " supports "),
        ],
        insights: Vec::new(),
    };
    assert_eq!(
        refused(materialize(&mut data, &req, "1")),
        "analysis materialization contains a duplicate link natural identity"
    );
    assert_eq!(data.links.len(), 0);
    assert_eq!(data.operations.len(), 0);
}

#[test]
fn analysis_materialization_rejects_ambiguous_persisted_link_identity() {
    let mut data = StoreData::empty();
    let original = save_link(&mut data, &link_request("First persisted link", None), "link-1").link;
    let mut duplicate = original.clone();
    duplicate.id = "hydrated-duplicate-link".to_string();
    data.links.insert(duplicate.id.clone(), duplicate);
    let req = AnalysisMaterializationRequest {
        links: vec![link(&original.source_uri, &original.target_uri, &original.relation)],
        insights: Vec::new(),
    };
    assert_eq!(
        refused(materialize(&mut data, &req, "1")),
        "analysis link natural identity is ambiguous"
    );
    assert_eq!(data.links.len(), 2);
    assert_eq!(data.operations.len(), 0);
}

#[test]
fn analysis_materialization_reuses_manual_records_without_overwriting_them() {
    let mut data = StoreData::empty();
    let mut manual = link_request("Manual rationale must remain unchanged", Some("manual-link"));
    manual.source_title = Some("Manual source".to_string());
    manual.target_title = Some("Manual target".to_string());
    let original_link = save_link(&mut data, &manual, "link-1").link;
    let original_insight = save_insight(
        &mut data,
        TENANT,
        &insight_request(
            "Manual stable insight",
            "Manual statement must remain unchanged",
            Some("manual-insight"),
        ),
        "insight-1",
    );
    data.link_idempotency = knowledge_store::table::Table::new();
    data.insight_idempotency = knowledge_store::table::Table::new();
    let events_before = data.event_by_id.len();
    let before = staged_copy(&data);

    let mut provider_link =
        link(&original_link.source_uri, &original_link.target_uri, &original_link.relation);
    provider_link.source_title = Some("Provider source".to_string());
    provider_link.target_title = Some("Provider target".to_string());
    provider_link.rationale = Some("Provider replacement must be ignored".to_string());
    provider_link.confidence = bits(0.99);
    provider_link.tags = Arc::new(vec!["provider".to_string()]);
    let mut provider_insight = insight(
        &original_insight.insight_type,
        &original_insight.title,
        "Provider replacement must be ignored",
        &original_link.source_uri,
    );
    provider_insight.confidence = bits(0.99);
    provider_insight.salience = bits(0.99);
    let req = AnalysisMaterializationRequest {
        links: vec![provider_link],
        insights: vec![provider_insight],
    };
    let materialized = accepted(materialize(&mut data, &req, "1"));

    assert_eq!(materialized.created_links[0].id, original_link.id);
    assert_eq!(materialized.insights[0].id, original_insight.id);
    assert!(mutation_resources(TENANT, &before, &data).is_empty());
    assert!(data.links.get(&original_link.id).unwrap().same(&original_link));
    assert!(data.insights.get(&original_insight.id).unwrap().same(&original_insight));
    assert_eq!(data.event_by_id.len(), events_before);
    assert_eq!(data.operations.len(), 0);
}

#[test]
fn analysis_materialization_rejects_inactive_manual_link_reuse() {
    let mut data = StoreData::empty();
    let original = save_link(&mut data, &link_request("Inactive manual link", None), "link-1").link;
    let mut inactive = original.clone();
    inactive.status = "inactive".to_string();
    data.links.insert(inactive.id.clone(), inactive.clone());
    let events_before = data.event_by_id.len();
    let mut candidate = link(&original.source_uri, &original.target_uri, &original.relation);
    candidate.rationale = Some("Provider must not reactivate the link".to_string());
    let req = AnalysisMaterializationRequest { links: vec![candidate], insights: Vec::new() };
    assert_eq!(
        refused(materialize(&mut data, &req, "1")),
        "analysis link natural identity is not active"
    );
    assert!(data.links.get(&inactive.id).unwrap().same(&inactive));
    assert_eq!(data.event_by_id.len(), events_before);
    assert_eq!(data.operations.len(), 0);
}

#[test]
fn analysis_materialization_rejects_inactive_manual_insight_reuse() {
    let mut data = StoreData::empty();
    let original = save_insight(
        &mut data,
        TENANT,
        &insight_request("Inactive manual insight", "Manual statement", None),
        "insight-1",
    );
    let mut inactive = original.clone();
    inactive.status = "inactive".to_string();
    data.insights.insert(inactive.id.clone(), inactive.clone());
    let events_before = data.event_by_id.len();
    let req = AnalysisMaterializationRequest {
        links: Vec::new(),
        insights: vec![insight(
            &original.insight_type,
            &original.title,
            "Provider must not reactivate the insight",
            "ctx://user/source-a",
        )],
    };
    assert_eq!(
        refused(materialize(&mut data, &req, "1")),
        "analysis insight context identity is not active"
    );
    assert!(data.insights.get(&inactive.id).unwrap().same(&inactive));
    assert_eq!(data.event_by_id.len(), events_before);
    assert_eq!(data.operations.len(), 0);
}

fn analysis_plan(resources: Vec<OperationResource>) -> OperationPlan {
    accepted(mutation_plan(
        &resolver(),
        MutationPlanInput {
            tenant_id: TENANT.to_string(),
            operation_kind: "analysis.materialize".to_string(),
            owner_user_id: Some("owner-a".to_string()),
            idempotency_key: None,
            primary_kind: MutationPrimary::Insight,
            resources,
            response_snapshot: Json::Null,
            request_fingerprint: None,
            principal: None,
            request_id: None,
            write_consistency: WriteConsistency::WaitForIndex,
            fresh_operation_id: "op-1".to_string(),
            created_at: NOW,
        },
    ))
}

#[test]
fn a_batch_is_one_plan_with_an_insight_first() {
    let mut data = StoreData::empty();
    let before = staged_copy(&data);
    let mut first_link = link("ctx://user/source-a", "ctx://user/source-b", "supports");
    first_link.source_title = Some("Source A".to_string());
    first_link.target_title = Some("Source B".to_string());
    first_link.rationale = Some("Grounded association".to_string());
    first_link.tags = Arc::new(vec!["grounded".to_string()]);
    let req = AnalysisMaterializationRequest {
        links: vec![first_link],
        insights: vec![
            insight("analysis", "First insight", "First grounded statement", "ctx://user/source-a"),
            insight("analysis", "Second insight", "Second grounded statement", "ctx://user/source-b"),
        ],
    };
    let first = accepted(materialize(&mut data, &req, "1"));
    assert_eq!(first.created_links.len(), 1);
    assert_eq!(first.insights.len(), 2);
    assert_eq!(first.created_links[0].owner_user_id.as_deref(), Some("owner-a"));
    assert!(first.insights.iter().all(|i| i.tenant_id == TENANT && i.owner_user_id == "owner-a"));
    let resources = mutation_resources(TENANT, &before, &data);
    let plan = analysis_plan(resources);
    assert_eq!(plan.redacted_metadata.wait_for_index, Some(true));
    assert_eq!(
        plan.redacted_metadata.target_owner_user_id_hash.as_deref(),
        Some(resolver().user_hash("owner-a").as_str())
    );
    assert!(matches!(plan.primary.resource, OperationResource::Insight { .. }));
    assert!(plan.side_effects.iter().any(|s| matches!(s.resource, OperationResource::Insight { .. })));
    assert!(plan.side_effects.iter().any(|s| matches!(s.resource, OperationResource::Links { .. })));
    assert!(plan
        .side_effects
        .iter()
        .any(|s| matches!(s.resource, OperationResource::HistoryEvents { .. })));
    assert!(plan
        .side_effects
        .iter()
        .any(|s| matches!(s.resource, OperationResource::ContextNodes { .. })));

    let replay = accepted(materialize(&mut data, &req, "2"));
    assert_eq!(replay.created_links[0].id, first.created_links[0].id);
    assert_eq!(replay.insights[0].id, first.insights[0].id);
    assert_eq!(replay.insights[1].id, first.insights[1].id);
}

#[test]
fn analysis_operation_replay_rejects_mixed_target_owners() {
    let mut data = StoreData::empty();
    let before = staged_copy(&data);
    let req = AnalysisMaterializationRequest {
        links: Vec::new(),
        insights: vec![insight(
            "analysis",
            "Owner-bound insight",
            "Grounded statement",
            "ctx://user/source-a",
        )],
    };
    accepted(materialize(&mut data, &req, "1"));
    let plan = analysis_plan(mutation_resources(TENANT, &before, &data));
    let mut operation = OperationRecord {
        id: "op-1".to_string(),
        tenant_id: TENANT.to_string(),
        operation_kind: plan.operation_kind.clone(),
        status: OperationStatus::Pending,
        indexing_state: OperationIndexingState::Pending,
        progress: Arc::new(Vec::new()),
        plan,
        created_at: NOW,
        updated_at: NOW,
    };
    assert!(validate_operation_routing(&resolver(), &operation, &Ok(())).is_ok());
    match &mut operation.plan.primary.resource {
        OperationResource::Insight { insight } => insight.owner_user_id = "owner-b".to_string(),
        _ => panic!("the primary resource is an insight"),
    }
    let error = refused(validate_operation_routing(&resolver(), &operation, &Ok(())));
    assert!(error.contains("analysis materialization mixes target owners"));
}

#[test]
fn an_overlap_keeps_the_identity_of_what_is_known() {
    let mut data = StoreData::empty();
    let stable = || {
        insight("analysis", "Stable insight", "Stable grounded statement", "ctx://user/source-a")
    };
    let req = AnalysisMaterializationRequest {
        links: Vec::new(),
        insights: vec![
            stable(),
            insight("analysis", "Old companion", "Old companion statement", "ctx://user/source-b"),
        ],
    };
    let first = accepted(materialize(&mut data, &req, "1"));
    data.insight_idempotency = knowledge_store::table::Table::new();
    let req = AnalysisMaterializationRequest {
        links: Vec::new(),
        insights: vec![
            stable(),
            insight("analysis", "New companion", "New companion statement", "ctx://user/source-c"),
        ],
    };
    let overlap = accepted(materialize(&mut data, &req, "2"));
    assert_eq!(overlap.insights[0].id, first.insights[0].id);
    assert_eq!(overlap.insights[0].created_at, first.insights[0].created_at);
    assert_eq!(data.insights.len(), 3);
    let n = (0..data.insights.len())
        .filter(|i| data.insights.value_at(*i).context_uri.ends_with("/stable-insight"))
        .count();
    assert_eq!(n, 1);
}

#[test]
fn analysis_candidate_idempotency_material_is_bounded_hmac_only() {
    let request = "[\"owner-a\",{\"insight_type\":\"analysis\",\"title\":\"raw-query-marker\",\
                   \"statement\":\"Grounded statement\",\"confidence\":0.8,\"salience\":0.5,\
                   \"source_uris\":[\"ctx://user/source-a\"]}]";
    let key = mutation_request_fingerprint(
        b"test-index-hash-secret",
        TENANT,
        "analysis.materialize.insight",
        request,
    );
    assert_eq!(key.len(), 32);
    assert!(key.chars().all(|ch| ch.is_ascii_hexdigit()));
    assert!(!key.contains("raw-query-marker"));
}

#[test]
fn mutation_plan_without_request_context_records_system_actor() {
    let summary = Json::Object(Arc::new(vec![(
        "id".to_string(),
        Json::Text("summary-1".to_string()),
    )]));
    let plan = accepted(mutation_plan(
        &resolver(),
        MutationPlanInput {
            tenant_id: "tenant-a".to_string(),
            operation_kind: "structured_summary.upsert".to_string(),
            owner_user_id: Some("target-owner".to_string()),
            idempotency_key: Some("stable-key".to_string()),
            primary_kind: MutationPrimary::StructuredSummary,
            resources: vec![OperationResource::StructuredSummary { summary }],
            response_snapshot: Json::Null,
            request_fingerprint: None,
            principal: None,
            request_id: None,
            write_consistency: WriteConsistency::Accepted,
            fresh_operation_id: "op-unused".to_string(),
            created_at: NOW,
        },
    ));
    assert_eq!(
        plan.actor.scope,
        knowledge_store::model::operation::OperationActorScope::System
    );
    assert!(plan.actor.owner_user_id_hash.is_none());
    assert!(plan.actor.roles.is_empty());
    assert!(plan.actor.request_id.is_none());
    assert!(plan.id.starts_with("op_"));
    assert_eq!(plan.id.len(), 35);
}

#[test]
fn a_link_saved_twice_is_one_link() {
    let mut data = StoreData::empty();
    let req = link_request("Rationale", None);
    let first = save_link(&mut data, &req, "link-1");
    let second = save_link(&mut data, &req, "link-2");
    assert_eq!(first.link.id, second.link.id);
    assert_eq!(data.links.len(), 1);
    let search = LinkSearchRequest {
        owner_user_id: Some("owner-b".to_string()),
        uri: None,
        direction: "both".to_string(),
        relations: Vec::new(),
        status: "active".to_string(),
        limit: 10,
        matching_ids: None,
    };
    assert!(search_links(&data, TENANT, &search, false).links.is_empty());
    assert_eq!(search_links(&data, TENANT, &search, true).links.len(), 0);
    let own = LinkSearchRequest { owner_user_id: Some("owner-a".to_string()), ..search };
    assert_eq!(search_links(&data, TENANT, &own, false).links.len(), 1);
}
