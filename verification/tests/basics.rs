use std::sync::Arc;

use knowledge_store::data::StoreData;
use knowledge_store::documents::RetrievalText;
use knowledge_store::error::ApiError;
use knowledge_store::facts::{
    get_state_fact, patch_state_fact, search_state, upsert_state_fact, PatchStateFactRequest,
    StateDocumentPayload, StateSearchRequest, UpsertStateFactRequest,
};
use knowledge_store::float::{float_before, greater_float, same_float};
use knowledge_store::history::{append_event, owner_from_path_or_body, AppendHistoryEventRequest, Stamp};
use knowledge_store::history_search::{
    append_bulk_events, get_event, reconcile_user_indexes, search_events, timeline,
    HistorySearchRequest, ReconcileUserEventIndexesRequest,
};
use knowledge_store::ingest::sanitize_ingest_error;
use knowledge_store::json::Json;
use knowledge_store::links::{normalize_relation, search_links, upsert_link, LinkSearchRequest, LinkUpsertRequest};
use knowledge_store::masking::{
    mask_secret_egress_projection_preserving_chars, mask_secret_fragment_projection_preserving_chars,
};
use knowledge_store::model::knowledge::SourceRef;
use knowledge_store::naming::{
    ancestor_uris, hmac_hex, part_of_link_id, sanitize_slug, sha256_hex, source_document_id,
    truncate_chars,
};
use knowledge_store::nodes::{
    canonical_link_uri, fragment_title_of, fragment_uri_of, node_kind_for_layer, strip_layer_suffix,
    FragmentChunk,
};
use knowledge_store::query::{
    parse_context_filters, resolve_context_owner, ContextIncludeSet, ContextReturnProfile,
};
use knowledge_store::resolver::EventIndexResolver;
use knowledge_store::sessions::{add_session_message, commit_session, create_session};
use knowledge_store::snapshots::{cache_snapshot_rows, list_rows, numeric_columns};
use knowledge_store::stages::sanitize_context_stage;
use knowledge_store::table::Table;
use knowledge_store::text::{
    decimal_text, join, lower_text, padded4_text, parse_number, sort_texts, split_once, split_text,
    text_before, trim,
};

const TENANT: &str = "tenant-a";
const NOW: i64 = 1_700_000_000_000_000_000;

fn resolver() -> EventIndexResolver {
    EventIndexResolver { secret: b"test-index-hash-secret".to_vec() }
}

fn message(error: ApiError) -> String {
    match error {
        ApiError::BadRequest(m) => m,
        ApiError::NotFound(m) => m,
        ApiError::Conflict(m) => m,
        ApiError::Internal(m) => m,
    }
}

fn accepted<T>(r: Result<T, ApiError>) -> T {
    match r {
        Ok(value) => value,
        Err(error) => panic!("{}", message(error)),
    }
}

fn refused<T>(r: Result<T, ApiError>) -> String {
    match r {
        Ok(_) => panic!("expected a refusal"),
        Err(error) => message(error),
    }
}

fn text(s: &str) -> String {
    s.to_string()
}

#[test]
fn digests_are_those_of_sha_256() {
    assert_eq!(
        sha256_hex(b"abc"),
        "ba7816bf8f01cfea414140de5dae2223b00361a396177a9cb410ff61f20015ad"
    );
    assert_eq!(
        sha256_hex(b""),
        "e3b0c44298fc1c149afbf4c8996fb92427ae41e4649b934ca495991b7852b855"
    );
    let one = hmac_hex(b"key", "domain", "value", 16);
    assert_eq!(one.len(), 16);
    assert_ne!(one, hmac_hex(b"key", "domain", "other", 16));
    assert_ne!(one, hmac_hex(b"key", "other", "value", 16));
    assert_ne!(one, hmac_hex(b"other", "domain", "value", 16));
}

#[test]
fn texts_are_cut_and_joined() {
    assert_eq!(trim(" \u{2003}a b\t"), "a b");
    assert_eq!(split_text("a,b,,c", ','), vec!["a", "b", "", "c"]);
    assert_eq!(split_once("a=b=c", '='), Some((text("a"), text("b=c"))));
    assert_eq!(split_once("abc", '='), None);
    assert_eq!(join(&vec![text("a"), text("b")], ", "), "a, b");
    assert_eq!(lower_text("ÄBC"), "Äbc");
    assert_eq!(truncate_chars("äöü", 2), "äö");
    assert_eq!(decimal_text(0), "0");
    assert_eq!(decimal_text(u64::MAX), "18446744073709551615");
    assert_eq!(padded4_text(7), "0007");
    assert_eq!(padded4_text(12345), "12345");
    assert_eq!(parse_number("0042"), Some(42));
    assert_eq!(parse_number("+7"), Some(7));
    assert_eq!(parse_number("-7"), None);
    assert_eq!(parse_number(""), None);
    assert_eq!(parse_number("99999999999999999999999"), None);
    assert!(text_before("a", "b"));
    assert!(text_before("a", "aa"));
    assert!(!text_before("b", "a"));
    assert_eq!(sort_texts(vec![text("b"), text("a"), text("c")]), vec!["a", "b", "c"]);
}

#[test]
fn names_are_made_of_their_parts() {
    assert_eq!(sanitize_slug("Annual Report (2024)"), "annual-report-2024");
    assert_eq!(fragment_uri_of("ctx://d", 0), "ctx://d/fragments/0001");
    assert_eq!(fragment_title_of("Doc", 0), "Doc fragment 1");
    assert_eq!(strip_layer_suffix("ctx://a/.overview"), "ctx://a");
    assert_eq!(canonical_link_uri("ctx://a/detail"), "ctx://a");
    assert_eq!(node_kind_for_layer(0), "abstract");
    assert!(ancestor_uris("ctx://company/a/b").contains(&text("ctx://company")));
    assert_ne!(
        source_document_id(TENANT, None, "s", "r"),
        source_document_id(TENANT, Some("o"), "s", "r")
    );
    assert_ne!(part_of_link_id(TENANT, None, "a", "b"), part_of_link_id(TENANT, None, "b", "a"));
}

#[test]
fn values_are_written_as_json() {
    let value = Json::Object(Arc::new(vec![
        (text("a"), Json::Array(Arc::new(vec![Json::Null, Json::Bool(true), Json::Number(text("1.5"))]))),
        (text("q\""), Json::Text(text("line\nbreak"))),
    ]));
    assert_eq!(value.render(), "{\"a\":[null,true,1.5],\"q\\\"\":\"line\\nbreak\"}");
    assert!(value.equals(&value));
    assert!(!value.equals(&Json::Null));
    assert_eq!(value.text_of("q\""), Some("line\nbreak"));
    assert_eq!(value.text_of("a"), None);
}

#[test]
fn floats_are_ordered_by_their_bits() {
    let bits = |f: f32| f.to_bits();
    assert!(float_before(bits(0.5), bits(1.0)));
    assert!(float_before(bits(-1.0), bits(-0.5)));
    assert!(!float_before(bits(0.0), bits(-0.0)));
    assert!(!float_before(bits(f32::NAN), bits(1.0)));
    assert_eq!(greater_float(bits(0.25), bits(0.75)), bits(0.75));
}

#[test]
fn a_table_keeps_the_order_of_its_keys() {
    let mut t: Table<String, u32> = Table::new();
    t.insert(text("b"), 1);
    t.insert(text("a"), 2);
    t.insert(text("b"), 3);
    assert_eq!(t.len(), 2);
    assert_eq!(t.key_at(0), "b");
    assert_eq!(*t.value_at(0), 3);
    assert_eq!(t.remove(&text("b")), Some(3));
    assert_eq!(t.get(&text("b")), None);
    assert!(t.contains_key(&text("a")));
}

#[test]
fn a_secret_is_masked_with_its_length_kept() {
    let secrets = vec![text("open sesame")];
    let masked = mask_secret_egress_projection_preserving_chars("say open sesame!", &secrets);
    assert_eq!(masked, "say ***********!");
    assert_eq!(
        mask_secret_egress_projection_preserving_chars("nothing here", &secrets),
        "nothing here"
    );
    let pieces = mask_secret_fragment_projection_preserving_chars("open sesa", &secrets);
    assert_eq!(pieces, "*********");
    assert_eq!(mask_secret_fragment_projection_preserving_chars("ope", &secrets), "ope");
}

#[test]
fn a_failed_task_shows_only_known_causes() {
    assert_eq!(sanitize_ingest_error("failed", Some("parser_failed")), Some("parser_failed"));
    assert_eq!(sanitize_ingest_error("failed", Some("secret path")), Some("ingest_failed"));
    assert_eq!(sanitize_ingest_error("failed", None), Some("ingest_failed"));
    assert_eq!(sanitize_ingest_error("completed", Some("x")), None);
}

fn event(key: Option<&str>, body: &str, at: i64) -> AppendHistoryEventRequest {
    AppendHistoryEventRequest {
        event_type: Some(text("note.written")),
        entity_type: Some(text("note")),
        entity_id: Some(text("n1")),
        owner_user_id: Some(text("owner-a")),
        occurred_at: Some(at),
        observed_at: Some(at),
        source_kind: Some(text("test")),
        source_ref: Some(SourceRef { kind: text("test"), id: text("s"), uri: None, meta: None }),
        text: Some(text(body)),
        payload: Json::Null,
        tags: Arc::new(Vec::new()),
        privacy: text("private"),
        idempotency_key: key.map(|k| k.to_string()),
        event_index_hint: None,
    }
}

fn ask(limit: usize) -> HistorySearchRequest {
    HistorySearchRequest {
        owner_user_id: Some(text("owner-a")),
        event_types: Vec::new(),
        entity_type: None,
        entity_id: None,
        from: None,
        to: None,
        limit,
        matching_ids: None,
    }
}

#[test]
fn events_are_appended_once_and_read_back_in_time() {
    let mut data = StoreData::empty();
    let r = resolver();
    let none: Vec<String> = Vec::new();
    let events = vec![event(None, "late", NOW + 5), event(None, "early", NOW)];
    let bulk = accepted(append_bulk_events(
        &mut data,
        &r,
        TENANT,
        None,
        &events,
        &none,
        &vec![text("e1"), text("e2")],
        "job",
        NOW,
    ));
    assert_eq!((bulk.inserted, bulk.duplicates), (2, 0));
    assert_eq!(bulk.event_ids, vec!["e1", "e2"]);
    assert_eq!(
        refused(append_bulk_events(
            &mut data,
            &r,
            TENANT,
            None,
            &vec![event(Some("k"), "x", NOW)],
            &none,
            &vec![text("e3")],
            "job",
            NOW,
        )),
        "events[].idempotency_key is not supported; use the batch idempotency_key"
    );
    let line = accepted(timeline(&data, &r, TENANT, Some("owner-a"), None, None, None, 10));
    let ids: Vec<&str> = line.iter().map(|e| e.id.as_str()).collect();
    assert_eq!(ids, vec!["e2", "e1"]);
    let hits = accepted(search_events(&data, &r, TENANT, None, &ask(1))).hits;
    assert_eq!(hits.len(), 1);
    assert_eq!(accepted(get_event(&data, &r, TENANT, "owner-a", "e1")).text, "late");
    assert_eq!(refused(get_event(&data, &r, TENANT, "owner-b", "e1")), "history event not found");
    assert_eq!(
        refused(append_event(
            &mut data,
            &r,
            TENANT,
            Some("owner-b"),
            &event(None, "x", NOW),
            &none,
            "e9",
            "job",
            NOW,
        )),
        "owner_user_id in path and body must match"
    );
    assert_eq!(
        refused(append_bulk_events(
            &mut data, &r, TENANT, None, &Vec::new(), &none, &Vec::new(), "job", NOW,
        )),
        "events must not be empty"
    );
    assert_eq!(refused(owner_from_path_or_body(None, None)), "owner_user_id is required");
}

#[test]
fn indexes_are_made_only_where_that_is_asked_for() {
    let mut data = StoreData::empty();
    let req = |dry_run: bool| ReconcileUserEventIndexesRequest {
        owner_user_ids: vec![text("owner-a")],
        dry_run,
        create_missing: true,
        reapply_settings: false,
    };
    let dry = reconcile_user_indexes(&mut data, &resolver(), TENANT, &req(true), NOW);
    assert_eq!(dry.checked, 1);
    assert_eq!(data.user_indexes.len(), 0);
    let wet = reconcile_user_indexes(&mut data, &resolver(), TENANT, &req(false), NOW);
    assert_eq!(wet.created, 1);
    assert_eq!(data.user_indexes.len(), 1);
}

#[test]
fn a_session_is_kept_from_its_first_message_to_its_end() {
    let mut data = StoreData::empty();
    let r = resolver();
    let none: Vec<String> = Vec::new();
    assert_eq!(
        refused(create_session(&mut data, TENANT, None, None, "s1", NOW)),
        "owner_user_id is required"
    );
    let made = accepted(create_session(&mut data, TENANT, Some("owner-a"), None, "s1", NOW));
    assert_eq!(made.status, "active");
    let told = accepted(add_session_message(
        &mut data,
        &r,
        TENANT,
        "s1",
        Some("user"),
        Some("hello"),
        true,
        &none,
        "e1",
        "j1",
        NOW,
    ));
    assert_eq!(told.history_event_id.as_deref(), Some("e1"));
    assert_eq!(data.sessions.get(&text("s1")).unwrap().messages.len(), 1);
    let done = accepted(commit_session(
        &mut data, &r, TENANT, "s1", true, false, &none, "e2", "j2", "c1", NOW,
    ));
    assert!(done.archive_uri.is_some());
    assert_eq!(data.sessions.get(&text("s1")).unwrap().status, "archived");
    assert_eq!(
        refused(commit_session(
            &mut data, &r, TENANT, "none", true, false, &none, "e3", "j3", "c2", NOW,
        )),
        "session not found"
    );
}

fn no_cut(_: &RetrievalText) -> Vec<FragmentChunk> {
    Vec::new()
}

fn fact(statement: &str) -> UpsertStateFactRequest {
    UpsertStateFactRequest {
        owner_user_id: Some(text("owner-a")),
        state_type: Some(text("preference")),
        statement: Some(text(statement)),
        title: None,
        value: Json::Null,
        confidence: 1.0f32.to_bits(),
        salience: 0.5f32.to_bits(),
        valid_from: None,
        valid_to: None,
        source_refs: Arc::new(Vec::new()),
        document: None,
        fragment_policy: None,
    }
}

#[test]
fn a_document_is_cut_without_its_secrets_and_as_its_policy_says() {
    let r = resolver();
    let secrets = vec![text("super-secret-token-0123456789")];
    let cut = |t: &RetrievalText| {
        let how = match &t.policy {
            Some(Json::Text(how)) => how.clone(),
            _ => text("none"),
        };
        vec![FragmentChunk {
            fragment_index: 0,
            content: format!("{how}: {}", t.content),
            char_start: None,
            char_end: None,
            token_estimate: 1,
            checksum: text("sum"),
            block_type: None,
            page_idx: None,
            bbox: None,
            section_path: Arc::new(Vec::new()),
            heading_level: None,
            asset_refs: Arc::new(Vec::new()),
        }]
    };
    let overview = |item: &knowledge_store::model::knowledge::StateItem| item.statement.clone();
    for (own, asked, used) in [
        (Some("own"), Some("asked"), "own"),
        (None, Some("asked"), "asked"),
        (None, None, "none"),
    ] {
        let mut data = StoreData::empty();
        let mut req = fact("has a document");
        req.document = Some(StateDocumentPayload {
            content: Some(text("we keep super-secret-token-0123456789 here")),
            content_type: None,
            source_uri: None,
            fragment_policy: own.map(|p: &str| Json::Text(text(p))),
        });
        req.fragment_policy = asked.map(|p: &str| Json::Text(text(p)));
        let stamp = Stamp { secrets: &secrets, event_id: "e1", job_id: "j", now: NOW };
        accepted(upsert_state_fact(
            &mut data, &r, TENANT, "editor", &req, cut, overview, "st1", &stamp,
        ));
        let bodies: Vec<String> = (0..data.personal_context.len())
            .flat_map(|i| data.personal_context.value_at(i).iter().map(|n| n.body.clone()))
            .collect();
        let stars = "*".repeat(secrets[0].chars().count());
        assert!(bodies.contains(&format!("{used}: we keep {stars} here")), "{bodies:?}");
        assert!(bodies.iter().all(|body| !body.contains("secret-token")));
    }
}

#[test]
fn both_zeros_are_one_number() {
    let number = |t: &str| Json::Number(text(t));
    assert!(number("0.0").equals(&number("-0.0")));
    assert!(!number("0.0").equals(&number("0")));
    assert!(!number("1.0").equals(&number("-1.0")));
    assert!(same_float(0.0f32.to_bits(), (-0.0f32).to_bits()));
    assert!(same_float(f32::NAN.to_bits(), f32::INFINITY.to_bits()));
    assert!(!same_float(0.5f32.to_bits(), 0.25f32.to_bits()));
}

#[test]
fn json_is_written_without_spaces() {
    let value = Json::Object(Arc::new(vec![
        (text("a"), Json::Array(Arc::new(vec![Json::Null, Json::Bool(true), Json::Number(text("1.5"))]))),
        (text("q\""), Json::Text(text("line\n"))),
        (text("z"), Json::Object(Arc::new(Vec::new()))),
    ]));
    let expected = serde_json::to_string(&serde_json::Value::Object(
        [
            (
                text("a"),
                serde_json::Value::Array(vec![
                    serde_json::Value::Null,
                    serde_json::Value::Bool(true),
                    serde_json::Value::from(1.5),
                ]),
            ),
            (text("q\""), serde_json::Value::String(text("line\n"))),
            (text("z"), serde_json::Value::Object(serde_json::Map::new())),
        ]
        .into_iter()
        .collect(),
    ))
    .unwrap();
    assert_eq!(value.render(), expected);
}

#[test]
fn white_space_and_layers_do_not_make_another_uri() {
    for suffix in ["", "/.abstract", "/.overview", "/detail", "/chunks/0001"] {
        let uri = format!("\u{a0}\t ctx://user/source-a{suffix}\u{3000}\n");
        assert_eq!(canonical_link_uri(&uri), "ctx://user/source-a");
    }
    for c in ['\u{9}', '\u{d}', ' ', '\u{85}', '\u{1680}', '\u{2000}', '\u{200a}', '\u{202f}'] {
        assert_eq!(trim(&format!("{c}x{c}")), "x");
    }
    for c in ['\u{8}', '\u{e}', '\u{200b}', '\u{feff}'] {
        assert_eq!(trim(&format!("{c}x")), format!("{c}x"));
    }
    for code in 0..=0x10_ffffu32 {
        if let Some(c) = char::from_u32(code) {
            assert_eq!(trim(&c.to_string()).is_empty(), c.is_whitespace());
        }
    }
}

#[test]
fn a_table_keeps_the_place_of_a_key() {
    let mut t: Table<String, String> = Table::new();
    for (k, v) in [("a", "1"), ("b", "2"), ("c", "3"), ("b", "4")] {
        t.insert(text(k), text(v));
    }
    let values: Vec<&str> = (0..t.len()).map(|i| t.value_at(i).as_str()).collect();
    assert_eq!(values, vec!["1", "4", "3"]);
    t.remove(&text("a"));
    let values: Vec<&str> = (0..t.len()).map(|i| t.value_at(i).as_str()).collect();
    assert_eq!(values, vec!["4", "3"]);
}

#[test]
fn a_fact_that_is_saved_again_is_a_new_version() {
    let mut data = StoreData::empty();
    let r = resolver();
    let none: Vec<String> = Vec::new();
    let stamp = |event: &'static str, now: i64| Stamp { secrets: &none, event_id: event, job_id: "j", now };
    let overview = |item: &knowledge_store::model::knowledge::StateItem| item.statement.clone();
    let first = accepted(upsert_state_fact(
        &mut data, &r, TENANT, "editor", &fact("uses vi"), no_cut, overview, "st1",
        &stamp("e1", NOW),
    ));
    assert_eq!(first.item.current_version, 1);
    assert_eq!(first.history_event_id, "e1");
    let second = accepted(upsert_state_fact(
        &mut data, &r, TENANT, "editor", &fact("uses ed"), no_cut, overview, "st2",
        &stamp("e2", NOW + 1),
    ));
    assert_eq!(second.item.current_version, 2);
    assert_eq!(data.state_items.len(), 1);
    let read = accepted(get_state_fact(&data, TENANT, "editor", Some("owner-a")));
    assert_eq!(read.item.statement, "uses ed");
    assert_eq!(
        refused(get_state_fact(&data, "tenant-b", "editor", Some("owner-a"))),
        "state item not found"
    );
    let patch = PatchStateFactRequest {
        owner_user_id: Some(text("owner-a")),
        statement: Some(text("uses cat")),
        value: None,
        confidence: None,
        salience: None,
        status: Some(text("retired")),
        valid_to: None,
        patch_reason: None,
    };
    let patched = accepted(patch_state_fact(
        &mut data, &r, TENANT, "editor", &patch, overview, &stamp("e3", NOW + 2),
    ));
    assert_eq!(patched.item.statement, "uses cat");
    assert_eq!(patched.item.status, "retired");
    let found = search_state(
        &data,
        TENANT,
        &StateSearchRequest {
            owner_user_id: Some(text("owner-a")),
            status: text("retired"),
            state_types: Vec::new(),
            limit: 5,
            matching_ids: None,
        },
    );
    assert_eq!(found.len(), 1);
}

#[test]
fn a_link_of_one_owner_is_not_found_by_another() {
    let mut data = StoreData::empty();
    let none: Vec<String> = Vec::new();
    let stamp = Stamp { secrets: &none, event_id: "e1", job_id: "j1", now: NOW };
    let req = LinkUpsertRequest {
        owner_user_id: Some(text("owner-a")),
        source_uri: Some(text("ctx://user/a/.overview")),
        target_uri: Some(text("ctx://user/b")),
        source_title: None,
        target_title: None,
        relation: text(" Supports "),
        rationale: None,
        evidence_text: None,
        confidence: 0.5f32.to_bits(),
        created_by: text("test"),
        tags: Arc::new(Vec::new()),
        idempotency_key: None,
    };
    let saved = accepted(upsert_link(&mut data, &resolver(), TENANT, &req, "l1", &stamp)).link;
    assert_eq!(saved.source_uri, "ctx://user/a");
    assert_eq!(saved.relation, normalize_relation(" Supports "));
    let ask = |owner: &str| LinkSearchRequest {
        owner_user_id: Some(text(owner)),
        uri: Some(text("ctx://user/b")),
        direction: text("both"),
        relations: Vec::new(),
        status: text("active"),
        limit: 10,
        matching_ids: None,
    };
    assert_eq!(search_links(&data, TENANT, &ask("owner-a"), false).backlinks.len(), 1);
    assert_eq!(search_links(&data, TENANT, &ask("owner-b"), false).links.len(), 0);
    assert_eq!(search_links(&data, "tenant-b", &ask("owner-a"), false).links.len(), 0);
}

#[test]
fn a_search_request_is_read_strictly() {
    assert!(matches!(
        ContextReturnProfile::from_request("compact"),
        Ok(ContextReturnProfile::Compact)
    ));
    assert!(ContextReturnProfile::from_request("huge").is_err());
    assert!(ContextIncludeSet::from_request(&vec![text("links")]).is_ok_and(|s| s.links));
    assert!(ContextIncludeSet::from_request(&vec![text("nothing")]).is_err());
    let filters = Json::Object(Arc::new(vec![
        (text("owner_user_id"), Json::Text(text("owner-a"))),
        (text("page_idx"), Json::Number(text("3"))),
    ]));
    assert_eq!(accepted(parse_context_filters(&filters)).page_idx, Some(3));
    assert_eq!(
        accepted(resolve_context_owner(None, &filters)).as_deref(),
        Some("owner-a")
    );
    assert!(resolve_context_owner(Some("owner-b"), &filters).is_err());
    let page = |t: &str| Json::Object(Arc::new(vec![(text("page_idx"), Json::Text(text(t)))]));
    assert_eq!(accepted(parse_context_filters(&page("+5"))).page_idx, Some(5));
    assert_eq!(accepted(parse_context_filters(&page(" "))).page_idx, None);
    for wrong in ["++5", "+", "-5", "5.0", " 5", "4294967296"] {
        assert_eq!(
            refused(parse_context_filters(&page(wrong))),
            "page_idx must be a non-negative integer"
        );
    }
    let wrong = Json::Object(Arc::new(vec![(text("source_id"), Json::Bool(true))]));
    assert_eq!(refused(parse_context_filters(&wrong)), "source_id must be a string");
    assert_eq!(refused(parse_context_filters(&Json::Bool(true))), "filters must be an object");
}

#[test]
fn a_stage_is_shown_without_what_only_an_admin_sees() {
    let stage = Json::Object(Arc::new(vec![
        (text("stage"), Json::Text(text("company"))),
        (text("index_uid"), Json::Text(text("rag_company_context"))),
    ]));
    let plain = sanitize_context_stage(&stage, false, false);
    assert!(plain.get("index_uid").is_none());
    assert_eq!(plain.get("stage"), Some(&Json::Text(text("company"))));
    let told = sanitize_context_stage(&stage, true, true);
    assert_eq!(told.get("index_uid"), Some(&Json::Text(text("rag_company_context"))));
}

#[test]
fn numbers_of_rows_are_gathered_by_column() {
    let mut data = StoreData::empty();
    let row = |a: &str| {
        Json::Object(Arc::new(vec![
            (text("amount"), Json::Number(text(a))),
            (text("name"), Json::Text(text("x"))),
        ]))
    };
    cache_snapshot_rows(&mut data, "snap", vec![row("1"), row("2.5")]);
    let columns = numeric_columns(&list_rows(&data, "snap"));
    assert_eq!(columns.len(), 1);
    assert_eq!(columns.get(&text("amount")).unwrap(), &vec![text("1"), text("2.5")]);
    assert!(list_rows(&data, "none").is_empty());
}
