//! The life of an ingest task: it is made, moved from state to state, completed or failed, shown,
//! and in the end pruned.

use vstd::prelude::*;
use vstd::string::*;
use vstd::utf8::*;

use crate::artifacts::{are_refs, artifact_refs, ParserOutput};
use crate::cursor::utf8_text;
use crate::data::{DocumentKeyView, SourceDocumentKey, StoreData};
use crate::documents::{
    cut_from, document_written, fragment_uris, is_cutter, key_of, write_source_document_fragments,
    DocumentIngestResult, NewDocument, NewDocumentView, RetrievalText,
};
use crate::error::{fails_with, ApiError, ErrorView};
use crate::history::{ensure_user_index_entry, index_ensured};
use crate::ingest::{
    apply_ingest_task_transition, ended, ingest_task_visible, is_ended,
    is_nonterminal_ingest_state, moved, sanitize_ingest_task, shown_task, task_shown, under_way,
    INGEST_ERROR_INTERRUPTED, INGEST_ERROR_PARSER_FAILED,
};
use crate::json::Json;
use crate::merge::{insert_rows, inserted_all};
use crate::model::ingest::{IngestTask, IngestTaskResult, ParseArtifact, ParsedBlock};
use crate::model::knowledge::ParseArtifactRef;
use crate::naming::{bytes_of, hex_text, sanitize_slug, sha256, sha256_hex, slug};
use crate::nodes::{block_text, parsed_block_text, FragmentChunk};
use crate::publish::COMPANY_CONTEXT_INDEX;
use crate::record::{copy_all, List};
use crate::resolver::{EventIndexResolver, EVENT_INDEX_SCHEMA_VERSION};
use crate::source_delete::{
    delete_unfinished, deleting_error, ensure_company_source_not_deleting,
};
use crate::table::kept;
use crate::text::{
    as_deref, blank, either, either_text, is_blank, is_empty_text, join, joined, opt_str, opt_text,
    owned_or, text_eq, text_or, texts, texts_contain, texts_copy, texts_push,
};

verus! {

/// A document to be taken in.
pub struct IngestTaskRequest {
    pub owner_user_id: Option<String>,
    pub title: Option<String>,
    pub file_name: Option<String>,
    pub content_type: Option<String>,
    pub source_uri: Option<String>,
    pub source_id: Option<String>,
    pub revision_id: Option<String>,
    pub source_document_uri: Option<String>,
    pub content: Option<String>,
    pub bytes: Option<Vec<u8>>,
    pub content_list: Option<Json>,
    pub content_list_v2: Option<Json>,
    pub middle_json: Option<Json>,
    pub model_json: Option<Json>,
    pub parser_provider: Option<String>,
    pub parser_backend: Option<String>,
    pub checksum: Option<String>,
    /// How the document is to be cut into fragments.
    pub fragment_policy: Option<Json>,
    pub idempotency_key: Option<String>,
}

/// Which parser takes a document in.
pub struct ParserChoice {
    pub provider: String,
    pub backend: String,
}

/// The parser that a request asks for, else the one that is configured.
pub fn choose_parser(req: &IngestTaskRequest, provider: &str, backend: &str) -> (r: ParserChoice)
    ensures
        r.provider@ == text_or(opt_text(req.parser_provider), provider@),
        r.backend@ == text_or(opt_text(req.parser_backend), backend@),
{
    ParserChoice {
        provider: owned_or(&req.parser_provider, provider),
        backend: owned_or(&req.parser_backend, backend),
    }
}

/// Whether a request brings a document.
pub open spec fn brings_document(req: IngestTaskRequest, has_staged_upload: bool) -> bool {
    ||| (match opt_text(req.content) {
        Some(text) => !blank(text),
        None => false,
    })
    ||| (match req.bytes {
        Some(bytes) => bytes@.len() > 0,
        None => false,
    })
    ||| has_staged_upload
    ||| req.content_list is Some
    ||| req.content_list_v2 is Some
}

fn check_brings_document(req: &IngestTaskRequest, has_staged_upload: bool) -> (r: bool)
    ensures
        r == brings_document(*req, has_staged_upload),
{
    (match &req.content {
        Some(text) => !is_blank(text.as_str()),
        None => false,
    }) || (match &req.bytes {
        Some(bytes) => bytes.len() > 0,
        None => false,
    }) || has_staged_upload || req.content_list.is_some() || req.content_list_v2.is_some()
}

/// The title of a document that is taken in.
pub open spec fn title_of(req: IngestTaskRequest) -> Seq<char> {
    text_or(
        either(opt_text(req.title), either(opt_text(req.file_name), opt_text(req.source_uri))),
        "Parsed document"@,
    )
}

/// The title of a document that is taken in.
pub fn ingest_title(req: &IngestTaskRequest) -> (r: String)
    ensures
        r@ == title_of(*req),
{
    let place: Option<String> = either_text(&req.file_name, &req.source_uri);
    owned_or(&either_text(&req.title, &place), "Parsed document")
}

/// The source of a document that is taken in.
pub open spec fn source_of(req: IngestTaskRequest) -> Seq<char> {
    text_or(
        opt_text(req.source_id),
        "ingest:"@ + slug(
            text_or(either(opt_text(req.source_uri), opt_text(req.file_name)), title_of(req)),
        ),
    )
}

fn ingest_source_id(req: &IngestTaskRequest) -> (r: String)
    ensures
        r@ == source_of(*req),
{
    match &req.source_id {
        Some(id) => id.clone(),
        None => {
            let title: String = ingest_title(req);
            let named: String = owned_or(
                &either_text(&req.source_uri, &req.file_name),
                title.as_str(),
            );
            "ingest:".to_owned().concat(sanitize_slug(named.as_str()).as_str())
        },
    }
}

/// Where a document that is taken in is stored.
pub open spec fn document_uri_of(req: IngestTaskRequest, revision_id: Seq<char>) -> Seq<char> {
    let scope = if req.owner_user_id is Some {
        "user"@
    } else {
        "company"@
    };
    text_or(
        opt_text(req.source_document_uri),
        "ctx://"@ + scope + "/ingest/"@ + slug(source_of(req)) + "/source/"@ + slug(revision_id),
    )
}

fn ingest_document_uri(req: &IngestTaskRequest, source_id: &str, revision_id: &str) -> (r: String)
    requires
        source_id@ == source_of(*req),
    ensures
        r@ == document_uri_of(*req, revision_id@),
{
    match &req.source_document_uri {
        Some(uri) => uri.clone(),
        None => {
            let mut out: String = "ctx://".to_owned();
            if req.owner_user_id.is_some() {
                out.append("user");
            } else {
                out.append("company");
            }
            out.append("/ingest/");
            out.append(sanitize_slug(source_id).as_str());
            out.append("/source/");
            out.append(sanitize_slug(revision_id).as_str());
            out
        },
    }
}

/// Whether `t` is the task that takes a document in.
pub open spec fn is_new_task(
    t: IngestTask,
    req: IngestTaskRequest,
    tenant_id: Seq<char>,
    parser: ParserChoice,
    queued_ahead: usize,
    task_id: Seq<char>,
    new_revision_id: Seq<char>,
    now: i64,
) -> bool {
    let revision_id = text_or(opt_text(req.revision_id), new_revision_id);
    &&& t.task_id@ == task_id
    &&& t.tenant_id@ == tenant_id
    &&& t.owner_user_id == req.owner_user_id
    &&& t.source_id@ == source_of(req)
    &&& t.revision_id@ == revision_id
    &&& opt_text(t.source_document_uri) == Some(document_uri_of(req, revision_id))
    &&& t.parser_provider@ == parser.provider@
    &&& t.parser_backend@ == (if parser.provider@ == "mineru"@ {
        parser.backend@
    } else {
        "text"@
    })
    &&& t.state@ == "queued"@
    &&& t.error is None
    &&& t.created_at == now
    &&& t.updated_at == now
    &&& t.completed_at is None
    &&& opt_text(t.status_url) == Some("/v1/ingest/tasks/"@ + task_id)
    &&& opt_text(t.result_url) == Some("/v1/ingest/tasks/"@ + task_id + "/result"@)
    &&& t.queued_ahead == Some(queued_ahead)
}

fn new_task(
    req: &IngestTaskRequest,
    tenant_id: &str,
    parser: &ParserChoice,
    queued_ahead: usize,
    task_id: &str,
    new_revision_id: &str,
    now: i64,
) -> (r: IngestTask)
    ensures
        is_new_task(
            r,
            *req,
            tenant_id@,
            *parser,
            queued_ahead,
            task_id@,
            new_revision_id@,
            now,
        ),
{
    let source_id: String = ingest_source_id(req);
    let revision_id: String = owned_or(&req.revision_id, new_revision_id);
    let uri: String = ingest_document_uri(req, source_id.as_str(), revision_id.as_str());
    let status_url: String = "/v1/ingest/tasks/".to_owned().concat(task_id);
    let result_url: String = status_url.clone().concat("/result");
    IngestTask {
        task_id: task_id.to_owned(),
        tenant_id: tenant_id.to_owned(),
        owner_user_id: req.owner_user_id.clone(),
        source_id,
        revision_id,
        source_document_uri: Some(uri),
        parser_provider: parser.provider.clone(),
        parser_backend: if text_eq(parser.provider.as_str(), "mineru") {
            parser.backend.clone()
        } else {
            "text".to_owned()
        },
        state: "queued".to_owned(),
        error: None,
        created_at: now,
        updated_at: now,
        completed_at: None,
        status_url: Some(status_url),
        result_url: Some(result_url),
        queued_ahead: Some(queued_ahead),
    }
}

/// Why no task is made, where `parser_fault` says what is wrong with the parser that is asked for.
pub open spec fn task_refusal(
    d: StoreData,
    tenant_id: Seq<char>,
    req: IngestTaskRequest,
    parser_fault: Option<ErrorView>,
    has_staged_upload: bool,
) -> Option<ErrorView> {
    if req.idempotency_key is Some {
        Some(ErrorView::BadRequest("idempotency_key is not supported for ingest tasks"@))
    } else if parser_fault is Some {
        parser_fault
    } else if !brings_document(req, has_staged_upload) {
        Some(
            ErrorView::BadRequest("content, file bytes, or MinerU content_list output is required"@),
        )
    } else if req.owner_user_id is None && delete_unfinished(
        d.operations.values(),
        tenant_id,
        source_of(req),
    ) {
        Some(deleting_error())
    } else {
        None
    }
}

/// What is wrong with a parser.
pub open spec fn fault_of(checked: Result<(), ApiError>) -> Option<ErrorView> {
    match checked {
        Ok(_) => None,
        Err(e) => Some(e@),
    }
}

/// Makes the task that takes a document in. `checked` says whether the parser that is asked for can
/// be used.
pub fn create_ingest_task_record(
    data: &mut StoreData,
    tenant_id: &str,
    req: &IngestTaskRequest,
    parser: &ParserChoice,
    checked: Result<(), ApiError>,
    has_staged_upload: bool,
    queued_ahead: usize,
    task_id: &str,
    new_revision_id: &str,
    now: i64,
) -> (r: Result<IngestTask, ApiError>)
    ensures
        match task_refusal(*old(data), tenant_id@, *req, fault_of(checked), has_staged_upload) {
            Some(e) => *final(data) == *old(data) && fails_with(r, e),
            None => {
                &&& r is Ok
                &&& is_new_task(
                    r->Ok_0,
                    *req,
                    tenant_id@,
                    *parser,
                    queued_ahead,
                    task_id@,
                    new_revision_id@,
                    now,
                )
                &&& *final(data) == (StoreData {
                    ingest_tasks: final(data).ingest_tasks,
                    ..*old(data)
                })
                &&& final(data).ingest_tasks@ == old(data).ingest_tasks@.insert(task_id@, r->Ok_0)
            },
        },
{
    if req.idempotency_key.is_some() {
        return Err(ApiError::bad_request("idempotency_key is not supported for ingest tasks"));
    }
    match checked {
        Ok(_) => {},
        Err(error) => {
            return Err(error);
        },
    }
    if !check_brings_document(req, has_staged_upload) {
        return Err(
            ApiError::bad_request("content, file bytes, or MinerU content_list output is required"),
        );
    }
    let task: IngestTask = new_task(
        req,
        tenant_id,
        parser,
        queued_ahead,
        task_id,
        new_revision_id,
        now,
    );
    if task.owner_user_id.is_none() {
        match ensure_company_source_not_deleting(data, tenant_id, task.source_id.as_str()) {
            Ok(_) => {},
            Err(error) => {
                return Err(error);
            },
        }
    }
    data.ingest_tasks.insert(task.task_id.clone(), task.clone());
    Ok(task)
}

/// A task.
pub fn ingest_task_for_run(data: &StoreData, task_id: &str) -> (r: Result<IngestTask, ApiError>)
    ensures
        if data.ingest_tasks@.dom().contains(task_id@) {
            r == Ok::<IngestTask, ApiError>(data.ingest_tasks@[task_id@])
        } else {
            fails_with(r, ErrorView::NotFound("ingest task not found"@))
        },
{
    let key: String = task_id.to_owned();
    match data.ingest_tasks.get(&key) {
        Some(task) => Ok(task.clone()),
        None => Err(ApiError::not_found("ingest task not found")),
    }
}

/// Moves a task into a state.
pub fn transition_ingest_task(
    data: &mut StoreData,
    task_id: &str,
    state: &str,
    error: Option<&str>,
    now: i64,
) -> (r: Result<IngestTask, ApiError>)
    ensures
        if old(data).ingest_tasks@.dom().contains(task_id@) {
            &&& r is Ok
            &&& moved(
                old(data).ingest_tasks@[task_id@],
                r->Ok_0,
                state@,
                opt_str(error),
                now,
            )
            &&& *final(data) == (StoreData {
                ingest_tasks: final(data).ingest_tasks,
                ..*old(data)
            })
            &&& final(data).ingest_tasks@ == old(data).ingest_tasks@.insert(task_id@, r->Ok_0)
        } else {
            *final(data) == *old(data) && fails_with(
                r,
                ErrorView::NotFound("ingest task not found"@),
            )
        },
{
    let mut task: IngestTask = match ingest_task_for_run(data, task_id) {
        Ok(task) => task,
        Err(error) => {
            return Err(error);
        },
    };
    apply_ingest_task_transition(&mut task, state, error, now);
    data.ingest_tasks.insert(task_id.to_owned(), task.clone());
    Ok(task)
}

/// Whether `after` is the task `before` once it failed.
pub open spec fn failed_with(
    before: IngestTask,
    after: IngestTask,
    error: Seq<char>,
    now: i64,
) -> bool {
    &&& after == (IngestTask {
        state: after.state,
        error: after.error,
        updated_at: now,
        completed_at: Some(now),
        ..before
    })
    &&& after.state@ == "failed"@
    &&& opt_text(after.error) == Some(error)
}

/// Lets a task fail that is still under way; one that has come to an end stays as it is.
pub fn fail_nonterminal_ingest_task(
    data: &mut StoreData,
    task_id: &str,
    error: &'static str,
    now: i64,
) -> (r: Result<Option<IngestTask>, ApiError>)
    ensures
        if !old(data).ingest_tasks@.dom().contains(task_id@) {
            *final(data) == *old(data) && fails_with(
                r,
                ErrorView::NotFound("ingest task not found"@),
            )
        } else if !under_way(old(data).ingest_tasks@[task_id@].state@) {
            *final(data) == *old(data) && r == Ok::<Option<IngestTask>, ApiError>(None)
        } else {
            &&& r is Ok
            &&& r->Ok_0 is Some
            &&& failed_with(old(data).ingest_tasks@[task_id@], r->Ok_0->0, error@, now)
            &&& *final(data) == (StoreData {
                ingest_tasks: final(data).ingest_tasks,
                ..*old(data)
            })
            &&& final(data).ingest_tasks@ == old(data).ingest_tasks@.insert(task_id@, r->Ok_0->0)
        },
{
    let task: IngestTask = match ingest_task_for_run(data, task_id) {
        Ok(task) => task,
        Err(error) => {
            return Err(error);
        },
    };
    if !is_nonterminal_ingest_state(task.state.as_str()) {
        return Ok(None);
    }
    let failed: IngestTask = IngestTask {
        state: "failed".to_owned(),
        error: Some(error.to_owned()),
        updated_at: now,
        completed_at: Some(now),
        ..task
    };
    data.ingest_tasks.insert(task_id.to_owned(), failed.clone());
    Ok(Some(failed))
}

/// Whether a task of a tenant is under way.
pub open spec fn is_under_way(tenant_id: Seq<char>) -> spec_fn(IngestTask) -> bool {
    |t: IngestTask| t.tenant_id@ == tenant_id && under_way(t.state@)
}

/// Whether `after` is the task `before` once everything under way was interrupted.
pub open spec fn interrupted(tenant_id: Seq<char>, now: i64) -> spec_fn(
    IngestTask,
    IngestTask,
) -> bool {
    |before: IngestTask, after: IngestTask|
        if is_under_way(tenant_id)(before) {
            moved(before, after, "failed"@, Some(INGEST_ERROR_INTERRUPTED@), now)
        } else {
            after == before
        }
}

/// The tasks that were under way, as they are after they were interrupted.
pub open spec fn interrupted_ones(
    before: Seq<IngestTask>,
    after: Seq<IngestTask>,
    tenant_id: Seq<char>,
) -> Seq<IngestTask>
    decreases before.len(),
{
    if before.len() == 0 || before.len() != after.len() {
        Seq::empty()
    } else {
        let front = interrupted_ones(before.drop_last(), after.drop_last(), tenant_id);
        if is_under_way(tenant_id)(before.last()) {
            front.push(after.last())
        } else {
            front
        }
    }
}

/// Lets every task of a tenant fail that is still under way.
pub fn interrupt_nonterminal_ingest_tasks(data: &mut StoreData, tenant_id: &str, now: i64) -> (r:
    Vec<IngestTask>)
    ensures
        *final(data) == (StoreData { ingest_tasks: final(data).ingest_tasks, ..*old(data) }),
        crate::table::related(
            old(data).ingest_tasks@,
            final(data).ingest_tasks@,
            interrupted(tenant_id@, now),
        ),
        r@ == interrupted_ones(
            old(data).ingest_tasks.values(),
            final(data).ingest_tasks.values(),
            tenant_id@,
        ),
{
    let n: usize = data.ingest_tasks.len();
    let ghost before = data.ingest_tasks.values();
    let mut under: Vec<bool> = Vec::new();
    let mut i: usize = 0;
    while i < n
        invariant
            i <= n == data.ingest_tasks.rows().len(),
            before == data.ingest_tasks.values(),
            under@.len() == i,
            forall|j: int| 0 <= j < i ==> under@[j] == is_under_way(tenant_id@)(#[trigger] before[j]),
        decreases n - i,
    {
        let task: &IngestTask = data.ingest_tasks.value_at(i);
        under.push(
            text_eq(task.tenant_id.as_str(), tenant_id) && is_nonterminal_ingest_state(
                task.state.as_str(),
            ),
        );
        i += 1;
    }
    let ghost rel = interrupted(tenant_id@, now);
    let change = |t: &IngestTask| -> (b: Option<IngestTask>)
        ensures
            match b {
                Some(c) => rel(*t, c),
                None => rel(*t, *t),
            },
        {
            if text_eq(t.tenant_id.as_str(), tenant_id) && is_nonterminal_ingest_state(
                t.state.as_str(),
            ) {
                let mut task: IngestTask = t.clone();
                apply_ingest_task_transition(
                    &mut task,
                    "failed",
                    Some(INGEST_ERROR_INTERRUPTED),
                    now,
                );
                Some(task)
            } else {
                None
            }
        };
    data.ingest_tasks.update_each(change, Ghost(rel));
    let ghost after = data.ingest_tasks.values();
    let mut out: Vec<IngestTask> = Vec::new();
    let mut i: usize = 0;
    assert(out@ =~= interrupted_ones(before.take(0), after.take(0), tenant_id@));
    while i < n
        invariant
            i <= n == data.ingest_tasks.rows().len(),
            after == data.ingest_tasks.values(),
            before.len() == after.len() == n,
            under@.len() == n,
            forall|j: int| 0 <= j < n ==> under@[j] == is_under_way(tenant_id@)(#[trigger] before[j]),
            out@ == interrupted_ones(before.take(i as int), after.take(i as int), tenant_id@),
        decreases n - i,
    {
        assert(before.take(i + 1).drop_last() =~= before.take(i as int));
        assert(after.take(i + 1).drop_last() =~= after.take(i as int));
        assert(under@[i as int] == is_under_way(tenant_id@)(before[i as int]));
        if under[i] {
            out.push(data.ingest_tasks.value_at(i).clone());
        }
        i += 1;
    }
    assert(before.take(i as int) =~= before);
    assert(after.take(i as int) =~= after);
    out
}

/// Once everything under way was interrupted, nothing of the tenant is under way.
pub proof fn interrupting_leaves_nothing_under_way(
    before: StoreData,
    after: StoreData,
    tenant_id: Seq<char>,
    now: i64,
    id: Seq<char>,
)
    requires
        crate::table::related(
            before.ingest_tasks@,
            after.ingest_tasks@,
            interrupted(tenant_id, now),
        ),
        after.ingest_tasks@.dom().contains(id),
    ensures
        !is_under_way(tenant_id)(after.ingest_tasks@[id]),
{
    assert(interrupted(tenant_id, now)(before.ingest_tasks@[id], after.ingest_tasks@[id]));
    reveal_strlit("failed");
    reveal_strlit("queued");
    reveal_strlit("parsing");
    reveal_strlit("parsed");
    reveal_strlit("fragmenting");
    reveal_strlit("indexing");
    assert("failed"@.len() == 6 && "failed"@[0] == 'f');
    assert("fragmenting"@.len() == 11);
    assert("queued"@[0] == 'q' && "parsing"@[0] == 'p' && "parsed"@[0] == 'p' && "indexing"@[0]
        == 'i');
}

/// Whether a task of a tenant came to an end before a moment.
pub open spec fn is_expired(tenant_id: Seq<char>, cutoff: int) -> spec_fn(IngestTask) -> bool {
    |t: IngestTask|
        t.tenant_id@ == tenant_id && ended(t.state@) && (match t.completed_at {
            Some(at) => at,
            None => t.updated_at,
        }) < cutoff
}

/// The tasks with an id.
pub open spec fn ids_of_tasks(tasks: Seq<IngestTask>) -> Seq<Seq<char>> {
    Seq::new(tasks.len(), |i: int| tasks[i].task_id@)
}

/// The key of the blocks that came of a result.
pub open spec fn blocks_key(r: IngestTaskResult) -> DocumentKeyView {
    key_of(r.task.tenant_id@, opt_text(r.task.owner_user_id), r.source_document_uri@)
}

/// Whether the blocks under a key go with tasks that go.
pub open spec fn blocks_go(
    results: Map<Seq<char>, IngestTaskResult>,
    ids: Seq<Seq<char>>,
    k: DocumentKeyView,
) -> bool {
    exists|i: int|
        0 <= i < ids.len() && results.dom().contains(#[trigger] ids[i]) && blocks_key(
            results[ids[i]],
        ) == k
}

/// The state after tasks were pruned: with them go their results, and the blocks that came of them.
pub open spec fn tasks_pruned(before: StoreData, after: StoreData, ids: Seq<Seq<char>>) -> bool {
    &&& after == (StoreData {
        ingest_tasks: after.ingest_tasks,
        ingest_results: after.ingest_results,
        parsed_blocks: after.parsed_blocks,
        ..before
    })
    &&& after.ingest_tasks@ == kept(
        before.ingest_tasks@,
        |id: Seq<char>, t: IngestTask| !ids.contains(id),
    )
    &&& after.ingest_results@ == kept(
        before.ingest_results@,
        |id: Seq<char>, r: IngestTaskResult| !ids.contains(id),
    )
    &&& after.parsed_blocks@ == kept(
        before.parsed_blocks@,
        |k: DocumentKeyView, b: Vec<ParsedBlock>| !blocks_go(before.ingest_results@, ids, k),
    )
}

fn check_blocks_go(
    results: &crate::table::Table<String, IngestTaskResult>,
    ids: &Vec<String>,
    k: &SourceDocumentKey,
) -> (r: bool)
    ensures
        r == blocks_go(results@, texts(ids@), k@),
{
    let ghost all = texts(ids@);
    let mut i: usize = 0;
    while i < ids.len()
        invariant
            i <= ids@.len(),
            all == texts(ids@),
            forall|j: int|
                0 <= j < i ==> !(results@.dom().contains(#[trigger] all[j]) && blocks_key(
                    results@[all[j]],
                ) == k@),
        decreases ids.len() - i,
    {
        assert(all[i as int] == ids@[i as int]@);
        match results.get(&ids[i]) {
            Some(result) => {
                let key: SourceDocumentKey = SourceDocumentKey::new(
                    result.task.tenant_id.as_str(),
                    as_deref(&result.task.owner_user_id),
                    result.source_document_uri.as_str(),
                );
                if crate::table::TableKey::same_key(&key, k) {
                    return true;
                }
            },
            None => {},
        }
        i += 1;
    }
    false
}

/// The tasks of a tenant that came to an end longer ago than they are kept.
pub open spec fn expired_tasks(
    d: StoreData,
    tenant_id: Seq<char>,
    retention_seconds: u64,
    now: i64,
) -> Seq<Seq<char>> {
    ids_of_tasks(
        d.ingest_tasks.values().filter(
            is_expired(tenant_id, now - retention_seconds * 1_000_000_000),
        ),
    )
}

/// The tasks of a tenant that came to an end longer ago than they are kept.
pub fn expired_ingest_tasks(
    data: &StoreData,
    tenant_id: &str,
    retention_seconds: u64,
    now: i64,
) -> (r: Vec<String>)
    ensures
        texts(r@) == expired_tasks(*data, tenant_id@, retention_seconds, now),
{
    assert(retention_seconds * 1_000_000_000 <= u64::MAX * 1_000_000_000) by (nonlinear_arith)
        requires
            retention_seconds <= u64::MAX,
    ;
    let cutoff: i128 = now as i128 - (retention_seconds as i128) * 1_000_000_000;
    let ghost p = is_expired(tenant_id@, now - retention_seconds * 1_000_000_000);
    let accept = |t: &IngestTask| -> (b: bool)
        ensures
            b == p(*t),
        {
            let at: i64 = match t.completed_at {
                Some(at) => at,
                None => t.updated_at,
            };
            text_eq(t.tenant_id.as_str(), tenant_id) && is_ended(t.state.as_str()) && (at as i128)
                < cutoff
        };
    let tasks: Vec<IngestTask> = crate::record::select_values(
        &data.ingest_tasks,
        accept,
        Ghost(p),
    );
    let mut out: Vec<String> = Vec::new();
    let mut i: usize = 0;
    while i < tasks.len()
        invariant
            i <= tasks@.len(),
            out@.len() == i,
            forall|j: int| 0 <= j < i ==> (#[trigger] out@[j])@ == tasks@[j].task_id@,
        decreases tasks.len() - i,
    {
        out.push(tasks[i].task_id.clone());
        i += 1;
    }
    assert(texts(out@) =~= ids_of_tasks(tasks@));
    out
}

/// Prunes tasks with their results and the blocks that came of them.
pub fn prune_ingest_tasks(data: &mut StoreData, ids: &Vec<String>)
    ensures
        tasks_pruned(*old(data), *final(data), texts(ids@)),
{
    let ghost before = *data;
    let ghost all = texts(ids@);
    let ghost pb = |k: DocumentKeyView, b: Vec<ParsedBlock>|
        !blocks_go(before.ingest_results@, all, k);
    let results: &crate::table::Table<String, IngestTaskResult> = &data.ingest_results;
    let keep_blocks = |k: &SourceDocumentKey, b: &Vec<ParsedBlock>| -> (c: bool)
        ensures
            c == pb(k@, *b),
        { !check_blocks_go(results, ids, k) };
    data.parsed_blocks.retain(keep_blocks, Ghost(pb));
    let ghost pt = |id: Seq<char>, t: IngestTask| !all.contains(id);
    let keep_tasks = |id: &String, t: &IngestTask| -> (c: bool)
        ensures
            c == pt(id@, *t),
        { !texts_contain(ids, id.as_str()) };
    data.ingest_tasks.retain(keep_tasks, Ghost(pt));
    let ghost pr = |id: Seq<char>, r: IngestTaskResult| !all.contains(id);
    let keep_results = |id: &String, r: &IngestTaskResult| -> (c: bool)
        ensures
            c == pr(id@, *r),
        { !texts_contain(ids, id.as_str()) };
    data.ingest_results.retain(keep_results, Ghost(pr));
}

/// Prunes the tasks of a tenant that came to an end longer ago than they are kept, with their
/// results and the blocks that came of them.
pub fn cleanup_ingest_tasks(
    data: &mut StoreData,
    tenant_id: &str,
    retention_seconds: u64,
    now: i64,
) -> (r: Vec<String>)
    ensures
        texts(r@) == expired_tasks(*old(data), tenant_id@, retention_seconds, now),
        tasks_pruned(*old(data), *final(data), texts(r@)),
{
    let expired: Vec<String> = expired_ingest_tasks(data, tenant_id, retention_seconds, now);
    prune_ingest_tasks(data, &expired);
    expired
}

/// A task that is still under way is never pruned, whatever its age.
pub proof fn what_is_under_way_is_not_pruned(
    d: StoreData,
    tenant_id: Seq<char>,
    retention_seconds: u64,
    now: i64,
    i: int,
)
    requires
        0 <= i < d.ingest_tasks.values().len(),
        under_way(d.ingest_tasks.values()[i].state@),
        forall|j: int, k: int|
            0 <= j < k < d.ingest_tasks.values().len() ==> (
            #[trigger] d.ingest_tasks.values()[j]).task_id@ != (
            #[trigger] d.ingest_tasks.values()[k]).task_id@,
    ensures
        !expired_tasks(d, tenant_id, retention_seconds, now).contains(
            d.ingest_tasks.values()[i].task_id@,
        ),
{
    let all = d.ingest_tasks.values();
    let p = is_expired(tenant_id, now - retention_seconds * 1_000_000_000);
    let ids = expired_tasks(d, tenant_id, retention_seconds, now);
    if ids.contains(all[i].task_id@) {
        let k = choose|k: int| 0 <= k < ids.len() && ids[k] == all[i].task_id@;
        let t = all.filter(p)[k];
        broadcast use vstd::seq_lib::group_filter_ensures;

        assert(all.filter(p).contains(t));
        all.lemma_filter_contains_rev(p, t);
        let j = choose|j: int| 0 <= j < all.len() && all[j] == t;
        assert(p(t));
        crate::ingest::a_task_under_way_has_not_ended(all[i].state@);
        if j < i {
            assert(all[j].task_id@ != all[i].task_id@);
        } else if i < j {
            assert(all[i].task_id@ != all[j].task_id@);
        }
    }
}

/// A task as it is shown to an owner.
pub fn get_ingest_task(
    data: &StoreData,
    task_id: &str,
    owner_user_id: Option<&str>,
    include_all_private: bool,
) -> (r: Result<IngestTask, ApiError>)
    ensures
        if data.ingest_tasks@.dom().contains(task_id@) && task_shown(
            data.ingest_tasks@[task_id@],
            opt_str(owner_user_id),
            include_all_private,
        ) {
            r is Ok && shown_task(data.ingest_tasks@[task_id@], r->Ok_0)
        } else {
            fails_with(r, ErrorView::NotFound("ingest task not found"@))
        },
{
    let key: String = task_id.to_owned();
    match data.ingest_tasks.get(&key) {
        Some(task) => if ingest_task_visible(task, owner_user_id, include_all_private) {
            Ok(sanitize_ingest_task(task.clone()))
        } else {
            Err(ApiError::not_found("ingest task not found"))
        },
        None => Err(ApiError::not_found("ingest task not found")),
    }
}

/// Why the result of a task is not shown.
pub open spec fn result_refusal(
    d: StoreData,
    task_id: Seq<char>,
    owner_user_id: Option<Seq<char>>,
    include_all_private: bool,
) -> Option<ErrorView> {
    let task = d.ingest_tasks@[task_id];
    if !d.ingest_tasks@.dom().contains(task_id) || !task_shown(
        task,
        owner_user_id,
        include_all_private,
    ) {
        Some(ErrorView::NotFound("ingest result not found"@))
    } else if task.state@ == "completed"@ && d.ingest_results@.dom().contains(task_id) {
        None
    } else if task.state@ == "failed"@ {
        Some(ErrorView::Conflict("ingest task failed"@))
    } else {
        Some(ErrorView::Conflict("ingest result is not ready"@))
    }
}

/// The result of a task as it is shown to an owner, once it is there.
pub fn get_ingest_task_result(
    data: &StoreData,
    task_id: &str,
    owner_user_id: Option<&str>,
    include_all_private: bool,
) -> (r: Result<IngestTaskResult, ApiError>)
    ensures
        match result_refusal(*data, task_id@, opt_str(owner_user_id), include_all_private) {
            Some(e) => fails_with(r, e),
            None => {
                &&& r is Ok
                &&& r->Ok_0 == (IngestTaskResult {
                    task: r->Ok_0.task,
                    ..data.ingest_results@[task_id@]
                })
                &&& shown_task(data.ingest_results@[task_id@].task, r->Ok_0.task)
            },
        },
{
    let key: String = task_id.to_owned();
    let task: &IngestTask = match data.ingest_tasks.get(&key) {
        Some(task) => task,
        None => {
            return Err(ApiError::not_found("ingest result not found"));
        },
    };
    if !ingest_task_visible(task, owner_user_id, include_all_private) {
        return Err(ApiError::not_found("ingest result not found"));
    }
    if text_eq(task.state.as_str(), "completed") {
        match data.ingest_results.get(&key) {
            Some(result) => {
                let shown: IngestTask = sanitize_ingest_task(result.task.clone());
                return Ok(IngestTaskResult { task: shown, ..result.clone() });
            },
            None => {},
        }
    }
    if text_eq(task.state.as_str(), "failed") {
        Err(ApiError::conflict("ingest task failed"))
    } else {
        Err(ApiError::conflict("ingest result is not ready"))
    }
}

/// What happened to a task that runs.
pub enum IngestEvent {
    Started,
    ParserFailed,
    Parsed,
    CutBegun,
    OutputsStored,
}

/// The state into which what happened moves a task, and the cause where it failed.
pub open spec fn state_after(event: IngestEvent) -> (Seq<char>, Option<Seq<char>>) {
    match event {
        IngestEvent::Started => ("parsing"@, None),
        IngestEvent::ParserFailed => ("failed"@, Some(INGEST_ERROR_PARSER_FAILED@)),
        IngestEvent::Parsed => ("parsed"@, None),
        IngestEvent::CutBegun => ("fragmenting"@, None),
        IngestEvent::OutputsStored => ("indexing"@, None),
    }
}

/// Moves a task on by what happened to it.
pub fn advance_ingest_task(
    data: &mut StoreData,
    task_id: &str,
    event: &IngestEvent,
    now: i64,
) -> (r: Result<IngestTask, ApiError>)
    ensures
        if old(data).ingest_tasks@.dom().contains(task_id@) {
            &&& r is Ok
            &&& moved(
                old(data).ingest_tasks@[task_id@],
                r->Ok_0,
                state_after(*event).0,
                state_after(*event).1,
                now,
            )
            &&& *final(data) == (StoreData {
                ingest_tasks: final(data).ingest_tasks,
                ..*old(data)
            })
            &&& final(data).ingest_tasks@ == old(data).ingest_tasks@.insert(task_id@, r->Ok_0)
        } else {
            *final(data) == *old(data) && fails_with(
                r,
                ErrorView::NotFound("ingest task not found"@),
            )
        },
{
    match event {
        IngestEvent::Started => transition_ingest_task(data, task_id, "parsing", None, now),
        IngestEvent::ParserFailed => transition_ingest_task(
            data,
            task_id,
            "failed",
            Some(INGEST_ERROR_PARSER_FAILED),
            now,
        ),
        IngestEvent::Parsed => transition_ingest_task(data, task_id, "parsed", None, now),
        IngestEvent::CutBegun => transition_ingest_task(data, task_id, "fragmenting", None, now),
        IngestEvent::OutputsStored => transition_ingest_task(data, task_id, "indexing", None, now),
    }
}

/// Whatever happens to a task that runs, it is under way or has failed.
pub proof fn a_running_task_is_under_way_or_failed(event: IngestEvent)
    ensures
        under_way(state_after(event).0) || ended(state_after(event).0),
        event is ParserFailed == ended(state_after(event).0),
{
    if !(event is ParserFailed) {
        crate::ingest::a_task_under_way_has_not_ended(state_after(event).0);
    }
}

/// The text that a request brings itself. The built-in parser reads it alone.
pub open spec fn brought_text(req: IngestTaskRequest, uses_builtin_parser: bool) -> Seq<char> {
    if uses_builtin_parser {
        Seq::empty()
    } else {
        match (opt_text(req.content), req.bytes) {
            (Some(text), _) => text,
            (None, Some(bytes)) => if valid_utf8(bytes@) {
                decode_utf8(bytes@)
            } else {
                Seq::empty()
            },
            (None, None) => Seq::empty(),
        }
    }
}

fn empty_text() -> (r: String)
    ensures
        r@ == Seq::<char>::empty(),
{
    let r: String = "".to_owned();
    proof {
        reveal_strlit("");
        assert(r@ =~= Seq::<char>::empty());
    }
    r
}

fn copy_bytes(v: &Vec<u8>) -> (r: Vec<u8>)
    ensures
        r@ == v@,
{
    let mut out: Vec<u8> = Vec::new();
    let mut i: usize = 0;
    while i < v.len()
        invariant
            i <= v@.len(),
            out@ == v@.take(i as int),
        decreases v.len() - i,
    {
        out.push(v[i]);
        assert(v@.take(i + 1) =~= v@.take(i as int).push(v@[i as int]));
        i += 1;
    }
    assert(v@.take(i as int) =~= v@);
    out
}

/// The text that a request brings itself.
pub fn original_content(req: &IngestTaskRequest, uses_builtin_parser: bool) -> (r: String)
    ensures
        r@ == brought_text(*req, uses_builtin_parser),
{
    if uses_builtin_parser {
        return empty_text();
    }
    match &req.content {
        Some(text) => text.clone(),
        None => match &req.bytes {
            Some(bytes) => match utf8_text(copy_bytes(bytes)) {
                Some(text) => text,
                None => empty_text(),
            },
            None => empty_text(),
        },
    }
}

/// The text of which the artifact of the document itself is kept.
pub open spec fn text_for_artifacts(
    original: Seq<char>,
    staged_builtin_upload: bool,
    markdown: Option<Seq<char>>,
    staged: Option<Seq<char>>,
) -> Seq<char> {
    if original.len() > 0 {
        original
    } else if staged_builtin_upload {
        text_or(markdown, Seq::empty())
    } else {
        text_or(staged, Seq::empty())
    }
}

/// The text of which the artifact of the document itself is kept.
pub fn content_for_artifacts(
    original: &str,
    staged_builtin_upload: bool,
    markdown: &Option<String>,
    staged: &Option<String>,
) -> (r: String)
    ensures
        r@ == text_for_artifacts(
            original@,
            staged_builtin_upload,
            opt_text(*markdown),
            opt_text(*staged),
        ),
{
    if !is_empty_text(original) {
        return original.to_owned();
    }
    let other: &Option<String> = if staged_builtin_upload {
        markdown
    } else {
        staged
    };
    match other {
        Some(text) => text.clone(),
        None => empty_text(),
    }
}

/// The texts of blocks that have one.
pub open spec fn block_texts(blocks: Seq<ParsedBlock>) -> Seq<Seq<char>>
    decreases blocks.len(),
{
    if blocks.len() == 0 {
        Seq::empty()
    } else {
        let front = block_texts(blocks.drop_last());
        match block_text(blocks.last()) {
            Some(text) => front.push(text),
            None => front,
        }
    }
}

fn list_block_texts(blocks: &Vec<ParsedBlock>) -> (r: Vec<String>)
    ensures
        texts(r@) == block_texts(blocks@),
{
    let mut out: Vec<String> = Vec::new();
    let mut i: usize = 0;
    assert(texts(out@) =~= block_texts(blocks@.take(0)));
    while i < blocks.len()
        invariant
            i <= blocks@.len(),
            texts(out@) == block_texts(blocks@.take(i as int)),
        decreases blocks.len() - i,
    {
        assert(blocks@.take(i + 1).drop_last() =~= blocks@.take(i as int));
        match parsed_block_text(&blocks[i]) {
            Some(text) => {
                proof {
                    texts_push(out@, text);
                }
                out.push(text);
            },
            None => {},
        }
        i += 1;
    }
    assert(blocks@.take(i as int) =~= blocks@);
    out
}

/// The text that is stored of a document: what the parser wrote, else what was brought, else the
/// texts of the blocks.
pub open spec fn text_to_store(
    parsed: ParserOutput,
    original: Seq<char>,
    staged: Option<Seq<char>>,
) -> Seq<char> {
    if parsed.markdown is Some && !blank(parsed.markdown->0@) {
        parsed.markdown->0@
    } else if !blank(original) {
        original
    } else {
        match staged {
            Some(text) => text,
            None => joined(block_texts(parsed.blocks@), "\n\n"@),
        }
    }
}

/// The text that is stored of a document.
pub fn document_content(parsed: &ParserOutput, original: &str, staged: &Option<String>) -> (r: String)
    ensures
        r@ == text_to_store(*parsed, original@, opt_text(*staged)),
{
    match &parsed.markdown {
        Some(text) => {
            if !is_blank(text.as_str()) {
                return text.clone();
            }
        },
        None => {},
    }
    if !is_blank(original) {
        return original.to_owned();
    }
    match staged {
        Some(text) => text.clone(),
        None => join(&list_block_texts(&parsed.blocks), "\n\n"),
    }
}

/// The checksum of a document: the one that is given, else the digest of what is stored.
pub open spec fn checksum_of(given: Option<Seq<char>>, content: Seq<char>) -> Seq<char> {
    text_or(given, hex_text(sha256(encode_utf8(content))))
}

/// The checksum of a document.
pub fn document_checksum(given: &Option<String>, content: &str) -> (r: String)
    ensures
        r@ == checksum_of(opt_text(*given), content@),
{
    match given {
        Some(checksum) => checksum.clone(),
        None => sha256_hex(bytes_of(content).as_slice()),
    }
}

/// The document that a task stores.
pub open spec fn task_document(
    resolver: EventIndexResolver,
    tenant_id: Seq<char>,
    owner_user_id: Option<Seq<char>>,
    task: IngestTask,
    title: Seq<char>,
    content: Seq<char>,
    checksum: Seq<char>,
) -> NewDocumentView {
    NewDocumentView {
        tenant_id,
        owner_user_id,
        source_kind: "parsed_doc"@,
        source_id: task.source_id@,
        revision_id: task.revision_id@,
        uri: text_or(opt_text(task.source_document_uri), Seq::empty()),
        title,
        content,
        checksum,
        index_kind: match owner_user_id {
            Some(_) => "personal"@,
            None => "company"@,
        },
        index_uid: match owner_user_id {
            Some(owner) => resolver.context_of(tenant_id, owner),
            None => COMPANY_CONTEXT_INDEX@,
        },
    }
}

/// The state once there is a place for the document of an owner.
pub open spec fn place_made(
    before: StoreData,
    after: StoreData,
    resolver: EventIndexResolver,
    tenant_id: Seq<char>,
    owner_user_id: Option<Seq<char>>,
    now: i64,
) -> bool {
    match owner_user_id {
        Some(owner) => index_ensured(
            before,
            after,
            resolver,
            tenant_id,
            owner,
            EVENT_INDEX_SCHEMA_VERSION,
            now,
        ),
        None => after == before,
    }
}

/// The state after artifacts were kept.
pub open spec fn artifacts_kept(
    before: StoreData,
    after: StoreData,
    artifacts: Seq<ParseArtifact>,
) -> bool {
    &&& after == (StoreData { parse_artifacts: after.parse_artifacts, ..before })
    &&& after.parse_artifacts@ == inserted_all::<crate::data::ParseArtifactKey, ParseArtifact>(
        before.parse_artifacts@,
        artifacts,
    )
}

/// The state after the output of a parser was stored: the artifacts, the document and its
/// fragments.
pub open spec fn outputs_stored<C: Fn(&RetrievalText) -> Vec<FragmentChunk>>(
    before: StoreData,
    after: StoreData,
    r: DocumentIngestResult,
    resolver: EventIndexResolver,
    new: NewDocumentView,
    artifacts: Seq<ParseArtifact>,
    blocks: Seq<ParsedBlock>,
    policy: Option<Json>,
    cut: C,
    secrets: Seq<Seq<char>>,
    now: i64,
) -> bool {
    exists|
        placed: StoreData,
        mid: StoreData,
        refs: List<ParseArtifactRef>,
        fragments: Vec<FragmentChunk>,
    |
        {
            &&& place_made(before, placed, resolver, new.tenant_id, new.owner_user_id, now)
            &&& #[trigger] artifacts_kept(placed, mid, artifacts)
            &&& are_refs(refs@, artifacts)
            &&& #[trigger] cut_from(cut, fragments, new.content, blocks, policy, secrets)
            &&& texts(r.fragment_uris@) == fragment_uris(new.uri, fragments@)
            &&& #[trigger] document_written(
                mid,
                after,
                r,
                new,
                blocks,
                fragments@,
                refs,
                secrets,
                now,
            )
        }
}

/// Stores the output of a parser: the artifacts, the document and the fragments that `cut` makes of
/// it. A document of the company is refused while its source is being deleted.
pub fn store_ingest_outputs<C: Fn(&RetrievalText) -> Vec<FragmentChunk>>(
    data: &mut StoreData,
    resolver: &EventIndexResolver,
    tenant_id: &str,
    owner_user_id: Option<&str>,
    task: &IngestTask,
    title: &str,
    content: &str,
    checksum: &str,
    artifacts: &Vec<ParseArtifact>,
    blocks: &Vec<ParsedBlock>,
    policy: &Option<Json>,
    cut: C,
    secrets: &Vec<String>,
    now: i64,
) -> (r: Result<DocumentIngestResult, ApiError>)
    requires
        is_cutter(cut),
    ensures
        if owner_user_id is None && delete_unfinished(
            old(data).operations.values(),
            tenant_id@,
            task.source_id@,
        ) {
            *final(data) == *old(data) && fails_with(r, deleting_error())
        } else {
            &&& r is Ok
            &&& r->Ok_0.source_id@ == task.source_id@
            &&& r->Ok_0.source_document_uri@ == text_or(
                opt_text(task.source_document_uri),
                Seq::empty(),
            )
            &&& outputs_stored(
                *old(data),
                *final(data),
                r->Ok_0,
                *resolver,
                task_document(
                    *resolver,
                    tenant_id@,
                    opt_str(owner_user_id),
                    *task,
                    title@,
                    content@,
                    checksum@,
                ),
                artifacts@,
                blocks@,
                *policy,
                cut,
                texts(secrets@),
                now,
            )
        },
{
    let index_uid: String = match owner_user_id {
        Some(owner) => {
            let (_, routing) = ensure_user_index_entry(
                data,
                resolver,
                tenant_id,
                owner,
                EVENT_INDEX_SCHEMA_VERSION,
                now,
            );
            routing.personal_context_index_uid
        },
        None => {
            match ensure_company_source_not_deleting(data, tenant_id, task.source_id.as_str()) {
                Ok(_) => {},
                Err(error) => {
                    return Err(error);
                },
            }
            COMPANY_CONTEXT_INDEX.to_owned()
        },
    };
    let ghost placed = *data;
    insert_rows(&mut data.parse_artifacts, artifacts);
    let ghost mid = *data;
    let refs: List<ParseArtifactRef> = std::sync::Arc::new(artifact_refs(artifacts));
    let uri: String = match &task.source_document_uri {
        Some(uri) => uri.clone(),
        None => empty_text(),
    };
    let new: NewDocument<'_> = NewDocument {
        tenant_id,
        owner_user_id,
        source_kind: "parsed_doc",
        source_id: task.source_id.as_str(),
        revision_id: task.revision_id.as_str(),
        uri: uri.as_str(),
        title,
        content,
        checksum,
        index_kind: match owner_user_id {
            Some(_) => "personal",
            None => "company",
        },
        index_uid: index_uid.as_str(),
    };
    let r: DocumentIngestResult = write_source_document_fragments(
        data,
        &new,
        blocks,
        policy,
        cut,
        &refs,
        secrets,
        now,
    );
    proof {
        let view = task_document(
            *resolver,
            tenant_id@,
            opt_str(owner_user_id),
            *task,
            title@,
            content@,
            checksum@,
        );
        assert(new@ == view);
        assert(place_made(*old(data), placed, *resolver, tenant_id@, opt_str(owner_user_id), now));
        assert(artifacts_kept(placed, mid, artifacts@));
        let fragments = choose|fragments: Vec<FragmentChunk>|
            {
                &&& #[trigger] cut_from(
                    cut,
                    fragments,
                    view.content,
                    blocks@,
                    *policy,
                    texts(secrets@),
                )
                &&& texts(r.fragment_uris@) == fragment_uris(view.uri, fragments@)
                &&& document_written(
                    mid,
                    *data,
                    r,
                    view,
                    blocks@,
                    fragments@,
                    refs,
                    texts(secrets@),
                    now,
                )
            };
        assert(cut_from(cut, fragments, view.content, blocks@, *policy, texts(secrets@)));
        assert(document_written(
            mid,
            *data,
            r,
            view,
            blocks@,
            fragments@,
            refs,
            texts(secrets@),
            now,
        ));
    }
    Ok(r)
}

/// Why a task is not completed.
pub open spec fn completion_refusal(
    d: StoreData,
    tenant_id: Seq<char>,
    task_id: Seq<char>,
    source_id: Seq<char>,
) -> Option<ErrorView> {
    let task = d.ingest_tasks@[task_id];
    if !d.ingest_tasks@.dom().contains(task_id) {
        Some(ErrorView::NotFound("ingest task not found"@))
    } else if task.owner_user_id is None && delete_unfinished(
        d.operations.values(),
        tenant_id,
        source_id,
    ) {
        Some(deleting_error())
    } else if !under_way(task.state@) {
        Some(ErrorView::Conflict("ingest task was terminalized before completion"@))
    } else {
        None
    }
}

/// Whether `r` is the result of a task that is completed.
pub open spec fn is_task_result(
    r: IngestTaskResult,
    task: IngestTask,
    ingest: DocumentIngestResult,
    artifacts: Seq<ParseArtifact>,
    blocks: Seq<ParsedBlock>,
    now: i64,
) -> bool {
    &&& moved(task, r.task, "completed"@, None, now)
    &&& r.source_document_uri@ == ingest.source_document_uri@
    &&& r.source_id@ == ingest.source_id@
    &&& r.revision_id@ == task.revision_id@
    &&& r.parse_artifacts@ == artifacts
    &&& r.parsed_blocks@ == blocks
    &&& texts(r.fragment_uris@) == texts(ingest.fragment_uris@)
    &&& texts(r.context_uris@) == texts(ingest.fragment_uris@)
}

/// Completes a task that is still under way, and keeps its result.
pub fn complete_ingest_task(
    data: &mut StoreData,
    tenant_id: &str,
    task_id: &str,
    ingest: &DocumentIngestResult,
    artifacts: &Vec<ParseArtifact>,
    blocks: &Vec<ParsedBlock>,
    now: i64,
) -> (r: Result<IngestTaskResult, ApiError>)
    ensures
        match completion_refusal(*old(data), tenant_id@, task_id@, ingest.source_id@) {
            Some(e) => *final(data) == *old(data) && fails_with(r, e),
            None => {
                &&& r is Ok
                &&& is_task_result(
                    r->Ok_0,
                    old(data).ingest_tasks@[task_id@],
                    *ingest,
                    artifacts@,
                    blocks@,
                    now,
                )
                &&& *final(data) == (StoreData {
                    ingest_tasks: final(data).ingest_tasks,
                    ingest_results: final(data).ingest_results,
                    ..*old(data)
                })
                &&& final(data).ingest_tasks@ == old(data).ingest_tasks@.insert(
                    r->Ok_0.task.task_id@,
                    r->Ok_0.task,
                )
                &&& final(data).ingest_results@ == old(data).ingest_results@.insert(
                    r->Ok_0.task.task_id@,
                    r->Ok_0,
                )
            },
        },
{
    let mut task: IngestTask = match ingest_task_for_run(data, task_id) {
        Ok(task) => task,
        Err(error) => {
            return Err(error);
        },
    };
    if task.owner_user_id.is_none() {
        match ensure_company_source_not_deleting(data, tenant_id, ingest.source_id.as_str()) {
            Ok(_) => {},
            Err(error) => {
                return Err(error);
            },
        }
    }
    if !is_nonterminal_ingest_state(task.state.as_str()) {
        return Err(ApiError::conflict("ingest task was terminalized before completion"));
    }
    apply_ingest_task_transition(&mut task, "completed", None, now);
    let result: IngestTaskResult = IngestTaskResult {
        source_document_uri: ingest.source_document_uri.clone(),
        source_id: ingest.source_id.clone(),
        revision_id: task.revision_id.clone(),
        parse_artifacts: std::sync::Arc::new(copy_all(artifacts)),
        parsed_blocks: std::sync::Arc::new(copy_all(blocks)),
        fragment_uris: std::sync::Arc::new(texts_copy(&ingest.fragment_uris)),
        context_uris: std::sync::Arc::new(texts_copy(&ingest.fragment_uris)),
        task,
    };
    data.ingest_tasks.insert(result.task.task_id.clone(), result.task.clone());
    data.ingest_results.insert(result.task.task_id.clone(), result.clone());
    Ok(result)
}

/// A completed task has a result, and it is shown to whoever the task is shown to.
pub proof fn a_completed_task_has_a_result(
    before: StoreData,
    after: StoreData,
    tenant_id: Seq<char>,
    task_id: Seq<char>,
    ingest: DocumentIngestResult,
    r: IngestTaskResult,
    artifacts: Seq<ParseArtifact>,
    blocks: Seq<ParsedBlock>,
    owner_user_id: Option<Seq<char>>,
    include_all_private: bool,
    now: i64,
)
    requires
        is_task_result(r, before.ingest_tasks@[task_id], ingest, artifacts, blocks, now),
        before.ingest_tasks@[task_id].task_id@ == task_id,
        after.ingest_tasks@ == before.ingest_tasks@.insert(task_id, r.task),
        after.ingest_results@ == before.ingest_results@.insert(task_id, r),
        task_shown(before.ingest_tasks@[task_id], owner_user_id, include_all_private),
    ensures
        result_refusal(after, task_id, owner_user_id, include_all_private) is None,
{
}

} // verus!
