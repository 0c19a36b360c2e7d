//! What ingest tasks and the deletion of sources can be relied on for: how a task moves on, when it is
//! cleared away, and what a deletion takes with it.

use vstd::prelude::*;

use crate::data::{ArtifactKeyView, DocumentKeyView, StoreData};
use crate::documents::DocumentIngestResult;
use crate::ingest::{moved, shown_task, task_shown, under_way};
use crate::laws::choosing::a_filter_keeps_what_it_accepts;
use crate::laws::publishing::reads;
use crate::model::ingest::{IngestTask, IngestTaskResult, ParseArtifact, ParsedBlock};
use crate::model::knowledge::ContextNode;
use crate::model::operation::{
    OperationIndexingState, OperationRecord, OperationStatus, ResourceView,
};
use crate::resolver::EventIndexResolver;
use crate::source_delete::{
    delete_unfinished, deletes_source, is_settled, link_id_goes, predecessor_unfinished,
    related_uris, source_deleted, targets_source, task_id_goes, task_of, touches,
};
use crate::table::related;
use crate::tasks::{
    expired_tasks, interrupted, is_expired, is_new_task, is_task_result, state_after, task_document,
    tasks_pruned, text_to_store, IngestEvent, IngestTaskRequest, ParserChoice,
};
use crate::text::{blank, opt_text, texts};

verus! {

/// A task that is created waits in the queue for what was asked: it belongs to the owner and has the
/// revision and the address that were given.
pub proof fn a_new_task_waits_in_the_queue(
    t: IngestTask,
    req: IngestTaskRequest,
    tenant_id: Seq<char>,
    parser: ParserChoice,
    queued_ahead: usize,
    task_id: Seq<char>,
    new_revision_id: Seq<char>,
    now: i64,
)
    requires
        is_new_task(t, req, tenant_id, parser, queued_ahead, task_id, new_revision_id, now),
    ensures
        t.state@ == "queued"@,
        under_way(t.state@),
        t.error is None,
        t.completed_at is None,
        t.task_id@ == task_id,
        t.tenant_id@ == tenant_id,
        t.owner_user_id == req.owner_user_id,
        req.revision_id is Some ==> t.revision_id@ == req.revision_id->0@,
        req.revision_id is None ==> t.revision_id@ == new_revision_id,
        req.source_id is Some ==> t.source_id@ == req.source_id->0@,
        req.source_document_uri is Some ==> opt_text(t.source_document_uri) == Some(
            req.source_document_uri->0@,
        ),
        t.parser_provider@ == parser.provider@,
        parser.provider@ == "mineru"@ ==> t.parser_backend@ == parser.backend@,
        t.queued_ahead == Some(queued_ahead),
        t.created_at == now,
{
}

/// A task that moves on keeps everything but its state, its error and its times. It has an error
/// exactly if it failed, and an end exactly if it failed or completed.
pub proof fn a_moved_task_keeps_the_rest(
    before: IngestTask,
    after: IngestTask,
    state: Seq<char>,
    error: Option<Seq<char>>,
    now: i64,
)
    requires
        moved(before, after, state, error, now),
    ensures
        after.state@ == state,
        after.updated_at == now,
        after.error is Some <==> state == "failed"@,
        state == "completed"@ || state == "failed"@ ==> after.completed_at == Some(now),
        state != "completed"@ && state != "failed"@ ==> after.completed_at is None,
        after.task_id == before.task_id,
        after.tenant_id == before.tenant_id,
        after.owner_user_id == before.owner_user_id,
        after.source_id == before.source_id,
        after.revision_id == before.revision_id,
        after.source_document_uri == before.source_document_uri,
        after.parser_provider == before.parser_provider,
        after.parser_backend == before.parser_backend,
        after.created_at == before.created_at,
        after.queued_ahead == before.queued_ahead,
{
}

/// A task that is shown hides nothing but the cause of its failure, and that of a task which did not
/// fail is never shown.
pub proof fn a_shown_task_hides_the_cause(task: IngestTask, shown: IngestTask)
    requires
        shown_task(task, shown),
    ensures
        shown.state == task.state,
        shown.task_id == task.task_id,
        shown.owner_user_id == task.owner_user_id,
        shown.source_document_uri == task.source_document_uri,
        task.state@ != "failed"@ ==> shown.error is None,
        task.state@ == "failed"@ ==> shown.error is Some && (shown.error->0@ == "parser_failed"@
            || shown.error->0@ == "indexing_failed"@ || shown.error->0@ == "ingest_interrupted"@
            || shown.error->0@ == "ingest_failed"@),
        task.state@ == "failed"@ && opt_text(task.error) == Some("parser_failed"@) ==> opt_text(
            shown.error,
        ) == Some("parser_failed"@),
{
}

/// A task is shown to its owner, to everyone where it has none, and else only with leave to see all.
pub proof fn a_task_is_shown_to_its_owner(
    task: IngestTask,
    owner: Option<Seq<char>>,
    include_all_private: bool,
)
    ensures
        task_shown(task, owner, include_all_private) && !include_all_private
            && task.owner_user_id is Some ==> owner == Some(task.owner_user_id->0@),
        task.owner_user_id is None ==> task_shown(task, owner, include_all_private),
        owner is Some && opt_text(task.owner_user_id) == owner ==> task_shown(
            task,
            owner,
            include_all_private,
        ),
{
}

/// A task moves from the queue through parsing, cutting and indexing; only a parser that fails ends it
/// there.
pub proof fn a_task_moves_step_by_step(event: IngestEvent)
    ensures
        event is Started ==> state_after(event).0 == "parsing"@,
        event is Parsed ==> state_after(event).0 == "parsed"@,
        event is CutBegun ==> state_after(event).0 == "fragmenting"@,
        event is OutputsStored ==> state_after(event).0 == "indexing"@,
        event is ParserFailed ==> state_after(event).0 == "failed"@ && state_after(event).1 == Some(
            "parser_failed"@,
        ),
        event !is ParserFailed ==> state_after(event).1 is None && under_way(state_after(event).0),
{
}

/// What was under way when the service stopped has failed; what had ended, and what belongs to another
/// tenant, stays as it was.
pub proof fn what_was_interrupted_has_failed(
    before: StoreData,
    after: StoreData,
    tenant_id: Seq<char>,
    now: i64,
    id: Seq<char>,
)
    requires
        related(before.ingest_tasks@, after.ingest_tasks@, interrupted(tenant_id, now)),
        before.ingest_tasks@.dom().contains(id),
    ensures
        after.ingest_tasks@.dom().contains(id),
        ({
            let was = before.ingest_tasks@[id];
            let is = after.ingest_tasks@[id];
            &&& was.tenant_id@ != tenant_id ==> is == was
            &&& was.state@ == "completed"@ || was.state@ == "failed"@ ==> is == was
            &&& was.tenant_id@ == tenant_id && (was.state@ == "queued"@ || was.state@ == "parsing"@
                || was.state@ == "parsed"@ || was.state@ == "fragmenting"@ || was.state@
                == "indexing"@) ==> {
                &&& is.state@ == "failed"@
                &&& opt_text(is.error) == Some("ingest_interrupted"@)
                &&& is.completed_at == Some(now)
                &&& is.task_id == was.task_id
            }
        }),
{
    assert(after.ingest_tasks@.dom().contains(id));
    let was = before.ingest_tasks@[id];
    if under_way(was.state@) {
        crate::ingest::a_task_under_way_has_not_ended(was.state@);
    }
    assert(interrupted(tenant_id, now)(was, after.ingest_tasks@[id]));
}

/// What is cleared away is exactly the tenant's tasks that ended longer ago than they are kept.
pub proof fn only_old_ended_tasks_are_cleared_away(
    d: StoreData,
    tenant_id: Seq<char>,
    retention_seconds: u64,
    now: i64,
    id: Seq<char>,
)
    ensures
        expired_tasks(d, tenant_id, retention_seconds, now).contains(id) <==> exists|i: int|
            {
                let t = #[trigger] d.ingest_tasks.values()[i];
                &&& 0 <= i < d.ingest_tasks.values().len()
                &&& t.task_id@ == id
                &&& t.tenant_id@ == tenant_id
                &&& t.state@ == "completed"@ || t.state@ == "failed"@
                &&& t.completed_at is Some ==> t.completed_at->0 < now - retention_seconds
                    * 1_000_000_000
                &&& t.completed_at is None ==> t.updated_at < now - retention_seconds
                    * 1_000_000_000
            },
{
    let values = d.ingest_tasks.values();
    let cutoff = now - retention_seconds * 1_000_000_000;
    let p = is_expired(tenant_id, cutoff);
    let old = values.filter(p);
    let ids = expired_tasks(d, tenant_id, retention_seconds, now);
    if ids.contains(id) {
        let k = choose|k: int| 0 <= k < ids.len() && ids[k] == id;
        assert(old.contains(old[k]));
        a_filter_keeps_what_it_accepts(values, p, old[k]);
        let i = choose|i: int| 0 <= i < values.len() && values[i] == old[k];
        assert(values[i].task_id@ == id);
    }
    if exists|i: int| 0 <= i < values.len() && (#[trigger] values[i]).task_id@ == id && p(values[i]) {
        let i = choose|i: int|
            0 <= i < values.len() && (#[trigger] values[i]).task_id@ == id && p(values[i]);
        assert(values.contains(values[i]));
        a_filter_keeps_what_it_accepts(values, p, values[i]);
        let k = choose|k: int| 0 <= k < old.len() && old[k] == values[i];
        assert(ids[k] == id);
    }
}

/// Clearing tasks away takes them and their results, and leaves every other task and result alone.
pub proof fn clearing_away_takes_the_tasks_named(
    before: StoreData,
    after: StoreData,
    ids: Seq<Seq<char>>,
    id: Seq<char>,
)
    requires
        tasks_pruned(before, after, ids),
    ensures
        after.ingest_tasks@.dom().contains(id) <==> before.ingest_tasks@.dom().contains(id)
            && !ids.contains(id),
        after.ingest_tasks@.dom().contains(id) ==> after.ingest_tasks@[id]
            == before.ingest_tasks@[id],
        after.ingest_results@.dom().contains(id) <==> before.ingest_results@.dom().contains(id)
            && !ids.contains(id),
        after.ingest_results@.dom().contains(id) ==> after.ingest_results@[id]
            == before.ingest_results@[id],
        after.source_documents == before.source_documents,
        after.company_context == before.company_context,
{
}

/// The text that is stored is what the parser made of the document, else what was brought, else what
/// was staged.
pub proof fn the_parsed_text_is_stored_first(
    parsed: crate::artifacts::ParserOutput,
    original: Seq<char>,
    staged: Option<Seq<char>>,
)
    ensures
        ({
            let r = text_to_store(parsed, original, staged);
            let parsed_well = parsed.markdown is Some && !blank(parsed.markdown->0@);
            &&& parsed_well ==> r == parsed.markdown->0@
            &&& !parsed_well && !blank(original) ==> r == original
            &&& !parsed_well && blank(original) && staged is Some ==> r == staged->0
        }),
{
}

/// The result of a task tells of the document that was written for it; the task is completed.
pub proof fn a_result_tells_of_its_document(
    r: IngestTaskResult,
    task: IngestTask,
    ingest: DocumentIngestResult,
    artifacts: Seq<ParseArtifact>,
    blocks: Seq<ParsedBlock>,
    now: i64,
)
    requires
        is_task_result(r, task, ingest, artifacts, blocks, now),
    ensures
        r.task.state@ == "completed"@,
        r.task.completed_at == Some(now),
        r.task.error is None,
        r.task.task_id == task.task_id,
        r.task.owner_user_id == task.owner_user_id,
        r.source_document_uri@ == ingest.source_document_uri@,
        r.source_id@ == ingest.source_id@,
        r.revision_id@ == task.revision_id@,
        texts(r.fragment_uris@) == texts(ingest.fragment_uris@),
        r.parse_artifacts@ == artifacts,
        r.parsed_blocks@ == blocks,
{
    reveal_strlit("completed");
    reveal_strlit("failed");
    assert("completed"@[0] != "failed"@[0]);
}

/// Where a document that a task brought is kept: with its owner, else with the company.
pub proof fn a_task_document_is_kept_with_its_owner(
    resolver: EventIndexResolver,
    tenant_id: Seq<char>,
    owner: Option<Seq<char>>,
    task: IngestTask,
    title: Seq<char>,
    content: Seq<char>,
    checksum: Seq<char>,
)
    ensures
        ({
            let new = task_document(resolver, tenant_id, owner, task, title, content, checksum);
            &&& new.owner_user_id == owner
            &&& new.tenant_id == tenant_id
            &&& new.content == content
            &&& new.title == title
            &&& new.checksum == checksum
            &&& new.source_id == task.source_id@
            &&& new.revision_id == task.revision_id@
            &&& task.source_document_uri is Some ==> new.uri == task.source_document_uri->0@
            &&& owner is Some ==> new.index_kind == "personal"@ && new.index_uid
                == resolver.context_of(tenant_id, owner->0)
            &&& owner is None ==> new.index_kind == "company"@ && new.index_uid
                == "rag_company_context"@
        }),
{
    assert(crate::publish::COMPANY_CONTEXT_INDEX@ == "rag_company_context"@);
}

/// Whether a document, an artifact or a task of the company comes from a source.
pub open spec fn comes_from(
    tenant: Seq<char>,
    owner: Option<String>,
    source: Seq<char>,
    tenant_id: Seq<char>,
    source_id: Seq<char>,
) -> bool {
    tenant == tenant_id && owner is None && source == source_id
}

/// A deletion takes the documents and artifacts of the source and no others.
pub proof fn a_deletion_takes_the_documents_of_the_source(
    before: StoreData,
    after: StoreData,
    tenant_id: Seq<char>,
    source_id: Seq<char>,
    k: DocumentKeyView,
    a: ArtifactKeyView,
)
    requires
        source_deleted(before, after, tenant_id, source_id),
    ensures
        after.source_documents@.dom().contains(k) <==> before.source_documents@.dom().contains(k)
            && !comes_from(
            before.source_documents@[k].tenant_id@,
            before.source_documents@[k].owner_user_id,
            before.source_documents@[k].source_id@,
            tenant_id,
            source_id,
        ),
        after.source_documents@.dom().contains(k) ==> after.source_documents@[k]
            == before.source_documents@[k],
        after.parse_artifacts@.dom().contains(a) <==> before.parse_artifacts@.dom().contains(a)
            && !comes_from(
            before.parse_artifacts@[a].tenant_id@,
            before.parse_artifacts@[a].owner_user_id,
            before.parse_artifacts@[a].source_id@,
            tenant_id,
            source_id,
        ),
        after.parse_artifacts@.dom().contains(a) ==> after.parse_artifacts@[a]
            == before.parse_artifacts@[a],
        !after.sources@.dom().contains(source_id),
        after.insights == before.insights,
        after.state_items == before.state_items,
        after.events_by_index == before.events_by_index,
        after.personal_context == before.personal_context,
{
}

/// A deletion takes the company's nodes of the source and no others.
pub proof fn a_deletion_takes_the_nodes_of_the_source(
    before: StoreData,
    after: StoreData,
    tenant_id: Seq<char>,
    source_id: Seq<char>,
    node: ContextNode,
)
    requires
        source_deleted(before, after, tenant_id, source_id),
    ensures
        after.company_context@.contains(node) <==> before.company_context@.contains(node) && !(
        node.tenant_id@ == tenant_id && opt_text(node.source_id) == Some(source_id)),
{
    a_filter_keeps_what_it_accepts(
        before.company_context@,
        crate::publish::not_from_source(tenant_id, source_id),
        node,
    );
}

/// A deletion takes the tasks of the source, and their results with them.
pub proof fn a_deletion_takes_the_tasks_of_the_source(
    before: StoreData,
    after: StoreData,
    tenant_id: Seq<char>,
    source_id: Seq<char>,
    id: Seq<char>,
)
    requires
        source_deleted(before, after, tenant_id, source_id),
    ensures
        ({
            let goes = exists|i: int|
                0 <= i < before.ingest_tasks.values().len() && (
                #[trigger] before.ingest_tasks.values()[i]).task_id@ == id && comes_from(
                    before.ingest_tasks.values()[i].tenant_id@,
                    before.ingest_tasks.values()[i].owner_user_id,
                    before.ingest_tasks.values()[i].source_id@,
                    tenant_id,
                    source_id,
                );
            &&& after.ingest_tasks@.dom().contains(id) <==> before.ingest_tasks@.dom().contains(id)
                && !goes
            &&& after.ingest_tasks@.dom().contains(id) ==> after.ingest_tasks@[id]
                == before.ingest_tasks@[id]
            &&& goes ==> !after.ingest_results@.dom().contains(id)
            &&& after.ingest_results@.dom().contains(id) ==> reads(
                before.ingest_results@,
                id,
                after.ingest_results@[id],
            )
        }),
{
    let values = before.ingest_tasks.values();
    let p = |task: IngestTask| task_of(task, tenant_id, source_id) && task.task_id@ == id;
    if task_id_goes(before, id, tenant_id, source_id) {
        let i = choose|i: int|
            0 <= i < values.len() && task_of(#[trigger] values[i], tenant_id, source_id)
                && values[i].task_id@ == id;
        assert(values[i].task_id@ == id);
    }
    if exists|i: int|
        0 <= i < values.len() && (#[trigger] values[i]).task_id@ == id && comes_from(
            values[i].tenant_id@,
            values[i].owner_user_id,
            values[i].source_id@,
            tenant_id,
            source_id,
        ) {
        let i = choose|i: int|
            0 <= i < values.len() && (#[trigger] values[i]).task_id@ == id && comes_from(
                values[i].tenant_id@,
                values[i].owner_user_id,
                values[i].source_id@,
                tenant_id,
                source_id,
            );
        assert(p(values[i]));
    }
}

/// A deletion takes the tenant's links that begin or end at what the source had, and no others.
pub proof fn a_deletion_takes_the_links_of_the_source(
    before: StoreData,
    after: StoreData,
    tenant_id: Seq<char>,
    source_id: Seq<char>,
    id: Seq<char>,
)
    requires
        source_deleted(before, after, tenant_id, source_id),
    ensures
        ({
            let uris = related_uris(before, tenant_id, source_id);
            let goes = exists|i: int|
                0 <= i < before.links.values().len() && (
                #[trigger] before.links.values()[i]).id@ == id
                    && before.links.values()[i].tenant_id@ == tenant_id && (uris.contains(
                    before.links.values()[i].source_uri@,
                ) || uris.contains(before.links.values()[i].target_uri@));
            &&& after.links@.dom().contains(id) <==> before.links@.dom().contains(id) && !goes
            &&& after.links@.dom().contains(id) ==> after.links@[id] == before.links@[id]
        }),
{
    let uris = related_uris(before, tenant_id, source_id);
    let values = before.links.values();
    if link_id_goes(before, id, tenant_id, source_id) {
        let i = choose|i: int|
            0 <= i < values.len() && touches(#[trigger] values[i], tenant_id, uris) && values[i].id@
                == id;
        assert(values[i].id@ == id);
    }
    if exists|i: int|
        0 <= i < values.len() && (#[trigger] values[i]).id@ == id && touches(
            values[i],
            tenant_id,
            uris,
        ) {
        let i = choose|i: int|
            0 <= i < values.len() && (#[trigger] values[i]).id@ == id && touches(
                values[i],
                tenant_id,
                uris,
            );
        assert(crate::source_delete::link_goes(before, values[i], tenant_id, source_id)
            && values[i].id@ == id);
    }
}

proof fn lemma_document_uris(
    documents: Seq<crate::model::ingest::SourceDocument>,
    tenant_id: Seq<char>,
    source_id: Seq<char>,
    i: int,
)
    requires
        0 <= i < documents.len(),
        comes_from(
            documents[i].tenant_id@,
            documents[i].owner_user_id,
            documents[i].source_id@,
            tenant_id,
            source_id,
        ),
    ensures
        crate::source_delete::document_uris(documents, tenant_id, source_id).contains(
            documents[i].uri@,
        ),
    decreases documents.len(),
{
    let front = documents.drop_last();
    let a = crate::source_delete::document_uris(front, tenant_id, source_id);
    let b = crate::source_delete::document_uris(documents, tenant_id, source_id);
    if i < front.len() {
        lemma_document_uris(front, tenant_id, source_id, i);
        let n = choose|n: int| 0 <= n < a.len() && a[n] == documents[i].uri@;
        assert(b[n] == documents[i].uri@);
    } else {
        assert(b[b.len() - 1] == documents[i].uri@);
    }
}

/// What a source had includes the address of each of its documents.
pub proof fn a_document_belongs_to_its_source(
    d: StoreData,
    tenant_id: Seq<char>,
    source_id: Seq<char>,
    i: int,
)
    requires
        0 <= i < d.source_documents.values().len(),
        comes_from(
            d.source_documents.values()[i].tenant_id@,
            d.source_documents.values()[i].owner_user_id,
            d.source_documents.values()[i].source_id@,
            tenant_id,
            source_id,
        ),
    ensures
        related_uris(d, tenant_id, source_id).contains(d.source_documents.values()[i].uri@),
{
    let values = d.source_documents.values();
    lemma_document_uris(values, tenant_id, source_id, i);
    let front = crate::source_delete::document_uris(values, tenant_id, source_id);
    let n = choose|n: int| 0 <= n < front.len() && front[n] == values[i].uri@;
    assert(related_uris(d, tenant_id, source_id)[n] == values[i].uri@);
}

/// A deletion of a source is unfinished exactly if the tenant has an operation of that kind that is
/// not settled and whose plan deletes from that source.
pub proof fn a_deletion_is_unfinished_until_it_is_settled(
    operations: Seq<OperationRecord>,
    tenant_id: Seq<char>,
    source_id: Seq<char>,
)
    ensures
        delete_unfinished(operations, tenant_id, source_id) ==> exists|i: int|
            {
                let o = #[trigger] operations[i];
                &&& 0 <= i < operations.len()
                &&& o.tenant_id@ == tenant_id
                &&& o.operation_kind@ == "company_doc.delete"@
                &&& o.status != OperationStatus::Completed || o.indexing_state
                    != OperationIndexingState::Completed
                &&& deletes_from(o.plan.primary.resource@, source_id) || exists|k: int|
                    0 <= k < o.plan.side_effects@.len() && deletes_from(
                        (#[trigger] o.plan.side_effects@[k]).resource@,
                        source_id,
                    )
            },
        forall|i: int|
            {
                let o = #[trigger] operations[i];
                &&& 0 <= i < operations.len()
                &&& o.tenant_id@ == tenant_id
                &&& o.operation_kind@ == "company_doc.delete"@
                &&& o.status != OperationStatus::Completed || o.indexing_state
                    != OperationIndexingState::Completed
                &&& deletes_from(o.plan.primary.resource@, source_id)
            } ==> delete_unfinished(operations, tenant_id, source_id),
{
    assert(crate::source_delete::DELETE_KIND@ == "company_doc.delete"@);
    if delete_unfinished(operations, tenant_id, source_id) {
        let i = choose|i: int|
            {
                &&& 0 <= i < operations.len()
                &&& (#[trigger] operations[i]).tenant_id@ == tenant_id
                &&& operations[i].operation_kind@ == "company_doc.delete"@
                &&& !is_settled(operations[i])
                &&& crate::source_delete::some_step(
                    operations[i],
                    |resource: ResourceView| deletes_source(resource, source_id),
                )
            };
        let o = operations[i];
        if !deletes_from(o.plan.primary.resource@, source_id) {
            let k = choose|k: int|
                0 <= k < o.plan.side_effects@.len() && deletes_source(
                    (#[trigger] o.plan.side_effects@[k]).resource@,
                    source_id,
                );
            assert(deletes_from(o.plan.side_effects@[k].resource@, source_id));
        }
    }
    assert forall|i: int|
        {
            let o = #[trigger] operations[i];
            &&& 0 <= i < operations.len()
            &&& o.tenant_id@ == tenant_id
            &&& o.operation_kind@ == "company_doc.delete"@
            &&& o.status != OperationStatus::Completed || o.indexing_state
                != OperationIndexingState::Completed
            &&& deletes_from(o.plan.primary.resource@, source_id)
        } implies delete_unfinished(operations, tenant_id, source_id) by {
        assert(!is_settled(operations[i]));
        assert(deletes_source(operations[i].plan.primary.resource@, source_id));
    }
}

/// Whether a step deletes what a source has.
pub open spec fn deletes_from(resource: ResourceView, source: Seq<char>) -> bool {
    match resource {
        ResourceView::DeleteCompanySourceIndex { source_id, target } => source_id == source,
        _ => false,
    }
}

/// What writes to a source of the tenant: the source itself, a revision of it, a document, an
/// artifact or a task of it that has no owner, or a link that touches what it brought in. What is
/// of another source is no matter.
pub proof fn what_writes_to_a_source(
    resource: ResourceView,
    tenant_id: Seq<char>,
    source_id: Seq<char>,
    related_to: Seq<Seq<char>>,
)
    ensures
        match resource {
            ResourceView::CompanySource { source } => targets_source(
                resource,
                tenant_id,
                source_id,
                related_to,
            ) <==> source.tenant_id@ == tenant_id && source.id@ == source_id,
            ResourceView::SourceRevision { revision } => targets_source(
                resource,
                tenant_id,
                source_id,
                related_to,
            ) <==> revision.tenant_id@ == tenant_id && revision.source_id@ == source_id,
            ResourceView::IngestTask { task } => targets_source(
                resource,
                tenant_id,
                source_id,
                related_to,
            ) <==> task.tenant_id@ == tenant_id && task.owner_user_id is None && task.source_id@
                == source_id,
            ResourceView::SourceDocuments { documents } => targets_source(
                resource,
                tenant_id,
                source_id,
                related_to,
            ) <==> exists|i: int|
                0 <= i < documents.len() && (#[trigger] documents[i]).tenant_id@ == tenant_id
                    && documents[i].owner_user_id is None && documents[i].source_id@ == source_id,
            ResourceView::Links { links } => targets_source(
                resource,
                tenant_id,
                source_id,
                related_to,
            ) <==> exists|i: int|
                0 <= i < links.len() && (#[trigger] links[i]).tenant_id@ == tenant_id && (
                related_to.contains(links[i].source_uri@) || related_to.contains(
                    links[i].target_uri@,
                )),
            ResourceView::Session { session } => !targets_source(
                resource,
                tenant_id,
                source_id,
                related_to,
            ),
            _ => true,
        },
{
}

/// A source may not be deleted while an operation of the tenant that is no deletion, and that
/// writes to it first, is not wholly done.
pub proof fn a_deletion_waits_for_what_writes_to_the_source(
    operations: Seq<OperationRecord>,
    tenant_id: Seq<char>,
    source_id: Seq<char>,
    related_to: Seq<Seq<char>>,
    i: int,
)
    requires
        0 <= i < operations.len(),
        operations[i].tenant_id@ == tenant_id,
        operations[i].operation_kind@ != "company_doc.delete"@,
        operations[i].status != OperationStatus::Completed || operations[i].indexing_state
            != OperationIndexingState::Completed,
        targets_source(
            operations[i].plan.primary.resource@,
            tenant_id,
            source_id,
            related_to,
        ),
    ensures
        predecessor_unfinished(operations, tenant_id, source_id, related_to),
{
    assert(!is_settled(operations[i]));
}

} // verus!
