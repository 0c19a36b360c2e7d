//! Deleting a company source: what belongs to it, and what must be settled first.

use vstd::prelude::*;

use crate::data::{DocumentKeyView, SourceDocumentKey, StoreData};
use crate::error::{fails_with, ApiError, ErrorView};
use crate::model::ingest::{
    IngestTask, IngestTaskResult, ParseArtifact, ParsedBlock, SourceDocument, SourceRevision,
};
use crate::model::knowledge::{ContextNode, KnowledgeLink};
use crate::model::operation::{
    CompanySourceDeleteTarget, DeleteTargetView, OperationIndexingState, OperationRecord,
    OperationResource, OperationStatus, OperationStep, ResourceView,
};
use crate::naming::{company_revision_source_document_uri, revision_document_uri};
use crate::order::{any_where, find_where};
use crate::publish::{
    of_company_source, remove_revisions, remove_source_artifacts, remove_source_nodes,
    without_revisions, without_source_nodes,
};
use crate::record::any_value;
use crate::table::{kept, list_at, lists, Table};
use crate::text::{opt_is, opt_str, opt_text, text_eq, texts, texts_contain, texts_push};

verus! {

/// The kind of the operation that deletes a company source.
pub const DELETE_KIND: &'static str = "company_doc.delete";

/// Whether a source document belongs to a company source.
pub open spec fn document_of(d: SourceDocument, tenant_id: Seq<char>, source_id: Seq<char>) -> bool {
    of_company_source(d.tenant_id@, opt_text(d.owner_user_id), d.source_id@, tenant_id, source_id)
}

/// Whether a parse artifact belongs to a company source.
pub open spec fn artifact_of(a: ParseArtifact, tenant_id: Seq<char>, source_id: Seq<char>) -> bool {
    of_company_source(a.tenant_id@, opt_text(a.owner_user_id), a.source_id@, tenant_id, source_id)
}

/// Whether an ingest task belongs to a company source.
pub open spec fn task_of(t: IngestTask, tenant_id: Seq<char>, source_id: Seq<char>) -> bool {
    of_company_source(t.tenant_id@, opt_text(t.owner_user_id), t.source_id@, tenant_id, source_id)
}

/// Whether an ingest result belongs to a company source.
pub open spec fn result_of(r: IngestTaskResult, tenant_id: Seq<char>, source_id: Seq<char>) -> bool {
    of_company_source(
        r.task.tenant_id@,
        opt_text(r.task.owner_user_id),
        r.source_id@,
        tenant_id,
        source_id,
    )
}

fn is_document_of(d: &SourceDocument, tenant_id: &str, source_id: &str) -> (r: bool)
    ensures
        r == document_of(*d, tenant_id@, source_id@),
{
    text_eq(d.tenant_id.as_str(), tenant_id) && d.owner_user_id.is_none() && text_eq(
        d.source_id.as_str(),
        source_id,
    )
}

fn is_artifact_of(a: &ParseArtifact, tenant_id: &str, source_id: &str) -> (r: bool)
    ensures
        r == artifact_of(*a, tenant_id@, source_id@),
{
    text_eq(a.tenant_id.as_str(), tenant_id) && a.owner_user_id.is_none() && text_eq(
        a.source_id.as_str(),
        source_id,
    )
}

fn is_task_of(t: &IngestTask, tenant_id: &str, source_id: &str) -> (r: bool)
    ensures
        r == task_of(*t, tenant_id@, source_id@),
{
    text_eq(t.tenant_id.as_str(), tenant_id) && t.owner_user_id.is_none() && text_eq(
        t.source_id.as_str(),
        source_id,
    )
}

fn is_result_of(r: &IngestTaskResult, tenant_id: &str, source_id: &str) -> (b: bool)
    ensures
        b == result_of(*r, tenant_id@, source_id@),
{
    text_eq(r.task.tenant_id.as_str(), tenant_id) && r.task.owner_user_id.is_none() && text_eq(
        r.source_id.as_str(),
        source_id,
    )
}

/// The URIs of the documents of a company source.
pub open spec fn document_uris(
    documents: Seq<SourceDocument>,
    tenant_id: Seq<char>,
    source_id: Seq<char>,
) -> Seq<Seq<char>>
    decreases documents.len(),
{
    if documents.len() == 0 {
        Seq::empty()
    } else {
        let rest = document_uris(documents.drop_last(), tenant_id, source_id);
        if document_of(documents.last(), tenant_id, source_id) {
            rest.push(documents.last().uri@)
        } else {
            rest
        }
    }
}

/// The URIs of the documents of the revisions of a company source.
pub open spec fn revision_uris(
    revisions: Seq<SourceRevision>,
    tenant_id: Seq<char>,
    source_id: Seq<char>,
) -> Seq<Seq<char>>
    decreases revisions.len(),
{
    if revisions.len() == 0 {
        Seq::empty()
    } else {
        let rest = revision_uris(revisions.drop_last(), tenant_id, source_id);
        if revisions.last().tenant_id@ == tenant_id {
            rest.push(revision_document_uri(source_id, revisions.last().id@))
        } else {
            rest
        }
    }
}

/// The URIs of the nodes of a company source and of the documents that they come from.
pub open spec fn node_uris(
    nodes: Seq<ContextNode>,
    tenant_id: Seq<char>,
    source_id: Seq<char>,
) -> Seq<Seq<char>>
    decreases nodes.len(),
{
    if nodes.len() == 0 {
        Seq::empty()
    } else {
        let rest = node_uris(nodes.drop_last(), tenant_id, source_id);
        let node = nodes.last();
        if node.tenant_id@ == tenant_id && opt_text(node.source_id) == Some(source_id) {
            match node.source_document_uri {
                Some(uri) => rest.push(node.uri@).push(uri@),
                None => rest.push(node.uri@),
            }
        } else {
            rest
        }
    }
}

/// The URIs of the artifacts of a company source and of the documents that they come from.
pub open spec fn artifact_uris(
    artifacts: Seq<ParseArtifact>,
    tenant_id: Seq<char>,
    source_id: Seq<char>,
) -> Seq<Seq<char>>
    decreases artifacts.len(),
{
    if artifacts.len() == 0 {
        Seq::empty()
    } else {
        let rest = artifact_uris(artifacts.drop_last(), tenant_id, source_id);
        let artifact = artifacts.last();
        if artifact_of(artifact, tenant_id, source_id) {
            rest.push(artifact.source_document_uri@).push(artifact.uri@)
        } else {
            rest
        }
    }
}

/// The URIs of the documents of the ingest tasks of a company source.
pub open spec fn task_uris(
    tasks: Seq<IngestTask>,
    tenant_id: Seq<char>,
    source_id: Seq<char>,
) -> Seq<Seq<char>>
    decreases tasks.len(),
{
    if tasks.len() == 0 {
        Seq::empty()
    } else {
        let rest = task_uris(tasks.drop_last(), tenant_id, source_id);
        match tasks.last().source_document_uri {
            Some(uri) => if task_of(tasks.last(), tenant_id, source_id) {
                rest.push(uri@)
            } else {
                rest
            },
            None => rest,
        }
    }
}

/// The URIs of the documents of the ingest results of a company source.
pub open spec fn result_uris(
    results: Seq<IngestTaskResult>,
    tenant_id: Seq<char>,
    source_id: Seq<char>,
) -> Seq<Seq<char>>
    decreases results.len(),
{
    if results.len() == 0 {
        Seq::empty()
    } else {
        let rest = result_uris(results.drop_last(), tenant_id, source_id);
        if result_of(results.last(), tenant_id, source_id) {
            rest.push(results.last().source_document_uri@)
        } else {
            rest
        }
    }
}

/// Every URI that belongs to a company source; one may stand there more than once.
pub open spec fn related_uris(data: StoreData, tenant_id: Seq<char>, source_id: Seq<char>) -> Seq<
    Seq<char>,
> {
    document_uris(data.source_documents.values(), tenant_id, source_id) + revision_uris(
        list_at(lists(data.source_revisions@), source_id),
        tenant_id,
        source_id,
    ) + node_uris(data.company_context@, tenant_id, source_id) + artifact_uris(
        data.parse_artifacts.values(),
        tenant_id,
        source_id,
    ) + task_uris(data.ingest_tasks.values(), tenant_id, source_id) + result_uris(
        data.ingest_results.values(),
        tenant_id,
        source_id,
    )
}

fn add_uri(out: &mut Vec<String>, uri: String)
    ensures
        texts(final(out)@) == texts(old(out)@).push(uri@),
{
    proof {
        texts_push(out@, uri);
    }
    out.push(uri);
}

fn add_document_uris(out: &mut Vec<String>, data: &StoreData, tenant_id: &str, source_id: &str)
    ensures
        texts(final(out)@) == texts(old(out)@) + document_uris(
            data.source_documents.values(),
            tenant_id@,
            source_id@,
        ),
{
    let ghost all = data.source_documents.values();
    let n: usize = data.source_documents.len();
    let mut i: usize = 0;
    assert(texts(out@) =~= texts(old(out)@) + Seq::empty());
    while i < n
        invariant
            i <= n == all.len(),
            all == data.source_documents.values(),
            all.len() == data.source_documents.rows().len(),
            texts(out@) == texts(old(out)@) + document_uris(
                all.take(i as int),
                tenant_id@,
                source_id@,
            ),
        decreases n - i,
    {
        let document: &SourceDocument = data.source_documents.value_at(i);
        assert(all.take(i + 1).drop_last() =~= all.take(i as int));
        if is_document_of(document, tenant_id, source_id) {
            add_uri(out, document.uri.clone());
        }
        i += 1;
        assert(texts(out@) =~= texts(old(out)@) + document_uris(
            all.take(i as int),
            tenant_id@,
            source_id@,
        ));
    }
    assert(all.take(i as int) =~= all);
}

fn add_revision_uris(out: &mut Vec<String>, data: &StoreData, tenant_id: &str, source_id: &str)
    ensures
        texts(final(out)@) == texts(old(out)@) + revision_uris(
            list_at(lists(data.source_revisions@), source_id@),
            tenant_id@,
            source_id@,
        ),
{
    assert(texts(out@) =~= texts(old(out)@) + Seq::empty());
    if let Some(revisions) = data.source_revisions.get(&source_id.to_owned()) {
        let mut i: usize = 0;
        while i < revisions.len()
            invariant
                i <= revisions.len(),
                texts(out@) == texts(old(out)@) + revision_uris(
                    revisions@.take(i as int),
                    tenant_id@,
                    source_id@,
                ),
            decreases revisions.len() - i,
        {
            assert(revisions@.take(i + 1).drop_last() =~= revisions@.take(i as int));
            if text_eq(revisions[i].tenant_id.as_str(), tenant_id) {
                add_uri(
                    out,
                    company_revision_source_document_uri(source_id, revisions[i].id.as_str()),
                );
            }
            i += 1;
            assert(texts(out@) =~= texts(old(out)@) + revision_uris(
                revisions@.take(i as int),
                tenant_id@,
                source_id@,
            ));
        }
        assert(revisions@.take(i as int) =~= revisions@);
    }
}

fn add_node_uris(out: &mut Vec<String>, data: &StoreData, tenant_id: &str, source_id: &str)
    ensures
        texts(final(out)@) == texts(old(out)@) + node_uris(
            data.company_context@,
            tenant_id@,
            source_id@,
        ),
{
    let nodes: &Vec<ContextNode> = &data.company_context;
    let mut i: usize = 0;
    assert(texts(out@) =~= texts(old(out)@) + Seq::empty());
    while i < nodes.len()
        invariant
            i <= nodes.len(),
            texts(out@) == texts(old(out)@) + node_uris(
                nodes@.take(i as int),
                tenant_id@,
                source_id@,
            ),
        decreases nodes.len() - i,
    {
        assert(nodes@.take(i + 1).drop_last() =~= nodes@.take(i as int));
        let node: &ContextNode = &nodes[i];
        if text_eq(node.tenant_id.as_str(), tenant_id) && opt_is(&node.source_id, source_id) {
            add_uri(out, node.uri.clone());
            if let Some(uri) = &node.source_document_uri {
                add_uri(out, uri.clone());
            }
        }
        i += 1;
        assert(texts(out@) =~= texts(old(out)@) + node_uris(
            nodes@.take(i as int),
            tenant_id@,
            source_id@,
        ));
    }
    assert(nodes@.take(i as int) =~= nodes@);
}

fn add_artifact_uris(out: &mut Vec<String>, data: &StoreData, tenant_id: &str, source_id: &str)
    ensures
        texts(final(out)@) == texts(old(out)@) + artifact_uris(
            data.parse_artifacts.values(),
            tenant_id@,
            source_id@,
        ),
{
    let ghost all = data.parse_artifacts.values();
    let n: usize = data.parse_artifacts.len();
    let mut i: usize = 0;
    assert(texts(out@) =~= texts(old(out)@) + Seq::empty());
    while i < n
        invariant
            i <= n == all.len(),
            all == data.parse_artifacts.values(),
            all.len() == data.parse_artifacts.rows().len(),
            texts(out@) == texts(old(out)@) + artifact_uris(
                all.take(i as int),
                tenant_id@,
                source_id@,
            ),
        decreases n - i,
    {
        let artifact: &ParseArtifact = data.parse_artifacts.value_at(i);
        assert(all.take(i + 1).drop_last() =~= all.take(i as int));
        if is_artifact_of(artifact, tenant_id, source_id) {
            add_uri(out, artifact.source_document_uri.clone());
            add_uri(out, artifact.uri.clone());
        }
        i += 1;
        assert(texts(out@) =~= texts(old(out)@) + artifact_uris(
            all.take(i as int),
            tenant_id@,
            source_id@,
        ));
    }
    assert(all.take(i as int) =~= all);
}

fn add_task_uris(out: &mut Vec<String>, data: &StoreData, tenant_id: &str, source_id: &str)
    ensures
        texts(final(out)@) == texts(old(out)@) + task_uris(
            data.ingest_tasks.values(),
            tenant_id@,
            source_id@,
        ),
{
    let ghost all = data.ingest_tasks.values();
    let n: usize = data.ingest_tasks.len();
    let mut i: usize = 0;
    assert(texts(out@) =~= texts(old(out)@) + Seq::empty());
    while i < n
        invariant
            i <= n == all.len(),
            all == data.ingest_tasks.values(),
            all.len() == data.ingest_tasks.rows().len(),
            texts(out@) == texts(old(out)@) + task_uris(all.take(i as int), tenant_id@, source_id@),
        decreases n - i,
    {
        let task: &IngestTask = data.ingest_tasks.value_at(i);
        assert(all.take(i + 1).drop_last() =~= all.take(i as int));
        if let Some(uri) = &task.source_document_uri {
            if is_task_of(task, tenant_id, source_id) {
                add_uri(out, uri.clone());
            }
        }
        i += 1;
        assert(texts(out@) =~= texts(old(out)@) + task_uris(
            all.take(i as int),
            tenant_id@,
            source_id@,
        ));
    }
    assert(all.take(i as int) =~= all);
}

fn add_result_uris(out: &mut Vec<String>, data: &StoreData, tenant_id: &str, source_id: &str)
    ensures
        texts(final(out)@) == texts(old(out)@) + result_uris(
            data.ingest_results.values(),
            tenant_id@,
            source_id@,
        ),
{
    let ghost all = data.ingest_results.values();
    let n: usize = data.ingest_results.len();
    let mut i: usize = 0;
    assert(texts(out@) =~= texts(old(out)@) + Seq::empty());
    while i < n
        invariant
            i <= n == all.len(),
            all == data.ingest_results.values(),
            all.len() == data.ingest_results.rows().len(),
            texts(out@) == texts(old(out)@) + result_uris(
                all.take(i as int),
                tenant_id@,
                source_id@,
            ),
        decreases n - i,
    {
        let result: &IngestTaskResult = data.ingest_results.value_at(i);
        assert(all.take(i + 1).drop_last() =~= all.take(i as int));
        if is_result_of(result, tenant_id, source_id) {
            add_uri(out, result.source_document_uri.clone());
        }
        i += 1;
        assert(texts(out@) =~= texts(old(out)@) + result_uris(
            all.take(i as int),
            tenant_id@,
            source_id@,
        ));
    }
    assert(all.take(i as int) =~= all);
}

/// Every URI that belongs to a company source; one may stand there more than once.
pub fn company_source_related_uris(data: &StoreData, tenant_id: &str, source_id: &str) -> (r: Vec<
    String,
>)
    ensures
        texts(r@) == related_uris(*data, tenant_id@, source_id@),
{
    let mut out: Vec<String> = Vec::new();
    add_document_uris(&mut out, data, tenant_id, source_id);
    add_revision_uris(&mut out, data, tenant_id, source_id);
    add_node_uris(&mut out, data, tenant_id, source_id);
    add_artifact_uris(&mut out, data, tenant_id, source_id);
    add_task_uris(&mut out, data, tenant_id, source_id);
    add_result_uris(&mut out, data, tenant_id, source_id);
    assert(texts(out@) =~= related_uris(*data, tenant_id@, source_id@));
    out
}

/// Whether an operation is done, its indexing included.
pub open spec fn is_settled(operation: OperationRecord) -> bool {
    operation.status == OperationStatus::Completed && operation.indexing_state
        == OperationIndexingState::Completed
}

/// Whether an operation is done, its indexing included.
pub fn settled(operation: &OperationRecord) -> (r: bool)
    ensures
        r == is_settled(*operation),
{
    operation.status == OperationStatus::Completed && operation.indexing_state
        == OperationIndexingState::Completed
}

/// Whether `p` accepts the resource of some step.
pub open spec fn some_step(operation: OperationRecord, p: spec_fn(ResourceView) -> bool) -> bool {
    p(operation.plan.primary.resource@) || any_where(
        operation.plan.side_effects@,
        |step: OperationStep| p(step.resource@),
    )
}

/// Whether `accept` accepts the resource of some step.
pub(crate) fn any_step<F: Fn(&OperationResource) -> bool>(
    operation: &OperationRecord,
    accept: F,
    Ghost(p): Ghost<spec_fn(ResourceView) -> bool>,
) -> (r: bool)
    requires
        forall|a: OperationResource| #[trigger] accept.requires((&a,)),
        forall|a: OperationResource, b: bool| accept.ensures((&a,), b) ==> b == p(a@),
    ensures
        r == some_step(*operation, p),
{
    if accept(&operation.plan.primary.resource) {
        return true;
    }
    let ghost q = |step: OperationStep| p(step.resource@);
    let step_accept = |step: &OperationStep| -> (b: bool)
        ensures
            b == q(*step),
        { accept(&step.resource) };
    let at: usize = find_where(&operation.plan.side_effects, step_accept, Ghost(q));
    at < operation.plan.side_effects.len()
}

/// Whether a resource deletes an index of the company source.
pub open spec fn deletes_source(resource: ResourceView, source: Seq<char>) -> bool {
    resource matches ResourceView::DeleteCompanySourceIndex { source_id, .. } && source_id
        == source
}

/// Whether the deletion of a company source was begun and is not done.
pub open spec fn delete_unfinished(
    operations: Seq<OperationRecord>,
    tenant_id: Seq<char>,
    source_id: Seq<char>,
) -> bool {
    any_where(
        operations,
        |operation: OperationRecord|
            operation.tenant_id@ == tenant_id && operation.operation_kind@ == DELETE_KIND@
                && !is_settled(operation) && some_step(
                operation,
                |resource: ResourceView| deletes_source(resource, source_id),
            ),
    )
}

fn some_step_deletes_source(operation: &OperationRecord, source_id: &str) -> (r: bool)
    ensures
        r == some_step(
            *operation,
            |resource: ResourceView| deletes_source(resource, source_id@),
        ),
{
    let ghost q = |resource: ResourceView| deletes_source(resource, source_id@);
    let deletes = |resource: &OperationResource| -> (c: bool)
        ensures
            c == q(resource@),
        {
            match resource {
                OperationResource::DeleteCompanySourceIndex { source_id: deleting, target }
                => text_eq(deleting.as_str(), source_id),
                _ => false,
            }
        };
    any_step(operation, deletes, Ghost(q))
}

/// Whether the deletion of a company source was begun and is not done.
pub fn unfinished_company_source_delete(
    data: &StoreData,
    tenant_id: &str,
    source_id: &str,
) -> (r: bool)
    ensures
        r == delete_unfinished(data.operations.values(), tenant_id@, source_id@),
{
    let ghost q = |resource: ResourceView| deletes_source(resource, source_id@);
    let ghost p = |operation: OperationRecord|
        operation.tenant_id@ == tenant_id@ && operation.operation_kind@ == DELETE_KIND@
            && !is_settled(operation) && some_step(operation, q);
    let accept = |operation: &OperationRecord| -> (b: bool)
        ensures
            b == p(*operation),
        {
            text_eq(operation.tenant_id.as_str(), tenant_id) && text_eq(
                operation.operation_kind.as_str(),
                DELETE_KIND,
            ) && !settled(operation) && some_step_deletes_source(operation, source_id)
        };
    any_value(&data.operations, accept, Ghost(p))
}

/// The answer to a change of a source whose deletion is not done.
pub open spec fn deleting_error() -> ErrorView {
    ErrorView::Conflict(
        "company source deletion is incomplete; reconcile it before recreating or updating the source"@,
    )
}

/// Refuses to touch a company source whose deletion is not done.
pub fn ensure_company_source_not_deleting(
    data: &StoreData,
    tenant_id: &str,
    source_id: &str,
) -> (r: Result<(), ApiError>)
    ensures
        if delete_unfinished(data.operations.values(), tenant_id@, source_id@) {
            fails_with(r, deleting_error())
        } else {
            r is Ok
        },
{
    if unfinished_company_source_delete(data, tenant_id, source_id) {
        return Err(
            ApiError::conflict(
                "company source deletion is incomplete; reconcile it before recreating or updating the source",
            ),
        );
    }
    Ok(())
}

/// Whether a resource writes to a company source.
pub open spec fn targets_source(
    resource: ResourceView,
    tenant_id: Seq<char>,
    source_id: Seq<char>,
    related: Seq<Seq<char>>,
) -> bool {
    match resource {
        ResourceView::CompanySource { source } => source.tenant_id@ == tenant_id && source.id@
            == source_id,
        ResourceView::SourceRevision { revision } => revision.tenant_id@ == tenant_id
            && revision.source_id@ == source_id,
        ResourceView::ContextNodes { index_uid, nodes } => any_where(
            nodes,
            |node: ContextNode|
                node.tenant_id@ == tenant_id && node.owner_user_id is None && opt_text(
                    node.source_id,
                ) == Some(source_id),
        ),
        ResourceView::SourceDocuments { documents } => any_where(
            documents,
            |d: SourceDocument| document_of(d, tenant_id, source_id),
        ),
        ResourceView::ParseArtifacts { artifacts } => any_where(
            artifacts,
            |a: ParseArtifact| artifact_of(a, tenant_id, source_id),
        ),
        ResourceView::IngestTask { task } => task_of(task, tenant_id, source_id),
        ResourceView::IngestTasks { tasks } => any_where(
            tasks,
            |t: IngestTask| task_of(t, tenant_id, source_id),
        ),
        ResourceView::IngestResult { result } => result_of(result, tenant_id, source_id),
        ResourceView::Links { links } => any_where(
            links,
            |link: KnowledgeLink| touches(link, tenant_id, related),
        ),
        ResourceView::DeleteCompanySourceIndex { source_id: deleting, target } => deleting
            == source_id,
        _ => false,
    }
}

/// Whether a link of the tenant begins or ends at one of `uris`.
pub open spec fn touches(link: KnowledgeLink, tenant_id: Seq<char>, uris: Seq<Seq<char>>) -> bool {
    link.tenant_id@ == tenant_id && (uris.contains(link.source_uri@) || uris.contains(
        link.target_uri@,
    ))
}

fn link_touches(link: &KnowledgeLink, tenant_id: &str, uris: &Vec<String>) -> (r: bool)
    ensures
        r == touches(*link, tenant_id@, texts(uris@)),
{
    text_eq(link.tenant_id.as_str(), tenant_id) && (texts_contain(uris, link.source_uri.as_str())
        || texts_contain(uris, link.target_uri.as_str()))
}

/// Whether a resource writes to a company source.
pub fn operation_resource_targets_company_source(
    resource: &OperationResource,
    tenant_id: &str,
    source_id: &str,
    related_uris: &Vec<String>,
) -> (r: bool)
    ensures
        r == targets_source(resource@, tenant_id@, source_id@, texts(related_uris@)),
{
    match resource {
        OperationResource::CompanySource { source } => text_eq(
            source.tenant_id.as_str(),
            tenant_id,
        ) && text_eq(source.id.as_str(), source_id),
        OperationResource::SourceRevision { revision } => text_eq(
            revision.tenant_id.as_str(),
            tenant_id,
        ) && text_eq(revision.source_id.as_str(), source_id),
        OperationResource::ContextNodes { index_uid, nodes } => {
            let ghost p = |node: ContextNode|
                node.tenant_id@ == tenant_id@ && node.owner_user_id is None && opt_text(
                    node.source_id,
                ) == Some(source_id@);
            let accept = |node: &ContextNode| -> (b: bool)
                ensures
                    b == p(*node),
                {
                    text_eq(node.tenant_id.as_str(), tenant_id) && node.owner_user_id.is_none()
                        && opt_is(&node.source_id, source_id)
                };
            find_where(nodes, accept, Ghost(p)) < nodes.len()
        },
        OperationResource::SourceDocuments { documents } => {
            let ghost p = |d: SourceDocument| document_of(d, tenant_id@, source_id@);
            let accept = |d: &SourceDocument| -> (b: bool)
                ensures
                    b == p(*d),
                { is_document_of(d, tenant_id, source_id) };
            find_where(documents, accept, Ghost(p)) < documents.len()
        },
        OperationResource::ParseArtifacts { artifacts } => {
            let ghost p = |a: ParseArtifact| artifact_of(a, tenant_id@, source_id@);
            let accept = |a: &ParseArtifact| -> (b: bool)
                ensures
                    b == p(*a),
                { is_artifact_of(a, tenant_id, source_id) };
            find_where(artifacts, accept, Ghost(p)) < artifacts.len()
        },
        OperationResource::IngestTask { task } => is_task_of(task, tenant_id, source_id),
        OperationResource::IngestTasks { tasks } => {
            let ghost p = |t: IngestTask| task_of(t, tenant_id@, source_id@);
            let accept = |t: &IngestTask| -> (b: bool)
                ensures
                    b == p(*t),
                { is_task_of(t, tenant_id, source_id) };
            find_where(tasks, accept, Ghost(p)) < tasks.len()
        },
        OperationResource::IngestResult { result } => is_result_of(result, tenant_id, source_id),
        OperationResource::Links { links } => {
            let ghost p = |link: KnowledgeLink| touches(link, tenant_id@, texts(related_uris@));
            let accept = |link: &KnowledgeLink| -> (b: bool)
                ensures
                    b == p(*link),
                { link_touches(link, tenant_id, related_uris) };
            find_where(links, accept, Ghost(p)) < links.len()
        },
        OperationResource::DeleteCompanySourceIndex { source_id: deleting, target } => text_eq(
            deleting.as_str(),
            source_id,
        ),
        _ => false,
    }
}

/// Whether an earlier mutation of a company source is not done.
pub open spec fn predecessor_unfinished(
    operations: Seq<OperationRecord>,
    tenant_id: Seq<char>,
    source_id: Seq<char>,
    related: Seq<Seq<char>>,
) -> bool {
    any_where(
        operations,
        |operation: OperationRecord|
            operation.tenant_id@ == tenant_id && operation.operation_kind@ != DELETE_KIND@
                && !is_settled(operation) && some_step(
                operation,
                |resource: ResourceView| targets_source(resource, tenant_id, source_id, related),
            ),
    )
}

/// The answer to a deletion before which something is not done.
pub open spec fn predecessor_error() -> ErrorView {
    ErrorView::Conflict(
        "a previous company source mutation must be reconciled before deleting the source"@,
    )
}

fn some_step_targets_source(
    operation: &OperationRecord,
    tenant_id: &str,
    source_id: &str,
    related_uris: &Vec<String>,
) -> (r: bool)
    ensures
        r == some_step(
            *operation,
            |resource: ResourceView|
                targets_source(resource, tenant_id@, source_id@, texts(related_uris@)),
        ),
{
    let ghost q = |resource: ResourceView|
        targets_source(resource, tenant_id@, source_id@, texts(related_uris@));
    let targets = |resource: &OperationResource| -> (c: bool)
        ensures
            c == q(resource@),
        {
            operation_resource_targets_company_source(resource, tenant_id, source_id, related_uris)
        };
    any_step(operation, targets, Ghost(q))
}

/// Refuses to delete a company source while an earlier mutation of it is not done.
pub fn ensure_company_source_mutations_reconciled_before_delete(
    data: &StoreData,
    tenant_id: &str,
    source_id: &str,
    related_uris: &Vec<String>,
) -> (r: Result<(), ApiError>)
    ensures
        if predecessor_unfinished(
            data.operations.values(),
            tenant_id@,
            source_id@,
            texts(related_uris@),
        ) {
            fails_with(r, predecessor_error())
        } else {
            r is Ok
        },
{
    let ghost q = |resource: ResourceView|
        targets_source(resource, tenant_id@, source_id@, texts(related_uris@));
    let ghost p = |operation: OperationRecord|
        operation.tenant_id@ == tenant_id@ && operation.operation_kind@ != DELETE_KIND@
            && !is_settled(operation) && some_step(operation, q);
    let accept = |operation: &OperationRecord| -> (b: bool)
        ensures
            b == p(*operation),
        {
            text_eq(operation.tenant_id.as_str(), tenant_id) && !text_eq(
                operation.operation_kind.as_str(),
                DELETE_KIND,
            ) && !settled(operation) && some_step_targets_source(
                operation,
                tenant_id,
                source_id,
                related_uris,
            )
        };
    if any_value(&data.operations, accept, Ghost(p)) {
        return Err(
            ApiError::conflict(
                "a previous company source mutation must be reconciled before deleting the source",
            ),
        );
    }
    Ok(())
}

/// Whether a resource deletes a link, by its id or by one of its ends.
pub open spec fn deletes_link(
    resource: ResourceView,
    link_id: Option<Seq<char>>,
    source_uri: Seq<char>,
    target_uri: Seq<char>,
) -> bool {
    match resource {
        ResourceView::DeleteCompanySourceIndex {
            source_id,
            target: DeleteTargetView::Links { link_ids, related_uris },
        } => (match link_id {
            Some(id) => link_ids.contains(id),
            None => false,
        }) || related_uris.contains(source_uri) || related_uris.contains(target_uri),
        _ => false,
    }
}

/// Whether an unfinished deletion of a company source takes a link with it.
pub open spec fn link_delete_pending(
    operations: Seq<OperationRecord>,
    tenant_id: Seq<char>,
    link_id: Option<Seq<char>>,
    source_uri: Seq<char>,
    target_uri: Seq<char>,
) -> bool {
    any_where(
        operations,
        |operation: OperationRecord|
            operation.tenant_id@ == tenant_id && operation.operation_kind@ == DELETE_KIND@
                && !is_settled(operation) && some_step(
                operation,
                |resource: ResourceView| deletes_link(resource, link_id, source_uri, target_uri),
            ),
    )
}

/// The answer to a change of a link that an unfinished deletion takes with it.
pub open spec fn link_deleting_error() -> ErrorView {
    ErrorView::Conflict(
        "link belongs to an incomplete company source deletion; reconcile it before updating the link"@,
    )
}

fn some_step_deletes_link(
    operation: &OperationRecord,
    link_id: Option<&str>,
    source_uri: &str,
    target_uri: &str,
) -> (r: bool)
    ensures
        r == some_step(
            *operation,
            |resource: ResourceView|
                deletes_link(resource, opt_str(link_id), source_uri@, target_uri@),
        ),
{
    let ghost q = |resource: ResourceView|
        deletes_link(resource, opt_str(link_id), source_uri@, target_uri@);
    let deletes = |resource: &OperationResource| -> (c: bool)
        ensures
            c == q(resource@),
        {
            match resource {
                OperationResource::DeleteCompanySourceIndex {
                    source_id,
                    target: CompanySourceDeleteTarget::Links { link_ids, related_uris },
                } => (match link_id {
                    Some(id) => texts_contain(link_ids, id),
                    None => false,
                }) || texts_contain(related_uris, source_uri) || texts_contain(
                    related_uris,
                    target_uri,
                ),
                _ => false,
            }
        };
    any_step(operation, deletes, Ghost(q))
}

/// Refuses to touch a link that an unfinished deletion of a company source takes with it.
pub fn ensure_link_not_pending_company_source_delete(
    data: &StoreData,
    tenant_id: &str,
    link_id: Option<&str>,
    source_uri: &str,
    target_uri: &str,
) -> (r: Result<(), ApiError>)
    ensures
        if link_delete_pending(
            data.operations.values(),
            tenant_id@,
            opt_str(link_id),
            source_uri@,
            target_uri@,
        ) {
            fails_with(r, link_deleting_error())
        } else {
            r is Ok
        },
{
    let ghost q = |resource: ResourceView|
        deletes_link(resource, opt_str(link_id), source_uri@, target_uri@);
    let ghost p = |operation: OperationRecord|
        operation.tenant_id@ == tenant_id@ && operation.operation_kind@ == DELETE_KIND@
            && !is_settled(operation) && some_step(operation, q);
    let accept = |operation: &OperationRecord| -> (b: bool)
        ensures
            b == p(*operation),
        {
            text_eq(operation.tenant_id.as_str(), tenant_id) && text_eq(
                operation.operation_kind.as_str(),
                DELETE_KIND,
            ) && !settled(operation) && some_step_deletes_link(
                operation,
                link_id,
                source_uri,
                target_uri,
            )
        };
    if any_value(&data.operations, accept, Ghost(p)) {
        return Err(
            ApiError::conflict(
                "link belongs to an incomplete company source deletion; reconcile it before updating the link",
            ),
        );
    }
    Ok(())
}

/// Whether a link of the tenant is to go with a company source.
pub open spec fn link_goes(
    before: StoreData,
    link: KnowledgeLink,
    tenant_id: Seq<char>,
    source_id: Seq<char>,
) -> bool {
    touches(link, tenant_id, related_uris(before, tenant_id, source_id))
}

/// Whether some link with id `id` goes with a company source.
pub open spec fn link_id_goes(
    before: StoreData,
    id: Seq<char>,
    tenant_id: Seq<char>,
    source_id: Seq<char>,
) -> bool {
    any_where(
        before.links.values(),
        |link: KnowledgeLink| link_goes(before, link, tenant_id, source_id) && link.id@ == id,
    )
}

/// Whether some ingest task with id `id` belongs to a company source.
pub open spec fn task_id_goes(
    before: StoreData,
    id: Seq<char>,
    tenant_id: Seq<char>,
    source_id: Seq<char>,
) -> bool {
    any_where(
        before.ingest_tasks.values(),
        |task: IngestTask| task_of(task, tenant_id, source_id) && task.task_id@ == id,
    )
}

/// Whether the document under `k` belongs to a company source.
pub open spec fn document_goes(
    before: StoreData,
    k: DocumentKeyView,
    tenant_id: Seq<char>,
    source_id: Seq<char>,
) -> bool {
    before.source_documents@.dom().contains(k) && document_of(
        before.source_documents@[k],
        tenant_id,
        source_id,
    )
}

/// What deleting a company source changes: everything that belongs to it goes, all else stays.
pub open spec fn source_deleted(
    before: StoreData,
    after: StoreData,
    tenant_id: Seq<char>,
    source_id: Seq<char>,
) -> bool {
    &&& after == (StoreData {
        sources: after.sources,
        source_revisions: after.source_revisions,
        company_context: after.company_context,
        source_documents: after.source_documents,
        parse_artifacts: after.parse_artifacts,
        parsed_blocks: after.parsed_blocks,
        ingest_tasks: after.ingest_tasks,
        ingest_results: after.ingest_results,
        links: after.links,
        link_idempotency: after.link_idempotency,
        ..before
    })
    &&& after.sources@ == before.sources@.remove(source_id)
    &&& lists(after.source_revisions@) == without_revisions(
        lists(before.source_revisions@),
        tenant_id,
        source_id,
    )
    &&& after.company_context@ == without_source_nodes(
        before.company_context@,
        tenant_id,
        source_id,
    )
    &&& after.source_documents@ == kept(
        before.source_documents@,
        |k: DocumentKeyView, d: SourceDocument| !document_of(d, tenant_id, source_id),
    )
    &&& after.parse_artifacts@ == kept(
        before.parse_artifacts@,
        |k: crate::data::ArtifactKeyView, a: ParseArtifact| !artifact_of(a, tenant_id, source_id),
    )
    &&& after.parsed_blocks@ == kept(
        before.parsed_blocks@,
        |k: DocumentKeyView, b: Vec<ParsedBlock>| !document_goes(before, k, tenant_id, source_id),
    )
    &&& after.ingest_tasks@ == kept(
        before.ingest_tasks@,
        |k: Seq<char>, t: IngestTask| !task_id_goes(before, k, tenant_id, source_id),
    )
    &&& after.ingest_results@ == kept(
        before.ingest_results@,
        |k: Seq<char>, r: IngestTaskResult|
            !task_id_goes(before, k, tenant_id, source_id) && !result_of(r, tenant_id, source_id),
    )
    &&& after.links@ == kept(
        before.links@,
        |k: Seq<char>, l: KnowledgeLink| !link_id_goes(before, k, tenant_id, source_id),
    )
    &&& after.link_idempotency@ == kept(
        before.link_idempotency@,
        |k: (Seq<char>, Seq<char>, Seq<char>), id: String|
            !link_id_goes(before, id@, tenant_id, source_id),
    )
}

/// Whether a tenant has a company source.
pub open spec fn has_source(data: StoreData, tenant_id: Seq<char>, source_id: Seq<char>) -> bool {
    data.sources@.dom().contains(source_id) && data.sources@[source_id].tenant_id@ == tenant_id
}

fn link_ids_of_source(data: &StoreData, tenant_id: &str, uris: &Vec<String>) -> (r: Vec<String>)
    ensures
        forall|id: Seq<char>| #[trigger]
            texts(r@).contains(id) == any_where(
                data.links.values(),
                |link: KnowledgeLink| touches(link, tenant_id@, texts(uris@)) && link.id@ == id,
            ),
{
    let mut out: Vec<String> = Vec::new();
    let n: usize = data.links.len();
    let ghost all = data.links.values();
    let mut i: usize = 0;
    while i < n
        invariant
            i <= n == all.len(),
            all == data.links.values(),
            all.len() == data.links.rows().len(),
            forall|id: Seq<char>| #[trigger]
                texts(out@).contains(id) == exists|j: int|
                    0 <= j < i && touches(#[trigger] all[j], tenant_id@, texts(uris@))
                        && all[j].id@ == id,
        decreases n - i,
    {
        let link: &KnowledgeLink = data.links.value_at(i);
        let ghost before = texts(out@);
        if link_touches(link, tenant_id, uris) {
            add_uri(&mut out, link.id.clone());
            proof {
                lemma_contains_push(before, link.id@);
            }
        }
        i += 1;
    }
    assert forall|id: Seq<char>| #[trigger]
        texts(out@).contains(id) == any_where(
            data.links.values(),
            |link: KnowledgeLink| touches(link, tenant_id@, texts(uris@)) && link.id@ == id,
        ) by {
        let q = |link: KnowledgeLink| touches(link, tenant_id@, texts(uris@)) && link.id@ == id;
        if texts(out@).contains(id) {
            let j = choose|j: int|
                0 <= j < n && touches(#[trigger] all[j], tenant_id@, texts(uris@)) && all[j].id@
                    == id;
            assert(q(all[j]));
        }
    }
    out
}

proof fn lemma_contains_push(s: Seq<Seq<char>>, x: Seq<char>)
    ensures
        forall|y: Seq<char>| #[trigger] s.push(x).contains(y) == (s.contains(y) || y == x),
{
    assert forall|y: Seq<char>| #[trigger] s.push(x).contains(y) == (s.contains(y) || y == x) by {
        if s.contains(y) {
            let i = choose|i: int| 0 <= i < s.len() && s[i] == y;
            assert(s.push(x)[i] == y);
        }
        assert(s.push(x)[s.len() as int] == x);
    }
}

fn task_ids_of_source(data: &StoreData, tenant_id: &str, source_id: &str) -> (r: Vec<String>)
    ensures
        forall|id: Seq<char>| #[trigger]
            texts(r@).contains(id) == task_id_goes(*data, id, tenant_id@, source_id@),
{
    let mut out: Vec<String> = Vec::new();
    let n: usize = data.ingest_tasks.len();
    let ghost all = data.ingest_tasks.values();
    let mut i: usize = 0;
    while i < n
        invariant
            i <= n == all.len(),
            all == data.ingest_tasks.values(),
            all.len() == data.ingest_tasks.rows().len(),
            forall|id: Seq<char>| #[trigger]
                texts(out@).contains(id) == exists|j: int|
                    0 <= j < i && task_of(#[trigger] all[j], tenant_id@, source_id@)
                        && all[j].task_id@ == id,
        decreases n - i,
    {
        let task: &IngestTask = data.ingest_tasks.value_at(i);
        let ghost before = texts(out@);
        if is_task_of(task, tenant_id, source_id) {
            add_uri(&mut out, task.task_id.clone());
            proof {
                lemma_contains_push(before, task.task_id@);
            }
        }
        i += 1;
    }
    assert forall|id: Seq<char>| #[trigger]
        texts(out@).contains(id) == task_id_goes(*data, id, tenant_id@, source_id@) by {
        let q = |task: IngestTask| task_of(task, tenant_id@, source_id@) && task.task_id@ == id;
        if texts(out@).contains(id) {
            let j = choose|j: int|
                0 <= j < n && task_of(#[trigger] all[j], tenant_id@, source_id@) && all[j].task_id@
                    == id;
            assert(q(all[j]));
        }
    }
    out
}

/// Deletes a company source with everything that belongs to it.
pub fn delete_company_doc(data: &mut StoreData, tenant_id: &str, source_id: &String) -> (r: Result<
    (),
    ApiError,
>)
    ensures
        if delete_unfinished(old(data).operations.values(), tenant_id@, source_id@) {
            fails_with(r, deleting_error()) && *final(data) == *old(data)
        } else if !has_source(*old(data), tenant_id@, source_id@) {
            fails_with(r, ErrorView::NotFound("source not found"@)) && *final(data) == *old(data)
        } else if predecessor_unfinished(
            old(data).operations.values(),
            tenant_id@,
            source_id@,
            related_uris(*old(data), tenant_id@, source_id@),
        ) {
            fails_with(r, predecessor_error()) && *final(data) == *old(data)
        } else {
            r is Ok && source_deleted(*old(data), *final(data), tenant_id@, source_id@)
        },
{
    ensure_company_source_not_deleting(data, tenant_id, source_id.as_str())?;
    let found: bool = match data.sources.get(source_id) {
        Some(source) => text_eq(source.tenant_id.as_str(), tenant_id),
        None => false,
    };
    if !found {
        return Err(ApiError::not_found("source not found"));
    }
    let uris: Vec<String> = company_source_related_uris(data, tenant_id, source_id.as_str());
    ensure_company_source_mutations_reconciled_before_delete(
        data,
        tenant_id,
        source_id.as_str(),
        &uris,
    )?;
    let link_ids: Vec<String> = link_ids_of_source(data, tenant_id, &uris);
    let task_ids: Vec<String> = task_ids_of_source(data, tenant_id, source_id.as_str());
    let ghost before = *data;
    assert forall|id: Seq<char>| #[trigger]
        texts(link_ids@).contains(id) == link_id_goes(before, id, tenant_id@, source_id@) by {
        assert(any_where(
            before.links.values(),
            |link: KnowledgeLink| touches(link, tenant_id@, texts(uris@)) && link.id@ == id,
        ) == any_where(
            before.links.values(),
            |link: KnowledgeLink|
                link_goes(before, link, tenant_id@, source_id@) && link.id@ == id,
        )) by {
            let a = |link: KnowledgeLink| touches(link, tenant_id@, texts(uris@)) && link.id@ == id;
            let b = |link: KnowledgeLink|
                link_goes(before, link, tenant_id@, source_id@) && link.id@ == id;

            if any_where(before.links.values(), a) {
                let i = choose|i: int|
                    0 <= i < before.links.values().len() && a(#[trigger] before.links.values()[i]);
                assert(b(before.links.values()[i]));
            }
            if any_where(before.links.values(), b) {
                let i = choose|i: int|
                    0 <= i < before.links.values().len() && b(#[trigger] before.links.values()[i]);
                assert(a(before.links.values()[i]));
            }
        }
    }
    data.sources.remove(source_id);
    remove_revisions(data, tenant_id, source_id);
    remove_source_nodes(data, tenant_id, source_id.as_str());
    let ghost pb = |k: DocumentKeyView, b: Vec<ParsedBlock>|
        !document_goes(before, k, tenant_id@, source_id@);
    let documents: &Table<SourceDocumentKey, SourceDocument> = &data.source_documents;
    let keep_blocks = |k: &SourceDocumentKey, b: &Vec<ParsedBlock>| -> (c: bool)
        ensures
            c == pb(k@, *b),
        {
            match documents.get(k) {
                Some(d) => !is_document_of(d, tenant_id, source_id.as_str()),
                None => true,
            }
        };
    data.parsed_blocks.retain(keep_blocks, Ghost(pb));
    let ghost pd = |k: DocumentKeyView, d: SourceDocument|
        !document_of(d, tenant_id@, source_id@);
    let keep_documents = |k: &SourceDocumentKey, d: &SourceDocument| -> (c: bool)
        ensures
            c == pd(k@, *d),
        { !is_document_of(d, tenant_id, source_id.as_str()) };
    data.source_documents.retain(keep_documents, Ghost(pd));
    remove_source_artifacts(data, tenant_id, source_id.as_str());
    assert(data.parse_artifacts@ =~= kept(
        before.parse_artifacts@,
        |k: crate::data::ArtifactKeyView, a: ParseArtifact|
            !artifact_of(a, tenant_id@, source_id@),
    ));
    let ghost pt = |k: Seq<char>, t: IngestTask|
        !task_id_goes(before, k, tenant_id@, source_id@);
    let keep_tasks = |k: &String, t: &IngestTask| -> (c: bool)
        ensures
            c == pt(k@, *t),
        { !texts_contain(&task_ids, k.as_str()) };
    data.ingest_tasks.retain(keep_tasks, Ghost(pt));
    let ghost pr = |k: Seq<char>, r: IngestTaskResult|
        !task_id_goes(before, k, tenant_id@, source_id@) && !result_of(r, tenant_id@, source_id@);
    let keep_results = |k: &String, r: &IngestTaskResult| -> (c: bool)
        ensures
            c == pr(k@, *r),
        {
            !texts_contain(&task_ids, k.as_str()) && !is_result_of(
                r,
                tenant_id,
                source_id.as_str(),
            )
        };
    data.ingest_results.retain(keep_results, Ghost(pr));
    let ghost pl = |k: Seq<char>, l: KnowledgeLink|
        !link_id_goes(before, k, tenant_id@, source_id@);
    let keep_links = |k: &String, l: &KnowledgeLink| -> (c: bool)
        ensures
            c == pl(k@, *l),
        { !texts_contain(&link_ids, k.as_str()) };
    data.links.retain(keep_links, Ghost(pl));
    let ghost pi = |k: (Seq<char>, Seq<char>, Seq<char>), id: String|
        !link_id_goes(before, id@, tenant_id@, source_id@);
    let keep_keys = |k: &(String, String, String), id: &String| -> (c: bool)
        ensures
            c == pi(k@, *id),
        { !texts_contain(&link_ids, id.as_str()) };
    data.link_idempotency.retain(keep_keys, Ghost(pi));
    Ok(())
}

/// What deleting a company source answers.
pub struct CompanyDocDeletion {
    pub source_id: String,
    pub deleted: bool,
    pub fragments_task: Option<String>,
    pub revisions_task: Option<String>,
    pub source_task: Option<String>,
    pub auxiliary_tasks: Vec<String>,
}

/// How far the operation that deletes a company source has come.
pub struct DeletionProgress {
    pub status: OperationStatus,
    pub indexing_state: OperationIndexingState,
    pub task_uids: Vec<String>,
}

/// The task at a place.
pub open spec fn task_at(task_uids: Seq<Seq<char>>, i: int) -> Option<Seq<char>> {
    if i < task_uids.len() {
        Some(task_uids[i])
    } else {
        None
    }
}

fn nth_task(task_uids: &Vec<String>, i: usize) -> (r: Option<String>)
    ensures
        opt_text(r) == task_at(texts(task_uids@), i as int),
{
    if i < task_uids.len() {
        Some(task_uids[i].clone())
    } else {
        None
    }
}

/// What deleting a company source answers: done where nothing had to be persisted, else where its
/// operation and the indexing are done. The first tasks are named, the others are listed.
pub fn deletion_answer(source_id: &str, progress: Option<&DeletionProgress>) -> (r:
    CompanyDocDeletion)
    ensures
        r.source_id@ == source_id@,
        match progress {
            None => {
                &&& r.deleted
                &&& r.fragments_task is None
                &&& r.revisions_task is None
                &&& r.source_task is None
                &&& r.auxiliary_tasks@.len() == 0
            },
            Some(p) => {
                let uids = texts(p.task_uids@);
                &&& r.deleted == (p.status == OperationStatus::Completed && p.indexing_state
                    == OperationIndexingState::Completed)
                &&& opt_text(r.fragments_task) == task_at(uids, 0)
                &&& opt_text(r.revisions_task) == task_at(uids, 1)
                &&& opt_text(r.source_task) == task_at(uids, 2)
                &&& texts(r.auxiliary_tasks@) == (if uids.len() > 3 {
                    uids.skip(3)
                } else {
                    Seq::empty()
                })
            },
        },
{
    let mut auxiliary_tasks: Vec<String> = Vec::new();
    match progress {
        None => CompanyDocDeletion {
            source_id: source_id.to_owned(),
            deleted: true,
            fragments_task: None,
            revisions_task: None,
            source_task: None,
            auxiliary_tasks,
        },
        Some(p) => {
            let ghost uids = texts(p.task_uids@);
            let mut i: usize = 3;
            assert(texts(auxiliary_tasks@) =~= Seq::<Seq<char>>::empty());
            while i < p.task_uids.len()
                invariant
                    3 <= i,
                    i <= p.task_uids@.len() || i == 3,
                    uids == texts(p.task_uids@),
                    texts(auxiliary_tasks@) =~= (if uids.len() > 3 {
                        uids.subrange(3, i as int)
                    } else {
                        Seq::empty()
                    }),
                decreases p.task_uids.len() - i,
            {
                let uid: String = p.task_uids[i].clone();
                proof {
                    texts_push(auxiliary_tasks@, uid);
                    assert(uids.subrange(3, i + 1) =~= uids.subrange(3, i as int).push(uid@));
                }
                auxiliary_tasks.push(uid);
                i += 1;
            }
            assert(uids.len() > 3 ==> uids.subrange(3, i as int) =~= uids.skip(3));
            CompanyDocDeletion {
                source_id: source_id.to_owned(),
                deleted: p.status == OperationStatus::Completed && p.indexing_state
                    == OperationIndexingState::Completed,
                fragments_task: nth_task(&p.task_uids, 0),
                revisions_task: nth_task(&p.task_uids, 1),
                source_task: nth_task(&p.task_uids, 2),
                auxiliary_tasks,
            }
        },
    }
}

/// A source that was deleted is not there to be deleted again.
pub proof fn a_deleted_source_is_gone(
    before: StoreData,
    after: StoreData,
    tenant_id: Seq<char>,
    source_id: Seq<char>,
)
    requires
        source_deleted(before, after, tenant_id, source_id),
    ensures
        !has_source(after, tenant_id, source_id),
{
}

/// Deleting a source leaves every other source alone.
pub proof fn deleting_keeps_other_sources(
    before: StoreData,
    after: StoreData,
    tenant_id: Seq<char>,
    source_id: Seq<char>,
    other: Seq<char>,
)
    requires
        source_deleted(before, after, tenant_id, source_id),
        other != source_id,
        before.sources@.dom().contains(other),
    ensures
        after.sources@.dom().contains(other),
        after.sources@[other] == before.sources@[other],
{
}

/// Once a source was deleted, none of its documents is stored.
pub proof fn no_document_of_a_deleted_source_is_left(
    before: StoreData,
    after: StoreData,
    tenant_id: Seq<char>,
    source_id: Seq<char>,
    k: DocumentKeyView,
)
    requires
        source_deleted(before, after, tenant_id, source_id),
        after.source_documents@.dom().contains(k),
    ensures
        !document_of(after.source_documents@[k], tenant_id, source_id),
        before.source_documents@.dom().contains(k),
        after.source_documents@[k] == before.source_documents@[k],
{
}

} // verus!
