//! What a store holds once it has been loaded for a tenant: what was loaded, nothing else of that
//! tenant, and all that other tenants had.

use vstd::prelude::*;

use crate::artifacts::{are_artifacts, are_refs, is_artifact, ParserOutput, PieceView};
use crate::data::StoreData;
use crate::hydration::{HydrationReport, HydrationStage};
use crate::laws::choosing::a_filter_keeps_what_it_accepts;
use crate::merge::inserted_all;
use crate::model::harness::{
    HarnessChangeManifest, HarnessChangeVerdict, RagEvalCase, RagEvalCaseResult, RagEvalOverview,
    RagEvalRun,
};
use crate::model::ingest::{CompanySource, IngestTask, IngestTaskResult, ParseArtifact};
use crate::model::knowledge::{
    ContextNode, DatasetRecord, InsightRecord, KnowledgeLink, ParseArtifactRef, SessionRecord,
    StructuredSnapshot, TraceRecord,
};
use crate::model::operation::OperationRecord;
use crate::record::Row;
use crate::stage::{
    loading_keeps_other_tenants, loading_leaves_only_what_was_loaded, node_of_another_tenant,
    of_others, operations_of_others, operations_put, replaced, stage_published,
};
use crate::table::TableKey;
use crate::text::opt_text;

verus! {

/// Whether a table is loaded for a tenant: each row that was loaded is read under its key, the
/// last where several share one; what other tenants had and no row has taken the place of is as it
/// was; and what the tenant has is what was loaded.
pub open spec fn is_loaded<K: TableKey, R: Row<K>>(
    before: Map<K::V, R>,
    after: Map<K::V, R>,
    rows: Seq<R>,
    tenant_id: Seq<char>,
) -> bool {
    &&& forall|i: int|
        0 <= i < rows.len() && (forall|j: int|
            i < j < rows.len() ==> (#[trigger] rows[j]).key() != rows[i].key())
            ==> after.dom().contains((#[trigger] rows[i]).key()) && after[rows[i].key()] == rows[i]
    &&& forall|k: K::V| #[trigger]
        before.dom().contains(k) && before[k].tenant() != tenant_id && (forall|j: int|
            0 <= j < rows.len() ==> (#[trigger] rows[j]).key() != k) ==> after.dom().contains(k)
            && after[k] == before[k]
    &&& forall|k: K::V| #[trigger]
        after.dom().contains(k) && after[k].tenant() == tenant_id ==> rows.contains(after[k])
}

/// The last row under a key is what is found there.
proof fn lemma_last_is_found<K: TableKey, R: Row<K>>(m: Map<K::V, R>, rows: Seq<R>, i: int)
    requires
        0 <= i < rows.len(),
        forall|j: int| i < j < rows.len() ==> (#[trigger] rows[j]).key() != rows[i].key(),
    ensures
        inserted_all::<K, R>(m, rows).dom().contains(rows[i].key()),
        inserted_all::<K, R>(m, rows)[rows[i].key()] == rows[i],
    decreases rows.len(),
{
    let front = rows.drop_last();
    let n = rows.len() - 1;
    if i < n {
        assert(front[i] == rows[i]);
        assert forall|j: int| i < j < front.len() implies (#[trigger] front[j]).key()
            != front[i].key() by {
            assert(front[j] == rows[j]);
        }
        lemma_last_is_found::<K, R>(m, front, i);
        assert(rows[n].key() != rows[i].key());
    }
}

/// A table whose rows of a tenant are replaced is loaded.
proof fn lemma_replaced<K: TableKey, R: Row<K>>(
    m: Map<K::V, R>,
    rows: Seq<R>,
    tenant_id: Seq<char>,
)
    ensures
        is_loaded::<K, R>(m, replaced::<K, R>(m, rows, tenant_id), rows, tenant_id),
{
    let after = replaced::<K, R>(m, rows, tenant_id);
    assert forall|i: int|
        0 <= i < rows.len() && (forall|j: int|
            i < j < rows.len() ==> (#[trigger] rows[j]).key() != rows[i].key()) implies
    after.dom().contains((#[trigger] rows[i]).key()) && after[rows[i].key()] == rows[i] by {
        lemma_last_is_found::<K, R>(of_others::<K, R>(m, tenant_id), rows, i);
    }
    assert forall|k: K::V| #[trigger]
        m.dom().contains(k) && m[k].tenant() != tenant_id && (forall|j: int|
            0 <= j < rows.len() ==> (#[trigger] rows[j]).key() != k) implies after.dom().contains(k)
        && after[k] == m[k] by {
        loading_keeps_other_tenants::<K, R>(m, rows, tenant_id, k);
    }
    assert forall|k: K::V| #[trigger]
        after.dom().contains(k) && after[k].tenant() == tenant_id implies rows.contains(
        after[k],
    ) by {
        loading_leaves_only_what_was_loaded::<K, R>(m, rows, tenant_id, k);
    }
}

/// Once a stage is published, every table of the store is loaded with the stage's own rows for the
/// tenant, and tells of the load.
pub proof fn a_published_stage_is_loaded(
    before: StoreData,
    after: StoreData,
    stage: HydrationStage,
    report: HydrationReport,
    tenant_id: Seq<char>,
    now: i64,
)
    requires
        stage_published(before, after, stage, report, tenant_id, now),
    ensures
        after.hydration_report == Some(report),
        after.audit_records == before.audit_records,
        is_loaded::<String, InsightRecord>(
            before.insights@,
            after.insights@,
            stage.insights@,
            tenant_id,
        ),
        is_loaded::<String, KnowledgeLink>(
            before.links@,
            after.links@,
            stage.links@,
            tenant_id,
        ),
        is_loaded::<String, CompanySource>(
            before.sources@,
            after.sources@,
            stage.sources@,
            tenant_id,
        ),
        is_loaded::<String, SessionRecord>(
            before.sessions@,
            after.sessions@,
            stage.sessions@,
            tenant_id,
        ),
        is_loaded::<String, TraceRecord>(
            before.traces@,
            after.traces@,
            stage.traces@,
            tenant_id,
        ),
        is_loaded::<String, DatasetRecord>(
            before.datasets@,
            after.datasets@,
            stage.datasets@,
            tenant_id,
        ),
        is_loaded::<String, StructuredSnapshot>(
            before.snapshots@,
            after.snapshots@,
            stage.snapshots@,
            tenant_id,
        ),
        is_loaded::<String, HarnessChangeManifest>(
            before.harness_changes@,
            after.harness_changes@,
            stage.harness_changes@,
            tenant_id,
        ),
        is_loaded::<String, HarnessChangeVerdict>(
            before.harness_verdicts@,
            after.harness_verdicts@,
            stage.harness_verdicts@,
            tenant_id,
        ),
        is_loaded::<String, RagEvalCase>(
            before.eval_cases@,
            after.eval_cases@,
            stage.eval_cases@,
            tenant_id,
        ),
        is_loaded::<String, RagEvalRun>(
            before.eval_runs@,
            after.eval_runs@,
            stage.eval_runs@,
            tenant_id,
        ),
        is_loaded::<String, RagEvalCaseResult>(
            before.eval_case_results@,
            after.eval_case_results@,
            stage.eval_case_results@,
            tenant_id,
        ),
        is_loaded::<String, RagEvalOverview>(
            before.eval_overviews@,
            after.eval_overviews@,
            stage.eval_overviews@,
            tenant_id,
        ),
        is_loaded::<String, IngestTask>(
            before.ingest_tasks@,
            after.ingest_tasks@,
            stage.ingest_tasks@,
            tenant_id,
        ),
        is_loaded::<String, IngestTaskResult>(
            before.ingest_results@,
            after.ingest_results@,
            stage.ingest_results@,
            tenant_id,
        ),
{
    lemma_replaced::<String, InsightRecord>(before.insights@, stage.insights@, tenant_id);
    lemma_replaced::<String, KnowledgeLink>(before.links@, stage.links@, tenant_id);
    lemma_replaced::<String, CompanySource>(before.sources@, stage.sources@, tenant_id);
    lemma_replaced::<String, SessionRecord>(before.sessions@, stage.sessions@, tenant_id);
    lemma_replaced::<String, TraceRecord>(before.traces@, stage.traces@, tenant_id);
    lemma_replaced::<String, DatasetRecord>(before.datasets@, stage.datasets@, tenant_id);
    lemma_replaced::<String, StructuredSnapshot>(before.snapshots@, stage.snapshots@, tenant_id);
    lemma_replaced::<String, HarnessChangeManifest>(before.harness_changes@, stage.harness_changes@, tenant_id);
    lemma_replaced::<String, HarnessChangeVerdict>(before.harness_verdicts@, stage.harness_verdicts@, tenant_id);
    lemma_replaced::<String, RagEvalCase>(before.eval_cases@, stage.eval_cases@, tenant_id);
    lemma_replaced::<String, RagEvalRun>(before.eval_runs@, stage.eval_runs@, tenant_id);
    lemma_replaced::<String, RagEvalCaseResult>(before.eval_case_results@, stage.eval_case_results@, tenant_id);
    lemma_replaced::<String, RagEvalOverview>(before.eval_overviews@, stage.eval_overviews@, tenant_id);
    lemma_replaced::<String, IngestTask>(before.ingest_tasks@, stage.ingest_tasks@, tenant_id);
    lemma_replaced::<String, IngestTaskResult>(before.ingest_results@, stage.ingest_results@, tenant_id);
}

/// Once a stage is published, the nodes of the company are those of the stage and those that other
/// tenants had.
pub proof fn the_nodes_of_a_published_stage_are_loaded(
    before: StoreData,
    after: StoreData,
    stage: HydrationStage,
    report: HydrationReport,
    tenant_id: Seq<char>,
    now: i64,
    node: ContextNode,
)
    requires
        stage_published(before, after, stage, report, tenant_id, now),
    ensures
        after.company_context@.contains(node) <==> stage.company_context@.contains(node) || (
        before.company_context@.contains(node) && node.tenant_id@ != tenant_id),
{
    let p = node_of_another_tenant(tenant_id);
    let others = before.company_context@.filter(p);
    let nodes = stage.company_context@;
    a_filter_keeps_what_it_accepts(before.company_context@, p, node);
    let all = after.company_context@;
    assert(all == others + nodes);
    if others.contains(node) {
        let i = choose|i: int| 0 <= i < others.len() && others[i] == node;
        assert(all[i] == node);
    }
    if nodes.contains(node) {
        let i = choose|i: int| 0 <= i < nodes.len() && nodes[i] == node;
        assert(all[others.len() + i] == node);
    }
    if all.contains(node) {
        let i = choose|i: int| 0 <= i < all.len() && all[i] == node;
        if i < others.len() {
            assert(others[i] == node);
        } else {
            assert(nodes[i - others.len()] == node);
        }
    }
}

/// Once a stage is published, each operation of the stage is found under its id, the last where
/// several share one, and every operation of another tenant that none has taken the place of is as
/// it was.
pub proof fn the_operations_of_a_published_stage_are_loaded(
    before: StoreData,
    after: StoreData,
    stage: HydrationStage,
    report: HydrationReport,
    tenant_id: Seq<char>,
    now: i64,
)
    requires
        stage_published(before, after, stage, report, tenant_id, now),
    ensures
        forall|i: int|
            0 <= i < stage.operations@.len() && (forall|j: int|
                i < j < stage.operations@.len() ==> (#[trigger] stage.operations@[j]).id@
                    != stage.operations@[i].id@) ==> after.operations@.dom().contains(
                (#[trigger] stage.operations@[i]).id@,
            ) && after.operations@[stage.operations@[i].id@] == stage.operations@[i],
        forall|k: Seq<char>| #[trigger]
            before.operations@.dom().contains(k) && before.operations@[k].tenant_id@ != tenant_id
                && (forall|j: int|
                0 <= j < stage.operations@.len() ==> (#[trigger] stage.operations@[j]).id@ != k)
                ==> after.operations@.dom().contains(k) && after.operations@[k]
                == before.operations@[k],
{
    let others = operations_of_others(before.operations@, tenant_id);
    lemma_operations_put(others, stage.operations@);
    assert forall|k: Seq<char>| #[trigger]
        before.operations@.dom().contains(k) && before.operations@[k].tenant_id@ != tenant_id && (
        forall|j: int|
            0 <= j < stage.operations@.len() ==> (#[trigger] stage.operations@[j]).id@ != k) implies
    after.operations@.dom().contains(k) && after.operations@[k] == before.operations@[k] by {
        assert(others.dom().contains(k));
        assert(others[k] == before.operations@[k]);
    }
}

/// What is put in under its id is found there.
proof fn lemma_operations_put(
    m: Map<Seq<char>, OperationRecord>,
    operations: Seq<OperationRecord>,
)
    ensures
        forall|i: int|
            0 <= i < operations.len() && (forall|j: int|
                i < j < operations.len() ==> (#[trigger] operations[j]).id@ != operations[i].id@)
                ==> operations_put(m, operations).dom().contains((#[trigger] operations[i]).id@)
                && operations_put(m, operations)[operations[i].id@] == operations[i],
        forall|k: Seq<char>| #[trigger]
            m.dom().contains(k) && (forall|j: int|
                0 <= j < operations.len() ==> (#[trigger] operations[j]).id@ != k)
                ==> operations_put(m, operations).dom().contains(k) && operations_put(
                m,
                operations,
            )[k] == m[k],
    decreases operations.len(),
{
    if operations.len() > 0 {
        let front = operations.drop_last();
        let n = operations.len() - 1;
        lemma_operations_put(m, front);
        let rest = operations_put(m, front);
        let all = operations_put(m, operations);
        assert(forall|i: int| 0 <= i < n ==> #[trigger] front[i] == operations[i]);
        assert(all == rest.insert(operations[n].id@, operations[n]));
        assert forall|i: int|
            0 <= i < operations.len() && (forall|j: int|
                i < j < operations.len() ==> (#[trigger] operations[j]).id@ != operations[i].id@)
            implies all.dom().contains((#[trigger] operations[i]).id@) && all[operations[i].id@]
            == operations[i] by {
            if i < n {
                assert(operations[n].id@ != operations[i].id@);
                assert(front[i] == operations[i]);
                assert forall|j: int| i < j < front.len() implies (#[trigger] front[j]).id@
                    != front[i].id@ by {
                    assert(front[j] == operations[j]);
                }
            }
        }
        assert forall|k: Seq<char>| #[trigger]
            m.dom().contains(k) && (forall|j: int|
                0 <= j < operations.len() ==> (#[trigger] operations[j]).id@ != k) implies
        all.dom().contains(k) && all[k] == m[k] by {
            assert(operations[n].id@ != k);
            assert forall|j: int| 0 <= j < front.len() implies (#[trigger] front[j]).id@ != k by {
                assert(front[j] == operations[j]);
            }
        }
    }
}

/// Artifacts tell where they come from, and what they hold by its size.
pub proof fn artifacts_tell_their_origin(
    artifacts: Seq<ParseArtifact>,
    tenant_id: Seq<char>,
    owner_user_id: Option<Seq<char>>,
    source_document_uri: Seq<char>,
    source_id: Seq<char>,
    revision_id: Seq<char>,
    parsed: ParserOutput,
    parts: Seq<PieceView>,
    now: i64,
    i: int,
)
    requires
        are_artifacts(
            artifacts,
            tenant_id,
            owner_user_id,
            source_document_uri,
            source_id,
            revision_id,
            parsed,
            parts,
            now,
        ),
        0 <= i < parts.len(),
    ensures
        artifacts.len() == parts.len(),
        artifacts[i].tenant_id@ == tenant_id,
        opt_text(artifacts[i].owner_user_id) == owner_user_id,
        artifacts[i].source_document_uri@ == source_document_uri,
        artifacts[i].source_id@ == source_id,
        artifacts[i].revision_id@ == revision_id,
        artifacts[i].parser_provider@ == parsed.provider@,
        artifacts[i].parser_backend@ == parsed.backend@,
        artifacts[i].artifact_kind@ == parts[i].kind,
        artifacts[i].uri@ == parts[i].uri,
        artifacts[i].byte_size == parts[i].bytes.len(),
        artifacts[i].created_at == now,
{
    assert(is_artifact(
        artifacts[i],
        tenant_id,
        owner_user_id,
        source_document_uri,
        source_id,
        revision_id,
        parsed,
        parts[i],
        now,
    ));
}

/// References name the artifacts that they are of, one each and in their order.
pub proof fn references_name_their_artifacts(
    refs: Seq<ParseArtifactRef>,
    artifacts: Seq<ParseArtifact>,
    i: int,
)
    requires
        are_refs(refs, artifacts),
        0 <= i < artifacts.len(),
    ensures
        refs.len() == artifacts.len(),
        refs[i].id@ == artifacts[i].id@,
        refs[i].artifact_kind@ == artifacts[i].artifact_kind@,
        refs[i].uri@ == artifacts[i].uri@,
        refs[i].checksum is Some,
        refs[i].checksum->0@ == artifacts[i].checksum@,
{
}

} // verus!
