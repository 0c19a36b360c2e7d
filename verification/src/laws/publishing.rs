//! What publishing can be relied on for: what was accepted is read, and nothing else changes.

use vstd::prelude::*;

use crate::data::{ArtifactKeyView, DocumentKeyView, ParseArtifactKey, SourceDocumentKey, StoreData};
use crate::json::{text_member, Json};
use crate::laws::choosing::{a_filter_keeps_what_it_accepts, sorting_keeps_members};
use crate::merge::{inserted_all, merged_all, merging_keeps_other_keys, with_nodes, Stamped};
use crate::model::harness::HarnessComponentRevision;
use crate::model::ingest::SourceRevision;
use crate::model::knowledge::{ContextNode, HistoryEvent};
use crate::model::operation::{DeleteTargetView, ResourceView};
use crate::order::{first_where, first_where_facts, put_first};
use crate::publish::{published, with_component_revisions, with_events, with_rows};
use crate::record::Row;
use crate::table::{list_at, lists, TableKey};
use crate::text::opt_text;

verus! {

/// Whether two maps read alike under every key but one.
pub open spec fn same_but<K, V>(a: Map<K, V>, b: Map<K, V>, k: K) -> bool {
    forall|j: K|
        #![trigger a.dom().contains(j)]
        #![trigger b.dom().contains(j)]
        j != k ==> a.dom().contains(j) == b.dom().contains(j) && (a.dom().contains(j) ==> a[j]
            == b[j])
}

/// Whether a map has a value under a key.
pub open spec fn reads<K, V>(m: Map<K, V>, k: K, v: V) -> bool {
    m.dom().contains(k) && m[k] == v
}

/// What is put under its key is read there; of several with the same key the last.
pub proof fn what_is_put_is_read<K: TableKey, R: Row<K>>(m: Map<K::V, R>, rows: Seq<R>, i: int)
    requires
        0 <= i < rows.len(),
        forall|j: int| i < j < rows.len() ==> (#[trigger] rows[j]).key() != rows[i].key(),
    ensures
        reads(inserted_all::<K, R>(m, rows), rows[i].key(), rows[i]),
    decreases rows.len(),
{
    let front = rows.drop_last();
    if i < rows.len() - 1 {
        assert(rows[rows.len() - 1].key() != rows[i].key());
        assert forall|j: int| i < j < front.len() implies (#[trigger] front[j]).key()
            != front[i].key() by {
            assert(rows[j].key() != rows[i].key());
        }
        what_is_put_is_read::<K, R>(m, front, i);
    }
}

/// Putting rows under their keys changes no other key.
pub proof fn other_keys_are_left<K: TableKey, R: Row<K>>(m: Map<K::V, R>, rows: Seq<R>, k: K::V)
    requires
        forall|i: int| 0 <= i < rows.len() ==> (#[trigger] rows[i]).key() != k,
    ensures
        inserted_all::<K, R>(m, rows).dom().contains(k) == m.dom().contains(k),
        m.dom().contains(k) ==> inserted_all::<K, R>(m, rows)[k] == m[k],
    decreases rows.len(),
{
    if rows.len() > 0 {
        let front = rows.drop_last();
        assert(rows[rows.len() - 1].key() != k);
        assert forall|i: int| 0 <= i < front.len() implies (#[trigger] front[i]).key() != k by {
            assert(rows[i].key() != k);
        }
        other_keys_are_left::<K, R>(m, front, k);
    }
}

/// A row that is not older than the one before it, and the only one of its key, is read once it was
/// merged.
pub proof fn what_is_merged_is_read<K: TableKey, R: Stamped<K>>(
    m: Map<K::V, R>,
    rows: Seq<R>,
    i: int,
)
    requires
        0 <= i < rows.len(),
        m.dom().contains(rows[i].key()) ==> m[rows[i].key()].stamp() <= rows[i].stamp(),
        forall|j: int|
            0 <= j < rows.len() && j != i ==> (#[trigger] rows[j]).key() != rows[i].key(),
    ensures
        reads(merged_all::<K, R>(m, rows), rows[i].key(), rows[i]),
    decreases rows.len(),
{
    let front = rows.drop_last();
    if i < rows.len() - 1 {
        assert(rows[rows.len() - 1].key() != rows[i].key());
        assert forall|j: int| 0 <= j < front.len() && j != i implies (#[trigger] front[j]).key()
            != front[i].key() by {
            assert(rows[j].key() != rows[i].key());
        }
        what_is_merged_is_read::<K, R>(m, front, i);
    } else {
        assert forall|j: int| 0 <= j < front.len() implies (#[trigger] front[j]).key()
            != rows[i].key() by {
            assert(rows[j].key() != rows[i].key());
        }
        merging_keeps_other_keys::<K, R>(m, front, rows[i].key());
    }
}

/// A record that is published is read under its key, whatever stood there before, unless what stood
/// there is newer; no other key is touched.
pub proof fn a_published_record_is_read(
    before: StoreData,
    after: StoreData,
    staged: StoreData,
    tenant_id: Seq<char>,
    resource: ResourceView,
)
    requires
        published(before, after, staged, tenant_id, resource),
    ensures
        match resource {
            ResourceView::EnsureUserEventIndex { index } => {
                let key = (index.tenant_id@, index.owner_user_id_hash@);
                &&& reads(after.user_indexes@, key, index)
                &&& same_but(before.user_indexes@, after.user_indexes@, key)
                &&& after.events_by_index@.dom().contains(index.event_index_uid@)
                &&& after.personal_context@.dom().contains(index.personal_context_index_uid@)
                &&& forall|k: Seq<char>| #[trigger]
                    before.events_by_index@.dom().contains(k)
                        ==> after.events_by_index@.dom().contains(k)
                        && after.events_by_index@[k]@ == before.events_by_index@[k]@
                &&& forall|k: Seq<char>| #[trigger]
                    before.personal_context@.dom().contains(k)
                        ==> after.personal_context@.dom().contains(k)
                        && after.personal_context@[k]@ == before.personal_context@[k]@
                &&& after == (StoreData {
                    user_indexes: after.user_indexes,
                    events_by_index: after.events_by_index,
                    personal_context: after.personal_context,
                    ..before
                })
            },
            ResourceView::StateItem { item } => {
                let key = (item.tenant_id@, item.owner_user_id@, item.natural_key@);
                &&& if before.state_items@.dom().contains(key) && before.state_items@[key].updated_at
                    > item.updated_at {
                    reads(after.state_items@, key, before.state_items@[key])
                } else {
                    reads(after.state_items@, key, item)
                }
                &&& same_but(before.state_items@, after.state_items@, key)
                &&& after == (StoreData { state_items: after.state_items, ..before })
            },
            ResourceView::Insight { insight } => {
                let key = insight.id@;
                &&& if before.insights@.dom().contains(key) && before.insights@[key].updated_at
                    > insight.updated_at {
                    reads(after.insights@, key, before.insights@[key])
                } else {
                    reads(after.insights@, key, insight)
                }
                &&& same_but(before.insights@, after.insights@, key)
                &&& forall|k: (Seq<char>, Seq<char>, Seq<char>)| #[trigger]
                    staged.insight_idempotency@.dom().contains(k)
                        && staged.insight_idempotency@[k]@ == key ==> reads(
                        after.insight_idempotency@,
                        k,
                        staged.insight_idempotency@[k],
                    )
                &&& after == (StoreData {
                    insights: after.insights,
                    insight_idempotency: after.insight_idempotency,
                    ..before
                })
            },
            ResourceView::CompanySource { source } => {
                &&& reads(after.sources@, source.id@, source)
                &&& same_but(before.sources@, after.sources@, source.id@)
                &&& after == (StoreData { sources: after.sources, ..before })
            },
            ResourceView::StructuredSnapshot { snapshot } => {
                &&& reads(after.snapshots@, snapshot.id@, snapshot)
                &&& same_but(before.snapshots@, after.snapshots@, snapshot.id@)
                &&& forall|k: (Seq<char>, Seq<char>)| #[trigger]
                    staged.snapshot_idempotency@.dom().contains(k)
                        && staged.snapshot_idempotency@[k]@ == snapshot.id@ ==> reads(
                        after.snapshot_idempotency@,
                        k,
                        staged.snapshot_idempotency@[k],
                    )
                &&& after == (StoreData {
                    snapshots: after.snapshots,
                    snapshot_idempotency: after.snapshot_idempotency,
                    ..before
                })
            },
            ResourceView::Dataset { dataset } => {
                &&& reads(after.datasets@, dataset.dataset_key@, dataset)
                &&& same_but(before.datasets@, after.datasets@, dataset.dataset_key@)
                &&& after == (StoreData { datasets: after.datasets, ..before })
            },
            ResourceView::StructuredSummary { summary } => {
                &&& text_member(summary, "id"@) is Some ==> {
                    let key = text_member(summary, "id"@)->0;
                    &&& reads(after.structured_summaries@, key, summary)
                    &&& same_but(before.structured_summaries@, after.structured_summaries@, key)
                }
                &&& after == (StoreData {
                    structured_summaries: after.structured_summaries,
                    ..before
                })
            },
            ResourceView::Session { session } => {
                &&& reads(after.sessions@, session.id@, session)
                &&& same_but(before.sessions@, after.sessions@, session.id@)
                &&& after == (StoreData { sessions: after.sessions, ..before })
            },
            ResourceView::Trace { trace } => {
                &&& if before.traces@.dom().contains(trace.id@) {
                    reads(after.traces@, trace.id@, before.traces@[trace.id@])
                } else {
                    reads(after.traces@, trace.id@, trace)
                }
                &&& same_but(before.traces@, after.traces@, trace.id@)
                &&& after == (StoreData { traces: after.traces, ..before })
            },
            ResourceView::IngestTask { task } => {
                let key = task.task_id@;
                &&& if before.ingest_tasks@.dom().contains(key)
                    && before.ingest_tasks@[key].updated_at > task.updated_at {
                    reads(after.ingest_tasks@, key, before.ingest_tasks@[key])
                } else {
                    reads(after.ingest_tasks@, key, task)
                }
                &&& same_but(before.ingest_tasks@, after.ingest_tasks@, key)
                &&& after == (StoreData { ingest_tasks: after.ingest_tasks, ..before })
            },
            ResourceView::IngestResult { result } => {
                let key = result.task.task_id@;
                let place = DocumentKeyView {
                    tenant_id: result.task.tenant_id@,
                    owner_user_id: opt_text(result.task.owner_user_id),
                    uri: result.source_document_uri@,
                };
                &&& if before.ingest_results@.dom().contains(key)
                    && before.ingest_results@[key].task.updated_at > result.task.updated_at {
                    &&& reads(after.ingest_results@, key, before.ingest_results@[key])
                    &&& lists(after.parsed_blocks@) == lists(before.parsed_blocks@)
                } else {
                    &&& reads(after.ingest_results@, key, result)
                    &&& after.parsed_blocks@.dom().contains(place)
                    &&& after.parsed_blocks@[place]@ == result.parsed_blocks@
                    &&& same_but(
                        lists(before.parsed_blocks@),
                        lists(after.parsed_blocks@),
                        place,
                    )
                }
                &&& same_but(before.ingest_results@, after.ingest_results@, key)
                &&& after == (StoreData {
                    ingest_results: after.ingest_results,
                    parsed_blocks: after.parsed_blocks,
                    ..before
                })
            },
            ResourceView::EvalCase { case } => {
                &&& reads(after.eval_cases@, case.id@, case)
                &&& same_but(before.eval_cases@, after.eval_cases@, case.id@)
                &&& after == (StoreData { eval_cases: after.eval_cases, ..before })
            },
            ResourceView::EvalRun { run } => {
                &&& reads(after.eval_runs@, run.id@, run)
                &&& same_but(before.eval_runs@, after.eval_runs@, run.id@)
                &&& after == (StoreData { eval_runs: after.eval_runs, ..before })
            },
            ResourceView::EvalOverview { overview } => {
                &&& reads(after.eval_overviews@, overview.run_id@, overview)
                &&& same_but(before.eval_overviews@, after.eval_overviews@, overview.run_id@)
                &&& after == (StoreData { eval_overviews: after.eval_overviews, ..before })
            },
            _ => true,
        },
{
    match resource {
        ResourceView::EnsureUserEventIndex { index } => {
            assert forall|k: Seq<char>| #[trigger]
                before.events_by_index@.dom().contains(k) implies after.events_by_index@.dom().contains(
            k) && after.events_by_index@[k]@ == before.events_by_index@[k]@ by {
                assert(lists(before.events_by_index@).dom().contains(k));
                assert(lists(after.events_by_index@).dom().contains(k));
                assert(lists(after.events_by_index@)[k] == lists(before.events_by_index@)[k]);
            }
            assert forall|k: Seq<char>| #[trigger]
                before.personal_context@.dom().contains(
                k,
            ) implies after.personal_context@.dom().contains(k) && after.personal_context@[k]@
                == before.personal_context@[k]@ by {
                assert(lists(before.personal_context@).dom().contains(k));
                assert(lists(after.personal_context@).dom().contains(k));
                assert(lists(after.personal_context@)[k] == lists(before.personal_context@)[k]);
            }
            assert(lists(after.events_by_index@).dom().contains(index.event_index_uid@));
            assert(lists(after.personal_context@).dom().contains(
                index.personal_context_index_uid@,
            ));
        },
        ResourceView::Insight { insight } => {
            assert(seq![insight.id@].contains(insight.id@)) by {
                assert(seq![insight.id@][0] == insight.id@);
            }
        },
        ResourceView::StructuredSnapshot { snapshot } => {
            assert(seq![snapshot.id@].contains(snapshot.id@)) by {
                assert(seq![snapshot.id@][0] == snapshot.id@);
            }
        },
        ResourceView::IngestResult { result } => {
            let place = DocumentKeyView {
                tenant_id: result.task.tenant_id@,
                owner_user_id: opt_text(result.task.owner_user_id),
                uri: result.source_document_uri@,
            };
            if !(before.ingest_results@.dom().contains(result.task.task_id@)
                && before.ingest_results@[result.task.task_id@].task.updated_at
                > result.task.updated_at) {
                assert(lists(after.parsed_blocks@).dom().contains(place));
                assert(lists(after.parsed_blocks@)[place] == result.parsed_blocks@);
            }
        },
        _ => {},
    }
}

/// Of several records that are published together each is read under its key, where it is the last
/// with that key; those that know their age also have to be no older than what stood there.
pub proof fn each_of_several_published_records_is_read(
    before: StoreData,
    after: StoreData,
    staged: StoreData,
    tenant_id: Seq<char>,
    resource: ResourceView,
    i: int,
)
    requires
        published(before, after, staged, tenant_id, resource),
    ensures
        match resource {
            ResourceView::HistoryEvents { events } => {
                &&& after == (StoreData {
                    event_idempotency: after.event_idempotency,
                    events_by_index: after.events_by_index,
                    event_by_id: after.event_by_id,
                    ..before
                })
                &&& (0 <= i < events.len() && forall|j: int|
                    i < j < events.len() ==> (#[trigger] events[j]).id@ != events[i].id@) ==> {
                    &&& reads(after.event_by_id@, events[i].id@, events[i])
                    &&& after.events_by_index@.dom().contains(events[i].event_index_uid@)
                    &&& after.events_by_index@[events[i].event_index_uid@]@.contains(events[i])
                }
            },
            ResourceView::SourceDocuments { documents } => {
                &&& after == (StoreData { source_documents: after.source_documents, ..before })
                &&& (0 <= i < documents.len() && (forall|j: int|
                    0 <= j < documents.len() && j != i ==> Row::<SourceDocumentKey>::key(
                        #[trigger] &documents[j],
                    ) != document_place(documents[i])) && (before.source_documents@.dom().contains(
                    document_place(documents[i]),
                ) ==> before.source_documents@[document_place(documents[i])].updated_at
                    <= documents[i].updated_at)) ==> reads(
                    after.source_documents@,
                    document_place(documents[i]),
                    documents[i],
                )
            },
            ResourceView::ParseArtifacts { artifacts } => {
                &&& after == (StoreData { parse_artifacts: after.parse_artifacts, ..before })
                &&& (0 <= i < artifacts.len() && forall|j: int|
                    i < j < artifacts.len() ==> Row::<ParseArtifactKey>::key(
                        #[trigger] &artifacts[j],
                    ) != artifact_place(artifacts[i])) ==> reads(
                    after.parse_artifacts@,
                    artifact_place(artifacts[i]),
                    artifacts[i],
                )
            },
            ResourceView::Links { links } => {
                &&& after == (StoreData {
                    links: after.links,
                    link_idempotency: after.link_idempotency,
                    ..before
                })
                &&& (0 <= i < links.len() && (forall|j: int|
                    0 <= j < links.len() && j != i ==> (#[trigger] links[j]).id@ != links[i].id@)
                    && (before.links@.dom().contains(links[i].id@)
                    ==> before.links@[links[i].id@].updated_at <= links[i].updated_at)) ==> reads(
                    after.links@,
                    links[i].id@,
                    links[i],
                )
                &&& forall|k: (Seq<char>, Seq<char>, Seq<char>)| #[trigger]
                    staged.link_idempotency@.dom().contains(k) && 0 <= i < links.len()
                        && staged.link_idempotency@[k]@ == links[i].id@ ==> reads(
                        after.link_idempotency@,
                        k,
                        staged.link_idempotency@[k],
                    )
            },
            ResourceView::HarnessComponents { components, revisions } => {
                &&& after == (StoreData {
                    harness_components: after.harness_components,
                    harness_revisions: after.harness_revisions,
                    ..before
                })
                &&& (0 <= i < components.len() && forall|j: int|
                    i < j < components.len() ==> (#[trigger] components[j]).id@
                        != components[i].id@) ==> reads(
                    after.harness_components@,
                    components[i].id@,
                    components[i],
                )
                &&& (0 <= i < revisions.len() && forall|j: int|
                    i < j < revisions.len() ==> (#[trigger] revisions[j]).id@ != revisions[i].id@)
                    ==> {
                    &&& after.harness_revisions@.dom().contains(revisions[i].component_id@)
                    &&& after.harness_revisions@[revisions[i].component_id@]@.contains(
                        revisions[i],
                    )
                }
            },
            ResourceView::HarnessChanges { changes } => {
                &&& after == (StoreData { harness_changes: after.harness_changes, ..before })
                &&& (0 <= i < changes.len() && forall|j: int|
                    i < j < changes.len() ==> (#[trigger] changes[j]).id@ != changes[i].id@)
                    ==> reads(after.harness_changes@, changes[i].id@, changes[i])
            },
            ResourceView::HarnessVerdicts { verdicts } => {
                &&& after == (StoreData { harness_verdicts: after.harness_verdicts, ..before })
                &&& (0 <= i < verdicts.len() && forall|j: int|
                    i < j < verdicts.len() ==> (#[trigger] verdicts[j]).id@ != verdicts[i].id@)
                    ==> reads(after.harness_verdicts@, verdicts[i].id@, verdicts[i])
            },
            ResourceView::IngestTasks { tasks } => {
                &&& after == (StoreData { ingest_tasks: after.ingest_tasks, ..before })
                &&& (0 <= i < tasks.len() && (forall|j: int|
                    0 <= j < tasks.len() && j != i ==> (#[trigger] tasks[j]).task_id@
                        != tasks[i].task_id@) && (before.ingest_tasks@.dom().contains(
                    tasks[i].task_id@,
                ) ==> before.ingest_tasks@[tasks[i].task_id@].updated_at <= tasks[i].updated_at))
                    ==> reads(after.ingest_tasks@, tasks[i].task_id@, tasks[i])
            },
            ResourceView::EvalCaseResults { results } => {
                &&& after == (StoreData { eval_case_results: after.eval_case_results, ..before })
                &&& (0 <= i < results.len() && forall|j: int|
                    i < j < results.len() ==> (#[trigger] results[j]).id@ != results[i].id@)
                    ==> reads(after.eval_case_results@, results[i].id@, results[i])
            },
            _ => true,
        },
{
    match resource {
        ResourceView::HistoryEvents { events } => {
            if 0 <= i < events.len() && forall|j: int|
                i < j < events.len() ==> (#[trigger] events[j]).id@ != events[i].id@ {
                assert forall|j: int| i < j < events.len() implies Row::<String>::key(
                    #[trigger] &events[j],
                ) != Row::<String>::key(&events[i]) by {
                    assert(events[j].id@ != events[i].id@);
                }
                what_is_put_is_read::<String, HistoryEvent>(before.event_by_id@, events, i);
                lemma_event_listed(lists(before.events_by_index@), events, i);
                let m = lists(after.events_by_index@);
                assert(m.dom().contains(events[i].event_index_uid@));
            }
        },
        ResourceView::SourceDocuments { documents } => {
            if 0 <= i < documents.len() && (forall|j: int|
                0 <= j < documents.len() && j != i ==> Row::<SourceDocumentKey>::key(
                    #[trigger] &documents[j],
                ) != document_place(documents[i])) && (before.source_documents@.dom().contains(
                document_place(documents[i]),
            ) ==> before.source_documents@[document_place(documents[i])].updated_at
                <= documents[i].updated_at) {
                assert(Row::<SourceDocumentKey>::key(&documents[i]) == document_place(documents[i]));
                what_is_merged_is_read::<SourceDocumentKey, _>(
                    before.source_documents@,
                    documents,
                    i,
                );
            }
        },
        ResourceView::ParseArtifacts { artifacts } => {
            if 0 <= i < artifacts.len() && forall|j: int|
                i < j < artifacts.len() ==> Row::<ParseArtifactKey>::key(#[trigger] &artifacts[j])
                    != artifact_place(artifacts[i]) {
                assert(Row::<ParseArtifactKey>::key(&artifacts[i]) == artifact_place(artifacts[i]));
                what_is_put_is_read::<ParseArtifactKey, _>(before.parse_artifacts@, artifacts, i);
            }
        },
        ResourceView::Links { links } => {
            if 0 <= i < links.len() {
                let ids = crate::publish::link_ids_of(links);
                assert(ids[i] == links[i].id@);
                assert(ids.contains(links[i].id@));
                if (forall|j: int|
                    0 <= j < links.len() && j != i ==> (#[trigger] links[j]).id@ != links[i].id@)
                    && (before.links@.dom().contains(links[i].id@)
                    ==> before.links@[links[i].id@].updated_at <= links[i].updated_at) {
                    assert forall|j: int| 0 <= j < links.len() && j != i implies Row::<
                        String,
                    >::key(#[trigger] &links[j]) != Row::<String>::key(&links[i]) by {
                        assert(links[j].id@ != links[i].id@);
                    }
                    what_is_merged_is_read::<String, _>(before.links@, links, i);
                }
            }
        },
        ResourceView::HarnessComponents { components, revisions } => {
            if 0 <= i < components.len() && forall|j: int|
                i < j < components.len() ==> (#[trigger] components[j]).id@ != components[i].id@ {
                assert forall|j: int| i < j < components.len() implies Row::<String>::key(
                    #[trigger] &components[j],
                ) != Row::<String>::key(&components[i]) by {
                    assert(components[j].id@ != components[i].id@);
                }
                what_is_put_is_read::<String, _>(before.harness_components@, components, i);
            }
            if 0 <= i < revisions.len() && forall|j: int|
                i < j < revisions.len() ==> (#[trigger] revisions[j]).id@ != revisions[i].id@ {
                lemma_revision_listed(lists(before.harness_revisions@), revisions, i);
                let m = lists(after.harness_revisions@);
                assert(m.dom().contains(revisions[i].component_id@));
            }
        },
        ResourceView::HarnessChanges { changes } => {
            if 0 <= i < changes.len() && forall|j: int|
                i < j < changes.len() ==> (#[trigger] changes[j]).id@ != changes[i].id@ {
                assert forall|j: int| i < j < changes.len() implies Row::<String>::key(
                    #[trigger] &changes[j],
                ) != Row::<String>::key(&changes[i]) by {
                    assert(changes[j].id@ != changes[i].id@);
                }
                what_is_put_is_read::<String, _>(before.harness_changes@, changes, i);
            }
        },
        ResourceView::HarnessVerdicts { verdicts } => {
            if 0 <= i < verdicts.len() && forall|j: int|
                i < j < verdicts.len() ==> (#[trigger] verdicts[j]).id@ != verdicts[i].id@ {
                assert forall|j: int| i < j < verdicts.len() implies Row::<String>::key(
                    #[trigger] &verdicts[j],
                ) != Row::<String>::key(&verdicts[i]) by {
                    assert(verdicts[j].id@ != verdicts[i].id@);
                }
                what_is_put_is_read::<String, _>(before.harness_verdicts@, verdicts, i);
            }
        },
        ResourceView::IngestTasks { tasks } => {
            if 0 <= i < tasks.len() && (forall|j: int|
                0 <= j < tasks.len() && j != i ==> (#[trigger] tasks[j]).task_id@
                    != tasks[i].task_id@) && (before.ingest_tasks@.dom().contains(
                tasks[i].task_id@,
            ) ==> before.ingest_tasks@[tasks[i].task_id@].updated_at <= tasks[i].updated_at) {
                assert forall|j: int| 0 <= j < tasks.len() && j != i implies Row::<String>::key(
                    #[trigger] &tasks[j],
                ) != Row::<String>::key(&tasks[i]) by {
                    assert(tasks[j].task_id@ != tasks[i].task_id@);
                }
                what_is_merged_is_read::<String, _>(before.ingest_tasks@, tasks, i);
            }
        },
        ResourceView::EvalCaseResults { results } => {
            if 0 <= i < results.len() && forall|j: int|
                i < j < results.len() ==> (#[trigger] results[j]).id@ != results[i].id@ {
                assert forall|j: int| i < j < results.len() implies Row::<String>::key(
                    #[trigger] &results[j],
                ) != Row::<String>::key(&results[i]) by {
                    assert(results[j].id@ != results[i].id@);
                }
                what_is_put_is_read::<String, _>(before.eval_case_results@, results, i);
            }
        },
        _ => {},
    }
}

/// Where a document stands: with its tenant and owner, under its URI.
pub open spec fn document_place(document: crate::model::ingest::SourceDocument) -> DocumentKeyView {
    DocumentKeyView {
        tenant_id: document.tenant_id@,
        owner_user_id: opt_text(document.owner_user_id),
        uri: document.uri@,
    }
}

/// Where an artifact stands: with its tenant and owner, under its URI and id.
pub open spec fn artifact_place(artifact: crate::model::ingest::ParseArtifact) -> ArtifactKeyView {
    Row::<ParseArtifactKey>::key(&artifact)
}

proof fn lemma_put_keeps<T>(s: Seq<T>, x: T, p: spec_fn(T) -> bool, y: T)
    ensures
        put_first(s, x, p).contains(x),
        s.contains(y) && !p(y) ==> put_first(s, x, p).contains(y),
{
    first_where_facts(s, p);
    let n = first_where(s, p);
    let r = put_first(s, x, p);
    assert(r[n] == x);
    if s.contains(y) && !p(y) {
        let k = choose|k: int| 0 <= k < s.len() && s[k] == y;
        assert(r[k] == y);
    }
}

proof fn lemma_event_listed(
    m: Map<Seq<char>, Seq<HistoryEvent>>,
    events: Seq<HistoryEvent>,
    i: int,
)
    requires
        0 <= i < events.len(),
        forall|j: int| i < j < events.len() ==> (#[trigger] events[j]).id@ != events[i].id@,
    ensures
        with_events(m, events).dom().contains(events[i].event_index_uid@),
        with_events(m, events)[events[i].event_index_uid@].contains(events[i]),
    decreases events.len(),
{
    let event = events.last();
    let front = events.drop_last();
    let rest = with_events(m, front);
    let p = |existing: HistoryEvent| existing.id@ == event.id@;
    lemma_put_keeps(list_at(rest, event.event_index_uid@), event, p, events[i]);
    if i < events.len() - 1 {
        assert(events[events.len() - 1].id@ != events[i].id@);
        assert forall|j: int| i < j < front.len() implies (#[trigger] front[j]).id@
            != front[i].id@ by {
            assert(events[j].id@ != events[i].id@);
        }
        lemma_event_listed(m, front, i);
    }
}

proof fn lemma_revision_listed(
    m: Map<Seq<char>, Seq<HarnessComponentRevision>>,
    revisions: Seq<HarnessComponentRevision>,
    i: int,
)
    requires
        0 <= i < revisions.len(),
        forall|j: int|
            i < j < revisions.len() ==> (#[trigger] revisions[j]).id@ != revisions[i].id@,
    ensures
        with_component_revisions(m, revisions).dom().contains(revisions[i].component_id@),
        with_component_revisions(m, revisions)[revisions[i].component_id@].contains(revisions[i]),
    decreases revisions.len(),
{
    let revision = revisions.last();
    let front = revisions.drop_last();
    let rest = with_component_revisions(m, front);
    let p = |existing: HarnessComponentRevision| existing.id@ == revision.id@;
    let lt = |a: HarnessComponentRevision, b: HarnessComponentRevision| a.iteration < b.iteration;
    let list = list_at(rest, revision.component_id@);
    lemma_put_keeps(list, revision, p, revisions[i]);
    sorting_keeps_members(put_first(list, revision, p), lt, revisions[i]);
    if i < revisions.len() - 1 {
        assert(revisions[revisions.len() - 1].id@ != revisions[i].id@);
        assert forall|j: int| i < j < front.len() implies (#[trigger] front[j]).id@
            != front[i].id@ by {
            assert(revisions[j].id@ != revisions[i].id@);
        }
        lemma_revision_listed(m, front, i);
    }
}

/// A revision of a source that is published is among those of its source, and the others stay; they
/// stand by age.
pub proof fn a_published_revision_is_listed(
    before: StoreData,
    after: StoreData,
    staged: StoreData,
    tenant_id: Seq<char>,
    revision: SourceRevision,
    other: SourceRevision,
    i: int,
    j: int,
)
    requires
        published(before, after, staged, tenant_id, ResourceView::SourceRevision { revision }),
    ensures
        after == (StoreData { source_revisions: after.source_revisions, ..before }),
        after.source_revisions@.dom().contains(revision.source_id@),
        after.source_revisions@[revision.source_id@]@.contains(revision),
        before.source_revisions@.dom().contains(revision.source_id@)
            && before.source_revisions@[revision.source_id@]@.contains(other) && other.id@
            != revision.id@ ==> after.source_revisions@[revision.source_id@]@.contains(other),
        0 <= i < j < after.source_revisions@[revision.source_id@]@.len()
            ==> after.source_revisions@[revision.source_id@]@[i].created_at
            <= after.source_revisions@[revision.source_id@]@[j].created_at,
        same_but(
            lists(before.source_revisions@),
            lists(after.source_revisions@),
            revision.source_id@,
        ),
{
    let list = list_at(lists(before.source_revisions@), revision.source_id@);
    let p = |existing: SourceRevision| existing.id@ == revision.id@;
    let lt = |a: SourceRevision, b: SourceRevision| a.created_at < b.created_at;
    let put = put_first(list, revision, p);
    lemma_put_keeps(list, revision, p, other);
    sorting_keeps_members(put, lt, revision);
    sorting_keeps_members(put, lt, other);
    assert(crate::order::strict_order(lt));
    crate::order::sorted_by_is_in_order(put, lt);
    let m = lists(after.source_revisions@);
    assert(m.dom().contains(revision.source_id@));
    let r = m[revision.source_id@];
    assert(r == crate::order::sorted_by(put, lt));
    if 0 <= i < j < r.len() {
        assert(!lt(r[j], r[i]));
    }
}

/// A node of the company that is published stands in the company's index, unless a newer one stands
/// in its place.
pub proof fn a_published_company_node_is_in_its_index(
    before: StoreData,
    after: StoreData,
    staged: StoreData,
    tenant_id: Seq<char>,
    nodes: Seq<ContextNode>,
    i: int,
)
    requires
        published(
            before,
            after,
            staged,
            tenant_id,
            ResourceView::ContextNodes { index_uid: "rag_company_context"@, nodes },
        ),
        0 <= i < nodes.len(),
    ensures
        after == (StoreData { company_context: after.company_context, ..before }),
        exists|k: int|
            {
                &&& 0 <= k < after.company_context@.len()
                &&& (#[trigger] after.company_context@[k]).tenant_id@ == nodes[i].tenant_id@
                &&& after.company_context@[k].uri@ == nodes[i].uri@
                &&& after.company_context@[k].layer == nodes[i].layer
                &&& after.company_context@[k].updated_at >= nodes[i].updated_at
            },
{
    assert(crate::publish::COMPANY_CONTEXT_INDEX@ == "rag_company_context"@);
    let k = lemma_node_placed(before.company_context@, nodes, i);
    assert(after.company_context@[k].uri@ == nodes[i].uri@);
}

/// A node of an owner that is published stands in the owner's index, unless a newer one stands in
/// its place.
pub proof fn a_published_personal_node_is_in_its_index(
    before: StoreData,
    after: StoreData,
    staged: StoreData,
    tenant_id: Seq<char>,
    index_uid: Seq<char>,
    nodes: Seq<ContextNode>,
    i: int,
)
    requires
        published(
            before,
            after,
            staged,
            tenant_id,
            ResourceView::ContextNodes { index_uid, nodes },
        ),
        index_uid != "rag_company_context"@,
        0 <= i < nodes.len(),
    ensures
        after == (StoreData { personal_context: after.personal_context, ..before }),
        after.personal_context@.dom().contains(index_uid),
        same_but(lists(before.personal_context@), lists(after.personal_context@), index_uid),
        exists|k: int|
            {
                &&& 0 <= k < after.personal_context@[index_uid]@.len()
                &&& (#[trigger] after.personal_context@[index_uid]@[k]).tenant_id@
                    == nodes[i].tenant_id@
                &&& after.personal_context@[index_uid]@[k].uri@ == nodes[i].uri@
                &&& after.personal_context@[index_uid]@[k].layer == nodes[i].layer
                &&& after.personal_context@[index_uid]@[k].updated_at >= nodes[i].updated_at
            },
{
    assert(crate::publish::COMPANY_CONTEXT_INDEX@ == "rag_company_context"@);
    let was = list_at(lists(before.personal_context@), index_uid);
    let m = lists(after.personal_context@);
    assert(m.dom().contains(index_uid));
    assert(m[index_uid] == with_nodes(was, nodes));
    let k = lemma_node_placed(was, nodes, i);
    assert(after.personal_context@[index_uid]@[k].uri@ == nodes[i].uri@);
}

pub(crate) proof fn lemma_node_placed(target: Seq<ContextNode>, nodes: Seq<ContextNode>, i: int) -> (k: int)
    requires
        0 <= i < nodes.len(),
    ensures
        0 <= k < with_nodes(target, nodes).len(),
        with_nodes(target, nodes)[k].tenant_id@ == nodes[i].tenant_id@,
        with_nodes(target, nodes)[k].uri@ == nodes[i].uri@,
        with_nodes(target, nodes)[k].layer == nodes[i].layer,
        with_nodes(target, nodes)[k].updated_at >= nodes[i].updated_at,
    decreases nodes.len(),
{
    let front = nodes.drop_last();
    let mid = with_nodes(target, front);
    let last = nodes.last();
    let p = |existing: ContextNode| crate::merge::same_place(existing, last);
    first_where_facts(mid, p);
    let at = first_where(mid, p);
    if i < nodes.len() - 1 {
        let k = lemma_node_placed(target, front, i);
        k
    } else {
        if at < mid.len() {
            assert(p(mid[at]));
        }
        at
    }
}

/// A row that is published stands among those of its snapshot.
pub proof fn a_published_row_is_in_its_snapshot(
    before: StoreData,
    after: StoreData,
    staged: StoreData,
    tenant_id: Seq<char>,
    rows: Seq<Json>,
    i: int,
    snapshot_id: Seq<char>,
    id: Seq<char>,
)
    requires
        published(before, after, staged, tenant_id, ResourceView::StructuredRows { rows }),
        0 <= i < rows.len(),
        text_member(rows[i], "snapshot_id"@) == Some(snapshot_id),
        text_member(rows[i], "id"@) == Some(id),
        forall|j: int| i < j < rows.len() ==> text_member(#[trigger] rows[j], "id"@) != Some(id),
    ensures
        after.rows_by_snapshot@.dom().contains(snapshot_id),
        after.rows_by_snapshot@[snapshot_id]@.contains(rows[i]),
        after.row_idempotency@.dom().contains((snapshot_id, id)),
{
    lemma_row_listed(lists(before.rows_by_snapshot@), rows, i, snapshot_id, id);
    let m = lists(after.rows_by_snapshot@);
    assert(m.dom().contains(snapshot_id));
    lemma_row_known(before.row_idempotency@, rows, i, snapshot_id, id);
}

proof fn lemma_row_known(
    m: Map<(Seq<char>, Seq<char>), ()>,
    rows: Seq<Json>,
    i: int,
    snapshot_id: Seq<char>,
    id: Seq<char>,
)
    requires
        0 <= i < rows.len(),
        text_member(rows[i], "snapshot_id"@) == Some(snapshot_id),
        text_member(rows[i], "id"@) == Some(id),
    ensures
        crate::publish::with_row_ids(m, rows).dom().contains((snapshot_id, id)),
    decreases rows.len(),
{
    if i < rows.len() - 1 {
        lemma_row_known(m, rows.drop_last(), i, snapshot_id, id);
    }
}

proof fn lemma_row_listed(
    m: Map<Seq<char>, Seq<Json>>,
    rows: Seq<Json>,
    i: int,
    snapshot_id: Seq<char>,
    id: Seq<char>,
)
    requires
        0 <= i < rows.len(),
        text_member(rows[i], "snapshot_id"@) == Some(snapshot_id),
        text_member(rows[i], "id"@) == Some(id),
        forall|j: int| i < j < rows.len() ==> text_member(#[trigger] rows[j], "id"@) != Some(id),
    ensures
        with_rows(m, rows).dom().contains(snapshot_id),
        with_rows(m, rows)[snapshot_id].contains(rows[i]),
    decreases rows.len(),
{
    let row = rows.last();
    let front = rows.drop_last();
    let rest = with_rows(m, front);
    if i < rows.len() - 1 {
        assert(text_member(rows[rows.len() - 1], "id"@) != Some(id));
        assert forall|j: int| i < j < front.len() implies text_member(#[trigger] front[j], "id"@)
            != Some(id) by {
            assert(text_member(rows[j], "id"@) != Some(id));
        }
        lemma_row_listed(m, front, i, snapshot_id, id);
        match text_member(row, "snapshot_id"@) {
            Some(other) => {
                let list = list_at(rest, other);
                match text_member(row, "id"@) {
                    Some(name) => {
                        let p = |existing: Json| text_member(existing, "id"@) == Some(name);
                        lemma_put_keeps(list, row, p, rows[i]);
                    },
                    None => {
                        if list.contains(rows[i]) {
                            let k = choose|k: int| 0 <= k < list.len() && list[k] == rows[i];
                            assert(list.push(row)[k] == rows[i]);
                        }
                    },
                }
            },
            None => {},
        }
    } else {
        let list = list_at(rest, snapshot_id);
        let p = |existing: Json| text_member(existing, "id"@) == Some(id);
        lemma_put_keeps(list, row, p, row);
    }
}

/// Once the deletion of a company source was published nothing of the source is left where it was
/// deleted, and nothing of others is gone.
pub proof fn a_published_deletion_takes_the_source_alone(
    before: StoreData,
    after: StoreData,
    staged: StoreData,
    tenant_id: Seq<char>,
    source_id: Seq<char>,
    target: DeleteTargetView,
    node: ContextNode,
)
    requires
        published(
            before,
            after,
            staged,
            tenant_id,
            ResourceView::DeleteCompanySourceIndex { source_id, target },
        ),
    ensures
        match target {
            DeleteTargetView::Fragments => {
                &&& after.company_context@.contains(node) <==> {
                    &&& before.company_context@.contains(node)
                    &&& !(node.tenant_id@ == tenant_id && opt_text(node.source_id) == Some(
                        source_id,
                    ))
                }
                &&& after == (StoreData { company_context: after.company_context, ..before })
            },
            DeleteTargetView::Source => {
                &&& after.sources@.dom().contains(source_id) ==> after.sources@[source_id].tenant_id@
                    != tenant_id
                &&& same_but(before.sources@, after.sources@, source_id)
                &&& before.sources@.dom().contains(source_id)
                    && before.sources@[source_id].tenant_id@ != tenant_id ==> reads(
                    after.sources@,
                    source_id,
                    before.sources@[source_id],
                )
                &&& after == (StoreData { sources: after.sources, ..before })
            },
            DeleteTargetView::SourceDocuments => {
                &&& forall|k: DocumentKeyView| #[trigger]
                    after.source_documents@.dom().contains(k) <==> {
                        &&& before.source_documents@.dom().contains(k)
                        &&& !(before.source_documents@[k].tenant_id@ == tenant_id
                            && before.source_documents@[k].owner_user_id is None
                            && before.source_documents@[k].source_id@ == source_id)
                    }
                &&& forall|k: DocumentKeyView| #[trigger]
                    after.source_documents@.dom().contains(k) ==> after.source_documents@[k]
                        == before.source_documents@[k]
                &&& after == (StoreData {
                    source_documents: after.source_documents,
                    parsed_blocks: after.parsed_blocks,
                    ..before
                })
            },
            DeleteTargetView::ParseArtifacts => {
                &&& forall|k: ArtifactKeyView| #[trigger]
                    after.parse_artifacts@.dom().contains(k) <==> {
                        &&& before.parse_artifacts@.dom().contains(k)
                        &&& !(before.parse_artifacts@[k].tenant_id@ == tenant_id
                            && before.parse_artifacts@[k].owner_user_id is None
                            && before.parse_artifacts@[k].source_id@ == source_id)
                    }
                &&& forall|k: ArtifactKeyView| #[trigger]
                    after.parse_artifacts@.dom().contains(k) ==> after.parse_artifacts@[k]
                        == before.parse_artifacts@[k]
                &&& after == (StoreData { parse_artifacts: after.parse_artifacts, ..before })
            },
            DeleteTargetView::IngestTasks => {
                &&& forall|k: Seq<char>| #[trigger]
                    after.ingest_tasks@.dom().contains(k) <==> {
                        &&& before.ingest_tasks@.dom().contains(k)
                        &&& !(before.ingest_tasks@[k].tenant_id@ == tenant_id
                            && before.ingest_tasks@[k].owner_user_id is None
                            && before.ingest_tasks@[k].source_id@ == source_id)
                    }
                &&& forall|k: Seq<char>| #[trigger]
                    after.ingest_tasks@.dom().contains(k) ==> after.ingest_tasks@[k]
                        == before.ingest_tasks@[k]
                &&& after == (StoreData { ingest_tasks: after.ingest_tasks, ..before })
            },
            DeleteTargetView::IngestResults => {
                &&& forall|k: Seq<char>| #[trigger]
                    after.ingest_results@.dom().contains(k) <==> {
                        &&& before.ingest_results@.dom().contains(k)
                        &&& !(before.ingest_results@[k].task.tenant_id@ == tenant_id
                            && before.ingest_results@[k].task.owner_user_id is None
                            && before.ingest_results@[k].source_id@ == source_id)
                    }
                &&& forall|k: Seq<char>| #[trigger]
                    after.ingest_results@.dom().contains(k) ==> after.ingest_results@[k]
                        == before.ingest_results@[k]
                &&& after == (StoreData { ingest_results: after.ingest_results, ..before })
            },
            DeleteTargetView::Links { link_ids, related_uris } => {
                &&& forall|k: Seq<char>| #[trigger]
                    after.links@.dom().contains(k) <==> {
                        &&& before.links@.dom().contains(k)
                        &&& !(before.links@[k].tenant_id@ == tenant_id && link_ids.contains(k))
                    }
                &&& forall|k: Seq<char>| #[trigger]
                    after.links@.dom().contains(k) ==> after.links@[k] == before.links@[k]
                &&& after == (StoreData {
                    links: after.links,
                    link_idempotency: after.link_idempotency,
                    ..before
                })
            },
            DeleteTargetView::Revisions => {
                &&& after.source_revisions@.dom().contains(source_id) ==> forall|i: int|
                    0 <= i < after.source_revisions@[source_id]@.len() ==> (
                    #[trigger] after.source_revisions@[source_id]@[i]).tenant_id@ != tenant_id
                &&& same_but(
                    lists(before.source_revisions@),
                    lists(after.source_revisions@),
                    source_id,
                )
                &&& after == (StoreData { source_revisions: after.source_revisions, ..before })
            },
        },
{
    match target {
        DeleteTargetView::Fragments => {
            let p = crate::publish::not_from_source(tenant_id, source_id);
            a_filter_keeps_what_it_accepts(before.company_context@, p, node);
        },
        DeleteTargetView::Revisions => {
            let m = lists(after.source_revisions@);
            if after.source_revisions@.dom().contains(source_id) {
                assert(m.dom().contains(source_id));
                let p = crate::publish::of_another_tenant(tenant_id);
                let was = list_at(lists(before.source_revisions@), source_id);
                assert(m[source_id] == was.filter(p));
                assert forall|i: int| 0 <= i < after.source_revisions@[source_id]@.len() implies (
                #[trigger] after.source_revisions@[source_id]@[i]).tenant_id@ != tenant_id by {
                    let x = was.filter(p)[i];
                    assert(was.filter(p).contains(x));
                    a_filter_keeps_what_it_accepts(was, p, x);
                }
            }
        },
        _ => {},
    }
}

/// Once ingest tasks were deleted they are gone with their results and the blocks of these; all
/// others stay.
pub proof fn deleted_tasks_are_gone(
    before: StoreData,
    after: StoreData,
    staged: StoreData,
    tenant_id: Seq<char>,
    task_ids: Seq<Seq<char>>,
    id: Seq<char>,
)
    requires
        published(before, after, staged, tenant_id, ResourceView::DeleteIngestTasks { task_ids }),
    ensures
        task_ids.contains(id) ==> !after.ingest_tasks@.dom().contains(id)
            && !after.ingest_results@.dom().contains(id),
        !task_ids.contains(id) && before.ingest_tasks@.dom().contains(id) ==> reads(
            after.ingest_tasks@,
            id,
            before.ingest_tasks@[id],
        ),
        !task_ids.contains(id) && before.ingest_results@.dom().contains(id) ==> reads(
            after.ingest_results@,
            id,
            before.ingest_results@[id],
        ),
        task_ids.contains(id) && before.ingest_results@.dom().contains(id)
            ==> !after.parsed_blocks@.dom().contains(
            DocumentKeyView {
                tenant_id: before.ingest_results@[id].task.tenant_id@,
                owner_user_id: opt_text(before.ingest_results@[id].task.owner_user_id),
                uri: before.ingest_results@[id].source_document_uri@,
            },
        ),
        after == (StoreData {
            ingest_tasks: after.ingest_tasks,
            ingest_results: after.ingest_results,
            parsed_blocks: after.parsed_blocks,
            ..before
        }),
{
}

} // verus!
