//! What may be asked for, and what is made of it.

use vstd::prelude::*;

use crate::analysis::{
    AnalysisInsightMaterialization, AnalysisLinkMaterialization, AnalysisMaterializationRequest,
};
use crate::execution::step_action;
use crate::insights::insight_uri;
use crate::json::Json;
use crate::materialize::{
    batch_fault, batch_insights_fault, batch_links_fault, proposed_key, proposed_keys,
    proposed_uris,
};
use crate::model::harness::RagEvalCase;
use crate::model::knowledge::UserEventIndex;
use crate::model::operation::{OperationRecord, OperationStepStatus, ResourceView};
use crate::nodes::link_uri;
use crate::operations::{
    mutation_waits, progress_of, step_waits, step_with, MutationPrimary, StepAction,
    WriteConsistency,
};
use crate::query::{filter_owner, filters_fault, first_unknown, searched_owner};
use crate::reading::prefix_or_root;
use crate::reconcile::candidates_fault;
use crate::routing::{record_fault, registry_of};
use crate::runs::cases_with;
use crate::search::{search_refusal, ContextSearchRequest};
use crate::tasks::{brought_text, text_for_artifacts, IngestTaskRequest};
use crate::text::{blank, lowered, opt_text, texts, trimmed};

verus! {

/// Whether a name is one of the extras that can be asked for, or none.
pub open spec fn is_extra(value: Seq<char>) -> bool {
    let name = lowered(trimmed(value));
    name == ""@ || name == "traceback"@ || name == "links"@ || name == "neighbor_fragments"@ || name
        == "source_summary"@ || name == "artifact_refs"@ || name == "score_breakdown"@ || name
        == "raw_stage_debug"@
}

/// Whether a name is one of the profiles that can be asked for, or none.
pub open spec fn is_profile(value: Seq<char>) -> bool {
    let name = lowered(trimmed(value));
    name == ""@ || name == "standard"@ || name == "compact"@ || name == "full"@
}

/// No extra is unknown if each is known.
proof fn lemma_extras(values: Seq<Seq<char>>)
    ensures
        first_unknown(values) is None <==> forall|i: int|
            0 <= i < values.len() ==> is_extra(#[trigger] values[i]),
    decreases values.len(),
{
    if values.len() > 0 {
        let front = values.drop_last();
        let n = values.len() - 1;
        lemma_extras(front);
        assert(forall|i: int| 0 <= i < n ==> #[trigger] front[i] == values[i]);
        assert(values.last() == values[n]);
        if first_unknown(values) is None {
            assert forall|i: int| 0 <= i < values.len() implies is_extra(#[trigger] values[i]) by {
                if i < n {
                    assert(front[i] == values[i]);
                }
            }
        }
    }
}

/// A search is taken if and only if it asks something, tells one owner at most, has filters that
/// can be read, and asks for no extra and no profile that is not known.
pub proof fn a_search_is_refused(req: ContextSearchRequest)
    ensures
        search_refusal(req) is None <==> {
            &&& req.query is Some && !blank(req.query->0@)
            &&& searched_owner(opt_text(req.owner_user_id), req.filters) is Ok
            &&& filters_fault(req.filters) is None
            &&& forall|i: int|
                0 <= i < texts(req.extras@).len() ==> is_extra(#[trigger] texts(req.extras@)[i])
            &&& is_profile(req.return_profile@)
        },
{
    lemma_extras(texts(req.extras@));
}

/// The owner that is searched for is the one that is told; told twice, it has to be the same.
pub proof fn a_search_has_one_owner(owner: Option<Seq<char>>, filters: Json)
    ensures
        ({
            let r = searched_owner(owner, filters);
            let named = filter_owner(filters);
            &&& r is Err <==> owner is Some && named is Some && owner->0 != named->0
            &&& r is Ok && owner is Some ==> r->Ok_0 == owner
            &&& r is Ok && owner is None ==> r->Ok_0 == named
        }),
{
}

/// The cases that are chosen are those that are named, in the order they are named in; if one of
/// them is not there, none is chosen.
pub proof fn the_cases_named_are_chosen(m: Map<Seq<char>, RagEvalCase>, ids: Seq<Seq<char>>)
    ensures
        cases_with(m, ids) is Some <==> forall|i: int|
            0 <= i < ids.len() ==> m.dom().contains(#[trigger] ids[i]),
        cases_with(m, ids) is Some ==> {
            &&& cases_with(m, ids)->0.len() == ids.len()
            &&& forall|i: int|
                0 <= i < ids.len() ==> cases_with(m, ids)->0[i] == m[#[trigger] ids[i]]
        },
    decreases ids.len(),
{
    if ids.len() > 0 {
        let front = ids.drop_last();
        let n = ids.len() - 1;
        the_cases_named_are_chosen(m, front);
        assert(forall|i: int| 0 <= i < n ==> #[trigger] front[i] == ids[i]);
        assert(ids.last() == ids[n]);
        if cases_with(m, ids) is Some {
            assert forall|i: int| 0 <= i < ids.len() implies m.dom().contains(
                #[trigger] ids[i],
            ) && cases_with(m, ids)->0[i] == m[ids[i]] by {
                if i < n {
                    assert(front[i] == ids[i]);
                }
            }
        }
    }
}

/// A step that is done is finished with; one that was handed in is waited for, if it is to be
/// waited for, by the tasks that it was handed in as; any other is handed in.
pub proof fn a_step_is_taken_on(record: OperationRecord, step_id: Seq<char>, wait_for_index: bool)
    ensures
        ({
            let action = step_action(record, step_id, wait_for_index);
            let status = progress_of(record, step_id).status;
            let step = step_with(record.plan, step_id);
            let waits = wait_for_index || step.resource@ is EnsureUserEventIndex;
            &&& status == OperationStepStatus::Completed ==> action is Finished
            &&& status == OperationStepStatus::Submitted && waits ==> action == (
            StepAction::AwaitTasks { task_uids: progress_of(record, step_id).task_uids })
            &&& status == OperationStepStatus::Submitted && !waits ==> action is Finished
            &&& status != OperationStepStatus::Completed && status != OperationStepStatus::Submitted
                ==> action == (StepAction::Submit { step })
        }),
{
}

/// A mutation waits for the index where that is asked for, and always where it makes an index,
/// takes on an analysis, or deletes.
pub proof fn a_mutation_waits_for_the_index(consistency: WriteConsistency, kind: MutationPrimary)
    ensures
        mutation_waits(consistency, kind) <==> consistency == WriteConsistency::WaitForIndex || kind
            == MutationPrimary::UserIndex || kind == MutationPrimary::AnalysisMaterialization || kind
            == MutationPrimary::DeleteCompanySource || kind == MutationPrimary::DeleteIngestTasks,
{
}

/// An index is always waited for, and anything else where that is asked for.
pub proof fn an_index_is_always_waited_for(resource: ResourceView, wait_for_index: bool)
    ensures
        step_waits(resource, wait_for_index) <==> wait_for_index || resource
            is EnsureUserEventIndex,
{
}

/// The text of a task is what was given as text; there is none where the task has a parser of its
/// own or gives neither text nor bytes.
pub proof fn the_text_of_a_task_is_what_was_given(req: IngestTaskRequest, uses_builtin_parser: bool)
    ensures
        !uses_builtin_parser && req.content is Some ==> brought_text(req, uses_builtin_parser)
            == req.content->0@,
        uses_builtin_parser || (req.content is None && req.bytes is None) ==> brought_text(
            req,
            uses_builtin_parser,
        ) =~= Seq::empty(),
{
}

/// What artifacts are made from is the text itself where there is any, else what the parser wrote
/// of an upload, else what was staged.
pub proof fn artifacts_are_made_from_the_text(
    original: Seq<char>,
    staged_builtin_upload: bool,
    markdown: Option<Seq<char>>,
    staged: Option<Seq<char>>,
)
    ensures
        ({
            let r = text_for_artifacts(original, staged_builtin_upload, markdown, staged);
            &&& original.len() > 0 ==> r == original
            &&& original.len() == 0 && staged_builtin_upload && markdown is Some ==> r
                == markdown->0
            &&& original.len() == 0 && !staged_builtin_upload && staged is Some ==> r == staged->0
        }),
{
}

/// A listing is of the address that is given, and of all where none is.
pub proof fn a_listing_is_of_its_address(uri: Option<Seq<char>>)
    ensures
        uri is Some ==> prefix_or_root(uri) == uri->0,
        uri is None ==> prefix_or_root(uri) == "ctx://"@,
{
}

/// Whether a link can be proposed.
pub open spec fn can_be_proposed(link: AnalysisLinkMaterialization) -> bool {
    !blank(link.source_uri@) && !blank(link.target_uri@) && link_uri(link.source_uri@) != link_uri(
        link.target_uri@,
    )
}

/// Links can be taken on together if each can be and no two are the same.
proof fn lemma_batch_links(
    tenant_id: Seq<char>,
    owner: Seq<char>,
    links: Seq<AnalysisLinkMaterialization>,
)
    ensures
        batch_links_fault(tenant_id, owner, links) is None <==> {
            &&& forall|i: int| 0 <= i < links.len() ==> can_be_proposed(#[trigger] links[i])
            &&& forall|i: int, j: int|
                0 <= i < j < links.len() ==> proposed_key(tenant_id, owner, #[trigger] links[i])
                    != proposed_key(tenant_id, owner, #[trigger] links[j])
        },
    decreases links.len(),
{
    if links.len() > 0 {
        let front = links.drop_last();
        let n = links.len() - 1;
        let keys = proposed_keys(tenant_id, owner, front);
        let key = proposed_key(tenant_id, owner, links[n]);
        lemma_batch_links(tenant_id, owner, front);
        assert(forall|i: int| 0 <= i < n ==> #[trigger] front[i] == links[i]);
        assert(links.last() == links[n]);
        if keys.contains(key) {
            let i = choose|i: int| 0 <= i < keys.len() && keys[i] == key;
            assert(proposed_key(tenant_id, owner, links[i]) == key);
        } else {
            assert forall|i: int| 0 <= i < n implies proposed_key(
                tenant_id,
                owner,
                #[trigger] links[i],
            ) != key by {
                assert(keys[i] == proposed_key(tenant_id, owner, links[i]));
            }
        }
        if batch_links_fault(tenant_id, owner, links) is None {
            assert forall|i: int| 0 <= i < links.len() implies can_be_proposed(
                #[trigger] links[i],
            ) by {
                if i < n {
                    assert(front[i] == links[i]);
                }
            }
            assert forall|i: int, j: int| 0 <= i < j < links.len() implies proposed_key(
                tenant_id,
                owner,
                #[trigger] links[i],
            ) != proposed_key(tenant_id, owner, #[trigger] links[j]) by {
                if j < n {
                    assert(front[i] == links[i] && front[j] == links[j]);
                }
            }
        }
    }
}

/// Insights can be taken on together if each says all it has to and no two have the same address.
proof fn lemma_batch_insights(insights: Seq<AnalysisInsightMaterialization>)
    ensures
        batch_insights_fault(insights) is None <==> {
            &&& forall|i: int|
                0 <= i < insights.len() ==> !blank((#[trigger] insights[i]).insight_type@) && !blank(
                    insights[i].title@,
                ) && !blank(insights[i].statement@)
            &&& forall|i: int, j: int|
                0 <= i < j < insights.len() ==> insight_uri(
                    (#[trigger] insights[i]).insight_type@,
                    insights[i].title@,
                ) != insight_uri((#[trigger] insights[j]).insight_type@, insights[j].title@)
        },
    decreases insights.len(),
{
    if insights.len() > 0 {
        let front = insights.drop_last();
        let n = insights.len() - 1;
        let uris = proposed_uris(front);
        let uri = insight_uri(insights[n].insight_type@, insights[n].title@);
        lemma_batch_insights(front);
        assert(forall|i: int| 0 <= i < n ==> #[trigger] front[i] == insights[i]);
        assert(insights.last() == insights[n]);
        if uris.contains(uri) {
            let i = choose|i: int| 0 <= i < uris.len() && uris[i] == uri;
            assert(insight_uri(insights[i].insight_type@, insights[i].title@) == uri);
        } else {
            assert forall|i: int| 0 <= i < n implies insight_uri(
                (#[trigger] insights[i]).insight_type@,
                insights[i].title@,
            ) != uri by {
                assert(uris[i] == insight_uri(insights[i].insight_type@, insights[i].title@));
            }
        }
        if batch_insights_fault(insights) is None {
            assert forall|i: int| 0 <= i < insights.len() implies !blank(
                (#[trigger] insights[i]).insight_type@,
            ) && !blank(insights[i].title@) && !blank(insights[i].statement@) by {
                if i < n {
                    assert(front[i] == insights[i]);
                }
            }
            assert forall|i: int, j: int| 0 <= i < j < insights.len() implies insight_uri(
                (#[trigger] insights[i]).insight_type@,
                insights[i].title@,
            ) != insight_uri((#[trigger] insights[j]).insight_type@, insights[j].title@) by {
                if j < n {
                    assert(front[i] == insights[i] && front[j] == insights[j]);
                }
            }
        }
    }
}

/// A batch is taken on if and only if every link in it leads from one place to another, every
/// insight says all it has to, and nothing is proposed twice.
pub proof fn a_batch_proposes_nothing_twice(
    tenant_id: Seq<char>,
    owner: Seq<char>,
    req: AnalysisMaterializationRequest,
)
    ensures
        batch_fault(tenant_id, owner, req) is None <==> {
            &&& forall|i: int|
                0 <= i < req.links@.len() ==> can_be_proposed(#[trigger] req.links@[i])
            &&& forall|i: int, j: int|
                0 <= i < j < req.links@.len() ==> proposed_key(
                    tenant_id,
                    owner,
                    #[trigger] req.links@[i],
                ) != proposed_key(tenant_id, owner, #[trigger] req.links@[j])
            &&& forall|i: int|
                0 <= i < req.insights@.len() ==> !blank(
                    (#[trigger] req.insights@[i]).insight_type@,
                ) && !blank(req.insights@[i].title@) && !blank(req.insights@[i].statement@)
            &&& forall|i: int, j: int|
                0 <= i < j < req.insights@.len() ==> insight_uri(
                    (#[trigger] req.insights@[i]).insight_type@,
                    req.insights@[i].title@,
                ) != insight_uri(
                    (#[trigger] req.insights@[j]).insight_type@,
                    req.insights@[j].title@,
                )
        },
{
    lemma_batch_links(tenant_id, owner, req.links@);
    lemma_batch_insights(req.insights@);
}

/// A registry holds the indexes of its tenant, each under its owner.
pub proof fn a_registry_is_of_its_tenant(
    rows: Seq<UserEventIndex>,
    tenant_id: Seq<char>,
    owner_hash: Seq<char>,
)
    ensures
        registry_of(rows, tenant_id).dom().contains(owner_hash) <==> exists|i: int|
            0 <= i < rows.len() && (#[trigger] rows[i]).tenant_id@ == tenant_id
                && rows[i].owner_user_id_hash@ == owner_hash,
        registry_of(rows, tenant_id).dom().contains(owner_hash) ==> {
            &&& rows.contains(registry_of(rows, tenant_id)[owner_hash])
            &&& registry_of(rows, tenant_id)[owner_hash].tenant_id@ == tenant_id
            &&& registry_of(rows, tenant_id)[owner_hash].owner_user_id_hash@ == owner_hash
        },
    decreases rows.len(),
{
    if rows.len() > 0 {
        let front = rows.drop_last();
        let n = rows.len() - 1;
        a_registry_is_of_its_tenant(front, tenant_id, owner_hash);
        let rest = registry_of(front, tenant_id);
        assert(forall|i: int| 0 <= i < n ==> #[trigger] front[i] == rows[i]);
        assert(rows.last() == rows[n]);
        if rest.dom().contains(owner_hash) {
            let i = choose|i: int|
                0 <= i < front.len() && (#[trigger] front[i]).tenant_id@ == tenant_id
                    && front[i].owner_user_id_hash@ == owner_hash;
            assert(rows[i] == front[i]);
            let j = choose|j: int| 0 <= j < front.len() && front[j] == rest[owner_hash];
            assert(rows[j] == rest[owner_hash]);
        }
        if exists|i: int|
            0 <= i < rows.len() && (#[trigger] rows[i]).tenant_id@ == tenant_id
                && rows[i].owner_user_id_hash@ == owner_hash {
            let i = choose|i: int|
                0 <= i < rows.len() && (#[trigger] rows[i]).tenant_id@ == tenant_id
                    && rows[i].owner_user_id_hash@ == owner_hash;
            if i < n {
                assert(front[i] == rows[i]);
            }
        }
    }
}

/// Operations are taken up again only if each of them is sound.
pub proof fn every_operation_taken_up_is_sound(
    candidates: Seq<OperationRecord>,
    checked: Seq<Result<(), String>>,
)
    ensures
        candidates_fault(candidates, checked) is None <==> forall|i: int|
            0 <= i < candidates.len() ==> record_fault(#[trigger] candidates[i], checked[i])
                is None,
    decreases candidates.len(),
{
    if candidates.len() > 0 {
        let front = candidates.drop_last();
        let n = candidates.len() - 1;
        every_operation_taken_up_is_sound(front, checked);
        assert(forall|i: int| 0 <= i < n ==> #[trigger] front[i] == candidates[i]);
        assert(candidates.last() == candidates[n]);
        if candidates_fault(candidates, checked) is None {
            assert forall|i: int| 0 <= i < candidates.len() implies record_fault(
                #[trigger] candidates[i],
                checked[i],
            ) is None by {
                if i < n {
                    assert(front[i] == candidates[i]);
                }
            }
        }
    }
}

} // verus!
