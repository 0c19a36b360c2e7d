//! Ingest tasks: their states, what of them is shown, and what becomes of them.

use vstd::prelude::*;
use vstd::string::*;

use crate::model::ingest::IngestTask;
use crate::text::{as_deref, opt_eq_str, opt_str, opt_text, text_eq};

verus! {

pub const INGEST_ERROR_PARSER_FAILED: &'static str = "parser_failed";

pub const INGEST_ERROR_INDEXING_FAILED: &'static str = "indexing_failed";

pub const INGEST_ERROR_FAILED: &'static str = "ingest_failed";

pub const INGEST_ERROR_INTERRUPTED: &'static str = "ingest_interrupted";

/// What is shown of the cause of a failure: one of four codes, and nothing of a task that has not
/// failed.
pub open spec fn shown_error(state: Seq<char>, error: Option<Seq<char>>) -> Option<Seq<char>> {
    if state != "failed"@ {
        None
    } else if error == Some(INGEST_ERROR_PARSER_FAILED@) || error == Some(
        INGEST_ERROR_INDEXING_FAILED@,
    ) || error == Some(INGEST_ERROR_INTERRUPTED@) {
        error
    } else {
        Some(INGEST_ERROR_FAILED@)
    }
}

/// What is shown of the cause of a failure.
pub fn sanitize_ingest_error(state: &str, error: Option<&str>) -> (r: Option<&'static str>)
    ensures
        opt_str(r) == shown_error(state@, opt_str(error)),
{
    if !text_eq(state, "failed") {
        return None;
    }
    match error {
        Some(code) => if text_eq(code, INGEST_ERROR_PARSER_FAILED) {
            Some(INGEST_ERROR_PARSER_FAILED)
        } else if text_eq(code, INGEST_ERROR_INDEXING_FAILED) {
            Some(INGEST_ERROR_INDEXING_FAILED)
        } else if text_eq(code, INGEST_ERROR_INTERRUPTED) {
            Some(INGEST_ERROR_INTERRUPTED)
        } else {
            Some(INGEST_ERROR_FAILED)
        },
        None => Some(INGEST_ERROR_FAILED),
    }
}

/// What is shown of a cause shows nothing else when it is shown again.
pub proof fn showing_an_error_twice(state: Seq<char>, error: Option<Seq<char>>)
    ensures
        shown_error(state, shown_error(state, error)) == shown_error(state, error),
{
}

/// A cause that is none of the known codes is never shown.
pub proof fn a_raw_cause_is_never_shown(state: Seq<char>, error: Seq<char>)
    requires
        error != INGEST_ERROR_PARSER_FAILED@,
        error != INGEST_ERROR_INDEXING_FAILED@,
        error != INGEST_ERROR_INTERRUPTED@,
        error != INGEST_ERROR_FAILED@,
    ensures
        shown_error(state, Some(error)) != Some(error),
{
}

/// Whether a task is still under way.
pub open spec fn under_way(state: Seq<char>) -> bool {
    state == "queued"@ || state == "parsing"@ || state == "parsed"@ || state == "fragmenting"@
        || state == "indexing"@
}

/// Whether a task has come to an end.
pub open spec fn ended(state: Seq<char>) -> bool {
    state == "completed"@ || state == "failed"@
}

/// Whether a task is still under way.
pub fn is_nonterminal_ingest_state(state: &str) -> (r: bool)
    ensures
        r == under_way(state@),
{
    text_eq(state, "queued") || text_eq(state, "parsing") || text_eq(state, "parsed") || text_eq(
        state,
        "fragmenting",
    ) || text_eq(state, "indexing")
}

/// Whether a task has come to an end.
pub fn is_ended(state: &str) -> (r: bool)
    ensures
        r == ended(state@),
{
    text_eq(state, "completed") || text_eq(state, "failed")
}

/// No task is under way and at an end.
pub proof fn a_task_under_way_has_not_ended(state: Seq<char>)
    requires
        under_way(state),
    ensures
        !ended(state),
{
    reveal_strlit("queued");
    reveal_strlit("parsing");
    reveal_strlit("parsed");
    reveal_strlit("fragmenting");
    reveal_strlit("indexing");
    reveal_strlit("completed");
    reveal_strlit("failed");
    assert(state.len() != "completed"@.len() || state[0] != 'c');
    assert(state.len() != "failed"@.len() || state[0] != 'f');
}

/// A task after it went into `state`.
pub open spec fn moved(
    before: IngestTask,
    after: IngestTask,
    state: Seq<char>,
    error: Option<Seq<char>>,
    now: i64,
) -> bool {
    &&& after == (IngestTask {
        state: after.state,
        error: after.error,
        updated_at: after.updated_at,
        completed_at: after.completed_at,
        ..before
    })
    &&& after.state@ == state
    &&& opt_text(after.error) == shown_error(state, error)
    &&& after.updated_at == now
    &&& after.completed_at == (if ended(state) {
        Some(now)
    } else {
        None
    })
}

/// Moves a task into a state.
pub fn apply_ingest_task_transition(
    task: &mut IngestTask,
    state: &str,
    error: Option<&str>,
    now: i64,
)
    ensures
        moved(*old(task), *final(task), state@, opt_str(error), now),
{
    task.state = state.to_owned();
    task.error = crate::text::opt_owned(sanitize_ingest_error(state, error));
    task.updated_at = now;
    if is_ended(state) {
        task.completed_at = Some(now);
    } else {
        task.completed_at = None;
    }
}

/// A task as it is shown.
pub open spec fn shown_task(task: IngestTask, shown: IngestTask) -> bool {
    &&& shown == (IngestTask { error: shown.error, ..task })
    &&& opt_text(shown.error) == shown_error(task.state@, opt_text(task.error))
}

/// A task as it is shown: without the raw cause of a failure.
pub fn sanitize_ingest_task(task: IngestTask) -> (r: IngestTask)
    ensures
        shown_task(task, r),
{
    let error: Option<String> = crate::text::opt_owned(
        sanitize_ingest_error(task.state.as_str(), as_deref(&task.error)),
    );
    IngestTask { error, ..task }
}

/// Whether a task is shown to an owner: tasks of the company are shown to everyone.
pub open spec fn task_shown(
    task: IngestTask,
    owner_user_id: Option<Seq<char>>,
    include_all_private: bool,
) -> bool {
    include_all_private || task.owner_user_id is None || opt_text(task.owner_user_id)
        == owner_user_id
}

/// Whether a task is shown to an owner.
pub fn ingest_task_visible(
    task: &IngestTask,
    owner_user_id: Option<&str>,
    include_all_private: bool,
) -> (r: bool)
    ensures
        r == task_shown(*task, opt_str(owner_user_id), include_all_private),
{
    include_all_private || task.owner_user_id.is_none() || opt_eq_str(
        &task.owner_user_id,
        owner_user_id,
    )
}

} // verus!
