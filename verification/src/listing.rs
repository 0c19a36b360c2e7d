//! Listing operations page by page.

use vstd::prelude::*;

use crate::cursor::{
    cursor_fits, cursor_formed, cursor_scope, cursor_signed, cursor_text,
    decode_operation_list_cursor, encode_operation_list_cursor, opened_payload, operation_list,
    operation_page, stale_cursor, OperationListCursor, OperationPage,
};
use crate::error::{fails_with, ApiError, ErrorView};
use crate::model::operation::{
    OperationIndexingState, OperationPlan, OperationRecord, OperationStatus, StepProgress,
};
use crate::operations::{asks_status, at_most, status_asked};
use crate::record::List;
use crate::text::{blank, split_at_char, text_eq, texts, texts_contain};

verus! {

/// The most operations on one page.
pub const MAX_PAGE: usize = 500;

/// What a list is made of, and how much of it goes on a page.
pub struct OperationListRequest {
    pub statuses: Vec<OperationStatus>,
    pub operation_kinds: Vec<String>,
    pub cursor: Option<String>,
    pub limit: usize,
    /// Whether the plans of the operations are shown.
    pub include_plan: bool,
}

/// What is shown of an operation but for its plan.
pub struct OperationSummary {
    pub id: String,
    pub tenant_id: String,
    pub operation_kind: String,
    pub status: OperationStatus,
    pub indexing_state: OperationIndexingState,
    pub progress: List<StepProgress>,
    pub created_at: i64,
    pub updated_at: i64,
}

/// What is shown of an operation; its plan only where it was asked for.
pub struct OperationListItem {
    pub summary: OperationSummary,
    pub plan: Option<OperationPlan>,
}

/// One page of what is shown.
pub struct OperationListPage {
    pub operations: Vec<OperationListItem>,
    pub has_more: bool,
}

/// What is shown of a record but for its plan.
pub open spec fn summary_of(record: OperationRecord) -> OperationSummary {
    OperationSummary {
        id: record.id,
        tenant_id: record.tenant_id,
        operation_kind: record.operation_kind,
        status: record.status,
        indexing_state: record.indexing_state,
        progress: record.progress,
        created_at: record.created_at,
        updated_at: record.updated_at,
    }
}

/// What is shown of a record but for its plan.
pub fn operation_summary(record: &OperationRecord) -> (r: OperationSummary)
    ensures
        r == summary_of(*record),
{
    OperationSummary {
        id: record.id.clone(),
        tenant_id: record.tenant_id.clone(),
        operation_kind: record.operation_kind.clone(),
        status: record.status,
        indexing_state: record.indexing_state,
        progress: record.progress.clone(),
        created_at: record.created_at,
        updated_at: record.updated_at,
    }
}

/// What is shown of a record.
pub open spec fn shown_item(record: OperationRecord, include_plan: bool) -> OperationListItem {
    OperationListItem {
        summary: summary_of(record),
        plan: if include_plan {
            Some(record.plan)
        } else {
            None
        },
    }
}

/// What is shown of a record.
pub fn operation_list_item(record: &OperationRecord, include_plan: bool) -> (r: OperationListItem)
    ensures
        r == shown_item(*record, include_plan),
{
    OperationListItem {
        summary: operation_summary(record),
        plan: if include_plan {
            Some(record.plan.clone())
        } else {
            None
        },
    }
}

/// What is shown of records, in their order.
pub open spec fn shown_items(records: Seq<OperationRecord>, include_plan: bool) -> Seq<
    OperationListItem,
> {
    Seq::new(records.len(), |i: int| shown_item(records[i], include_plan))
}

/// The scope of a request's cursors.
pub open spec fn request_scope(req: OperationListRequest, tenant_id: Seq<char>) -> Seq<char> {
    cursor_scope(tenant_id, req.statuses@, texts(req.operation_kinds@))
}

/// Where the page that a request asks for begins.
pub fn begin_listing(secret: &Vec<u8>, tenant_id: &str, req: &OperationListRequest) -> (r: Result<
    Option<OperationListCursor>,
    ApiError,
>)
    ensures
        if req.limit == 0 || req.limit > MAX_PAGE {
            fails_with(r, ErrorView::BadRequest("limit must be between 1 and 500"@))
        } else {
            match req.cursor {
                None => r == Ok::<Option<OperationListCursor>, ApiError>(None),
                Some(text) => if !cursor_formed(text@) {
                    fails_with(r, stale_cursor())
                } else {
                    let scope = request_scope(*req, tenant_id@);
                    match opened_payload(split_at_char(text@, '.')[1]) {
                        Some((offset, previous)) => if cursor_signed(secret@, scope, text@) {
                            &&& r is Ok
                            &&& r->Ok_0 is Some
                            &&& r->Ok_0->0.offset == offset
                            &&& r->Ok_0->0.previous_operation_id@ == previous
                        } else {
                            fails_with(r, stale_cursor())
                        },
                        None => fails_with(r, stale_cursor()),
                    }
                },
            }
        },
{
    if req.limit == 0 || req.limit > MAX_PAGE {
        return Err(ApiError::bad_request("limit must be between 1 and 500"));
    }
    decode_operation_list_cursor(
        secret,
        tenant_id,
        &req.statuses,
        &req.operation_kinds,
        crate::text::as_deref(&req.cursor),
    )
}

/// Whether an item is what a request asks for: an operation of the tenant with a status and a kind
/// that are asked for, and with its plan just where plans are asked for.
pub open spec fn item_wanted(
    item: OperationListItem,
    req: OperationListRequest,
    tenant_id: Seq<char>,
) -> bool {
    &&& item.summary.tenant_id@ == tenant_id
    &&& status_asked(req.statuses@, item.summary.status)
    &&& req.operation_kinds@.len() == 0 || texts(req.operation_kinds@).contains(
        item.summary.operation_kind@,
    )
    &&& item.plan is Some == req.include_plan
}

/// Whether every item of a page is what a request asks for.
pub open spec fn page_in_scope(
    operations: Seq<OperationListItem>,
    req: OperationListRequest,
    tenant_id: Seq<char>,
) -> bool {
    forall|i: int|
        0 <= i < operations.len() ==> item_wanted(#[trigger] operations[i], req, tenant_id)
}

/// Refuses a page with an item that was not asked for.
pub fn check_operation_page(
    page: &OperationListPage,
    req: &OperationListRequest,
    tenant_id: &str,
) -> (r: Result<(), ApiError>)
    ensures
        if page_in_scope(page.operations@, *req, tenant_id@) {
            r is Ok
        } else {
            fails_with(
                r,
                ErrorView::Internal(
                    "operation repository returned a record outside the requested page scope"@,
                ),
            )
        },
{
    let mut i: usize = 0;
    while i < page.operations.len()
        invariant
            i <= page.operations@.len(),
            forall|j: int|
                0 <= j < i ==> item_wanted(#[trigger] page.operations@[j], *req, tenant_id@),
        decreases page.operations@.len() - i,
    {
        let item: &OperationListItem = &page.operations[i];
        if !text_eq(item.summary.tenant_id.as_str(), tenant_id) || !asks_status(
            &req.statuses,
            item.summary.status,
        ) || !(req.operation_kinds.len() == 0 || texts_contain(
            &req.operation_kinds,
            item.summary.operation_kind.as_str(),
        )) || item.plan.is_some() != req.include_plan {
            assert(!item_wanted(page.operations@[i as int], *req, tenant_id@));
            return Err(
                ApiError::internal(
                    "operation repository returned a record outside the requested page scope",
                ),
            );
        }
        i += 1;
    }
    Ok(())
}

/// Who made a page.
#[derive(Debug, Clone, Copy, PartialEq, Eq, Structural)]
pub enum PageSource {
    Repository,
    Journal,
}

/// What is wrong with an empty page that is not the last.
pub open spec fn empty_page(source: PageSource) -> ErrorView {
    match source {
        PageSource::Repository => ErrorView::Internal(
            "operation repository returned an empty page with more results"@,
        ),
        PageSource::Journal => ErrorView::Internal(
            "operation journal returned an empty page with more results"@,
        ),
    }
}

/// The cursor to the page behind this one, where there is one.
pub fn next_page_cursor(
    secret: &Vec<u8>,
    tenant_id: &str,
    req: &OperationListRequest,
    cursor: &Option<OperationListCursor>,
    page: &OperationListPage,
    source: PageSource,
) -> (r: Result<Option<String>, ApiError>)
    ensures
        ({
            let n = page.operations@.len();
            let offset = (match *cursor {
                Some(c) => c.offset as nat,
                None => 0,
            }) + n;
            if !page.has_more {
                r == Ok::<Option<String>, ApiError>(None)
            } else if n == 0 {
                fails_with(r, empty_page(source))
            } else if offset > usize::MAX {
                fails_with(r, stale_cursor())
            } else if blank(page.operations@[n - 1].summary.id@) {
                fails_with(
                    r,
                    ErrorView::Internal("operation cursor requires a non-empty prior page"@),
                )
            } else {
                r is Ok && r->Ok_0 is Some && r->Ok_0->0@ == cursor_text(
                    secret@,
                    request_scope(*req, tenant_id@),
                    offset,
                    page.operations@[n - 1].summary.id@,
                )
            }
        }),
{
    if !page.has_more {
        return Ok(None);
    }
    let n: usize = page.operations.len();
    if n == 0 {
        return match source {
            PageSource::Repository => Err(
                ApiError::internal("operation repository returned an empty page with more results"),
            ),
            PageSource::Journal => Err(
                ApiError::internal("operation journal returned an empty page with more results"),
            ),
        };
    }
    let offset: usize = match cursor {
        Some(c) => c.offset,
        None => 0,
    };
    match offset.checked_add(n) {
        None => Err(ApiError::bad_request("cursor is invalid or stale")),
        Some(next) => match encode_operation_list_cursor(
            secret,
            tenant_id,
            &req.statuses,
            &req.operation_kinds,
            next,
            page.operations[n - 1].summary.id.as_str(),
        ) {
            Ok(text) => Ok(Some(text)),
            Err(error) => Err(error),
        },
    }
}

/// What is behind a cursor.
pub open spec fn behind(list: Seq<OperationRecord>, cursor: Option<OperationListCursor>) -> Seq<
    OperationRecord,
> {
    match cursor {
        Some(c) => list.skip(c.offset as int),
        None => list,
    }
}

/// Whether a cursor, where there is one, points behind an operation of the list.
pub open spec fn fits(list: Seq<OperationRecord>, cursor: Option<OperationListCursor>) -> bool {
    match cursor {
        Some(c) => cursor_fits(list, c),
        None => true,
    }
}

/// Whether `page` shows the at most `limit` operations behind a cursor.
pub open spec fn is_page(
    page: OperationListPage,
    list: Seq<OperationRecord>,
    cursor: Option<OperationListCursor>,
    limit: nat,
    include_plan: bool,
) -> bool {
    let rest = behind(list, cursor);
    &&& page.has_more == (rest.len() > limit)
    &&& page.operations@ == shown_items(at_most(rest, limit), include_plan)
}

/// One page of what the store itself holds, and where the next one begins.
pub fn list_operations(
    operations: Vec<OperationRecord>,
    tenant_id: &str,
    req: &OperationListRequest,
    cursor: &Option<OperationListCursor>,
) -> (r: Result<OperationListPage, ApiError>)
    ensures
        ({
            let list = operation_list(
                operations@,
                tenant_id@,
                req.statuses@,
                texts(req.operation_kinds@),
            );
            if fits(list, *cursor) {
                r is Ok && is_page(
                    r->Ok_0,
                    list,
                    *cursor,
                    req.limit as nat,
                    req.include_plan,
                )
            } else {
                fails_with(r, stale_cursor())
            }
        }),
{
    let page: OperationPage = match operation_page(
        operations,
        tenant_id,
        &req.statuses,
        &req.operation_kinds,
        cursor,
        req.limit,
    ) {
        Ok(page) => page,
        Err(error) => {
            return Err(error);
        },
    };
    let mut items: Vec<OperationListItem> = Vec::new();
    let mut i: usize = 0;
    while i < page.operations.len()
        invariant
            i <= page.operations@.len(),
            items@.len() == i,
            forall|j: int|
                0 <= j < i ==> #[trigger] items@[j] == shown_item(
                    page.operations@[j],
                    req.include_plan,
                ),
        decreases page.operations@.len() - i,
    {
        items.push(operation_list_item(&page.operations[i], req.include_plan));
        i += 1;
    }
    assert(items@ =~= shown_items(page.operations@, req.include_plan));
    Ok(OperationListPage { operations: items, has_more: page.has_more })
}

/// Pages neither repeat nor leave out an operation: the cursor that a page ends with fits the
/// list, and what is behind it is what was behind the page.
pub proof fn pages_follow_each_other(
    list: Seq<OperationRecord>,
    cursor: Option<OperationListCursor>,
    page: OperationListPage,
    next: OperationListCursor,
    limit: nat,
    include_plan: bool,
)
    requires
        fits(list, cursor),
        is_page(page, list, cursor, limit, include_plan),
        page.has_more,
        limit > 0,
        next.offset == (match cursor {
            Some(c) => c.offset as nat,
            None => 0,
        }) + page.operations@.len(),
        next.previous_operation_id@ == page.operations@.last().summary.id@,
    ensures
        fits(list, Some(next)),
        shown_items(behind(list, cursor), include_plan) == page.operations@ + shown_items(
            behind(list, Some(next)),
            include_plan,
        ),
{
    let rest = behind(list, cursor);
    assert(rest =~= rest.take(limit as int) + rest.skip(limit as int));
    assert(behind(list, Some(next)) =~= rest.skip(limit as int));
    assert(page.operations@.last() == shown_item(list[next.offset - 1], include_plan));
    assert(shown_items(rest, include_plan) =~= page.operations@ + shown_items(
        behind(list, Some(next)),
        include_plan,
    ));
}

/// A plan is shown just where plans were asked for.
pub proof fn plans_are_shown_where_asked_for(
    page: OperationListPage,
    list: Seq<OperationRecord>,
    cursor: Option<OperationListCursor>,
    limit: nat,
    include_plan: bool,
    i: int,
)
    requires
        is_page(page, list, cursor, limit, include_plan),
        0 <= i < page.operations@.len(),
    ensures
        page.operations@[i].plan is Some == include_plan,
{
}

} // verus!
