//! Components of the harness: their changes, their revisions, and going back to an earlier one.

use vstd::prelude::*;
use vstd::string::*;

use crate::data::StoreData;
use crate::error::{fails_with, ApiError, ErrorView};
use crate::facts::is_required;
use crate::history::{
    indexes_have_room, missing, note_event, noted, HistoryEventResponse, Note, NoteView, Stamp,
    StampView,
};
use crate::json::{pair_texts, Json};
use crate::model::harness::{
    HarnessChangeManifest, HarnessComponent, HarnessComponentRevision,
};
use crate::order::{
    any_where, find_greatest, find_where, greatest_last, pairwise, sort_by, sorted_by,
    update_list,
};
use crate::reading::{first_of, require_string};
use crate::record::{all_values, copy_all, select, List};
use crate::resolver::EventIndexResolver;
use crate::table::{list_at, lists, lists_replaced, take_list};
use crate::text::{
    as_deref, opt_str, opt_text, owned_or, text_before, text_eq, text_lt, text_or,
};

verus! {

/// The order of components by id.
pub open spec fn components_by_id() -> spec_fn(HarnessComponent, HarnessComponent) -> bool {
    |a: HarnessComponent, b: HarnessComponent| text_lt(a.id@, b.id@)
}

/// The components, by id.
pub fn list_harness_components(data: &StoreData) -> (r: Vec<HarnessComponent>)
    ensures
        r@ == sorted_by(data.harness_components.values(), components_by_id()),
{
    let ghost lt = components_by_id();
    let before = |a: &HarnessComponent, b: &HarnessComponent| -> (c: bool)
        ensures
            c == lt(*a, *b),
        { text_before(a.id.as_str(), b.id.as_str()) };
    sort_by(all_values(&data.harness_components), before, Ghost(lt))
}

/// A component with its revisions.
pub struct HarnessComponentDetail {
    pub component: HarnessComponent,
    pub revisions: Vec<HarnessComponentRevision>,
}

/// The revisions that a component has.
pub open spec fn revisions_of(d: StoreData, component_id: Seq<char>) -> Seq<
    HarnessComponentRevision,
> {
    list_at(lists(d.harness_revisions@), component_id)
}

/// The order of revisions by iteration.
pub open spec fn by_iteration() -> spec_fn(
    HarnessComponentRevision,
    HarnessComponentRevision,
) -> bool {
    |a: HarnessComponentRevision, b: HarnessComponentRevision| a.iteration < b.iteration
}

/// A component with its revisions, the earliest first.
pub fn harness_component_detail(data: &StoreData, component_id: &str) -> (r: Result<
    HarnessComponentDetail,
    ApiError,
>)
    ensures
        if data.harness_components@.dom().contains(component_id@) {
            &&& r is Ok
            &&& r->Ok_0.component == data.harness_components@[component_id@]
            &&& r->Ok_0.revisions@ == sorted_by(
                revisions_of(*data, component_id@),
                by_iteration(),
            )
        } else {
            fails_with(r, ErrorView::NotFound("harness component not found"@))
        },
{
    let key: String = component_id.to_owned();
    let component: HarnessComponent = match data.harness_components.get(&key) {
        Some(component) => component.clone(),
        None => {
            return Err(ApiError::not_found("harness component not found"));
        },
    };
    let revisions: Vec<HarnessComponentRevision> = match data.harness_revisions.get(&key) {
        Some(revisions) => copy_all(revisions),
        None => Vec::new(),
    };
    let ghost lt = by_iteration();
    let before = |a: &HarnessComponentRevision, b: &HarnessComponentRevision| -> (c: bool)
        ensures
            c == lt(*a, *b),
        { a.iteration < b.iteration };
    Ok(HarnessComponentDetail { component, revisions: sort_by(revisions, before, Ghost(lt)) })
}

/// A change to be proposed.
pub struct CreateHarnessChangeManifestRequest {
    pub id: Option<String>,
    pub iteration: Option<u64>,
    pub change_type: Option<String>,
    pub component_id: Option<String>,
    pub files: List<String>,
    pub failure_pattern: Option<String>,
    pub root_cause: Option<String>,
    pub targeted_fix: Option<String>,
    pub predicted_fixes: List<String>,
    pub risk_cases: List<String>,
    pub expected_metric_deltas: Json,
    pub baseline_eval_run_id: Option<String>,
    pub candidate_eval_run_id: Option<String>,
    pub why_this_component: Option<String>,
    pub created_by: Option<String>,
}

/// Whether a change is of a known kind.
pub open spec fn known_change_type(t: Seq<char>) -> bool {
    t == "new"@ || t == "improvement"@ || t == "rollback"@
}

/// Why a change is not taken, before anything is looked up.
pub open spec fn change_fault(req: CreateHarnessChangeManifestRequest) -> Option<ErrorView> {
    if req.id is Some && missing(opt_text(req.id)) {
        Some(is_required("id"@))
    } else if missing(opt_text(req.component_id)) {
        Some(is_required("component_id"@))
    } else if missing(opt_text(req.change_type)) {
        Some(is_required("type"@))
    } else if !known_change_type(req.change_type->0@) {
        Some(ErrorView::BadRequest("type must be one of new, improvement, rollback"@))
    } else if missing(opt_text(req.failure_pattern)) {
        Some(is_required("failure_pattern"@))
    } else if missing(opt_text(req.root_cause)) {
        Some(is_required("root_cause"@))
    } else if missing(opt_text(req.targeted_fix)) {
        Some(is_required("targeted_fix"@))
    } else if missing(opt_text(req.why_this_component)) {
        Some(is_required("why_this_component"@))
    } else {
        None
    }
}

/// Whether `c` is the change that a request asks for.
pub open spec fn is_new_change(
    c: HarnessChangeManifest,
    req: CreateHarnessChangeManifestRequest,
    tenant_id: Seq<char>,
    new_id: Seq<char>,
    now: i64,
) -> bool {
    &&& c.id@ == text_or(opt_text(req.id), new_id)
    &&& c.tenant_id@ == tenant_id
    &&& c.iteration == (match req.iteration {
        Some(n) => n,
        None => 1u64,
    })
    &&& opt_text(req.change_type) == Some(c.change_type@)
    &&& opt_text(req.component_id) == Some(c.component_id@)
    &&& c.files == req.files
    &&& opt_text(req.failure_pattern) == Some(c.failure_pattern@)
    &&& opt_text(req.root_cause) == Some(c.root_cause@)
    &&& opt_text(req.targeted_fix) == Some(c.targeted_fix@)
    &&& c.predicted_fixes == req.predicted_fixes
    &&& c.risk_cases == req.risk_cases
    &&& c.expected_metric_deltas == req.expected_metric_deltas
    &&& c.baseline_eval_run_id == req.baseline_eval_run_id
    &&& c.candidate_eval_run_id == req.candidate_eval_run_id
    &&& opt_text(req.why_this_component) == Some(c.why_this_component@)
    &&& c.created_by@ == text_or(opt_text(req.created_by), "admin"@)
    &&& c.created_at == now
    &&& c.status@ == "proposed"@
}

fn new_change(
    req: &CreateHarnessChangeManifestRequest,
    tenant_id: &str,
    new_id: &str,
    now: i64,
) -> (r: Result<HarnessChangeManifest, ApiError>)
    ensures
        match change_fault(*req) {
            Some(e) => fails_with(r, e),
            None => r is Ok && is_new_change(r->Ok_0, *req, tenant_id@, new_id@, now),
        },
{
    let id: String = match &req.id {
        Some(id) => match require_string(Some(id.as_str()), "id") {
            Ok(id) => id,
            Err(error) => {
                return Err(error);
            },
        },
        None => new_id.to_owned(),
    };
    let component_id: String = match require_string(as_deref(&req.component_id), "component_id") {
        Ok(text) => text,
        Err(error) => {
            return Err(error);
        },
    };
    let change_type: String = match require_string(as_deref(&req.change_type), "type") {
        Ok(text) => text,
        Err(error) => {
            return Err(error);
        },
    };
    if !(text_eq(change_type.as_str(), "new") || text_eq(change_type.as_str(), "improvement")
        || text_eq(change_type.as_str(), "rollback")) {
        return Err(ApiError::bad_request("type must be one of new, improvement, rollback"));
    }
    let failure_pattern: String = match require_string(
        as_deref(&req.failure_pattern),
        "failure_pattern",
    ) {
        Ok(text) => text,
        Err(error) => {
            return Err(error);
        },
    };
    let root_cause: String = match require_string(as_deref(&req.root_cause), "root_cause") {
        Ok(text) => text,
        Err(error) => {
            return Err(error);
        },
    };
    let targeted_fix: String = match require_string(as_deref(&req.targeted_fix), "targeted_fix") {
        Ok(text) => text,
        Err(error) => {
            return Err(error);
        },
    };
    let why_this_component: String = match require_string(
        as_deref(&req.why_this_component),
        "why_this_component",
    ) {
        Ok(text) => text,
        Err(error) => {
            return Err(error);
        },
    };
    Ok(
        HarnessChangeManifest {
            id,
            tenant_id: tenant_id.to_owned(),
            iteration: match req.iteration {
                Some(n) => n,
                None => 1,
            },
            change_type,
            component_id,
            files: req.files.clone(),
            failure_pattern,
            root_cause,
            targeted_fix,
            predicted_fixes: req.predicted_fixes.clone(),
            risk_cases: req.risk_cases.clone(),
            expected_metric_deltas: req.expected_metric_deltas.clone(),
            baseline_eval_run_id: req.baseline_eval_run_id.clone(),
            candidate_eval_run_id: req.candidate_eval_run_id.clone(),
            why_this_component,
            created_by: owned_or(&req.created_by, "admin"),
            created_at: now,
            status: "proposed".to_owned(),
        },
    )
}

/// Why a change is not kept.
pub open spec fn change_refusal(
    d: StoreData,
    req: CreateHarnessChangeManifestRequest,
    new_id: Seq<char>,
) -> Option<ErrorView> {
    match change_fault(req) {
        Some(e) => Some(e),
        None => if !d.harness_components@.dom().contains(req.component_id->0@) {
            Some(ErrorView::NotFound("harness component not found"@))
        } else if d.harness_changes@.dom().contains(text_or(opt_text(req.id), new_id)) {
            Some(ErrorView::Conflict("harness change already exists"@))
        } else {
            None
        },
    }
}

/// Keeps a change to a component that is there, as a proposal.
pub fn create_harness_change(
    data: &mut StoreData,
    tenant_id: &str,
    req: &CreateHarnessChangeManifestRequest,
    new_id: &str,
    now: i64,
) -> (r: Result<HarnessChangeManifest, ApiError>)
    ensures
        match change_refusal(*old(data), *req, new_id@) {
            Some(e) => *final(data) == *old(data) && fails_with(r, e),
            None => {
                &&& r is Ok
                &&& is_new_change(r->Ok_0, *req, tenant_id@, new_id@, now)
                &&& *final(data) == (StoreData {
                    harness_changes: final(data).harness_changes,
                    ..*old(data)
                })
                &&& final(data).harness_changes@ == old(data).harness_changes@.insert(
                    r->Ok_0.id@,
                    r->Ok_0,
                )
            },
        },
{
    let change: HarnessChangeManifest = match new_change(req, tenant_id, new_id, now) {
        Ok(change) => change,
        Err(error) => {
            return Err(error);
        },
    };
    if !data.harness_components.contains_key(&change.component_id) {
        return Err(ApiError::not_found("harness component not found"));
    }
    if data.harness_changes.contains_key(&change.id) {
        return Err(ApiError::conflict("harness change already exists"));
    }
    data.harness_changes.insert(change.id.clone(), change.clone());
    Ok(change)
}

/// The order of changes with the latest first.
pub open spec fn changes_by_age() -> spec_fn(HarnessChangeManifest, HarnessChangeManifest) -> bool {
    |a: HarnessChangeManifest, b: HarnessChangeManifest| a.created_at > b.created_at
}

/// The changes, the latest first.
pub fn list_harness_changes(data: &StoreData) -> (r: Vec<HarnessChangeManifest>)
    ensures
        r@ == sorted_by(data.harness_changes.values(), changes_by_age()),
{
    let ghost lt = changes_by_age();
    let before = |a: &HarnessChangeManifest, b: &HarnessChangeManifest| -> (c: bool)
        ensures
            c == lt(*a, *b),
        { a.created_at > b.created_at };
    sort_by(all_values(&data.harness_changes), before, Ghost(lt))
}

/// A change.
pub fn harness_change(data: &StoreData, change_id: &str) -> (r: Result<
    HarnessChangeManifest,
    ApiError,
>)
    ensures
        if data.harness_changes@.dom().contains(change_id@) {
            r == Ok::<HarnessChangeManifest, ApiError>(data.harness_changes@[change_id@])
        } else {
            fails_with(r, ErrorView::NotFound("harness change not found"@))
        },
{
    let key: String = change_id.to_owned();
    match data.harness_changes.get(&key) {
        Some(change) => Ok(change.clone()),
        None => Err(ApiError::not_found("harness change not found")),
    }
}

/// A revision to be made of a component.
pub struct CreateHarnessComponentRevisionRequest {
    pub manifest_id: Option<String>,
    pub files: List<String>,
    pub content: Json,
    pub created_by: Option<String>,
}

/// The greatest iteration among revisions, zero where there is none.
pub open spec fn last_iteration(revisions: Seq<HarnessComponentRevision>) -> u64
    decreases revisions.len(),
{
    if revisions.len() == 0 {
        0
    } else {
        let front = last_iteration(revisions.drop_last());
        if revisions.last().iteration > front {
            revisions.last().iteration
        } else {
            front
        }
    }
}

fn greatest_iteration(revisions: &Vec<HarnessComponentRevision>) -> (r: u64)
    ensures
        r == last_iteration(revisions@),
{
    let mut most: u64 = 0;
    let mut i: usize = 0;
    while i < revisions.len()
        invariant
            i <= revisions@.len(),
            most == last_iteration(revisions@.take(i as int)),
        decreases revisions.len() - i,
    {
        assert(revisions@.take(i + 1).drop_last() =~= revisions@.take(i as int));
        if revisions[i].iteration > most {
            most = revisions[i].iteration;
        }
        i += 1;
    }
    assert(revisions@.take(i as int) =~= revisions@);
    most
}

/// Whether one more revision of a component can be counted.
pub open spec fn iterations_have_room(d: StoreData, component_id: Seq<char>) -> bool {
    last_iteration(revisions_of(d, component_id)) < u64::MAX
}

/// Tells whether one more revision of a component can be counted.
pub fn check_iterations_have_room(data: &StoreData, component_id: &str) -> (r: bool)
    ensures
        r == iterations_have_room(*data, component_id@),
{
    let key: String = component_id.to_owned();
    match data.harness_revisions.get(&key) {
        Some(revisions) => greatest_iteration(revisions) < u64::MAX,
        None => true,
    }
}

/// Whether `b` is the revision `a` once another became the active one.
pub open spec fn retired() -> spec_fn(HarnessComponentRevision, HarnessComponentRevision) -> bool {
    |a: HarnessComponentRevision, b: HarnessComponentRevision|
        if a.status@ == "active"@ {
            b == (HarnessComponentRevision { status: b.status, ..a }) && b.status@
                == "superseded"@
        } else {
            b == a
        }
}

/// Why a revision is not made.
pub open spec fn revision_refusal(
    d: StoreData,
    component_id: Seq<char>,
    req: CreateHarnessComponentRevisionRequest,
) -> Option<ErrorView> {
    if missing(opt_text(req.manifest_id)) {
        Some(is_required("manifest_id"@))
    } else if !d.harness_components@.dom().contains(component_id) {
        Some(ErrorView::NotFound("harness component not found"@))
    } else if !d.harness_changes@.dom().contains(req.manifest_id->0@) {
        Some(ErrorView::NotFound("harness change manifest not found"@))
    } else if d.harness_changes@[req.manifest_id->0@].component_id@ != component_id {
        Some(
            ErrorView::BadRequest("manifest component_id does not match revision component_id"@),
        )
    } else {
        None
    }
}

/// Whether `r` is the revision that a request asks for.
pub open spec fn is_new_revision(
    r: HarnessComponentRevision,
    before: Seq<HarnessComponentRevision>,
    change: HarnessChangeManifest,
    req: CreateHarnessComponentRevisionRequest,
    tenant_id: Seq<char>,
    component_id: Seq<char>,
    new_id: Seq<char>,
    now: i64,
) -> bool {
    &&& r.id@ == new_id
    &&& r.tenant_id@ == tenant_id
    &&& r.component_id@ == component_id
    &&& r.iteration == last_iteration(before) + 1
    &&& opt_text(req.manifest_id) == Some(r.manifest_id@)
    &&& r.files == (if req.files@.len() == 0 {
        change.files
    } else {
        req.files
    })
    &&& r.content == req.content
    &&& r.status@ == "active"@
    &&& r.created_by@ == text_or(opt_text(req.created_by), "admin"@)
    &&& r.created_at == now
}

/// Whether `b` is the component `a` with another current revision.
pub open spec fn moved_to(
    a: HarnessComponent,
    b: HarnessComponent,
    revision_id: Seq<char>,
    now: i64,
) -> bool {
    &&& b == (HarnessComponent {
        current_revision_id: b.current_revision_id,
        status: b.status,
        updated_at: now,
        ..a
    })
    &&& opt_text(b.current_revision_id) == Some(revision_id)
    &&& b.status@ == "active"@
}

/// Whether `b` is the change `a` with another status.
pub open spec fn change_with_status(
    a: HarnessChangeManifest,
    b: HarnessChangeManifest,
    status: Seq<char>,
) -> bool {
    b == (HarnessChangeManifest { status: b.status, ..a }) && b.status@ == status
}

/// What making a revision leads to: it is the active one, and its change is applied.
pub open spec fn revision_made(
    before: StoreData,
    after: StoreData,
    r: HarnessComponentRevision,
    tenant_id: Seq<char>,
    component_id: Seq<char>,
    req: CreateHarnessComponentRevisionRequest,
    new_id: Seq<char>,
    now: i64,
) -> bool {
    let manifest_id = req.manifest_id->0@;
    let had = revisions_of(before, component_id);
    let has = revisions_of(after, component_id);
    &&& is_new_revision(
        r,
        had,
        before.harness_changes@[manifest_id],
        req,
        tenant_id,
        component_id,
        new_id,
        now,
    )
    &&& after == (StoreData {
        harness_revisions: after.harness_revisions,
        harness_components: after.harness_components,
        harness_changes: after.harness_changes,
        ..before
    })
    &&& has.len() == had.len() + 1
    &&& pairwise(had, has.drop_last(), retired())
    &&& has.last() == r
    &&& lists(after.harness_revisions@) == lists(before.harness_revisions@).insert(
        component_id,
        has,
    )
    &&& moved_to(
        before.harness_components@[component_id],
        after.harness_components@[component_id],
        r.id@,
        now,
    )
    &&& after.harness_components@ == before.harness_components@.insert(
        component_id,
        after.harness_components@[component_id],
    )
    &&& change_with_status(
        before.harness_changes@[manifest_id],
        after.harness_changes@[manifest_id],
        "applied"@,
    )
    &&& after.harness_changes@ == before.harness_changes@.insert(
        manifest_id,
        after.harness_changes@[manifest_id],
    )
}

/// Makes a revision of a component for a change of it; the revision becomes the active one.
pub fn create_harness_component_revision(
    data: &mut StoreData,
    tenant_id: &str,
    component_id: &str,
    req: &CreateHarnessComponentRevisionRequest,
    new_id: &str,
    now: i64,
) -> (r: Result<HarnessComponentRevision, ApiError>)
    requires
        iterations_have_room(*old(data), component_id@),
    ensures
        match revision_refusal(*old(data), component_id@, *req) {
            Some(e) => *final(data) == *old(data) && fails_with(r, e),
            None => r is Ok && revision_made(
                *old(data),
                *final(data),
                r->Ok_0,
                tenant_id@,
                component_id@,
                *req,
                new_id@,
                now,
            ),
        },
{
    let manifest_id: String = match require_string(as_deref(&req.manifest_id), "manifest_id") {
        Ok(text) => text,
        Err(error) => {
            return Err(error);
        },
    };
    let key: String = component_id.to_owned();
    let component: HarnessComponent = match data.harness_components.get(&key) {
        Some(component) => component.clone(),
        None => {
            return Err(ApiError::not_found("harness component not found"));
        },
    };
    let change: HarnessChangeManifest = match data.harness_changes.get(&manifest_id) {
        Some(change) => change.clone(),
        None => {
            return Err(ApiError::not_found("harness change manifest not found"));
        },
    };
    if !text_eq(change.component_id.as_str(), component_id) {
        return Err(
            ApiError::bad_request("manifest component_id does not match revision component_id"),
        );
    }
    let mut revisions: Vec<HarnessComponentRevision> = take_list(
        &mut data.harness_revisions,
        &key,
    );
    let ghost had = revisions@;
    let iteration: u64 = greatest_iteration(&revisions) + 1;
    let ghost rel = retired();
    let retire = |a: &HarnessComponentRevision| -> (b: Option<HarnessComponentRevision>)
        ensures
            match b {
                Some(c) => rel(*a, c),
                None => rel(*a, *a),
            },
        {
            if text_eq(a.status.as_str(), "active") {
                Some(HarnessComponentRevision { status: "superseded".to_owned(), ..a.clone() })
            } else {
                None
            }
        };
    update_list(&mut revisions, retire, Ghost(rel));
    let ghost old_ones = revisions@;
    let revision: HarnessComponentRevision = HarnessComponentRevision {
        id: new_id.to_owned(),
        tenant_id: tenant_id.to_owned(),
        component_id: component_id.to_owned(),
        iteration,
        manifest_id: manifest_id.clone(),
        files: if req.files.len() == 0 {
            change.files.clone()
        } else {
            req.files.clone()
        },
        content: req.content.clone(),
        status: "active".to_owned(),
        created_by: owned_or(&req.created_by, "admin"),
        created_at: now,
    };
    revisions.push(revision.clone());
    let ghost has = revisions;
    data.harness_revisions.insert(key.clone(), revisions);
    data.harness_components.insert(
        key,
        HarnessComponent {
            current_revision_id: Some(revision.id.clone()),
            status: "active".to_owned(),
            updated_at: now,
            ..component
        },
    );
    data.harness_changes.insert(
        manifest_id,
        HarnessChangeManifest { status: "applied".to_owned(), ..change },
    );
    proof {
        lists_replaced(old(data).harness_revisions@, component_id@, has);
        assert(has@.drop_last() =~= old_ones);
        assert(revisions_of(*data, component_id@) == has@);
    }
    Ok(revision)
}

/// Whether a revision can be gone back to: not the current one, and not rolled back.
pub open spec fn is_earlier(current: Option<Seq<char>>) -> spec_fn(HarnessComponentRevision) -> bool {
    |r: HarnessComponentRevision| Some(r.id@) != current && r.status@ != "rolled_back"@
}

/// The iteration of a revision.
pub open spec fn iteration_of() -> spec_fn(HarnessComponentRevision) -> int {
    |r: HarnessComponentRevision| r.iteration as int
}

/// The revision to go back to: the latest that is not the current one and was not rolled back.
pub open spec fn earlier_revision(
    revisions: Seq<HarnessComponentRevision>,
    current: Option<Seq<char>>,
) -> Option<Seq<char>> {
    match greatest_last(revisions.filter(is_earlier(current)), iteration_of()) {
        Some(r) => Some(r.id@),
        None => None,
    }
}

/// The revision to go back to: the latest that is not the current one and was not rolled back.
pub fn previous_revision_id(
    revisions: &Vec<HarnessComponentRevision>,
    current_revision_id: Option<&str>,
) -> (r: Option<String>)
    ensures
        opt_text(r) == earlier_revision(revisions@, opt_str(current_revision_id)),
{
    let ghost p = is_earlier(opt_str(current_revision_id));
    let accept = |r: &HarnessComponentRevision| -> (b: bool)
        ensures
            b == p(*r),
        {
            !(match current_revision_id {
                Some(id) => text_eq(r.id.as_str(), id),
                None => false,
            }) && !text_eq(r.status.as_str(), "rolled_back")
        };
    let candidates: Vec<HarnessComponentRevision> = select(revisions, accept, Ghost(p));
    let ghost key = iteration_of();
    let key_of = |r: &HarnessComponentRevision| -> (k: i128)
        ensures
            k as int == key(*r),
        { r.iteration as i128 };
    let at: usize = find_greatest(&candidates, key_of, Ghost(key));
    if at < candidates.len() {
        Some(candidates[at].id.clone())
    } else {
        None
    }
}

/// A component to be rolled back.
pub struct RollbackHarnessComponentRequest {
    pub target_revision_id: Option<String>,
    pub manifest_id: Option<String>,
    pub reason: Option<String>,
    pub created_by: Option<String>,
}

/// What going back to an earlier revision answers.
pub struct HarnessRollbackResponse {
    pub component: HarnessComponent,
    pub active_revision: HarnessComponentRevision,
    pub history_event_id: String,
}

/// The revision that a request goes back to.
pub open spec fn rollback_target(
    d: StoreData,
    component_id: Seq<char>,
    req: RollbackHarnessComponentRequest,
) -> Option<Seq<char>> {
    match opt_text(req.target_revision_id) {
        Some(id) => Some(id),
        None => earlier_revision(
            revisions_of(d, component_id),
            opt_text(d.harness_components@[component_id].current_revision_id),
        ),
    }
}

/// Whether a revision has an id.
pub open spec fn revision_is(id: Seq<char>) -> spec_fn(HarnessComponentRevision) -> bool {
    |r: HarnessComponentRevision| r.id@ == id
}

/// Why a component is not rolled back, where nothing is changed.
pub open spec fn rollback_refusal(
    d: StoreData,
    component_id: Seq<char>,
    req: RollbackHarnessComponentRequest,
) -> Option<ErrorView> {
    let target = rollback_target(d, component_id, req);
    if !d.harness_components@.dom().contains(component_id) {
        Some(ErrorView::NotFound("harness component not found"@))
    } else if !d.harness_revisions@.dom().contains(component_id) {
        Some(ErrorView::NotFound("harness revisions not found"@))
    } else if target is None {
        Some(ErrorView::BadRequest("target_revision_id is required"@))
    } else if !any_where(revisions_of(d, component_id), revision_is(target->0)) {
        Some(ErrorView::NotFound("target harness revision not found"@))
    } else {
        None
    }
}

/// Whether `b` is the revision `a` once `target` became the active one in place of `current`.
pub open spec fn rolled_to(target: Seq<char>, current: Option<Seq<char>>) -> spec_fn(
    HarnessComponentRevision,
    HarnessComponentRevision,
) -> bool {
    |a: HarnessComponentRevision, b: HarnessComponentRevision|
        {
            &&& b == (HarnessComponentRevision { status: b.status, ..a })
            &&& b.status@ == (if a.id@ == target {
                "active"@
            } else if Some(a.id@) == current {
                "rolled_back"@
            } else if a.status@ == "active"@ {
                "superseded"@
            } else {
                a.status@
            })
        }
}

/// The records after a component went back to an earlier revision. The change that led to it is not
/// marked yet.
pub open spec fn component_rolled(
    before: StoreData,
    after: StoreData,
    component_id: Seq<char>,
    req: RollbackHarnessComponentRequest,
    now: i64,
) -> bool {
    let target = rollback_target(before, component_id, req)->0;
    let component = before.harness_components@[component_id];
    let has = revisions_of(after, component_id);
    &&& after == (StoreData {
        harness_revisions: after.harness_revisions,
        harness_components: after.harness_components,
        ..before
    })
    &&& pairwise(
        revisions_of(before, component_id),
        has,
        rolled_to(target, opt_text(component.current_revision_id)),
    )
    &&& lists(after.harness_revisions@) == lists(before.harness_revisions@).insert(
        component_id,
        has,
    )
    &&& moved_to(component, after.harness_components@[component_id], target, now)
    &&& after.harness_components@ == before.harness_components@.insert(
        component_id,
        after.harness_components@[component_id],
    )
}

/// The records after a component went back to an earlier revision.
pub open spec fn rolled_back(
    before: StoreData,
    after: StoreData,
    component_id: Seq<char>,
    req: RollbackHarnessComponentRequest,
    now: i64,
) -> bool {
    &&& component_rolled(
        before,
        StoreData { harness_changes: before.harness_changes, ..after },
        component_id,
        req,
        now,
    )
    &&& match opt_text(req.manifest_id) {
        Some(id) => {
            &&& change_with_status(
                before.harness_changes@[id],
                after.harness_changes@[id],
                "rollback"@,
            )
            &&& after.harness_changes@ == before.harness_changes@.insert(
                id,
                after.harness_changes@[id],
            )
        },
        None => after.harness_changes == before.harness_changes,
    }
}

/// What is noted where a component went back to an earlier revision.
pub open spec fn rollback_note(
    component_id: Seq<char>,
    active_revision_id: Seq<char>,
    req: RollbackHarnessComponentRequest,
) -> NoteView {
    let created_by = text_or(opt_text(req.created_by), "admin"@);
    NoteView {
        event_type: "harness.component.rollback"@,
        entity_type: "harness_component"@,
        entity_id: component_id,
        text: text_or(
            opt_text(req.reason),
            "Harness component "@ + component_id + " rolled back by "@ + created_by,
        ),
        members: seq![
            ("active_revision_id"@, active_revision_id),
            ("component_id"@, component_id),
            ("created_by"@, created_by),
            ("scope"@, "harness_only"@),
        ],
    }
}

/// What going back to an earlier revision leads to: the company's history has a note of it.
pub open spec fn rollback_result(
    before: StoreData,
    after: StoreData,
    r: Result<HarnessRollbackResponse, ApiError>,
    resolver: EventIndexResolver,
    tenant_id: Seq<char>,
    component_id: Seq<char>,
    req: RollbackHarnessComponentRequest,
    stamp: StampView,
) -> bool {
    let target = rollback_target(before, component_id, req)->0;
    exists|mid: StoreData, history: Result<HistoryEventResponse, ApiError>|
        {
            &&& #[trigger] rolled_back(before, mid, component_id, req, stamp.now)
            &&& #[trigger] noted(
                mid,
                after,
                history,
                resolver,
                tenant_id,
                "company"@,
                rollback_note(component_id, target, req),
                stamp,
            )
            &&& match history {
                Ok(h) => {
                    &&& r is Ok
                    &&& r->Ok_0.component == mid.harness_components@[component_id]
                    &&& first_of(revisions_of(mid, component_id), revision_is(target)) == Some(
                        r->Ok_0.active_revision,
                    )
                    &&& r->Ok_0.history_event_id@ == h.event.id@
                },
                Err(e) => r == Err::<HarnessRollbackResponse, ApiError>(e),
            }
        }
}

fn roll_back(
    revisions: &mut Vec<HarnessComponentRevision>,
    target: &str,
    current: Option<&str>,
)
    ensures
        pairwise(old(revisions)@, final(revisions)@, rolled_to(target@, opt_str(current))),
{
    let ghost rel = rolled_to(target@, opt_str(current));
    let change = |a: &HarnessComponentRevision| -> (b: Option<HarnessComponentRevision>)
        ensures
            match b {
                Some(c) => rel(*a, c),
                None => rel(*a, *a),
            },
        {
            if text_eq(a.id.as_str(), target) {
                Some(HarnessComponentRevision { status: "active".to_owned(), ..a.clone() })
            } else if (match current {
                Some(id) => text_eq(a.id.as_str(), id),
                None => false,
            }) {
                Some(HarnessComponentRevision { status: "rolled_back".to_owned(), ..a.clone() })
            } else if text_eq(a.status.as_str(), "active") {
                Some(HarnessComponentRevision { status: "superseded".to_owned(), ..a.clone() })
            } else {
                None
            }
        };
    update_list(revisions, change, Ghost(rel));
}

fn find_revision(revisions: &Vec<HarnessComponentRevision>, id: &str) -> (r: Option<
    HarnessComponentRevision,
>)
    ensures
        r == first_of(revisions@, revision_is(id@)),
        r is Some == any_where(revisions@, revision_is(id@)),
{
    let ghost p = revision_is(id@);
    let accept = |r: &HarnessComponentRevision| -> (b: bool)
        ensures
            b == p(*r),
        { text_eq(r.id.as_str(), id) };
    let at: usize = find_where(revisions, accept, Ghost(p));
    proof {
        crate::order::first_where_facts(revisions@, p);
    }
    if at < revisions.len() {
        Some(revisions[at].clone())
    } else {
        None
    }
}

/// Lets a component go back to an earlier revision, and notes it in the company's history.
///
/// The change that is named is looked up last: where there is none of that name, the component has
/// gone back although the call fails.
pub fn rollback_harness_component(
    data: &mut StoreData,
    resolver: &EventIndexResolver,
    tenant_id: &str,
    component_id: &str,
    req: &RollbackHarnessComponentRequest,
    stamp: &Stamp<'_>,
) -> (r: Result<HarnessRollbackResponse, ApiError>)
    requires
        indexes_have_room(*old(data), 1),
    ensures
        match rollback_refusal(*old(data), component_id@, *req) {
            Some(e) => *final(data) == *old(data) && fails_with(r, e),
            None => if req.manifest_id is Some && !old(data).harness_changes@.dom().contains(
                req.manifest_id->0@,
            ) {
                &&& fails_with(r, ErrorView::NotFound("harness change manifest not found"@))
                &&& component_rolled(*old(data), *final(data), component_id@, *req, stamp.now)
            } else {
                rollback_result(
                    *old(data),
                    *final(data),
                    r,
                    *resolver,
                    tenant_id@,
                    component_id@,
                    *req,
                    stamp@,
                )
            },
        },
{
    let key: String = component_id.to_owned();
    let component: HarnessComponent = match data.harness_components.get(&key) {
        Some(component) => component.clone(),
        None => {
            return Err(ApiError::not_found("harness component not found"));
        },
    };
    let current: Option<&str> = as_deref(&component.current_revision_id);
    let target: String = match data.harness_revisions.get(&key) {
        Some(revisions) => {
            let target: Option<String> = match &req.target_revision_id {
                Some(id) => Some(id.clone()),
                None => previous_revision_id(revisions, current),
            };
            let target: String = match target {
                Some(id) => id,
                None => {
                    return Err(ApiError::bad_request("target_revision_id is required"));
                },
            };
            if find_revision(revisions, target.as_str()).is_none() {
                return Err(ApiError::not_found("target harness revision not found"));
            }
            target
        },
        None => {
            return Err(ApiError::not_found("harness revisions not found"));
        },
    };
    let mut revisions: Vec<HarnessComponentRevision> = take_list(
        &mut data.harness_revisions,
        &key,
    );
    let ghost had = revisions@;
    roll_back(&mut revisions, target.as_str(), current);
    let ghost rel = rolled_to(target@, opt_str(current));
    proof {
        let at = choose|i: int| 0 <= i < had.len() && revision_is(target@)(#[trigger] had[i]);
        assert(rel(had[at], revisions@[at]));
        assert(revision_is(target@)(revisions@[at]));
    }
    let found: Option<HarnessComponentRevision> = find_revision(&revisions, target.as_str());
    let active_revision: HarnessComponentRevision = match found {
        Some(revision) => revision,
        None => {
            return Err(ApiError::not_found("target harness revision not found"));
        },
    };
    let ghost has = revisions;
    data.harness_revisions.insert(key.clone(), revisions);
    let component: HarnessComponent = HarnessComponent {
        current_revision_id: Some(target.clone()),
        status: "active".to_owned(),
        updated_at: stamp.now,
        ..component.clone()
    };
    data.harness_components.insert(key, component.clone());
    proof {
        lists_replaced(old(data).harness_revisions@, component_id@, has);
        assert(revisions_of(*data, component_id@) == has@);
        assert(component_rolled(*old(data), *data, component_id@, *req, stamp.now));
    }
    let ghost rolled = *data;
    match &req.manifest_id {
        Some(id) => {
            let change: HarnessChangeManifest = match data.harness_changes.get(id) {
                Some(change) => change.clone(),
                None => {
                    return Err(ApiError::not_found("harness change manifest not found"));
                },
            };
            data.harness_changes.insert(
                id.clone(),
                HarnessChangeManifest { status: "rollback".to_owned(), ..change },
            );
        },
        None => {},
    }
    let ghost mid = *data;
    proof {
        assert(StoreData { harness_changes: old(data).harness_changes, ..mid } == rolled);
        assert(revisions_of(mid, component_id@) == has@);
        assert(rolled_back(*old(data), mid, component_id@, *req, stamp.now));
        crate::order::first_where_facts(has@, revision_is(target@));
        assert(active_revision.id@ == target@);
    }
    let created_by: String = owned_or(&req.created_by, "admin");
    let mut said: String = "Harness component ".to_owned();
    said.append(component_id);
    said.append(" rolled back by ");
    said.append(created_by.as_str());
    let text: &str = match &req.reason {
        Some(reason) => reason.as_str(),
        None => said.as_str(),
    };
    let mut members: Vec<(&'static str, String)> = Vec::new();
    members.push(("active_revision_id", active_revision.id.clone()));
    members.push(("component_id", component_id.to_owned()));
    members.push(("created_by", created_by.clone()));
    members.push(("scope", "harness_only".to_owned()));
    let note: Note<'_> = Note {
        event_type: "harness.component.rollback",
        entity_type: "harness_component",
        entity_id: component_id,
        text,
        members,
    };
    proof {
        assert(pair_texts(note.members@) =~= rollback_note(component_id@, target@, *req).members);
        assert(note@ == rollback_note(component_id@, target@, *req));
    }
    let history: Result<HistoryEventResponse, ApiError> = note_event(
        data,
        resolver,
        tenant_id,
        "company",
        &note,
        stamp,
    );
    assert(noted(
        mid,
        *data,
        history,
        *resolver,
        tenant_id@,
        "company"@,
        rollback_note(component_id@, target@, *req),
        stamp@,
    ));
    match history {
        Ok(history) => Ok(
            HarnessRollbackResponse {
                component,
                active_revision,
                history_event_id: history.event.id.clone(),
            },
        ),
        Err(error) => Err(error),
    }
}

/// Once a revision is made it alone is active among those of its component.
pub proof fn the_new_revision_alone_is_active(
    before: StoreData,
    after: StoreData,
    r: HarnessComponentRevision,
    tenant_id: Seq<char>,
    component_id: Seq<char>,
    req: CreateHarnessComponentRevisionRequest,
    new_id: Seq<char>,
    now: i64,
    i: int,
)
    requires
        revision_made(before, after, r, tenant_id, component_id, req, new_id, now),
        0 <= i < revisions_of(after, component_id).len(),
    ensures
        (revisions_of(after, component_id)[i].status@ == "active"@) == (i == revisions_of(
            after,
            component_id,
        ).len() - 1),
{
    reveal_strlit("active");
    reveal_strlit("superseded");
    assert("active"@[0] == 'a' && "superseded"@[0] == 's');
    let had = revisions_of(before, component_id);
    let has = revisions_of(after, component_id);
    if i < has.len() - 1 {
        assert(retired()(had[i], has.drop_last()[i]));
    }
}

/// Once a component went back to a revision, that one alone is active.
pub proof fn the_target_alone_is_active(
    before: StoreData,
    after: StoreData,
    component_id: Seq<char>,
    req: RollbackHarnessComponentRequest,
    now: i64,
    i: int,
)
    requires
        rolled_back(before, after, component_id, req, now),
        0 <= i < revisions_of(after, component_id).len(),
    ensures
        (revisions_of(after, component_id)[i].status@ == "active"@) == (revisions_of(
            after,
            component_id,
        )[i].id@ == rollback_target(before, component_id, req)->0),
{
    reveal_strlit("active");
    reveal_strlit("superseded");
    reveal_strlit("rolled_back");
    assert("active"@[0] == 'a' && "superseded"@[0] == 's' && "rolled_back"@[0] == 'r');
    let target = rollback_target(before, component_id, req)->0;
    let current = opt_text(before.harness_components@[component_id].current_revision_id);
    assert(rolled_to(target, current)(
        revisions_of(before, component_id)[i],
        revisions_of(after, component_id)[i],
    ));
}

} // verus!
