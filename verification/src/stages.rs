//! The stages of a search as they are shown: who is no administrator sees no names of indexes.

use vstd::prelude::*;
use vstd::string::*;

use crate::json::Json;
use crate::publish::COMPANY_CONTEXT_INDEX;
use crate::text::{text_before, text_eq, text_lt};

verus! {

/// Whether a member is for debugging alone.
pub open spec fn only_for_debug(name: Seq<char>) -> bool {
    name == "index_uid"@ || name == "filter"@ || name == "raw_stage_debug"@
}

/// The members that may be shown without debugging.
pub open spec fn plain_members() -> spec_fn((String, Json)) -> bool {
    |m: (String, Json)| !only_for_debug(m.0@)
}

/// The members but the whole stage.
pub open spec fn members_but_raw() -> spec_fn((String, Json)) -> bool {
    |m: (String, Json)| m.0@ != "raw_stage_debug"@
}

/// Whether `r` is a member as it is shown to a caller who is no administrator.
pub open spec fn is_redacted(r: (String, Json), m: (String, Json)) -> bool {
    &&& r.0 == m.0
    &&& if m.0@ == "filter"@ {
        r.1 is Text && r.1->Text_0@ == "redacted"@
    } else if m.0@ == "index_uid"@ && m.1 is Text && m.1->Text_0@ != COMPANY_CONTEXT_INDEX@ {
        r.1 is Text && r.1->Text_0@ == "personal_context_redacted"@
    } else {
        r.1 == m.1
    }
}

/// Whether the members are shown one by one to a caller who is no administrator.
pub open spec fn are_redacted(r: Seq<(String, Json)>, m: Seq<(String, Json)>) -> bool {
    r.len() == m.len() && forall|i: int| 0 <= i < m.len() ==> is_redacted(#[trigger] r[i], m[i])
}

/// Whether a member comes before a name.
pub open spec fn named_before(name: Seq<char>) -> spec_fn((String, Json)) -> bool {
    |m: (String, Json)| text_lt(m.0@, name)
}

/// Whether a member comes after a name.
pub open spec fn named_after(name: Seq<char>) -> spec_fn((String, Json)) -> bool {
    |m: (String, Json)| text_lt(name, m.0@)
}

/// Whether `r` are the members with one more, in its place.
pub open spec fn with_member(
    r: Seq<(String, Json)>,
    m: Seq<(String, Json)>,
    name: Seq<char>,
    value: Json,
) -> bool {
    let front = m.filter(named_before(name));
    let back = m.filter(named_after(name));
    &&& r.len() == front.len() + 1 + back.len()
    &&& r.take(front.len() as int) == front
    &&& r[front.len() as int].0@ == name
    &&& r[front.len() as int].1 == value
    &&& r.skip(front.len() as int + 1) == back
}

/// Whether `r` is a stage as it is shown.
pub open spec fn is_shown_stage(r: Json, stage: Json, debug: bool, is_admin: bool) -> bool {
    match stage {
        Json::Object(m) => match r {
            Json::Object(shown) => if !debug {
                shown@ == m@.filter(plain_members())
            } else if is_admin {
                with_member(shown@, m@, "raw_stage_debug"@, stage)
            } else {
                are_redacted(shown@, m@.filter(members_but_raw()))
            },
            _ => false,
        },
        _ => r == stage,
    }
}

fn copy_member(m: &(String, Json)) -> (r: (String, Json))
    ensures
        r == *m,
{
    (m.0.clone(), m.1.clone())
}

fn select_members<F: Fn(&(String, Json)) -> bool>(
    v: &Vec<(String, Json)>,
    accept: F,
    Ghost(p): Ghost<spec_fn((String, Json)) -> bool>,
) -> (r: Vec<(String, Json)>)
    requires
        forall|a: (String, Json)| #[trigger] accept.requires((&a,)),
        forall|a: (String, Json), b: bool| accept.ensures((&a,), b) ==> b == p(a),
    ensures
        r@ == v@.filter(p),
{
    let mut out: Vec<(String, Json)> = Vec::new();
    let mut i: usize = 0;
    assert(v@.take(0).filter(p) =~= Seq::<(String, Json)>::empty()) by {
        reveal(Seq::filter);
    }
    while i < v.len()
        invariant
            i <= v.len(),
            out@ == v@.take(i as int).filter(p),
            forall|a: (String, Json)| #[trigger] accept.requires((&a,)),
            forall|a: (String, Json), b: bool| accept.ensures((&a,), b) ==> b == p(a),
        decreases v.len() - i,
    {
        assert(v@.take(i + 1).drop_last() =~= v@.take(i as int));
        assert(v@.take(i + 1).filter(p) == (if p(v@[i as int]) {
            out@.push(v@[i as int])
        } else {
            out@
        })) by {
            reveal(Seq::filter);
        }
        if accept(&v[i]) {
            out.push(copy_member(&v[i]));
        }
        i += 1;
    }
    assert(v@.take(i as int) =~= v@);
    out
}

fn redact_member(m: &(String, Json)) -> (r: (String, Json))
    ensures
        is_redacted(r, *m),
{
    if text_eq(m.0.as_str(), "filter") {
        return (m.0.clone(), Json::Text("redacted".to_owned()));
    }
    if text_eq(m.0.as_str(), "index_uid") {
        match &m.1 {
            Json::Text(uid) => {
                if !text_eq(uid.as_str(), COMPANY_CONTEXT_INDEX) {
                    return (m.0.clone(), Json::Text("personal_context_redacted".to_owned()));
                }
            },
            _ => {},
        }
    }
    copy_member(m)
}

fn redact_members(m: &Vec<(String, Json)>) -> (r: Vec<(String, Json)>)
    ensures
        are_redacted(r@, m@),
{
    let mut out: Vec<(String, Json)> = Vec::new();
    let mut i: usize = 0;
    while i < m.len()
        invariant
            i <= m.len(),
            out@.len() == i,
            forall|j: int| 0 <= j < i ==> is_redacted(#[trigger] out@[j], m@[j]),
        decreases m.len() - i,
    {
        out.push(redact_member(&m[i]));
        i += 1;
    }
    out
}

fn add_member(m: &Vec<(String, Json)>, name: &str, value: Json) -> (r: Vec<(String, Json)>)
    ensures
        with_member(r@, m@, name@, value),
{
    let ghost p = named_before(name@);
    let before = |x: &(String, Json)| -> (b: bool)
        ensures
            b == p(*x),
        { text_before(x.0.as_str(), name) };
    let ghost q = named_after(name@);
    let after = |x: &(String, Json)| -> (b: bool)
        ensures
            b == q(*x),
        { text_before(name, x.0.as_str()) };
    let mut out: Vec<(String, Json)> = select_members(m, before, Ghost(p));
    let mut back: Vec<(String, Json)> = select_members(m, after, Ghost(q));
    let ghost front = out@;
    let ghost tail = back@;
    out.push((name.to_owned(), value));
    out.append(&mut back);
    assert(out@.take(front.len() as int) =~= front);
    assert(out@.skip(front.len() as int + 1) =~= tail);
    out
}

/// A stage as it is shown: without debugging no index is named, and only an administrator sees the
/// whole stage.
pub fn sanitize_context_stage(stage: &Json, debug: bool, is_admin: bool) -> (r: Json)
    ensures
        is_shown_stage(r, *stage, debug, is_admin),
{
    match stage {
        Json::Object(m) => {
            if !debug {
                let ghost p = plain_members();
                let plain = |x: &(String, Json)| -> (b: bool)
                    ensures
                        b == p(*x),
                    {
                        !(text_eq(x.0.as_str(), "index_uid") || text_eq(x.0.as_str(), "filter")
                            || text_eq(x.0.as_str(), "raw_stage_debug"))
                    };
                return Json::Object(std::sync::Arc::new(select_members(m, plain, Ghost(p))));
            }
            if is_admin {
                let raw: Json = stage.clone();
                return Json::Object(
                    std::sync::Arc::new(add_member(m, "raw_stage_debug", raw)),
                );
            }
            let ghost p = members_but_raw();
            let shown = |x: &(String, Json)| -> (b: bool)
                ensures
                    b == p(*x),
                { !text_eq(x.0.as_str(), "raw_stage_debug") };
            let left: Vec<(String, Json)> = select_members(m, shown, Ghost(p));
            Json::Object(std::sync::Arc::new(redact_members(&left)))
        },
        _ => stage.clone(),
    }
}

/// Whether stages are shown one by one.
pub open spec fn are_shown_stages(
    r: Seq<Json>,
    stages: Seq<Json>,
    debug: bool,
    is_admin: bool,
) -> bool {
    r.len() == stages.len() && forall|i: int|
        0 <= i < stages.len() ==> is_shown_stage(#[trigger] r[i], stages[i], debug, is_admin)
}

/// Stages as they are shown.
pub fn sanitize_context_stages(stages: &Vec<Json>, debug: bool, is_admin: bool) -> (r: Vec<Json>)
    ensures
        are_shown_stages(r@, stages@, debug, is_admin),
{
    let mut out: Vec<Json> = Vec::new();
    let mut i: usize = 0;
    while i < stages.len()
        invariant
            i <= stages.len(),
            out@.len() == i,
            forall|j: int|
                0 <= j < i ==> is_shown_stage(#[trigger] out@[j], stages@[j], debug, is_admin),
        decreases stages.len() - i,
    {
        out.push(sanitize_context_stage(&stages[i], debug, is_admin));
        i += 1;
    }
    out
}

/// Without debugging a stage that is shown names no index and no filter.
pub proof fn plain_stages_name_no_index(r: Json, stage: Json, is_admin: bool, i: int)
    requires
        is_shown_stage(r, stage, false, is_admin),
        stage is Object,
        0 <= i < r->Object_0@.len(),
    ensures
        !only_for_debug(r->Object_0@[i].0@),
{
    broadcast use vstd::seq_lib::group_filter_ensures;

    let p = plain_members();
    assert(p(stage->Object_0@.filter(p)[i]));
}

} // verus!
