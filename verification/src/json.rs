//! JSON values.

use vstd::prelude::*;
use vstd::string::*;

use crate::record::{List, Record};
use crate::text::{join, joined, text_eq, texts};

verus! {

/// A JSON value. A number is held as `serde_json` writes it; the members of an object are in key order.
#[derive(Debug, PartialEq, Eq)]
pub enum Json {
    Null,
    Bool(bool),
    Number(String),
    Text(String),
    Array(List<Json>),
    Object(List<(String, Json)>),
}

impl Default for Json {
    fn default() -> (r: Self)
        ensures
            r == Json::Null,
    {
        Json::Null
    }
}

impl Clone for Json {
    fn clone(&self) -> (r: Self)
        ensures
            r == *self,
    {
        match self {
            Json::Null => Json::Null,
            Json::Bool(b) => Json::Bool(*b),
            Json::Number(n) => Json::Number(n.clone()),
            Json::Text(t) => Json::Text(t.clone()),
            Json::Array(items) => Json::Array(items.clone()),
            Json::Object(members) => Json::Object(members.clone()),
        }
    }
}

/// Whether a number is zero with a fraction, of either sign.
pub open spec fn is_zero(number: Seq<char>) -> bool {
    number == "0.0"@ || number == "-0.0"@
}

/// Whether two numbers are equal. A number is written one way only, but for the two zeros.
pub open spec fn same_number(a: Seq<char>, b: Seq<char>) -> bool {
    a == b || (is_zero(a) && is_zero(b))
}

fn numbers_eq(a: &str, b: &str) -> (r: bool)
    ensures
        r == same_number(a@, b@),
{
    text_eq(a, b) || ((text_eq(a, "0.0") || text_eq(a, "-0.0")) && (text_eq(b, "0.0") || text_eq(
        b,
        "-0.0",
    )))
}

/// Whether two values are equal.
pub open spec fn json_same(a: Json, b: Json) -> bool
    decreases a,
{
    match (a, b) {
        (Json::Null, Json::Null) => true,
        (Json::Bool(x), Json::Bool(y)) => x == y,
        (Json::Number(x), Json::Number(y)) => same_number(x@, y@),
        (Json::Text(x), Json::Text(y)) => x@ == y@,
        (Json::Array(x), Json::Array(y)) => {
            &&& x@.len() == y@.len()
            &&& forall|i: int| 0 <= i < x@.len() ==> json_same(#[trigger] x@[i], y@[i])
        },
        (Json::Object(x), Json::Object(y)) => {
            &&& x@.len() == y@.len()
            &&& forall|i: int|
                0 <= i < x@.len() ==> (#[trigger] x@[i]).0@ == y@[i].0@ && json_same(
                    x@[i].1,
                    y@[i].1,
                )
        },
        _ => false,
    }
}

/// A value is equal to itself.
pub proof fn json_is_itself(a: Json)
    ensures
        json_same(a, a),
    decreases a,
{
    match a {
        Json::Array(x) => {
            assert forall|i: int| 0 <= i < x@.len() implies json_same(#[trigger] x@[i], x@[i]) by {
                json_is_itself(x@[i]);
            }
        },
        Json::Object(x) => {
            assert forall|i: int| 0 <= i < x@.len() implies (#[trigger] x@[i]).0@ == x@[i].0@
                && json_same(x@[i].1, x@[i].1) by {
                json_is_itself(x@[i].1);
            }
        },
        _ => {},
    }
}

impl Json {
    /// Whether two values are equal.
    pub fn equals(&self, other: &Json) -> (r: bool)
        ensures
            r == json_same(*self, *other),
        decreases *self,
    {
        match (self, other) {
            (Json::Null, Json::Null) => true,
            (Json::Bool(x), Json::Bool(y)) => *x == *y,
            (Json::Number(x), Json::Number(y)) => numbers_eq(x.as_str(), y.as_str()),
            (Json::Text(x), Json::Text(y)) => text_eq(x.as_str(), y.as_str()),
            (Json::Array(x), Json::Array(y)) => {
                if x.len() != y.len() {
                    return false;
                }
                let mut i: usize = 0;
                while i < x.len()
                    invariant
                        i <= x.len(),
                        x.len() == y.len(),
                        *self == Json::Array(*x),
                        *other == Json::Array(*y),
                        forall|j: int| 0 <= j < i ==> json_same(#[trigger] x@[j], y@[j]),
                    decreases x.len() - i,
                {
                    assert(decreases_to!(*self => self->Array_0@[i as int]));
                    if !x[i].equals(&y[i]) {
                        assert(!json_same(x@[i as int], y@[i as int]));
                        return false;
                    }
                    i += 1;
                }
                true
            },
            (Json::Object(x), Json::Object(y)) => {
                if x.len() != y.len() {
                    return false;
                }
                let mut i: usize = 0;
                while i < x.len()
                    invariant
                        i <= x.len(),
                        x.len() == y.len(),
                        *self == Json::Object(*x),
                        *other == Json::Object(*y),
                        forall|j: int|
                            0 <= j < i ==> (#[trigger] x@[j]).0@ == y@[j].0@ && json_same(
                                x@[j].1,
                                y@[j].1,
                            ),
                    decreases x.len() - i,
                {
                    assert(decreases_to!(*self => self->Object_0@[i as int].1));
                    if !text_eq(x[i].0.as_str(), y[i].0.as_str()) || !x[i].1.equals(&y[i].1) {
                        assert(x@[i as int].0@ != y@[i as int].0@ || !json_same(
                            x@[i as int].1,
                            y@[i as int].1,
                        ));
                        return false;
                    }
                    i += 1;
                }
                true
            },
            _ => false,
        }
    }
}

impl Record for Json {
    open spec fn same_as(&self, other: &Self) -> bool {
        json_same(*self, *other)
    }

    proof fn itself(&self) {
        json_is_itself(*self);
    }

    fn same(&self, other: &Self) -> (r: bool) {
        self.equals(other)
    }

    fn copy(&self) -> (r: Self) {
        self.clone()
    }
}

/// The text that the first member called `name` holds, where it holds one.
pub open spec fn text_member(value: Json, name: Seq<char>) -> Option<Seq<char>> {
    match value {
        Json::Object(members) => text_in(members@, name),
        _ => None,
    }
}

/// The text that the first of `members` called `name` holds, where it holds one.
pub open spec fn text_in(members: Seq<(String, Json)>, name: Seq<char>) -> Option<Seq<char>>
    decreases members.len(),
{
    if members.len() == 0 {
        None
    } else if members[0].0@ == name {
        match members[0].1 {
            Json::Text(t) => Some(t@),
            _ => None,
        }
    } else {
        text_in(members.drop_first(), name)
    }
}

impl Json {
    /// The text that the first member called `name` holds, where it holds one.
    pub fn text_of(&self, name: &str) -> (r: Option<&str>)
        ensures
            crate::text::opt_str(r) == text_member(*self, name@),
    {
        match self {
            Json::Object(members) => {
                let mut i: usize = 0;
                assert(members@.skip(0) =~= members@);
                while i < members.len()
                    invariant
                        i <= members.len(),
                        *self == Json::Object(*members),
                        text_member(*self, name@) == text_in(members@.skip(i as int), name@),
                    decreases members.len() - i,
                {
                    assert(members@.skip(i as int)[0] == members@[i as int]);
                    if text_eq(members[i].0.as_str(), name) {
                        return match &members[i].1 {
                            Json::Text(t) => Some(t.as_str()),
                            _ => None,
                        };
                    }
                    assert(members@.skip(i as int).drop_first() =~= members@.skip(i + 1));
                    i += 1;
                }
                None
            },
            _ => None,
        }
    }
}

/// What `serde_json` writes for a text: the text in quotes, escaped.
pub uninterp spec fn json_quoted(text: Seq<char>) -> Seq<char>;

/// Wraps `serde_json::to_string` on a text, which cannot fail: writing a text asks nothing of it
/// and needs no key. What it writes is named.
#[verifier::external_body]
fn json_quote(text: &str) -> (r: String)
    ensures
        r@ == json_quoted(text@),
{
    serde_json::to_string(text).unwrap_or_default()
}

/// A value as it is written without spaces.
pub open spec fn rendered(value: Json) -> Seq<char>
    decreases value,
{
    match value {
        Json::Null => "null"@,
        Json::Bool(b) => if b {
            "true"@
        } else {
            "false"@
        },
        Json::Number(n) => n@,
        Json::Text(t) => json_quoted(t@),
        Json::Array(items) => "["@ + joined(rendered_items(items@), ","@) + "]"@,
        Json::Object(members) => object_text(rendered_members(members@)),
    }
}

/// Each value as it is written.
pub open spec fn rendered_items(items: Seq<Json>) -> Seq<Seq<char>>
    decreases items,
{
    Seq::new(
        items.len(),
        |i: int|
            if 0 <= i < items.len() {
                rendered(items[i])
            } else {
                Seq::empty()
            },
    )
}

/// Each name with its value as it is written.
pub open spec fn rendered_members(members: Seq<(String, Json)>) -> Seq<(Seq<char>, Seq<char>)>
    decreases members,
{
    Seq::new(
        members.len(),
        |i: int|
            if 0 <= i < members.len() {
                (members[i].0@, rendered(members[i].1))
            } else {
                (Seq::empty(), Seq::empty())
            },
    )
}

impl Json {
    /// A value as it is written without spaces.
    pub fn render(&self) -> (r: String)
        ensures
            r@ == rendered(*self),
        decreases *self,
    {
        match self {
            Json::Null => "null".to_owned(),
            Json::Bool(b) => if *b {
                "true".to_owned()
            } else {
                "false".to_owned()
            },
            Json::Number(n) => n.clone(),
            Json::Text(t) => json_quote(t.as_str()),
            Json::Array(items) => {
                let mut parts: Vec<String> = Vec::new();
                let mut i: usize = 0;
                while i < items.len()
                    invariant
                        i <= items@.len(),
                        *self == Json::Array(*items),
                        parts@.len() == i,
                        forall|j: int| 0 <= j < i ==> (#[trigger] parts@[j])@ == rendered(items@[j]),
                    decreases items@.len() - i,
                {
                    assert(decreases_to!(*self => self->Array_0@[i as int]));
                    parts.push(items[i].render());
                    i += 1;
                }
                assert(texts(parts@) =~= rendered_items(items@));
                let mut out: String = "[".to_owned();
                out.append(join(&parts, ",").as_str());
                out.append("]");
                out
            },
            Json::Object(members) => {
                let mut parts: Vec<String> = Vec::new();
                let mut i: usize = 0;
                while i < members.len()
                    invariant
                        i <= members@.len(),
                        *self == Json::Object(*members),
                        parts@.len() == i,
                        forall|j: int|
                            0 <= j < i ==> (#[trigger] parts@[j])@ == json_quoted(members@[j].0@)
                                + ":"@ + rendered(members@[j].1),
                    decreases members@.len() - i,
                {
                    assert(decreases_to!(*self => self->Object_0@[i as int].1));
                    parts.push(member_text(members[i].0.as_str(), members[i].1.render().as_str()));
                    i += 1;
                }
                assert(texts(parts@) =~= member_texts(rendered_members(members@)));
                braced(&parts)
            },
        }
    }
}

/// Members as they are written, in the braces of an object.
fn braced(parts: &Vec<String>) -> (r: String)
    ensures
        r@ == "{"@ + joined(texts(parts@), ","@) + "}"@,
{
    let mut out: String = "{".to_owned();
    out.append(join(parts, ",").as_str());
    out.append("}");
    out
}

/// A member as it is written, of its name and of a value that is written already.
fn member_text(name: &str, value: &str) -> (r: String)
    ensures
        r@ == json_quoted(name@) + ":"@ + value@,
{
    let mut out: String = json_quote(name);
    out.append(":");
    out.append(value);
    out
}

/// The members of an object as they are written: names, and values that are written already.
pub open spec fn member_texts(s: Seq<(Seq<char>, Seq<char>)>) -> Seq<Seq<char>> {
    Seq::new(s.len(), |i: int| json_quoted(s[i].0) + ":"@ + s[i].1)
}

/// An object as it is written, of names and of values that are written already.
pub open spec fn object_text(s: Seq<(Seq<char>, Seq<char>)>) -> Seq<char> {
    "{"@ + joined(member_texts(s), ","@) + "}"@
}

/// Names and written values by content.
pub open spec fn pair_texts(s: Seq<(&'static str, String)>) -> Seq<(Seq<char>, Seq<char>)> {
    Seq::new(s.len(), |i: int| (s[i].0@, s[i].1@))
}

/// An object as it is written, of names and of values that are written already.
pub(crate) fn render_object(members: &Vec<(&'static str, String)>) -> (r: String)
    ensures
        r@ == object_text(pair_texts(members@)),
{
    let mut parts: Vec<String> = Vec::new();
    let mut i: usize = 0;
    while i < members.len()
        invariant
            i <= members.len(),
            parts@.len() == i,
            forall|j: int|
                0 <= j < i ==> (#[trigger] parts@[j])@ == json_quoted(members@[j].0@) + ":"@
                    + members@[j].1@,
        decreases members.len() - i,
    {
        parts.push(member_text(members[i].0, members[i].1.as_str()));
        i += 1;
    }
    assert(texts(parts@) =~= member_texts(pair_texts(members@)));
    braced(&parts)
}

/// A text as it is written.
pub(crate) fn render_text(text: &str) -> (r: String)
    ensures
        r@ == json_quoted(text@),
{
    json_quote(text)
}

/// Whether `j` is a text with the characters of `t`.
pub open spec fn is_text(j: Json, t: Seq<char>) -> bool {
    match j {
        Json::Text(s) => s@ == t,
        _ => false,
    }
}

/// Whether `j` is an optional text: null where there is none.
pub open spec fn is_opt_text(j: Json, t: Option<Seq<char>>) -> bool {
    match t {
        Some(text) => is_text(j, text),
        None => j == Json::Null,
    }
}

/// An optional text: null where there is none.
pub fn opt_json(t: &Option<String>) -> (r: Json)
    ensures
        is_opt_text(r, crate::text::opt_text(*t)),
{
    match t {
        Some(text) => Json::Text(text.clone()),
        None => Json::Null,
    }
}

/// Whether `j` is an object of texts, member by member.
pub open spec fn is_object_of(j: Json, members: Seq<(Seq<char>, Seq<char>)>) -> bool {
    match j {
        Json::Object(m) => {
            &&& m@.len() == members.len()
            &&& forall|i: int|
                0 <= i < members.len() ==> (#[trigger] m@[i]).0@ == members[i].0 && is_text(
                    m@[i].1,
                    members[i].1,
                )
        },
        _ => false,
    }
}

/// An object of texts.
pub(crate) fn object_of(members: &Vec<(&'static str, String)>) -> (r: Json)
    ensures
        is_object_of(r, pair_texts(members@)),
{
    let mut out: Vec<(String, Json)> = Vec::new();
    let mut i: usize = 0;
    while i < members.len()
        invariant
            i <= members.len(),
            out@.len() == i,
            forall|j: int|
                0 <= j < i ==> (#[trigger] out@[j]).0@ == members@[j].0@ && is_text(
                    out@[j].1,
                    members@[j].1@,
                ),
        decreases members.len() - i,
    {
        out.push((members[i].0.to_owned(), Json::Text(members[i].1.clone())));
        i += 1;
    }
    Json::Object(std::sync::Arc::new(out))
}

/// Whether `j` is a list of texts.
pub open spec fn is_text_list(j: Json, t: Seq<Seq<char>>) -> bool {
    match j {
        Json::Array(items) => {
            &&& items@.len() == t.len()
            &&& forall|i: int| 0 <= i < t.len() ==> is_text(#[trigger] items@[i], t[i])
        },
        _ => false,
    }
}

/// A list of texts.
pub fn text_list(v: &Vec<String>) -> (r: Json)
    ensures
        is_text_list(r, texts(v@)),
{
    let mut out: Vec<Json> = Vec::new();
    let mut i: usize = 0;
    while i < v.len()
        invariant
            i <= v.len(),
            out@.len() == i,
            forall|j: int| 0 <= j < i ==> is_text(#[trigger] out@[j], v@[j]@),
        decreases v.len() - i,
    {
        out.push(Json::Text(v[i].clone()));
        i += 1;
    }
    Json::Array(std::sync::Arc::new(out))
}

/// A moment as it is written in RFC 3339, in universal time.
pub uninterp spec fn rfc3339(nanos: i64) -> Seq<char>;

/// Wraps `DateTime::to_rfc3339_opts` of `chrono` on the moment that `DateTime::from_timestamp_nanos`
/// makes of nanoseconds since 1970, with as many digits as the fraction needs and `Z` for the zone.
/// What it writes is named.
#[verifier::external_body]
pub(crate) fn timestamp_text(nanos: i64) -> (r: String)
    ensures
        r@ == rfc3339(nanos),
{
    chrono::DateTime::from_timestamp_nanos(nanos).to_rfc3339_opts(
        chrono::SecondsFormat::AutoSi,
        true,
    )
}

/// What the first member called `name` holds.
pub open spec fn member(value: Json, name: Seq<char>) -> Option<Json> {
    match value {
        Json::Object(members) => member_in(members@, name),
        _ => None,
    }
}

/// What the first of `members` called `name` holds.
pub open spec fn member_in(members: Seq<(String, Json)>, name: Seq<char>) -> Option<Json>
    decreases members.len(),
{
    if members.len() == 0 {
        None
    } else if members[0].0@ == name {
        Some(members[0].1)
    } else {
        member_in(members.drop_first(), name)
    }
}

/// The text that a value is.
pub open spec fn as_text(value: Json) -> Option<Seq<char>> {
    match value {
        Json::Text(t) => Some(t@),
        _ => None,
    }
}

impl Json {
    /// What the first member called `name` holds.
    pub fn get(&self, name: &str) -> (r: Option<&Json>)
        ensures
            match r {
                Some(j) => member(*self, name@) == Some(*j),
                None => member(*self, name@) is None,
            },
    {
        match self {
            Json::Object(members) => {
                let mut i: usize = 0;
                assert(members@.skip(0) =~= members@);
                while i < members.len()
                    invariant
                        i <= members.len(),
                        *self == Json::Object(*members),
                        member(*self, name@) == member_in(members@.skip(i as int), name@),
                    decreases members.len() - i,
                {
                    assert(members@.skip(i as int)[0] == members@[i as int]);
                    if text_eq(members[i].0.as_str(), name) {
                        return Some(&members[i].1);
                    }
                    assert(members@.skip(i as int).drop_first() =~= members@.skip(i + 1));
                    i += 1;
                }
                None
            },
            _ => None,
        }
    }

    /// The text that a value is.
    pub fn as_str(&self) -> (r: Option<&str>)
        ensures
            crate::text::opt_str(r) == as_text(*self),
    {
        match self {
            Json::Text(t) => Some(t.as_str()),
            _ => None,
        }
    }
}

} // verus!
