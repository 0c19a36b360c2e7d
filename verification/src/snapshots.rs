//! Structured snapshots and their rows, as far as they are kept in memory.

use vstd::prelude::*;
use vstd::string::*;

use crate::data::StoreData;
use crate::error::{fails_with, ApiError, ErrorView};
use crate::json::{text_member, Json};
use crate::model::knowledge::StructuredSnapshot;
use crate::record::copy_all;
use crate::table::{list_at, lists, take_list, Table};
use crate::text::{text_eq, texts, texts_push};

verus! {

/// A snapshot of a tenant.
pub fn get_snapshot(data: &StoreData, tenant_id: &str, snapshot_id: &str) -> (r: Result<
    StructuredSnapshot,
    ApiError,
>)
    ensures
        if data.snapshots@.dom().contains(snapshot_id@) && data.snapshots@[snapshot_id@].tenant_id@
            == tenant_id@ {
            r == Ok::<StructuredSnapshot, ApiError>(data.snapshots@[snapshot_id@])
        } else {
            fails_with(r, ErrorView::NotFound("snapshot not found"@))
        },
{
    let key: String = snapshot_id.to_owned();
    match data.snapshots.get(&key) {
        Some(snapshot) => if text_eq(snapshot.tenant_id.as_str(), tenant_id) {
            Ok(snapshot.clone())
        } else {
            Err(ApiError::not_found("snapshot not found"))
        },
        None => Err(ApiError::not_found("snapshot not found")),
    }
}

/// Keeps a snapshot that was read for an id, unless there is one under the id; what is there is
/// answered.
pub fn cache_snapshot(
    data: &mut StoreData,
    snapshot_id: &str,
    loaded: Option<StructuredSnapshot>,
) -> (r: Result<StructuredSnapshot, ApiError>)
    ensures
        match loaded {
            None => *final(data) == *old(data) && fails_with(
                r,
                ErrorView::NotFound("snapshot not found"@),
            ),
            Some(snapshot) => if old(data).snapshots@.dom().contains(snapshot_id@) {
                &&& *final(data) == *old(data)
                &&& r == Ok::<StructuredSnapshot, ApiError>(old(data).snapshots@[snapshot_id@])
            } else {
                &&& *final(data) == (StoreData { snapshots: final(data).snapshots, ..*old(data) })
                &&& final(data).snapshots@ == old(data).snapshots@.insert(snapshot.id@, snapshot)
                &&& r == Ok::<StructuredSnapshot, ApiError>(snapshot)
            },
        },
{
    match loaded {
        Some(snapshot) => {
            let key: String = snapshot_id.to_owned();
            match data.snapshots.get(&key) {
                Some(current) => {
                    return Ok(current.clone());
                },
                None => {},
            }
            data.snapshots.insert(snapshot.id.clone(), snapshot.clone());
            Ok(snapshot)
        },
        None => Err(ApiError::not_found("snapshot not found")),
    }
}

/// Whether some row has an id.
pub open spec fn row_has_id(rows: Seq<Json>, id: Seq<char>) -> bool {
    exists|i: int| 0 <= i < rows.len() && text_member(#[trigger] rows[i], "id"@) == Some(id)
}

/// Keeps the rows of a snapshot that were read, unless its rows are there; the ids of the rows are
/// known from then on.
pub fn cache_snapshot_rows(data: &mut StoreData, snapshot_id: &str, rows: Vec<Json>)
    ensures
        if old(data).rows_by_snapshot@.dom().contains(snapshot_id@) {
            *final(data) == *old(data)
        } else {
            &&& *final(data) == (StoreData {
                rows_by_snapshot: final(data).rows_by_snapshot,
                row_idempotency: final(data).row_idempotency,
                ..*old(data)
            })
            &&& final(data).rows_by_snapshot@ == old(data).rows_by_snapshot@.insert(
                snapshot_id@,
                rows,
            )
            &&& forall|k: (Seq<char>, Seq<char>)| #[trigger]
                final(data).row_idempotency@.dom().contains(k) <==> old(
                    data,
                ).row_idempotency@.dom().contains(k) || (k.0 == snapshot_id@ && row_has_id(
                    rows@,
                    k.1,
                ))
        },
{
    let key: String = snapshot_id.to_owned();
    if data.rows_by_snapshot.contains_key(&key) {
        return;
    }
    let ghost before = data.row_idempotency@;
    let mut i: usize = 0;
    while i < rows.len()
        invariant
            i <= rows@.len(),
            *data == (StoreData { row_idempotency: data.row_idempotency, ..*old(data) }),
            before == old(data).row_idempotency@,
            forall|k: (Seq<char>, Seq<char>)| #[trigger]
                data.row_idempotency@.dom().contains(k) <==> before.dom().contains(k) || (k.0
                    == snapshot_id@ && row_has_id(rows@.take(i as int), k.1)),
        decreases rows.len() - i,
    {
        let ghost known = data.row_idempotency@;
        let id: Option<&str> = rows[i].text_of("id");
        match id {
            Some(id) => {
                data.row_idempotency.insert((snapshot_id.to_owned(), id.to_owned()), ());
            },
            None => {},
        }
        proof {
            let front = rows@.take(i as int);
            let next = rows@.take(i + 1);
            assert(next[i as int] == rows@[i as int]);
            assert forall|k: (Seq<char>, Seq<char>)| #[trigger]
                data.row_idempotency@.dom().contains(k) <==> before.dom().contains(k) || (k.0
                    == snapshot_id@ && row_has_id(next, k.1)) by {
                if row_has_id(front, k.1) {
                    let j = choose|j: int|
                        0 <= j < front.len() && text_member(#[trigger] front[j], "id"@) == Some(k.1);
                    assert(next[j] == front[j]);
                }
                if row_has_id(next, k.1) {
                    let j = choose|j: int|
                        0 <= j < next.len() && text_member(#[trigger] next[j], "id"@) == Some(k.1);
                    if j < i {
                        assert(front[j] == next[j]);
                    }
                }
                assert(known.dom().contains(k) <==> before.dom().contains(k) || (k.0
                    == snapshot_id@ && row_has_id(front, k.1)));
            }
        }
        i += 1;
    }
    assert(rows@.take(i as int) =~= rows@);
    data.rows_by_snapshot.insert(key, rows);
}

/// The rows of a snapshot.
pub fn list_rows(data: &StoreData, snapshot_id: &str) -> (r: Vec<Json>)
    ensures
        r@ == list_at(lists(data.rows_by_snapshot@), snapshot_id@),
{
    let key: String = snapshot_id.to_owned();
    match data.rows_by_snapshot.get(&key) {
        Some(rows) => copy_all(rows),
        None => Vec::new(),
    }
}

/// The numbers that members of an object called `name` hold.
pub open spec fn numbers_in(members: Seq<(String, Json)>, name: Seq<char>) -> Seq<Seq<char>>
    decreases members.len(),
{
    if members.len() == 0 {
        Seq::empty()
    } else {
        let front = numbers_in(members.drop_last(), name);
        match members.last().1 {
            Json::Number(n) => if members.last().0@ == name {
                front.push(n@)
            } else {
                front
            },
            _ => front,
        }
    }
}

/// The numbers that a row has in a column.
pub open spec fn row_numbers(row: Json, name: Seq<char>) -> Seq<Seq<char>> {
    match row {
        Json::Object(members) => numbers_in(members@, name),
        _ => Seq::empty(),
    }
}

/// The numbers that rows have in a column, in the order of the rows.
pub open spec fn column(rows: Seq<Json>, name: Seq<char>) -> Seq<Seq<char>>
    decreases rows.len(),
{
    if rows.len() == 0 {
        Seq::empty()
    } else {
        column(rows.drop_last(), name) + row_numbers(rows.last(), name)
    }
}

/// Whether a table holds the numbers of each column that has any.
pub open spec fn holds_columns(
    m: Map<Seq<char>, Vec<String>>,
    columns: spec_fn(Seq<char>) -> Seq<Seq<char>>,
) -> bool {
    forall|name: Seq<char>|
        #![trigger m.dom().contains(name)]
        if columns(name).len() > 0 {
            m.dom().contains(name) && texts(m[name]@) == columns(name)
        } else {
            !m.dom().contains(name)
        }
}

fn add_number(
    t: &mut Table<String, Vec<String>>,
    name: &String,
    number: &String,
    Ghost(columns): Ghost<spec_fn(Seq<char>) -> Seq<Seq<char>>>,
    Ghost(next): Ghost<spec_fn(Seq<char>) -> Seq<Seq<char>>>,
)
    requires
        holds_columns(old(t)@, columns),
        next(name@) == columns(name@).push(number@),
        forall|x: Seq<char>| x != name@ ==> #[trigger] next(x) == columns(x),
    ensures
        holds_columns(final(t)@, next),
{
    let ghost before = t@;
    let mut list: Vec<String> = take_list(t, name);
    let text: String = number.clone();
    proof {
        texts_push(list@, text);
        assert(before.dom().contains(name@) ==> texts(list@) == columns(name@));
        if !before.dom().contains(name@) {
            assert(texts(list@) =~= columns(name@));
        }
    }
    list.push(text);
    t.insert(name.clone(), list);
    proof {
        assert forall|x: Seq<char>|
            #![trigger t@.dom().contains(x)]
            if next(x).len() > 0 {
                t@.dom().contains(x) && texts(t@[x]@) == next(x)
            } else {
                !t@.dom().contains(x)
            } by {
            if x != name@ {
                assert(t@.dom().contains(x) == before.dom().contains(x));
            }
        }
    }
}

/// The numbers of each column.
pub open spec fn columns_of(rows: Seq<Json>) -> spec_fn(Seq<char>) -> Seq<Seq<char>> {
    |name: Seq<char>| column(rows, name)
}

spec fn columns_with(rows: Seq<Json>, members: Seq<(String, Json)>) -> spec_fn(Seq<char>) -> Seq<
    Seq<char>,
> {
    |name: Seq<char>| column(rows, name) + numbers_in(members, name)
}

proof fn same_columns(
    m: Map<Seq<char>, Vec<String>>,
    a: spec_fn(Seq<char>) -> Seq<Seq<char>>,
    b: spec_fn(Seq<char>) -> Seq<Seq<char>>,
)
    requires
        holds_columns(m, a),
        forall|x: Seq<char>| #[trigger] b(x) == a(x),
    ensures
        holds_columns(m, b),
{
    assert forall|name: Seq<char>|
        #![trigger m.dom().contains(name)]
        if b(name).len() > 0 {
            m.dom().contains(name) && texts(m[name]@) == b(name)
        } else {
            !m.dom().contains(name)
        } by {
        assert(b(name) == a(name));
        assert(m.dom().contains(name) == (a(name).len() > 0));
    }
}

fn add_members(
    t: &mut Table<String, Vec<String>>,
    members: &Vec<(String, Json)>,
    Ghost(rows): Ghost<Seq<Json>>,
)
    requires
        holds_columns(old(t)@, columns_of(rows)),
    ensures
        holds_columns(final(t)@, columns_with(rows, members@)),
{
    let mut j: usize = 0;
    proof {
        let b = columns_with(rows, members@.take(0));
        assert forall|x: Seq<char>| #[trigger] b(x) == columns_of(rows)(x) by {
            assert(b(x) =~= column(rows, x));
        }
        same_columns(t@, columns_of(rows), b);
    }
    while j < members.len()
        invariant
            j <= members@.len(),
            holds_columns(t@, columns_with(rows, members@.take(j as int))),
        decreases members.len() - j,
    {
        let ghost a = columns_with(rows, members@.take(j as int));
        let ghost b = columns_with(rows, members@.take(j + 1));
        assert(members@.take(j + 1).drop_last() =~= members@.take(j as int));
        match &members[j].1 {
            Json::Number(number) => {
                proof {
                    let name = members@[j as int].0@;
                    assert(b(name) =~= a(name).push(number@));
                    assert forall|x: Seq<char>| x != name implies #[trigger] b(x) == a(x) by {
                        assert(b(x) =~= a(x));
                    }
                }
                add_number(t, &members[j].0, number, Ghost(a), Ghost(b));
            },
            _ => {
                proof {
                    assert forall|x: Seq<char>| #[trigger] b(x) == a(x) by {
                        assert(b(x) =~= a(x));
                    }
                    same_columns(t@, a, b);
                }
            },
        }
        j += 1;
    }
    assert(members@.take(j as int) =~= members@);
}

/// The columns of rows that hold numbers, each with its numbers as they are written, in the order
/// of the rows.
pub fn numeric_columns(rows: &Vec<Json>) -> (r: Table<String, Vec<String>>)
    ensures
        holds_columns(r@, columns_of(rows@)),
{
    let mut out: Table<String, Vec<String>> = Table::new();
    let mut i: usize = 0;
    while i < rows.len()
        invariant
            i <= rows@.len(),
            holds_columns(out@, columns_of(rows@.take(i as int))),
        decreases rows.len() - i,
    {
        let ghost front = rows@.take(i as int);
        let ghost next = columns_of(rows@.take(i + 1));
        assert(rows@.take(i + 1).drop_last() =~= front);
        match &rows[i] {
            Json::Object(members) => {
                add_members(&mut out, members, Ghost(front));
                proof {
                    let a = columns_with(front, members@);
                    assert forall|x: Seq<char>| #[trigger] next(x) == a(x) by {
                        assert(row_numbers(rows@[i as int], x) == numbers_in(members@, x));
                    }
                    same_columns(out@, a, next);
                }
            },
            _ => {
                proof {
                    let a = columns_of(front);
                    assert forall|x: Seq<char>| #[trigger] next(x) == a(x) by {
                        assert(next(x) =~= a(x));
                    }
                    same_columns(out@, a, next);
                }
            },
        }
        i += 1;
    }
    assert(rows@.take(i as int) =~= rows@);
    out
}

} // verus!
