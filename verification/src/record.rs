//! What every stored record can do: be copied, be compared by its content, and say where it
//! belongs.

use vstd::prelude::*;

use crate::order::{any_where, sort_by};
use crate::table::{Table, TableKey};
use crate::text::{text_before, text_eq, text_lt};

verus! {

/// A list that is shared, never changed in place.
pub type List<T> = std::sync::Arc<Vec<T>>;

/// A record with a content that can be compared.
pub trait Record: Sized {
    /// Whether two records have the same content.
    spec fn same_as(&self, other: &Self) -> bool;

    /// A record has the same content as itself.
    proof fn itself(&self)
        ensures
            self.same_as(self),
    ;

    fn same(&self, other: &Self) -> (r: bool)
        ensures
            r == self.same_as(other),
    ;

    fn copy(&self) -> (r: Self)
        ensures
            r == *self,
    ;
}

/// Whether two lists have the same contents, one by one.
pub open spec fn all_same<T: Record>(a: Seq<T>, b: Seq<T>) -> bool {
    a.len() == b.len() && forall|i: int| 0 <= i < a.len() ==> (#[trigger] a[i]).same_as(&b[i])
}

/// A list has the same contents as itself.
pub proof fn all_itself<T: Record>(a: Seq<T>)
    ensures
        all_same(a, a),
{
    assert forall|i: int| 0 <= i < a.len() implies (#[trigger] a[i]).same_as(&a[i]) by {
        a[i].itself();
    }
}

/// Whether two lists have the same contents, one by one.
pub fn lists_same<T: Record>(a: &Vec<T>, b: &Vec<T>) -> (r: bool)
    ensures
        r == all_same(a@, b@),
{
    if a.len() != b.len() {
        return false;
    }
    let mut i: usize = 0;
    while i < a.len()
        invariant
            i <= a.len(),
            a.len() == b.len(),
            forall|j: int| 0 <= j < i ==> (#[trigger] a@[j]).same_as(&b@[j]),
        decreases a.len() - i,
    {
        if !a[i].same(&b[i]) {
            assert(!a@[i as int].same_as(&b@[i as int]));
            return false;
        }
        i += 1;
    }
    true
}

/// Whether two optional records are both absent, or both present with the same content.
pub open spec fn opt_same<T: Record>(a: Option<T>, b: Option<T>) -> bool {
    match (a, b) {
        (Some(x), Some(y)) => x.same_as(&y),
        (None, None) => true,
        _ => false,
    }
}

/// An optional record has the same content as itself.
pub proof fn opt_itself<T: Record>(a: Option<T>)
    ensures
        opt_same(a, a),
{
    if a is Some {
        a->0.itself();
    }
}

/// Whether two optional records are both absent, or both present with the same content.
pub fn options_same<T: Record>(a: &Option<T>, b: &Option<T>) -> (r: bool)
    ensures
        r == opt_same(*a, *b),
{
    match (a, b) {
        (Some(x), Some(y)) => x.same(y),
        (None, None) => true,
        _ => false,
    }
}

/// A copy of a list of records.
pub fn copy_all<T: Record>(v: &Vec<T>) -> (r: Vec<T>)
    ensures
        r@ == v@,
{
    let mut out: Vec<T> = Vec::new();
    let mut i: usize = 0;
    while i < v.len()
        invariant
            i <= v.len(),
            out@ == v@.take(i as int),
        decreases v.len() - i,
    {
        out.push(v[i].copy());
        i += 1;
        assert(v@.take(i as int) =~= v@.take(i - 1).push(v@[i - 1]));
    }
    assert(v@.take(i as int) =~= v@);
    out
}

/// A record that is a row of a table: it has a key, belongs to a tenant and has a place in
/// listings.
pub trait Row<K: TableKey>: Record {
    spec fn key(&self) -> K::V;

    spec fn tenant(&self) -> Seq<char>;

    /// The text by which listings are ordered.
    spec fn rank(&self) -> Seq<char>;

    fn key_of(&self) -> (k: K)
        ensures
            k@ == self.key(),
    ;

    fn tenant_of(&self) -> (t: &str)
        ensures
            t@ == self.tenant(),
    ;

    fn rank_of(&self) -> (t: &str)
        ensures
            t@ == self.rank(),
    ;
}

/// Copies of the elements that `accept` accepts, in order.
pub(crate) fn select<T: Record, F: Fn(&T) -> bool>(
    v: &Vec<T>,
    accept: F,
    Ghost(p): Ghost<spec_fn(T) -> bool>,
) -> (r: Vec<T>)
    requires
        forall|a: T| #[trigger] accept.requires((&a,)),
        forall|a: T, b: bool| accept.ensures((&a,), b) ==> b == p(a),
    ensures
        r@ == v@.filter(p),
{
    let mut out: Vec<T> = Vec::new();
    let mut i: usize = 0;
    assert(v@.take(0).filter(p) =~= Seq::<T>::empty()) by {
        reveal(Seq::filter);
    }
    while i < v.len()
        invariant
            i <= v.len(),
            out@ == v@.take(i as int).filter(p),
            forall|a: T| #[trigger] accept.requires((&a,)),
            forall|a: T, b: bool| accept.ensures((&a,), b) ==> b == p(a),
        decreases v.len() - i,
    {
        assert(v@.take(i + 1).drop_last() =~= v@.take(i as int));
        assert(v@.take(i + 1).filter(p) == (if p(v@[i as int]) {
            out@.push(v@[i as int])
        } else {
            out@
        })) by {
            reveal(Seq::filter);
        }
        if accept(&v[i]) {
            out.push(v[i].copy());
        }
        i += 1;
    }
    assert(v@.take(i as int) =~= v@);
    out
}

/// Copies of the values that `accept` accepts, in the order of the rows.
pub(crate) fn select_values<K: TableKey, V: Record, F: Fn(&V) -> bool>(
    t: &Table<K, V>,
    accept: F,
    Ghost(p): Ghost<spec_fn(V) -> bool>,
) -> (r: Vec<V>)
    requires
        forall|a: V| #[trigger] accept.requires((&a,)),
        forall|a: V, b: bool| accept.ensures((&a,), b) ==> b == p(a),
    ensures
        r@ == t.values().filter(p),
        t.wf(),
{
    let mut out: Vec<V> = Vec::new();
    let mut i: usize = 0;
    let n: usize = t.len();
    let ghost all = t.values();
    assert(all.take(0).filter(p) =~= Seq::<V>::empty()) by {
        reveal(Seq::filter);
    }
    while i < n
        invariant
            i <= n == all.len(),
            all == t.values(),
            all.len() == t.rows().len(),
            out@ == all.take(i as int).filter(p),
            forall|a: V| #[trigger] accept.requires((&a,)),
            forall|a: V, b: bool| accept.ensures((&a,), b) ==> b == p(a),
        decreases n - i,
    {
        assert(all.take(i + 1).drop_last() =~= all.take(i as int));
        assert(all.take(i + 1).filter(p) == (if p(all[i as int]) {
            out@.push(all[i as int])
        } else {
            out@
        })) by {
            reveal(Seq::filter);
        }
        let value: &V = t.value_at(i);
        if accept(value) {
            out.push(value.copy());
        }
        i += 1;
    }
    assert(all.take(i as int) =~= all);
    out
}

/// Whether `accept` accepts some value of a table.
pub(crate) fn any_value<K: TableKey, V, F: Fn(&V) -> bool>(
    t: &Table<K, V>,
    accept: F,
    Ghost(p): Ghost<spec_fn(V) -> bool>,
) -> (r: bool)
    requires
        forall|a: V| #[trigger] accept.requires((&a,)),
        forall|a: V, b: bool| accept.ensures((&a,), b) ==> b == p(a),
    ensures
        r == any_where(t.values(), p),
{
    let mut i: usize = 0;
    let n: usize = t.len();
    while i < n
        invariant
            i <= n == t.rows().len(),
            t.values().len() == n,
            forall|j: int| 0 <= j < i ==> !p(#[trigger] t.values()[j]),
            forall|a: V| #[trigger] accept.requires((&a,)),
            forall|a: V, b: bool| accept.ensures((&a,), b) ==> b == p(a),
        decreases n - i,
    {
        if accept(t.value_at(i)) {
            assert(p(t.values()[i as int]));
            return true;
        }
        i += 1;
    }
    false
}

/// Whether a row is new or has changed since `before`.
pub open spec fn row_changed<K: TableKey, R: Row<K>>(before: Map<K::V, R>, row: R) -> bool {
    !(before.dom().contains(row.key()) && before[row.key()].same_as(&row))
}

/// Whether a row of a tenant is new or has changed since `before`.
pub open spec fn changed_of<K: TableKey, R: Row<K>>(
    before: Map<K::V, R>,
    tenant_id: Seq<char>,
) -> spec_fn(R) -> bool {
    |row: R| row.tenant() == tenant_id && row_changed::<K, R>(before, row)
}

/// The order of rows by rank.
pub open spec fn by_rank<K: TableKey, R: Row<K>>() -> spec_fn(R, R) -> bool {
    |a: R, b: R| text_lt(a.rank(), b.rank())
}

/// The rows of a tenant that are new or have changed since `before`, by rank.
pub open spec fn changes<K: TableKey, R: Row<K>>(
    before: Map<K::V, R>,
    after: Seq<R>,
    tenant_id: Seq<char>,
) -> Seq<R> {
    crate::order::sorted_by(
        after.filter(changed_of::<K, R>(before, tenant_id)),
        by_rank::<K, R>(),
    )
}

/// The rows of a tenant that are new or have changed since `before`, by rank.
pub fn changed_rows<K: TableKey, R: Row<K>>(
    before: &Table<K, R>,
    after: &Table<K, R>,
    tenant_id: &str,
) -> (r: Vec<R>)
    ensures
        r@ == changes::<K, R>(before@, after.values(), tenant_id@),
{
    let ghost p = changed_of::<K, R>(before@, tenant_id@);
    let accept = |row: &R| -> (b: bool)
        ensures
            b == p(*row),
        {
            text_eq(row.tenant_of(), tenant_id) && match before.get(&row.key_of()) {
                Some(old_row) => !old_row.same(row),
                None => true,
            }
        };
    let picked: Vec<R> = select_values(after, accept, Ghost(p));
    sort_rows(picked)
}

/// Rows ordered by rank.
pub fn sort_rows<K: TableKey, R: Row<K>>(rows: Vec<R>) -> (r: Vec<R>)
    ensures
        r@ == crate::order::sorted_by(rows@, by_rank::<K, R>()),
{
    let ghost lt = by_rank::<K, R>();
    let before = |a: &R, b: &R| -> (c: bool)
        ensures
            c == lt(*a, *b),
        { text_before(a.rank_of(), b.rank_of()) };
    sort_by(rows, before, Ghost(lt))
}

/// The values of a table, in the order in which their keys came.
pub fn all_values<K: TableKey, V: Record>(t: &Table<K, V>) -> (r: Vec<V>)
    ensures
        r@ == t.values(),
{
    let n: usize = t.len();
    let ghost all = t.values();
    let mut out: Vec<V> = Vec::new();
    let mut i: usize = 0;
    while i < n
        invariant
            i <= n == t.rows().len(),
            all == t.values(),
            all.len() == n,
            out@ == all.take(i as int),
        decreases n - i,
    {
        out.push(t.value_at(i).copy());
        assert(all.take(i + 1) =~= all.take(i as int).push(all[i as int]));
        i += 1;
    }
    assert(all.take(i as int) =~= all);
    out
}

/// How many values of a table `accept` accepts.
pub(crate) fn count_values<K: TableKey, V, F: Fn(&V) -> bool>(
    t: &Table<K, V>,
    accept: F,
    Ghost(p): Ghost<spec_fn(V) -> bool>,
) -> (r: usize)
    requires
        forall|a: V| #[trigger] accept.requires((&a,)),
        forall|a: V, b: bool| accept.ensures((&a,), b) ==> b == p(a),
    ensures
        r == t.values().filter(p).len(),
{
    let n: usize = t.len();
    let ghost all = t.values();
    let mut count: usize = 0;
    let mut i: usize = 0;
    assert(all.take(0).filter(p) =~= Seq::<V>::empty()) by {
        reveal(Seq::filter);
    }
    while i < n
        invariant
            i <= n == t.rows().len(),
            all == t.values(),
            all.len() == n,
            count <= i,
            count == all.take(i as int).filter(p).len(),
            forall|a: V| #[trigger] accept.requires((&a,)),
            forall|a: V, b: bool| accept.ensures((&a,), b) ==> b == p(a),
        decreases n - i,
    {
        assert(all.take(i + 1).drop_last() =~= all.take(i as int));
        assert(all.take(i + 1).filter(p) == (if p(all[i as int]) {
            all.take(i as int).filter(p).push(all[i as int])
        } else {
            all.take(i as int).filter(p)
        })) by {
            reveal(Seq::filter);
        }
        if accept(t.value_at(i)) {
            count += 1;
        }
        i += 1;
    }
    assert(all.take(i as int) =~= all);
    count
}

/// What is listed as changed for a tenant is exactly the rows of the tenant that are new or have
/// changed: nothing of others, nothing that stayed as it was, and nothing is left out.
pub proof fn changes_are_exact<K: TableKey, R: Row<K>>(
    before: Map<K::V, R>,
    after: Seq<R>,
    tenant_id: Seq<char>,
    x: R,
)
    ensures
        changes::<K, R>(before, after, tenant_id).contains(x) <==> after.contains(x)
            && x.tenant() == tenant_id && row_changed::<K, R>(before, x),
{
    broadcast use vstd::seq_lib::group_to_multiset_ensures, vstd::seq_lib::group_filter_ensures;

    let p = changed_of::<K, R>(before, tenant_id);
    let lt = by_rank::<K, R>();
    let picked = after.filter(p);
    crate::order::sorted_by_keeps_elements(picked, lt);
    let c = crate::order::sorted_by(picked, lt);
    assert(c.to_multiset().count(x) == picked.to_multiset().count(x));
    assert(c.contains(x) <==> picked.contains(x));
    if picked.contains(x) {
        after.lemma_filter_contains_rev(p, x);
        let i = choose|i: int| 0 <= i < picked.len() && picked[i] == x;
        assert(p(picked[i]));
    }
    if after.contains(x) && p(x) {
        let i = choose|i: int| 0 <= i < after.len() && after[i] == x;
        assert(p(after[i]));
        assert(picked.contains(after[i]));
    }
}

} // verus!
