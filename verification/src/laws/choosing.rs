//! What it means to choose from a list: to take what is asked for, put it in order and stop at a
//! limit.

use vstd::prelude::*;

use crate::history_search::limited;
use crate::operations::at_most;
use crate::order::{
    any_where, first_where, first_where_facts, sorted_by, sorted_by_is_in_order,
    sorted_by_keeps_elements, strict_order,
};
use crate::reading::first_of;
use crate::table::{row_of, Table};

verus! {

/// A limit keeps the front of a list: as much as it allows, and at least one element.
pub proof fn a_limit_keeps_the_front<T>(s: Seq<T>, limit: nat, i: int)
    ensures
        limited(s, limit).len() <= s.len(),
        limited(s, limit).len() < s.len() ==> limited(s, limit).len() == limit || (limit == 0
            && limited(s, limit).len() == 1),
        limited(s, limit).len() <= limit || limited(s, limit).len() <= 1,
        0 <= i < limited(s, limit).len() ==> limited(s, limit)[i] == s[i],
{
}

/// A bound keeps the front of a list: as much as it allows.
pub proof fn a_bound_keeps_the_front<T>(s: Seq<T>, limit: nat, i: int)
    ensures
        at_most(s, limit).len() <= s.len(),
        at_most(s, limit).len() <= limit,
        at_most(s, limit).len() < s.len() ==> at_most(s, limit).len() == limit,
        0 <= i < at_most(s, limit).len() ==> at_most(s, limit)[i] == s[i],
{
}

/// Sorting keeps what is in a list.
pub proof fn sorting_keeps_members<T>(s: Seq<T>, lt: spec_fn(T, T) -> bool, x: T)
    ensures
        sorted_by(s, lt).contains(x) <==> s.contains(x),
        sorted_by(s, lt).len() == s.len(),
{
    broadcast use vstd::seq_lib::group_to_multiset_ensures;

    sorted_by_keeps_elements(s, lt);
    assert(sorted_by(s, lt).contains(x) <==> sorted_by(s, lt).to_multiset().count(x) > 0);
    assert(s.contains(x) <==> s.to_multiset().count(x) > 0);
}

/// A filter keeps what it accepts and nothing else.
pub proof fn a_filter_keeps_what_it_accepts<T>(s: Seq<T>, p: spec_fn(T) -> bool, x: T)
    ensures
        s.filter(p).contains(x) <==> s.contains(x) && p(x),
{
    broadcast use vstd::seq_lib::group_filter_ensures;

    if s.filter(p).contains(x) {
        s.lemma_filter_contains_rev(p, x);
        let j = choose|j: int| 0 <= j < s.filter(p).len() && s.filter(p)[j] == x;
        assert(p(s.filter(p)[j]));
    }
    if s.contains(x) && p(x) {
        let j = choose|j: int| 0 <= j < s.len() && s[j] == x;
        assert(p(s[j]));
        assert(s.filter(p).contains(s[j]));
    }
}

/// What is chosen was there, is accepted and is in order.
pub proof fn what_is_chosen_is_accepted<T>(
    s: Seq<T>,
    p: spec_fn(T) -> bool,
    lt: spec_fn(T, T) -> bool,
    limit: nat,
    i: int,
)
    requires
        0 <= i < limited(sorted_by(s.filter(p), lt), limit).len(),
    ensures
        s.contains(limited(sorted_by(s.filter(p), lt), limit)[i]),
        p(limited(sorted_by(s.filter(p), lt), limit)[i]),
{
    let x = limited(sorted_by(s.filter(p), lt), limit)[i];
    assert(sorted_by(s.filter(p), lt)[i] == x);
    sorting_keeps_members(s.filter(p), lt, x);
    a_filter_keeps_what_it_accepts(s, p, x);
}

/// What is accepted is chosen, unless the limit is reached by what does not come behind it.
pub proof fn what_is_accepted_is_chosen<T>(
    s: Seq<T>,
    p: spec_fn(T) -> bool,
    lt: spec_fn(T, T) -> bool,
    limit: nat,
    x: T,
)
    requires
        strict_order(lt),
        s.contains(x),
        p(x),
    ensures
        ({
            let r = limited(sorted_by(s.filter(p), lt), limit);
            r.contains(x) || {
                &&& r.len() >= limit
                &&& r.len() >= 1
                &&& forall|i: int| 0 <= i < r.len() ==> !lt(x, #[trigger] r[i])
            }
        }),
{
    let all = sorted_by(s.filter(p), lt);
    let r = limited(all, limit);
    a_filter_keeps_what_it_accepts(s, p, x);
    sorting_keeps_members(s.filter(p), lt, x);
    sorted_by_is_in_order(s.filter(p), lt);
    let k = choose|k: int| 0 <= k < all.len() && all[k] == x;
    if k < r.len() {
        assert(r[k] == x);
    } else {
        assert forall|i: int| 0 <= i < r.len() implies !lt(x, #[trigger] r[i]) by {
            assert(r[i] == all[i]);
        }
    }
}

/// What is chosen is in order.
pub proof fn what_is_chosen_is_in_order<T>(
    s: Seq<T>,
    p: spec_fn(T) -> bool,
    lt: spec_fn(T, T) -> bool,
    limit: nat,
    i: int,
    j: int,
)
    requires
        strict_order(lt),
        0 <= i < j < limited(sorted_by(s.filter(p), lt), limit).len(),
    ensures
        !lt(
            limited(sorted_by(s.filter(p), lt), limit)[j],
            limited(sorted_by(s.filter(p), lt), limit)[i],
        ),
{
    let all = sorted_by(s.filter(p), lt);
    sorted_by_is_in_order(s.filter(p), lt);
    assert(limited(all, limit)[i] == all[i]);
    assert(limited(all, limit)[j] == all[j]);
}

/// What is chosen is what was there and is accepted, in order, unless the limit is reached.
pub proof fn what_is_chosen<T>(
    s: Seq<T>,
    p: spec_fn(T) -> bool,
    lt: spec_fn(T, T) -> bool,
    limit: nat,
)
    requires
        strict_order(lt),
    ensures
        ({
            let r = limited(sorted_by(s.filter(p), lt), limit);
            &&& forall|i: int| 0 <= i < r.len() ==> s.contains(#[trigger] r[i]) && p(r[i])
            &&& forall|i: int, j: int|
                0 <= i < j < r.len() ==> !lt(#[trigger] r[j], #[trigger] r[i])
            &&& forall|x: T| #[trigger]
                s.contains(x) && p(x) ==> r.contains(x) || (r.len() >= limit && r.len() >= 1
                    && forall|i: int| 0 <= i < r.len() ==> !lt(x, #[trigger] r[i]))
            &&& r.len() <= limit || r.len() <= 1
        }),
{
    let r = limited(sorted_by(s.filter(p), lt), limit);
    assert forall|i: int| 0 <= i < r.len() implies s.contains(#[trigger] r[i]) && p(r[i]) by {
        what_is_chosen_is_accepted(s, p, lt, limit, i);
    }
    assert forall|i: int, j: int| 0 <= i < j < r.len() implies !lt(
        #[trigger] r[j],
        #[trigger] r[i],
    ) by {
        what_is_chosen_is_in_order(s, p, lt, limit, i, j);
    }
    assert forall|x: T| #[trigger] s.contains(x) && p(x) implies r.contains(x) || (r.len() >= limit
        && r.len() >= 1 && forall|i: int| 0 <= i < r.len() ==> !lt(x, #[trigger] r[i])) by {
        what_is_accepted_is_chosen(s, p, lt, limit, x);
    }
    a_limit_keeps_the_front(sorted_by(s.filter(p), lt), limit, 0);
}

/// What is chosen within a bound is what was there and is accepted, in order, unless the bound is
/// reached.
pub proof fn what_is_chosen_within_a_bound<T>(
    s: Seq<T>,
    p: spec_fn(T) -> bool,
    lt: spec_fn(T, T) -> bool,
    limit: nat,
)
    requires
        strict_order(lt),
    ensures
        ({
            let r = at_most(sorted_by(s.filter(p), lt), limit);
            &&& forall|i: int| 0 <= i < r.len() ==> s.contains(#[trigger] r[i]) && p(r[i])
            &&& forall|i: int, j: int|
                0 <= i < j < r.len() ==> !lt(#[trigger] r[j], #[trigger] r[i])
            &&& forall|x: T| #[trigger]
                s.contains(x) && p(x) ==> r.contains(x) || (r.len() == limit && forall|i: int|
                    0 <= i < r.len() ==> !lt(x, #[trigger] r[i]))
            &&& r.len() <= limit
        }),
{
    let all = sorted_by(s.filter(p), lt);
    let r = at_most(all, limit);
    what_is_sorted_out(s, p, lt);
    a_bound_keeps_the_front(all, limit, 0);
    assert forall|i: int| 0 <= i < r.len() implies s.contains(#[trigger] r[i]) && p(r[i]) by {
        assert(r[i] == all[i]);
    }
    assert forall|i: int, j: int| 0 <= i < j < r.len() implies !lt(
        #[trigger] r[j],
        #[trigger] r[i],
    ) by {
        assert(r[i] == all[i] && r[j] == all[j]);
    }
    assert forall|x: T| #[trigger] s.contains(x) && p(x) implies r.contains(x) || (r.len() == limit
        && forall|i: int| 0 <= i < r.len() ==> !lt(x, #[trigger] r[i])) by {
        let k = choose|k: int| 0 <= k < all.len() && all[k] == x;
        if k < r.len() {
            assert(r[k] == x);
        } else {
            assert forall|i: int| 0 <= i < r.len() implies !lt(x, #[trigger] r[i]) by {
                assert(r[i] == all[i] && all[k] == x);
            }
        }
    }
}

/// What is sorted out is what was there and is accepted, in order.
pub proof fn what_is_sorted_out<T>(s: Seq<T>, p: spec_fn(T) -> bool, lt: spec_fn(T, T) -> bool)
    requires
        strict_order(lt),
    ensures
        ({
            let r = sorted_by(s.filter(p), lt);
            &&& forall|i: int| 0 <= i < r.len() ==> s.contains(#[trigger] r[i]) && p(r[i])
            &&& forall|i: int, j: int|
                0 <= i < j < r.len() ==> !lt(#[trigger] r[j], #[trigger] r[i])
            &&& forall|x: T| #[trigger] s.contains(x) && p(x) ==> r.contains(x)
        }),
{
    let r = sorted_by(s.filter(p), lt);
    sorted_by_is_in_order(s.filter(p), lt);
    assert forall|i: int| 0 <= i < r.len() implies s.contains(#[trigger] r[i]) && p(r[i]) by {
        assert(r.contains(r[i]));
        sorting_keeps_members(s.filter(p), lt, r[i]);
        a_filter_keeps_what_it_accepts(s, p, r[i]);
    }
    assert forall|x: T| #[trigger] s.contains(x) && p(x) implies r.contains(x) by {
        sorting_keeps_members(s.filter(p), lt, x);
        a_filter_keeps_what_it_accepts(s, p, x);
    }
}

/// The first that is accepted was there and is accepted; there is none where nothing is.
pub proof fn the_first_is_accepted<T>(s: Seq<T>, p: spec_fn(T) -> bool)
    ensures
        first_of(s, p) is Some ==> s.contains(first_of(s, p)->0) && p(first_of(s, p)->0),
        first_of(s, p) is Some <==> any_where(s, p),
{
    first_where_facts(s, p);
    let n = first_where(s, p);
    if n < s.len() {
        assert(p(s[n]));
    }
}

/// What a table has under a key is one of its values.
pub proof fn a_value_has_its_place<K: View, V>(t: Table<K, V>, k: K::V)
    requires
        t@.dom().contains(k),
    ensures
        t.values().contains(t@[k]),
{
    t.key_facts(k);
    assert(t.values()[row_of(t.rows(), k)] == t@[k]);
}

/// A value of a table stands under some key.
pub proof fn a_value_has_its_key<K: View, V>(t: Table<K, V>, v: V) -> (k: K::V)
    requires
        t.wf(),
        t.values().contains(v),
    ensures
        t@.dom().contains(k),
        t@[k] == v,
{
    let i = choose|i: int| 0 <= i < t.values().len() && t.values()[i] == v;
    t.row_facts(i);
    t.rows()[i].0@
}

/// A list made of two holds what either holds.
pub proof fn a_sum_holds_what_either_holds<T>(a: Seq<T>, b: Seq<T>, x: T)
    ensures
        (a + b).contains(x) <==> a.contains(x) || b.contains(x),
{
    if a.contains(x) {
        let i = choose|i: int| 0 <= i < a.len() && a[i] == x;
        assert((a + b)[i] == x);
    }
    if b.contains(x) {
        let i = choose|i: int| 0 <= i < b.len() && b[i] == x;
        assert((a + b)[a.len() + i] == x);
    }
    if (a + b).contains(x) {
        let i = choose|i: int| 0 <= i < (a + b).len() && (a + b)[i] == x;
        if i < a.len() {
            assert(a[i] == x);
        } else {
            assert(b[i - a.len()] == x);
        }
    }
}

} // verus!
