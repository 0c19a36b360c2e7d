//! Stable sorting and filtering of sequences.

use vstd::prelude::*;

verus! {

/// `x` put into the sorted sequence `s`, behind everything that it does not come before.
pub open spec fn insert_sorted<T>(s: Seq<T>, x: T, lt: spec_fn(T, T) -> bool) -> Seq<T>
    decreases s.len(),
{
    if s.len() > 0 && lt(x, s.last()) {
        insert_sorted(s.drop_last(), x, lt).push(s.last())
    } else {
        s.push(x)
    }
}

/// `s` sorted by `lt`; elements of which neither comes before the other keep their order.
pub open spec fn sorted_by<T>(s: Seq<T>, lt: spec_fn(T, T) -> bool) -> Seq<T>
    decreases s.len(),
{
    if s.len() == 0 {
        s
    } else {
        insert_sorted(sorted_by(s.drop_last(), lt), s.last(), lt)
    }
}

proof fn lemma_insert_at<T>(s: Seq<T>, x: T, lt: spec_fn(T, T) -> bool, at: int)
    requires
        0 <= at <= s.len(),
        forall|j: int| at <= j < s.len() ==> lt(x, #[trigger] s[j]),
        at > 0 ==> !lt(x, s[at - 1]),
    ensures
        insert_sorted(s, x, lt) == s.insert(at, x),
    decreases s.len(),
{
    if at == s.len() {
        assert(s.insert(at, x) =~= s.push(x));
    } else {
        assert(s.last() == s[s.len() - 1]);
        lemma_insert_at(s.drop_last(), x, lt, at);
        assert(s.drop_last().insert(at, x).push(s.last()) =~= s.insert(at, x));
    }
}

/// Sorts `v` by `before`, stably.
pub(crate) fn sort_by<T, F: Fn(&T, &T) -> bool>(
    v: Vec<T>,
    before: F,
    Ghost(lt): Ghost<spec_fn(T, T) -> bool>,
) -> (r: Vec<T>)
    requires
        forall|a: T, b: T| #[trigger] before.requires((&a, &b)),
        forall|a: T, b: T, c: bool| before.ensures((&a, &b), c) ==> c == lt(a, b),
    ensures
        r@ == sorted_by(v@, lt),
{
    let ghost all = v@;
    let mut rest: Vec<T> = v;
    let mut out: Vec<T> = Vec::new();
    let ghost mut n: int = 0;
    while rest.len() > 0
        invariant
            0 <= n <= all.len(),
            rest@ == all.skip(n),
            out@ == sorted_by(all.take(n), lt),
            forall|a: T, b: T| #[trigger] before.requires((&a, &b)),
            forall|a: T, b: T, c: bool| before.ensures((&a, &b), c) ==> c == lt(a, b),
        decreases rest.len(),
    {
        let x: T = rest.remove(0);
        let ghost sorted = out@;
        let mut at: usize = out.len();
        while at > 0 && before(&x, &out[at - 1])
            invariant
                at <= out.len(),
                out@ == sorted,
                forall|j: int| at <= j < out.len() ==> lt(x, #[trigger] out@[j]),
                forall|a: T, b: T| #[trigger] before.requires((&a, &b)),
                forall|a: T, b: T, c: bool| before.ensures((&a, &b), c) ==> c == lt(a, b),
            ensures
                at <= out.len(),
                out@ == sorted,
                forall|j: int| at <= j < out.len() ==> lt(x, #[trigger] out@[j]),
                at > 0 ==> !lt(x, out@[at - 1]),
            decreases at,
        {
            at -= 1;
        }
        proof {
            lemma_insert_at(sorted, x, lt, at as int);
            assert(all.take(n + 1).drop_last() =~= all.take(n));
            assert(all.skip(n)[0] == all[n]);
            n = n + 1;
        }
        out.insert(at, x);
        assert(rest@ =~= all.skip(n));
    }
    assert(all.take(n) =~= all);
    out
}

/// Sorting keeps every element as often as it stood there.
pub proof fn sorted_by_keeps_elements<T>(s: Seq<T>, lt: spec_fn(T, T) -> bool)
    ensures
        sorted_by(s, lt).to_multiset() == s.to_multiset(),
        sorted_by(s, lt).len() == s.len(),
    decreases s.len(),
{
    broadcast use vstd::seq_lib::group_to_multiset_ensures;

    if s.len() > 0 {
        sorted_by_keeps_elements(s.drop_last(), lt);
        lemma_insert_keeps_elements(sorted_by(s.drop_last(), lt), s.last(), lt);
        assert(s =~= s.drop_last().push(s.last()));
    }
}

proof fn lemma_insert_keeps_elements<T>(s: Seq<T>, x: T, lt: spec_fn(T, T) -> bool)
    ensures
        insert_sorted(s, x, lt).to_multiset() == s.to_multiset().insert(x),
        insert_sorted(s, x, lt).len() == s.len() + 1,
    decreases s.len(),
{
    broadcast use vstd::seq_lib::group_to_multiset_ensures;

    if s.len() > 0 && lt(x, s.last()) {
        lemma_insert_keeps_elements(s.drop_last(), x, lt);
        assert(s =~= s.drop_last().push(s.last()));
        assert(insert_sorted(s, x, lt).to_multiset() =~= s.to_multiset().insert(x));
    }
}

/// A strict order in which not coming before is transitive.
pub open spec fn strict_order<T>(lt: spec_fn(T, T) -> bool) -> bool {
    &&& forall|a: T, b: T| lt(a, b) ==> !#[trigger] lt(b, a)
    &&& forall|a: T, b: T, c: T| !#[trigger] lt(b, a) && !#[trigger] lt(c, b) ==> !lt(c, a)
}

/// Whether nothing in `s` comes before an element that stands in front of it.
pub open spec fn in_order<T>(s: Seq<T>, lt: spec_fn(T, T) -> bool) -> bool {
    forall|i: int, j: int| 0 <= i < j < s.len() ==> !lt(#[trigger] s[j], #[trigger] s[i])
}

/// Sorting by a strict order leaves nothing out of order.
pub proof fn sorted_by_is_in_order<T>(s: Seq<T>, lt: spec_fn(T, T) -> bool)
    requires
        strict_order(lt),
    ensures
        in_order(sorted_by(s, lt), lt),
    decreases s.len(),
{
    if s.len() > 0 {
        sorted_by_is_in_order(s.drop_last(), lt);
        lemma_insert_in_order(sorted_by(s.drop_last(), lt), s.last(), lt);
    }
}

proof fn lemma_insert_in_order<T>(s: Seq<T>, x: T, lt: spec_fn(T, T) -> bool)
    requires
        strict_order(lt),
        in_order(s, lt),
    ensures
        in_order(insert_sorted(s, x, lt), lt),
        forall|i: int|
            0 <= i < insert_sorted(s, x, lt).len() ==> (#[trigger] insert_sorted(s, x, lt)[i] == x
                || s.contains(insert_sorted(s, x, lt)[i])),
    decreases s.len(),
{
    let r = insert_sorted(s, x, lt);
    if s.len() > 0 && lt(x, s.last()) {
        let front = s.drop_last();
        assert forall|i: int, j: int| 0 <= i < j < front.len() implies !lt(
            #[trigger] front[j],
            #[trigger] front[i],
        ) by {
            assert(front[j] == s[j] && front[i] == s[i]);
        }
        lemma_insert_in_order(front, x, lt);
        let r0 = insert_sorted(front, x, lt);
        assert forall|i: int, j: int| 0 <= i < j < r.len() implies !lt(
            #[trigger] r[j],
            #[trigger] r[i],
        ) by {
            if j < r0.len() {
                assert(r[i] == r0[i] && r[j] == r0[j]);
            } else {
                assert(r[i] == r0[i]);
                assert(r[j] == s.last());
                if r0[i] != x {
                    let k = choose|k: int| 0 <= k < front.len() && front[k] == r0[i];
                    assert(s[k] == r0[i]);
                    assert(!lt(s[s.len() - 1], s[k]));
                }
            }
        }
        assert forall|i: int| 0 <= i < r.len() implies (#[trigger] r[i] == x || s.contains(
            r[i],
        )) by {
            if i < r0.len() {
                assert(r[i] == r0[i]);
                if r0[i] != x {
                    let k = choose|k: int| 0 <= k < front.len() && front[k] == r0[i];
                    assert(s[k] == r0[i]);
                }
            } else {
                assert(r[i] == s[s.len() - 1]);
            }
        }
    } else {
        assert forall|i: int, j: int| 0 <= i < j < r.len() implies !lt(
            #[trigger] r[j],
            #[trigger] r[i],
        ) by {
            if j == s.len() {
                assert(!lt(x, s[s.len() - 1]));
                if i < s.len() - 1 {
                    assert(!lt(s[s.len() - 1], s[i]));
                }
            } else {
                assert(r[j] == s[j] && r[i] == s[i]);
            }
        }
        assert forall|i: int| 0 <= i < r.len() implies (#[trigger] r[i] == x || s.contains(
            r[i],
        )) by {
            if i < s.len() {
                assert(r[i] == s[i]);
            }
        }
    }
}

/// Removes from `v` every element that `keep` refuses.
pub(crate) fn retain<T, F: Fn(&T) -> bool>(
    v: &mut Vec<T>,
    keep: F,
    Ghost(p): Ghost<spec_fn(T) -> bool>,
)
    requires
        forall|a: T| #[trigger] keep.requires((&a,)),
        forall|a: T, b: bool| keep.ensures((&a,), b) ==> b == p(a),
    ensures
        final(v)@ == old(v)@.filter(p),
{
    let ghost all = v@;
    let ghost mut n: int = 0;
    let mut i: usize = 0;
    assert(all.take(0).filter(p) =~= Seq::<T>::empty()) by {
        reveal(Seq::filter);
    }
    assert(v@ =~= all.take(0).filter(p) + all.skip(0));
    while i < v.len()
        invariant
            0 <= n <= all.len(),
            i == all.take(n).filter(p).len(),
            v@ == all.take(n).filter(p) + all.skip(n),
            forall|a: T| #[trigger] keep.requires((&a,)),
            forall|a: T, b: bool| keep.ensures((&a,), b) ==> b == p(a),
        decreases v.len() - i,
    {
        let ghost front = all.take(n).filter(p);
        assert(all.take(n + 1).drop_last() =~= all.take(n));
        assert(all.take(n + 1).last() == all[n]);
        assert(all.take(n + 1).filter(p) == (if p(all[n]) {
            front.push(all[n])
        } else {
            front
        })) by {
            reveal(Seq::filter);
        }
        assert(v@[i as int] == all[n]);
        if keep(&v[i]) {
            i += 1;
            assert(v@ =~= front.push(all[n]) + all.skip(n + 1));
        } else {
            v.remove(i);
            assert(v@ =~= front + all.skip(n + 1));
        }
        proof {
            n = n + 1;
        }
    }
    assert(all.skip(n).len() == 0);
    assert(all.take(n) =~= all);
    assert(v@ =~= all.filter(p));
}

/// The place of the first element that `p` accepts, or the number of elements.
pub open spec fn first_where<T>(s: Seq<T>, p: spec_fn(T) -> bool) -> int
    decreases s.len(),
{
    if s.len() == 0 {
        0
    } else if p(s[0]) {
        0
    } else {
        1 + first_where(s.drop_first(), p)
    }
}

/// What is known of the place of the first element that `p` accepts.
pub proof fn first_where_facts<T>(s: Seq<T>, p: spec_fn(T) -> bool)
    ensures
        0 <= first_where(s, p) <= s.len(),
        first_where(s, p) < s.len() ==> p(s[first_where(s, p)]),
        forall|j: int| 0 <= j < first_where(s, p) ==> !p(#[trigger] s[j]),
    decreases s.len(),
{
    if s.len() > 0 && !p(s[0]) {
        first_where_facts(s.drop_first(), p);
        assert forall|j: int| 0 <= j < first_where(s, p) implies !p(#[trigger] s[j]) by {
            if j > 0 {
                assert(s.drop_first()[j - 1] == s[j]);
            }
        }
    }
}

/// Where nothing before `at` is accepted and `at` is, or is the end, `at` is the place.
pub proof fn first_where_is<T>(s: Seq<T>, p: spec_fn(T) -> bool, at: int)
    requires
        0 <= at <= s.len(),
        at < s.len() ==> p(s[at]),
        forall|j: int| 0 <= j < at ==> !p(#[trigger] s[j]),
    ensures
        first_where(s, p) == at,
{
    first_where_facts(s, p);
    let n = first_where(s, p);
    if n < at {
        assert(!p(s[n]));
    } else if at < n {
        assert(!p(s[at]));
    }
}

/// Whether `p` accepts some element.
pub open spec fn any_where<T>(s: Seq<T>, p: spec_fn(T) -> bool) -> bool {
    exists|i: int| 0 <= i < s.len() && p(#[trigger] s[i])
}

/// The place of the first element that `accept` accepts, or the number of elements.
pub(crate) fn find_where<T, F: Fn(&T) -> bool>(
    v: &Vec<T>,
    accept: F,
    Ghost(p): Ghost<spec_fn(T) -> bool>,
) -> (r: usize)
    requires
        forall|a: T| #[trigger] accept.requires((&a,)),
        forall|a: T, b: bool| accept.ensures((&a,), b) ==> b == p(a),
    ensures
        r == first_where(v@, p),
        r <= v.len(),
        r < v.len() ==> p(v@[r as int]),
        (r < v.len()) == any_where(v@, p),
{
    let mut i: usize = 0;
    while i < v.len()
        invariant
            i <= v.len(),
            forall|j: int| 0 <= j < i ==> !p(#[trigger] v@[j]),
            forall|a: T| #[trigger] accept.requires((&a,)),
            forall|a: T, b: bool| accept.ensures((&a,), b) ==> b == p(a),
        decreases v.len() - i,
    {
        if accept(&v[i]) {
            proof {
                first_where_is(v@, p, i as int);
            }
            return i;
        }
        i += 1;
    }
    proof {
        first_where_is(v@, p, i as int);
    }
    i
}

/// `x` in the place of the first element that `p` accepts, or at the end.
pub open spec fn put_first<T>(s: Seq<T>, x: T, p: spec_fn(T) -> bool) -> Seq<T> {
    if first_where(s, p) < s.len() {
        s.update(first_where(s, p), x)
    } else {
        s.push(x)
    }
}

/// Puts `x` in the place of the first element that `accept` accepts, or at the end.
pub(crate) fn put_where<T, F: Fn(&T) -> bool>(
    v: &mut Vec<T>,
    x: T,
    accept: F,
    Ghost(p): Ghost<spec_fn(T) -> bool>,
)
    requires
        forall|a: T| #[trigger] accept.requires((&a,)),
        forall|a: T, b: bool| accept.ensures((&a,), b) ==> b == p(a),
    ensures
        final(v)@ == put_first(old(v)@, x, p),
{
    let i: usize = find_where(v, accept, Ghost(p));
    if i < v.len() {
        v.set(i, x);
    } else {
        v.push(x);
    }
}

/// Sorting and then mapping is mapping and then sorting, where the two orders agree.
pub proof fn sorted_by_commutes<A, B>(
    s: Seq<A>,
    f: spec_fn(A) -> B,
    lt: spec_fn(A, A) -> bool,
    lt2: spec_fn(B, B) -> bool,
)
    requires
        forall|a: A, b: A| #[trigger] lt(a, b) == lt2(f(a), f(b)),
    ensures
        sorted_by(s, lt).map_values(f) == sorted_by(s.map_values(f), lt2),
    decreases s.len(),
{
    if s.len() == 0 {
        assert(sorted_by(s, lt).map_values(f) =~= sorted_by(s.map_values(f), lt2));
    } else {
        sorted_by_commutes(s.drop_last(), f, lt, lt2);
        assert(s.map_values(f).drop_last() =~= s.drop_last().map_values(f));
        lemma_insert_commutes(sorted_by(s.drop_last(), lt), s.last(), f, lt, lt2);
    }
}

proof fn lemma_insert_commutes<A, B>(
    s: Seq<A>,
    x: A,
    f: spec_fn(A) -> B,
    lt: spec_fn(A, A) -> bool,
    lt2: spec_fn(B, B) -> bool,
)
    requires
        forall|a: A, b: A| #[trigger] lt(a, b) == lt2(f(a), f(b)),
    ensures
        insert_sorted(s, x, lt).map_values(f) == insert_sorted(s.map_values(f), f(x), lt2),
    decreases s.len(),
{
    if s.len() > 0 && lt(x, s.last()) {
        lemma_insert_commutes(s.drop_last(), x, f, lt, lt2);
        assert(s.map_values(f).drop_last() =~= s.drop_last().map_values(f));
        assert(insert_sorted(s, x, lt).map_values(f) =~= insert_sorted(
            s.drop_last(),
            x,
            lt,
        ).map_values(f).push(f(s.last())));
    } else {
        if s.len() > 0 {
            assert(!lt2(f(x), f(s.last())));
        }
        assert(insert_sorted(s, x, lt).map_values(f) =~= s.map_values(f).push(f(x)));
    }
}

/// A sequence with each run of equal neighbours made one.
pub open spec fn deduped<T>(s: Seq<T>) -> Seq<T>
    decreases s.len(),
{
    if s.len() == 0 {
        s
    } else {
        let d = deduped(s.drop_last());
        if d.len() > 0 && d.last() == s.last() {
            d
        } else {
            d.push(s.last())
        }
    }
}

/// Nothing is lost where runs of equal neighbours are made one, and nothing is added.
pub proof fn deduped_keeps_contents<T>(s: Seq<T>)
    ensures
        forall|x: T| #[trigger] deduped(s).contains(x) <==> s.contains(x),
        s.len() > 0 ==> deduped(s).len() > 0 && deduped(s).last() == s.last(),
    decreases s.len(),
{
    if s.len() > 0 {
        deduped_keeps_contents(s.drop_last());
        let d = deduped(s.drop_last());
        assert forall|x: T| #[trigger] deduped(s).contains(x) <==> s.contains(x) by {
            if deduped(s).contains(x) {
                let i = choose|i: int| 0 <= i < deduped(s).len() && deduped(s)[i] == x;
                if i < d.len() {
                    assert(d.contains(x));
                    let j = choose|j: int| 0 <= j < s.drop_last().len() && s.drop_last()[j] == x;
                    assert(s[j] == x);
                } else {
                    assert(s[s.len() - 1] == x);
                }
            }
            if s.contains(x) {
                let j = choose|j: int| 0 <= j < s.len() && s[j] == x;
                if j < s.len() - 1 {
                    assert(s.drop_last()[j] == x);
                    assert(d.contains(x));
                    let i = choose|i: int| 0 <= i < d.len() && d[i] == x;
                    assert(deduped(s)[i] == x);
                } else {
                    assert(deduped(s)[deduped(s).len() - 1] == x);
                }
            }
        }
    }
}

/// Whether two sequences have related elements in the same places.
pub open spec fn pairwise<T>(a: Seq<T>, b: Seq<T>, rel: spec_fn(T, T) -> bool) -> bool {
    a.len() == b.len() && forall|i: int| 0 <= i < a.len() ==> rel(a[i], #[trigger] b[i])
}

/// Changes the elements in their places; where `change` gives nothing an element stays.
pub(crate) fn update_list<T, F: Fn(&T) -> Option<T>>(
    v: &mut Vec<T>,
    change: F,
    Ghost(rel): Ghost<spec_fn(T, T) -> bool>,
)
    requires
        forall|a: T| #[trigger] change.requires((&a,)),
        forall|a: T, b: T| change.ensures((&a,), Some(b)) ==> rel(a, b),
        forall|a: T| change.ensures((&a,), None) ==> rel(a, a),
    ensures
        pairwise(old(v)@, final(v)@, rel),
{
    let ghost before = v@;
    let mut i: usize = 0;
    while i < v.len()
        invariant
            i <= v@.len() == before.len(),
            before == old(v)@,
            forall|j: int| 0 <= j < i ==> rel(before[j], #[trigger] v@[j]),
            forall|j: int| i <= j < before.len() ==> #[trigger] v@[j] == before[j],
            forall|a: T| #[trigger] change.requires((&a,)),
            forall|a: T, b: T| change.ensures((&a,), Some(b)) ==> rel(a, b),
            forall|a: T| change.ensures((&a,), None) ==> rel(a, a),
        decreases v@.len() - i,
    {
        match change(&v[i]) {
            Some(b) => {
                v.set(i, b);
            },
            None => {},
        }
        i += 1;
    }
}

/// The element with the greatest key; among equals, the last.
pub open spec fn greatest_last<T>(s: Seq<T>, key: spec_fn(T) -> int) -> Option<T>
    decreases s.len(),
{
    if s.len() == 0 {
        None
    } else {
        match greatest_last(s.drop_last(), key) {
            Some(t) => if key(s.last()) < key(t) {
                Some(t)
            } else {
                Some(s.last())
            },
            None => Some(s.last()),
        }
    }
}

/// What `greatest_last` finds is an element, and no element has a greater key.
pub proof fn greatest_last_facts<T>(s: Seq<T>, key: spec_fn(T) -> int)
    ensures
        match greatest_last(s, key) {
            Some(t) => s.contains(t) && forall|i: int|
                0 <= i < s.len() ==> key(#[trigger] s[i]) <= key(t),
            None => s.len() == 0,
        },
    decreases s.len(),
{
    if s.len() > 0 {
        greatest_last_facts(s.drop_last(), key);
        assert forall|i: int| 0 <= i < s.len() implies key(#[trigger] s[i]) <= key(
            greatest_last(s, key)->0,
        ) by {
            if i < s.len() - 1 {
                assert(s.drop_last()[i] == s[i]);
            }
        }
        let t = greatest_last(s, key)->0;
        if t != s.last() {
            let at = choose|i: int| 0 <= i < s.len() - 1 && s.drop_last()[i] == t;
            assert(s[at] == t);
        } else {
            assert(s[s.len() - 1] == t);
        }
    }
}

/// Where the element with the greatest key is; the length where there is none.
pub(crate) fn find_greatest<T, F: Fn(&T) -> i128>(
    v: &Vec<T>,
    key_of: F,
    Ghost(key): Ghost<spec_fn(T) -> int>,
) -> (r: usize)
    requires
        forall|a: T| #[trigger] key_of.requires((&a,)),
        forall|a: T, k: i128| key_of.ensures((&a,), k) ==> k as int == key(a),
    ensures
        match greatest_last(v@, key) {
            Some(t) => r < v@.len() && v@[r as int] == t,
            None => r == v@.len() == 0,
        },
{
    if v.len() == 0 {
        return 0;
    }
    let mut at: usize = 0;
    let mut i: usize = 1;
    proof {
        assert(v@.take(1).drop_last() =~= Seq::<T>::empty());
        assert(v@.take(1).last() == v@[0]);
        assert(greatest_last(v@.take(1).drop_last(), key) is None);
    }
    while i < v.len()
        invariant
            at < i <= v@.len(),
            greatest_last(v@.take(i as int), key) == Some(v@[at as int]),
            forall|a: T| #[trigger] key_of.requires((&a,)),
            forall|a: T, k: i128| key_of.ensures((&a,), k) ==> k as int == key(a),
        decreases v.len() - i,
    {
        assert(v@.take(i + 1).drop_last() =~= v@.take(i as int));
        let best: i128 = key_of(&v[at]);
        let next: i128 = key_of(&v[i]);
        if next >= best {
            at = i;
        }
        i += 1;
    }
    assert(v@.take(i as int) =~= v@);
    at
}

} // verus!
