//! Tables of lists: filtering every list, and bringing rows into the lists that they belong to.

use vstd::prelude::*;

use crate::order::{
    any_where, in_order, sort_by, sorted_by_is_in_order, sorted_by_keeps_elements, strict_order,
};
use crate::record::{select, Record};
use crate::table::{
    kept, lemma_row_is, lemma_row_of, list_at, lists, lists_replaced, row_of, take_list, Table,
    TableKey,
};
use crate::text::{text_eq, texts, texts_contain, texts_push};

verus! {

/// What is left of a list under a key.
pub open spec fn left_of<K, R>(s: Seq<R>, k: K, p: spec_fn(K, R) -> bool) -> Seq<R> {
    s.filter(|r: R| p(k, r))
}

/// Every list without what `p` refuses, and without the lists that become empty.
pub open spec fn filtered_lists<K, R>(m: Map<K, Seq<R>>, p: spec_fn(K, R) -> bool) -> Map<
    K,
    Seq<R>,
> {
    Map::new(
        |k: K| m.dom().contains(k) && left_of(m[k], k, p).len() > 0,
        |k: K| left_of(m[k], k, p),
    )
}

/// Removes from every list what `keep` refuses, and the lists that become empty.
pub(crate) fn filter_lists<K: TableKey, R: Record, F: Fn(&K, &R) -> bool>(
    t: &mut Table<K, Vec<R>>,
    keep: F,
    Ghost(p): Ghost<spec_fn(K::V, R) -> bool>,
)
    requires
        forall|k: K, r: R| #[trigger] keep.requires((&k, &r)),
        forall|k: K, r: R, b: bool| keep.ensures((&k, &r), b) ==> b == p(k@, r),
    ensures
        lists(final(t)@) == filtered_lists(lists(old(t)@), p),
{
    let mut out: Table<K, Vec<R>> = Table::new();
    let n: usize = t.len();
    let ghost rows = t.rows();
    let ghost m = lists(t@);
    let mut i: usize = 0;
    assert forall|k: K::V| #[trigger] row_of(rows, k) >= 0 by {
        lemma_row_of(rows, k);
    }
    while i < n
        invariant
            i <= n == rows.len(),
            rows == t.rows(),
            m == lists(t@),
            t.wf(),
            forall|k: K::V| #[trigger]
                out@.dom().contains(k) <==> row_of(rows, k) < i && left_of(m[k], k, p).len() > 0,
            forall|k: K::V| #[trigger]
                out@.dom().contains(k) ==> out@[k]@ == left_of(m[k], k, p),
            forall|k: K, r: R| #[trigger] keep.requires((&k, &r)),
            forall|k: K, r: R, b: bool| keep.ensures((&k, &r), b) ==> b == p(k@, r),
        decreases n - i,
    {
        let key: &K = t.key_at(i);
        let ghost kv = key@;
        let ghost q = |r: R| p(kv, r);
        proof {
            t.row_facts(i as int);
            assert forall|j: int| 0 <= j < i implies (#[trigger] rows[j]).0@ != kv by {
                assert(rows[j].0@ != rows[i as int].0@);
            }
            lemma_row_is(rows, kv, i as int);
            assert forall|k: K::V| k != kv implies #[trigger] row_of(rows, k) != i by {
                lemma_row_of(rows, k);
            }
        }
        let accept = |r: &R| -> (b: bool)
            ensures
                b == q(*r),
            { keep(key, r) };
        let left: Vec<R> = select(t.value_at(i), accept, Ghost(q));
        assert(left@ == left_of(m[kv], kv, p));
        let ghost before = out@;
        if left.len() > 0 {
            out.insert(key.copy_key(), left);
        }
        i += 1;
        assert forall|k: K::V| #[trigger]
            out@.dom().contains(k) <==> row_of(rows, k) < i && left_of(m[k], k, p).len() > 0 by {
            assert(before.dom().contains(k) <==> row_of(rows, k) < i - 1 && left_of(
                m[k],
                k,
                p,
            ).len() > 0);
            if k != kv {
                assert(row_of(rows, k) != i - 1);
            }
        }
    }
    assert forall|k: K::V| #[trigger]
        lists(out@).dom().contains(k) <==> filtered_lists(m, p).dom().contains(k) by {
        if out@.dom().contains(k) {
        }
        lemma_row_of(rows, k);
    }
    assert(lists(out@) =~= filtered_lists(m, p));
    *t = out;
}

/// Whether a row belongs to a key.
pub open spec fn belongs<R>(key: spec_fn(R) -> Seq<char>, k: Seq<char>) -> spec_fn(R) -> bool {
    |r: R| key(r) == k
}

/// The rows that belong to a key.
pub open spec fn group<R>(rows: Seq<R>, key: spec_fn(R) -> Seq<char>, k: Seq<char>) -> Seq<R> {
    rows.filter(belongs(key, k))
}

/// Whether some row belongs to a key.
pub open spec fn has_group<R>(rows: Seq<R>, key: spec_fn(R) -> Seq<char>, k: Seq<char>) -> bool {
    any_where(rows, belongs(key, k))
}

/// The lists after each group of rows was combined with the list of its key.
pub open spec fn regrouped<R>(
    m: Map<Seq<char>, Seq<R>>,
    rows: Seq<R>,
    key: spec_fn(R) -> Seq<char>,
    combine: spec_fn(Seq<R>, Seq<R>) -> Seq<R>,
) -> Map<Seq<char>, Seq<R>> {
    Map::new(
        |k: Seq<char>| m.dom().contains(k) || has_group(rows, key, k),
        |k: Seq<char>|
            if has_group(rows, key, k) {
                combine(list_at(m, k), group(rows, key, k))
            } else {
                m[k]
            },
    )
}

spec fn partly_regrouped<R>(
    m: Map<Seq<char>, Seq<R>>,
    rows: Seq<R>,
    key: spec_fn(R) -> Seq<char>,
    combine: spec_fn(Seq<R>, Seq<R>) -> Seq<R>,
    done: Seq<Seq<char>>,
) -> Map<Seq<char>, Seq<R>> {
    Map::new(
        |k: Seq<char>| m.dom().contains(k) || done.contains(k),
        |k: Seq<char>|
            if done.contains(k) {
                combine(list_at(m, k), group(rows, key, k))
            } else {
                m[k]
            },
    )
}

/// Combines each group of rows with the list of its key.
pub(crate) fn regroup<R: Record, F: Fn(&R) -> String, G: Fn(Vec<R>, Vec<R>) -> Vec<R>>(
    t: &mut Table<String, Vec<R>>,
    rows: &Vec<R>,
    key_of: F,
    put_together: G,
    Ghost(key): Ghost<spec_fn(R) -> Seq<char>>,
    Ghost(combine): Ghost<spec_fn(Seq<R>, Seq<R>) -> Seq<R>>,
)
    requires
        forall|r: R| #[trigger] key_of.requires((&r,)),
        forall|r: R, k: String| key_of.ensures((&r,), k) ==> k@ == key(r),
        forall|a: Vec<R>, b: Vec<R>| #[trigger] put_together.requires((a, b)),
        forall|a: Vec<R>, b: Vec<R>, c: Vec<R>|
            put_together.ensures((a, b), c) ==> c@ == combine(a@, b@),
    ensures
        lists(final(t)@) == regrouped(lists(old(t)@), rows@, key, combine),
{
    let mut done: Vec<String> = Vec::new();
    let ghost m = lists(t@);
    let mut i: usize = 0;
    assert(lists(t@) =~= partly_regrouped(m, rows@, key, combine, texts(done@)));
    while i < rows.len()
        invariant
            i <= rows@.len(),
            m == lists(old(t)@),
            lists(t@) == partly_regrouped(m, rows@, key, combine, texts(done@)),
            forall|j: int| 0 <= j < i ==> texts(done@).contains(key(#[trigger] rows@[j])),
            forall|j: int|
                0 <= j < texts(done@).len() ==> has_group(rows@, key, #[trigger] texts(done@)[j]),
            forall|r: R| #[trigger] key_of.requires((&r,)),
            forall|r: R, k: String| key_of.ensures((&r,), k) ==> k@ == key(r),
            forall|a: Vec<R>, b: Vec<R>| #[trigger] put_together.requires((a, b)),
            forall|a: Vec<R>, b: Vec<R>, c: Vec<R>|
                put_together.ensures((a, b), c) ==> c@ == combine(a@, b@),
        decreases rows@.len() - i,
    {
        let k: String = key_of(&rows[i]);
        let ghost kv = k@;
        let ghost done0 = texts(done@);
        if !texts_contain(&done, k.as_str()) {
            let ghost p = belongs(key, kv);
            let accept = |r: &R| -> (b: bool)
                ensures
                    b == p(*r),
                { text_eq(key_of(r).as_str(), k.as_str()) };
            let members: Vec<R> = select(rows, accept, Ghost(p));
            assert(members@ == group(rows@, key, kv));
            let ghost raw = t@;
            assert(list_at(lists(t@), kv) =~= list_at(m, kv));
            let list: Vec<R> = take_list(t, &k);
            let new_list: Vec<R> = put_together(list, members);
            proof {
                lists_replaced(raw, kv, new_list);
                texts_push(done@, k);
                assert(p(rows@[i as int]));
                assert(has_group(rows@, key, kv));
            }
            done.push(k.clone());
            t.insert(k, new_list);
            proof {
                assert forall|x: Seq<char>| #[trigger]
                    done0.push(kv).contains(x) <==> done0.contains(x) || x == kv by {
                    if done0.contains(x) {
                        let j = choose|j: int| 0 <= j < done0.len() && done0[j] == x;
                        assert(done0.push(kv)[j] == x);
                    }
                    if x == kv {
                        assert(done0.push(kv)[done0.len() as int] == x);
                    }
                }
                assert(lists(t@) =~= partly_regrouped(m, rows@, key, combine, texts(done@)));
            }
        }
        assert forall|j: int| 0 <= j < i + 1 implies texts(done@).contains(
            key(#[trigger] rows@[j]),
        ) by {
            if j < i {
                assert(done0.contains(key(rows@[j])));
            }
        }
        i += 1;
    }
    proof {
        assert forall|k: Seq<char>| has_group(rows@, key, k) == #[trigger] texts(done@).contains(
            k,
        ) by {
            if has_group(rows@, key, k) {
                let p = belongs(key, k);
                let j = choose|j: int| 0 <= j < rows@.len() && p(#[trigger] rows@[j]);
                assert(texts(done@).contains(key(rows@[j])));
            }
            if texts(done@).contains(k) {
                let j = choose|j: int| 0 <= j < texts(done@).len() && texts(done@)[j] == k;
                assert(has_group(rows@, key, texts(done@)[j]));
            }
        }
        assert(lists(t@) =~= regrouped(m, rows@, key, combine));
    }
}

/// Dropping lists by key is dropping them by key and content.
pub proof fn lists_kept<K, R>(
    m: Map<K, Vec<R>>,
    p: spec_fn(K, Vec<R>) -> bool,
    q: spec_fn(K, Seq<R>) -> bool,
)
    requires
        forall|k: K, v: Vec<R>| #[trigger] p(k, v) == q(k, v@),
    ensures
        lists(kept(m, p)) == kept(lists(m), q),
{
    assert forall|k: K| #[trigger] lists(kept(m, p)).dom().contains(k) <==> kept(
        lists(m),
        q,
    ).dom().contains(k) by {
        if m.dom().contains(k) {
            assert(p(k, m[k]) == q(k, m[k]@));
        }
    }
    assert(lists(kept(m, p)) =~= kept(lists(m), q));
}

/// Whether `m` holds a value.
pub open spec fn holds<K, V>(m: Map<K, V>, v: V) -> bool {
    exists|k: K| #[trigger] m.dom().contains(k) && m[k] == v
}

/// Whether `s` lists what `m` holds, each once, in order.
pub open spec fn lists_values<K, V>(
    s: Seq<V>,
    m: Map<K, V>,
    lt: spec_fn(V, V) -> bool,
) -> bool {
    &&& in_order(s, lt)
    &&& s.len() == m.dom().len()
    &&& forall|i: int| 0 <= i < s.len() ==> holds(m, #[trigger] s[i])
    &&& forall|k: K| #[trigger] m.dom().contains(k) ==> s.contains(m[k])
}

/// The values of a table in order.
pub(crate) fn sorted_values<K: TableKey, V: Record, F: Fn(&V, &V) -> bool>(
    t: &Table<K, V>,
    before: F,
    Ghost(lt): Ghost<spec_fn(V, V) -> bool>,
) -> (r: Vec<V>)
    requires
        strict_order(lt),
        forall|a: V, b: V| #[trigger] before.requires((&a, &b)),
        forall|a: V, b: V, c: bool| before.ensures((&a, &b), c) ==> c == lt(a, b),
    ensures
        lists_values(r@, t@, lt),
{
    let mut out: Vec<V> = Vec::new();
    let n: usize = t.len();
    let mut i: usize = 0;
    while i < n
        invariant
            i <= n == t.rows().len(),
            t.values().len() == n,
            out@ == t.values().take(i as int),
        decreases n - i,
    {
        out.push(t.value_at(i).copy());
        i += 1;
        assert(t.values().take(i as int) =~= t.values().take(i - 1).push(t.values()[i - 1]));
    }
    assert(out@ =~= t.values());
    let ghost values = out@;
    let sorted: Vec<V> = sort_by(out, before, Ghost(lt));
    proof {
        broadcast use vstd::seq_lib::group_to_multiset_ensures;

        sorted_by_is_in_order(values, lt);
        sorted_by_keeps_elements(values, lt);
        t.size_facts();
        assert forall|i: int| 0 <= i < sorted@.len() implies holds(t@, #[trigger] sorted@[i]) by {
            assert(sorted@.contains(sorted@[i]));
            assert(sorted@.to_multiset().count(sorted@[i]) > 0);
            assert(values.contains(sorted@[i]));
            let j = choose|j: int| 0 <= j < values.len() && values[j] == sorted@[i];
            t.row_facts(j);
            assert(t@.dom().contains(t.rows()[j].0@));
        }
        assert forall|k: K::V| #[trigger] t@.dom().contains(k) implies sorted@.contains(t@[k]) by {
            t.key_facts(k);
            let j = row_of(t.rows(), k);
            assert(values[j] == t@[k]);
            assert(values.contains(t@[k]));
            assert(values.to_multiset().count(t@[k]) > 0);
            assert(sorted@.contains(t@[k]));
        }
    }
    sorted
}

} // verus!
