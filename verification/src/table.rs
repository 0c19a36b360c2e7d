//! A keyed table: rows in the order in which their keys first came, at most one row to a key.

use vstd::prelude::*;

use crate::text::text_eq;

verus! {

/// What can be the key of a table: two keys are the same when their views are equal.
pub trait TableKey: View + Sized {
    fn same_key(&self, other: &Self) -> (r: bool)
        ensures
            r == (self@ == other@),
    ;

    fn copy_key(&self) -> (r: Self)
        ensures
            r == *self,
    ;
}

impl TableKey for String {
    fn same_key(&self, other: &Self) -> (r: bool) {
        text_eq(self.as_str(), other.as_str())
    }

    fn copy_key(&self) -> (r: Self) {
        self.clone()
    }
}

impl TableKey for (String, String) {
    fn same_key(&self, other: &Self) -> (r: bool) {
        text_eq(self.0.as_str(), other.0.as_str()) && text_eq(self.1.as_str(), other.1.as_str())
    }

    fn copy_key(&self) -> (r: Self) {
        (self.0.clone(), self.1.clone())
    }
}

impl TableKey for (String, String, String) {
    fn same_key(&self, other: &Self) -> (r: bool) {
        text_eq(self.0.as_str(), other.0.as_str()) && text_eq(self.1.as_str(), other.1.as_str())
            && text_eq(self.2.as_str(), other.2.as_str())
    }

    fn copy_key(&self) -> (r: Self) {
        (self.0.clone(), self.1.clone(), self.2.clone())
    }
}

/// Rows that each have a key of their own.
pub struct Table<K: View, V> {
    rows: Vec<(K, V)>,
}

/// Whether no two rows have the same key.
pub open spec fn distinct_keys<K: View, V>(rows: Seq<(K, V)>) -> bool {
    forall|i: int, j: int|
        0 <= i < j < rows.len() ==> (#[trigger] rows[i]).0@ != (#[trigger] rows[j]).0@
}

/// The place of the first row with key `k`, or the number of rows.
pub open spec fn row_of<K: View, V>(rows: Seq<(K, V)>, k: K::V) -> int
    decreases rows.len(),
{
    if rows.len() == 0 {
        0
    } else if rows[0].0@ == k {
        0
    } else {
        1 + row_of(rows.drop_first(), k)
    }
}

pub(crate) proof fn lemma_row_of<K: View, V>(rows: Seq<(K, V)>, k: K::V)
    ensures
        0 <= row_of(rows, k) <= rows.len(),
        row_of(rows, k) < rows.len() ==> rows[row_of(rows, k)].0@ == k,
        forall|j: int| 0 <= j < row_of(rows, k) ==> (#[trigger] rows[j]).0@ != k,
    decreases rows.len(),
{
    if rows.len() > 0 && rows[0].0@ != k {
        lemma_row_of(rows.drop_first(), k);
        let n = row_of(rows.drop_first(), k);
        assert forall|j: int| 0 <= j < 1 + n implies (#[trigger] rows[j]).0@ != k by {
            if j > 0 {
                assert(rows.drop_first()[j - 1] == rows[j]);
            }
        }
    }
}

pub(crate) proof fn lemma_row_is<K: View, V>(rows: Seq<(K, V)>, k: K::V, at: int)
    requires
        0 <= at <= rows.len(),
        at < rows.len() ==> rows[at].0@ == k,
        forall|j: int| 0 <= j < at ==> (#[trigger] rows[j]).0@ != k,
    ensures
        row_of(rows, k) == at,
    decreases rows.len(),
{
    lemma_row_of(rows, k);
    let n = row_of(rows, k);
    if n < at {
        assert(rows[n].0@ != k);
    } else if at < n {
        assert(rows[at].0@ != k);
    }
}

impl<K: View, V> Table<K, V> {
    /// The rows, in order.
    pub closed spec fn rows(&self) -> Seq<(K, V)> {
        self.rows@
    }

    /// The values, in the order of the rows.
    pub open spec fn values(&self) -> Seq<V> {
        Seq::new(self.rows().len(), |i: int| self.rows()[i].1)
    }

    /// The row that each key has.
    pub open spec fn view(&self) -> Map<K::V, V> {
        Map::new(
            |k: K::V| row_of(self.rows(), k) < self.rows().len(),
            |k: K::V| self.rows()[row_of(self.rows(), k)].1,
        )
    }

    /// Whether no two rows have the same key.
    pub open spec fn wf(&self) -> bool {
        distinct_keys(self.rows())
    }

    #[verifier::type_invariant]
    closed spec fn inv(self) -> bool {
        distinct_keys(self.rows@)
    }

    /// What holds of every row: it is what the table has under the row's key.
    pub proof fn row_facts(&self, i: int)
        requires
            self.wf(),
            0 <= i < self.rows().len(),
        ensures
            self@.dom().contains(self.rows()[i].0@),
            self@[self.rows()[i].0@] == self.rows()[i].1,
            self.values()[i] == self.rows()[i].1,
    {
        lemma_row_is(self.rows(), self.rows()[i].0@, i);
    }

    /// What holds of every key: the row at its place has it.
    pub proof fn key_facts(&self, k: K::V)
        requires
            self@.dom().contains(k),
        ensures
            0 <= row_of(self.rows(), k) < self.rows().len(),
            self.rows()[row_of(self.rows(), k)].0@ == k,
            self.rows()[row_of(self.rows(), k)].1 == self@[k],
            self.values()[row_of(self.rows(), k)] == self@[k],
    {
        lemma_row_of(self.rows(), k);
    }

    /// The keys that a table knows are finitely many, one to a row.
    pub proof fn size_facts(&self)
        requires
            self.wf(),
        ensures
            self@.dom().finite(),
            self@.dom().len() == self.rows().len(),
    {
        let keys = Seq::new(self.rows().len(), |i: int| self.rows()[i].0@);
        assert(keys.no_duplicates()) by {
            assert forall|i: int, j: int| 0 <= i < keys.len() && 0 <= j < keys.len() && i
                != j implies keys[i] != keys[j] by {
                if i < j {
                    assert(self.rows()[i].0@ != self.rows()[j].0@);
                } else {
                    assert(self.rows()[j].0@ != self.rows()[i].0@);
                }
            }
        }
        keys.unique_seq_to_set();
        assert(keys.to_set() =~= self@.dom()) by {
            assert forall|k: K::V| keys.to_set().contains(k) == self@.dom().contains(k) by {
                if keys.contains(k) {
                    let i = choose|i: int| 0 <= i < keys.len() && keys[i] == k;
                    self.row_facts(i);
                }
                if self@.dom().contains(k) {
                    self.key_facts(k);
                    assert(keys[row_of(self.rows(), k)] == k);
                }
            }
        }
    }
}

impl<K: TableKey, V> Table<K, V> {
    /// A table without rows.
    pub fn new() -> (r: Self)
        ensures
            r@ == Map::<K::V, V>::empty(),
            r.rows() == Seq::<(K, V)>::empty(),
            r.wf(),
    {
        let r: Table<K, V> = Table { rows: Vec::new() };
        assert(r@ =~= Map::<K::V, V>::empty());
        r
    }

    /// How many rows there are.
    pub fn len(&self) -> (r: usize)
        ensures
            r == self.rows().len(),
            r == self.values().len(),
            self.wf(),
    {
        proof {
            use_type_invariant(self);
        }
        self.rows.len()
    }

    /// The key of the row at `i`.
    pub fn key_at(&self, i: usize) -> (r: &K)
        requires
            i < self.rows().len(),
        ensures
            *r == self.rows()[i as int].0,
    {
        &self.rows[i].0
    }

    /// The value of the row at `i`.
    pub fn value_at(&self, i: usize) -> (r: &V)
        requires
            i < self.rows().len(),
        ensures
            *r == self.rows()[i as int].1,
            *r == self.values()[i as int],
    {
        &self.rows[i].1
    }

    fn place(&self, k: &K) -> (r: usize)
        ensures
            r == row_of(self.rows(), k@),
            r <= self.rows().len(),
            (r < self.rows().len()) == self@.dom().contains(k@),
            r < self.rows().len() ==> self.rows()[r as int].0@ == k@ && self.rows()[r as int].1
                == self@[k@],
    {
        let mut i: usize = 0;
        while i < self.rows.len() && !self.rows[i].0.same_key(k)
            invariant
                i <= self.rows@.len(),
                forall|j: int| 0 <= j < i ==> (#[trigger] self.rows@[j]).0@ != k@,
            ensures
                i <= self.rows@.len(),
                forall|j: int| 0 <= j < i ==> (#[trigger] self.rows@[j]).0@ != k@,
                i < self.rows@.len() ==> self.rows@[i as int].0@ == k@,
            decreases self.rows@.len() - i,
        {
            i += 1;
        }
        proof {
            lemma_row_is(self.rows@, k@, i as int);
        }
        i
    }

    /// The row with key `k`.
    pub fn get(&self, k: &K) -> (r: Option<&V>)
        ensures
            match r {
                Some(v) => self@.dom().contains(k@) && *v == self@[k@],
                None => !self@.dom().contains(k@),
            },
            self.wf(),
    {
        proof {
            use_type_invariant(self);
        }
        let i: usize = self.place(k);
        if i < self.rows.len() {
            Some(&self.rows[i].1)
        } else {
            None
        }
    }

    /// Whether there is a row with key `k`.
    pub fn contains_key(&self, k: &K) -> (r: bool)
        ensures
            r == self@.dom().contains(k@),
    {
        let i: usize = self.place(k);
        i < self.rows.len()
    }

    /// Makes `v` the row with key `k`, in place of the one that had the key.
    pub fn insert(&mut self, k: K, v: V)
        ensures
            final(self)@ == old(self)@.insert(k@, v),
            old(self)@.dom().contains(k@) ==> ({
                let at = row_of(old(self).rows(), k@);
                &&& 0 <= at < old(self).rows().len()
                &&& final(self).rows() == old(self).rows().update(
                    at,
                    (old(self).rows()[at].0, v),
                )
            }),
            !old(self)@.dom().contains(k@) ==> final(self).rows() == old(self).rows().push((k, v)),
            final(self).wf(),
    {
        proof {
            use_type_invariant(&*self);
        }
        let i: usize = self.place(&k);
        let ghost before = self.rows@;
        let ghost kv = k@;
        let ghost pair = (k, v);
        let mut rows: Vec<(K, V)> = Vec::new();
        std::mem::swap(&mut rows, &mut self.rows);
        if i < rows.len() {
            let key: K = rows.remove(i).0;
            rows.insert(i, (key, v));
            assert(rows@ =~= before.update(i as int, (key, v)));
        } else {
            rows.push((k, v));
        }
        proof {
            lemma_row_of(before, kv);
            assert forall|a: int, b: int| 0 <= a < b < rows@.len() implies (#[trigger] rows@[a]).0@
                != (#[trigger] rows@[b]).0@ by {
                if b < before.len() {
                    assert(before[a].0@ != before[b].0@);
                    assert(rows@[a].0@ == before[a].0@);
                    assert(rows@[b].0@ == before[b].0@);
                } else {
                    assert(rows@[a] == before[a]);
                    assert(before[a].0@ != kv);
                }
            }
            assert forall|j: K::V| j != kv implies row_of(rows@, j) == (if row_of(before, j)
                == before.len() {
                rows@.len() as int
            } else {
                row_of(before, j)
            }) by {
                lemma_row_of(before, j);
                let n = row_of(before, j);
                if n < before.len() {
                    assert(rows@[n].0@ == j);
                    lemma_row_is(rows@, j, n);
                } else {
                    lemma_row_is(rows@, j, rows@.len() as int);
                }
            }
            lemma_row_is(rows@, kv, i as int);
        }
        self.rows = rows;
        proof {
            assert forall|j: K::V| #[trigger] self@.dom().contains(j) == old(self)@.insert(
                kv,
                v,
            ).dom().contains(j) by {
                if j != kv {
                    lemma_row_of(before, j);
                }
            }
            assert forall|j: K::V| #[trigger] self@.dom().contains(j) implies self@[j] == old(
                self,
            )@.insert(kv, v)[j] by {
                if j != kv {
                    lemma_row_of(before, j);
                }
            }
            assert(self@ =~= old(self)@.insert(kv, v));
        }
    }

    /// Takes the row with key `k` out.
    pub fn remove(&mut self, k: &K) -> (r: Option<V>)
        ensures
            final(self)@ == old(self)@.remove(k@),
            final(self).rows() == (if old(self)@.dom().contains(k@) {
                old(self).rows().remove(row_of(old(self).rows(), k@))
            } else {
                old(self).rows()
            }),
            match r {
                Some(v) => old(self)@.dom().contains(k@) && v == old(self)@[k@],
                None => !old(self)@.dom().contains(k@),
            },
            final(self).wf(),
    {
        proof {
            use_type_invariant(&*self);
        }
        let i: usize = self.place(k);
        let ghost before = self.rows@;
        if i < self.rows.len() {
            let mut rows: Vec<(K, V)> = Vec::new();
            std::mem::swap(&mut rows, &mut self.rows);
            let taken: V = rows.remove(i).1;
            proof {
                assert forall|a: int, b: int| 0 <= a < b < rows@.len() implies (
                #[trigger] rows@[a]).0@ != (#[trigger] rows@[b]).0@ by {
                    let a0 = if a < i {
                        a
                    } else {
                        a + 1
                    };
                    let b0 = if b < i {
                        b
                    } else {
                        b + 1
                    };
                    assert(rows@[a] == before[a0] && rows@[b] == before[b0]);
                    assert(before[a0].0@ != before[b0].0@);
                }
            }
            self.rows = rows;
            proof {
                assert forall|j: K::V| #[trigger] self@.dom().contains(j) == old(self)@.remove(
                    k@,
                ).dom().contains(j) && (self@.dom().contains(j) ==> self@[j] == old(self)@.remove(
                    k@,
                )[j]) by {
                    lemma_row_of(before, j);
                    let n = row_of(before, j);
                    assert forall|m: int| 0 <= m < rows@.len() implies (
                    #[trigger] rows@[m]) == before[if m < i {
                        m
                    } else {
                        m + 1
                    }] by {}
                    if j == k@ {
                        assert forall|m: int| 0 <= m < rows@.len() implies (
                        #[trigger] rows@[m]).0@ != j by {
                            let m0 = if m < i {
                                m
                            } else {
                                m + 1
                            };
                            if m0 < i {
                                assert(before[m0].0@ != before[i as int].0@);
                            } else {
                                assert(before[i as int].0@ != before[m0].0@);
                            }
                        }
                        lemma_row_is(rows@, j, rows@.len() as int);
                    } else if n == before.len() {
                        assert forall|m: int| 0 <= m < rows@.len() implies (
                        #[trigger] rows@[m]).0@ != j by {
                            let m0 = if m < i {
                                m
                            } else {
                                m + 1
                            };
                            assert(before[m0].0@ != j);
                        }
                        lemma_row_is(rows@, j, rows@.len() as int);
                    } else {
                        let n1 = if n < i {
                            n
                        } else {
                            n - 1
                        };
                        assert(rows@[n1] == before[n]);
                        assert forall|m: int| 0 <= m < n1 implies (#[trigger] rows@[m]).0@ != j by {
                            let m0 = if m < i {
                                m
                            } else {
                                m + 1
                            };
                            assert(before[m0].0@ != j);
                        }
                        lemma_row_is(rows@, j, n1);
                    }
                }
                assert(self@ =~= old(self)@.remove(k@));
            }
            Some(taken)
        } else {
            assert(self@ =~= old(self)@.remove(k@));
            None
        }
    }

    /// Keeps the rows that `keep` accepts, in their order.
    pub(crate) fn retain<F: Fn(&K, &V) -> bool>(
        &mut self,
        keep: F,
        Ghost(p): Ghost<spec_fn(K::V, V) -> bool>,
    )
        requires
            forall|k: K, v: V| #[trigger] keep.requires((&k, &v)),
            forall|k: K, v: V, b: bool| keep.ensures((&k, &v), b) ==> b == p(k@, v),
        ensures
            final(self)@ == kept(old(self)@, p),
            final(self).rows() == old(self).rows().filter(|row: (K, V)| p(row.0@, row.1)),
            final(self).wf(),
    {
        proof {
            use_type_invariant(&*self);
        }
        let ghost before = self.rows@;
        let mut rows: Vec<(K, V)> = Vec::new();
        std::mem::swap(&mut rows, &mut self.rows);
        let ghost q = |row: (K, V)| p(row.0@, row.1);
        let row_keep = |row: &(K, V)| -> (b: bool)
            ensures
                b == q(*row),
            { keep(&row.0, &row.1) };
        crate::order::retain(&mut rows, row_keep, Ghost(q));
        proof {
            lemma_filter_rows(before, q);
        }
        self.rows = rows;
        proof {
            assert forall|j: K::V| #[trigger] self@.dom().contains(j) == kept(
                old(self)@,
                p,
            ).dom().contains(j) && (self@.dom().contains(j) ==> self@[j] == kept(old(self)@, p)[j])
                by {
                lemma_filter_lookup(before, q, j);
                lemma_row_of(before, j);
                lemma_row_of(rows@, j);
            }
            assert(self@ =~= kept(old(self)@, p));
        }
    }
}

/// Whether two maps have the same keys, with related values.
pub open spec fn related<K, V>(a: Map<K, V>, b: Map<K, V>, rel: spec_fn(V, V) -> bool) -> bool {
    &&& forall|k: K| #[trigger] a.dom().contains(k) <==> b.dom().contains(k)
    &&& forall|k: K| #[trigger] b.dom().contains(k) ==> rel(a[k], b[k])
}

impl<K: TableKey, V> Table<K, V> {
    /// Changes the values in their places; where `change` gives nothing a value stays.
    pub(crate) fn update_each<F: Fn(&V) -> Option<V>>(
        &mut self,
        change: F,
        Ghost(rel): Ghost<spec_fn(V, V) -> bool>,
    )
        requires
            forall|v: V| #[trigger] change.requires((&v,)),
            forall|v: V, w: V| change.ensures((&v,), Some(w)) ==> rel(v, w),
            forall|v: V| change.ensures((&v,), None) ==> rel(v, v),
        ensures
            related(old(self)@, final(self)@, rel),
            final(self).rows().len() == old(self).rows().len(),
            forall|i: int|
                0 <= i < old(self).rows().len() ==> (#[trigger] final(self).rows()[i]).0 == old(
                    self,
                ).rows()[i].0 && rel(old(self).rows()[i].1, final(self).rows()[i].1),
            final(self).wf(),
    {
        proof {
            use_type_invariant(&*self);
        }
        let ghost before = self.rows@;
        let mut rows: Vec<(K, V)> = Vec::new();
        std::mem::swap(&mut rows, &mut self.rows);
        let mut i: usize = 0;
        while i < rows.len()
            invariant
                i <= rows@.len() == before.len(),
                forall|j: int|
                    0 <= j < i ==> (#[trigger] rows@[j]).0 == before[j].0 && rel(
                        before[j].1,
                        rows@[j].1,
                    ),
                forall|j: int| i <= j < before.len() ==> #[trigger] rows@[j] == before[j],
                forall|v: V| #[trigger] change.requires((&v,)),
                forall|v: V, w: V| change.ensures((&v,), Some(w)) ==> rel(v, w),
                forall|v: V| change.ensures((&v,), None) ==> rel(v, v),
            decreases rows@.len() - i,
        {
            match change(&rows[i].1) {
                Some(w) => {
                    let ghost r0 = rows@;
                    let key: K = rows.remove(i).0;
                    rows.insert(i, (key, w));
                    assert(rows@ =~= r0.update(i as int, (key, w)));
                },
                None => {},
            }
            i += 1;
        }
        proof {
            assert forall|a: int, b: int| 0 <= a < b < rows@.len() implies (#[trigger] rows@[a]).0@
                != (#[trigger] rows@[b]).0@ by {
                assert(before[a].0@ != before[b].0@);
            }
        }
        self.rows = rows;
        proof {
            assert forall|k: K::V| row_of(before, k) == #[trigger] row_of(rows@, k) by {
                lemma_row_of(before, k);
                let n = row_of(before, k);
                assert forall|j: int| 0 <= j < n implies (#[trigger] rows@[j]).0@ != k by {
                    assert(before[j].0@ != k);
                }
                lemma_row_is(rows@, k, n);
            }
            assert forall|k: K::V| #[trigger]
                self@.dom().contains(k) implies rel(old(self)@[k], self@[k]) by {
                lemma_row_of(before, k);
                assert(rows@[row_of(before, k)].0 == before[row_of(before, k)].0);
            }
            assert forall|k: K::V| #[trigger]
                old(self)@.dom().contains(k) <==> self@.dom().contains(k) by {
                assert(row_of(before, k) == row_of(rows@, k));
            }
        }
    }
}

impl<K: TableKey, V> Table<K, V> {
    /// A table with the same keys, and a copy of each value.
    pub(crate) fn copy_with<F: Fn(&V) -> V>(
        &self,
        copy: F,
        Ghost(rel): Ghost<spec_fn(V, V) -> bool>,
    ) -> (r: Table<K, V>)
        requires
            forall|v: V| #[trigger] copy.requires((&v,)),
            forall|v: V, w: V| copy.ensures((&v,), w) ==> rel(v, w),
        ensures
            r.rows().len() == self.rows().len(),
            forall|i: int|
                0 <= i < r.rows().len() ==> (#[trigger] r.rows()[i]).0 == self.rows()[i].0 && rel(
                    self.rows()[i].1,
                    r.rows()[i].1,
                ),
            r.wf(),
    {
        proof {
            use_type_invariant(self);
        }
        let mut rows: Vec<(K, V)> = Vec::new();
        let mut i: usize = 0;
        while i < self.rows.len()
            invariant
                i <= self.rows@.len(),
                rows@.len() == i,
                forall|j: int|
                    0 <= j < i ==> (#[trigger] rows@[j]).0 == self.rows@[j].0 && rel(
                        self.rows@[j].1,
                        rows@[j].1,
                    ),
                forall|v: V| #[trigger] copy.requires((&v,)),
                forall|v: V, w: V| copy.ensures((&v,), w) ==> rel(v, w),
            decreases self.rows@.len() - i,
        {
            rows.push((self.rows[i].0.copy_key(), copy(&self.rows[i].1)));
            i += 1;
        }
        proof {
            assert forall|a: int, b: int| 0 <= a < b < rows@.len() implies (#[trigger] rows@[a]).0@
                != (#[trigger] rows@[b]).0@ by {
                assert(self.rows@[a].0@ != self.rows@[b].0@);
            }
        }
        Table { rows }
    }
}

/// The part of a map that `p` accepts.
pub open spec fn kept<K, V>(m: Map<K, V>, p: spec_fn(K, V) -> bool) -> Map<K, V> {
    Map::new(|k: K| m.dom().contains(k) && p(k, m[k]), |k: K| m[k])
}

proof fn lemma_filter_rows<K: View, V>(rows: Seq<(K, V)>, q: spec_fn((K, V)) -> bool)
    requires
        distinct_keys(rows),
    ensures
        distinct_keys(rows.filter(q)),
        forall|i: int|
            0 <= i < rows.filter(q).len() ==> rows.contains(#[trigger] rows.filter(q)[i]),
    decreases rows.len(),
{
    reveal(Seq::filter);
    if rows.len() > 0 {
        let front = rows.drop_last();
        assert(distinct_keys(front)) by {
            assert forall|i: int, j: int| 0 <= i < j < front.len() implies (#[trigger] front[i]).0@
                != (#[trigger] front[j]).0@ by {
                assert(rows[i].0@ != rows[j].0@);
            }
        }
        lemma_filter_rows(front, q);
        let f = front.filter(q);
        let r = rows.filter(q);
        assert forall|i: int| 0 <= i < r.len() implies rows.contains(#[trigger] r[i]) by {
            if i < f.len() {
                assert(r[i] == f[i]);
                let k = choose|k: int| 0 <= k < front.len() && front[k] == f[i];
                assert(rows[k] == f[i]);
            } else {
                assert(r[i] == rows[rows.len() - 1]);
            }
        }
        assert forall|i: int, j: int| 0 <= i < j < r.len() implies (#[trigger] r[i]).0@ != (
        #[trigger] r[j]).0@ by {
            if j < f.len() {
                assert(r[i] == f[i] && r[j] == f[j]);
            } else {
                assert(r[i] == f[i]);
                let k = choose|k: int| 0 <= k < front.len() && front[k] == f[i];
                assert(rows[k] == f[i]);
                assert(rows[k].0@ != rows[rows.len() - 1].0@);
            }
        }
    }
}

proof fn lemma_filter_lookup<K: View, V>(rows: Seq<(K, V)>, q: spec_fn((K, V)) -> bool, k: K::V)
    requires
        distinct_keys(rows),
    ensures
        ({
            let n = row_of(rows, k);
            let m = row_of(rows.filter(q), k);
            &&& m < rows.filter(q).len() <==> n < rows.len() && q(rows[n])
            &&& m < rows.filter(q).len() ==> rows.filter(q)[m] == rows[n]
        }),
{
    lemma_filter_rows(rows, q);
    lemma_row_of(rows, k);
    let f = rows.filter(q);
    lemma_row_of(f, k);
    let n = row_of(rows, k);
    let m = row_of(f, k);
    broadcast use vstd::seq_lib::group_filter_ensures;

    if n < rows.len() && q(rows[n]) {
        assert(f.contains(rows[n]));
        let i = choose|i: int| 0 <= i < f.len() && f[i] == rows[n];
        if m == f.len() {
            assert(f[i].0@ != k);
        }
    }
    if m < f.len() {
        assert(rows.contains(f[m]));
        let i = choose|i: int| 0 <= i < rows.len() && rows[i] == f[m];
        if i < n {
            assert(rows[i].0@ != k);
        } else if n < i {
            assert(rows[n].0@ != rows[i].0@);
        }
        assert(q(f[m]));
    }
}

/// The lists of a table of lists, by content.
pub open spec fn lists<K, V>(m: Map<K, Vec<V>>) -> Map<K, Seq<V>> {
    Map::new(|k: K| m.dom().contains(k), |k: K| m[k]@)
}

/// The list that a key has; a key without one has an empty list.
pub open spec fn list_at<K, V>(m: Map<K, Seq<V>>, k: K) -> Seq<V> {
    if m.dom().contains(k) {
        m[k]
    } else {
        Seq::empty()
    }
}

/// Takes the list of a key out; a key without one has an empty list.
pub(crate) fn take_list<K: TableKey, V>(t: &mut Table<K, Vec<V>>, k: &K) -> (r: Vec<V>)
    ensures
        r@ == list_at(lists(old(t)@), k@),
        final(t)@ == old(t)@.remove(k@),
{
    match t.remove(k) {
        Some(v) => v,
        None => Vec::new(),
    }
}

/// Makes sure that a key has a list, an empty one where it had none.
pub(crate) fn ensure_list<K: TableKey, V>(t: &mut Table<K, Vec<V>>, k: K)
    ensures
        lists(final(t)@) == lists(old(t)@).insert(k@, list_at(lists(old(t)@), k@)),
{
    let ghost kv = k@;
    if !t.contains_key(&k) {
        t.insert(k, Vec::new());
        assert(lists(t@) =~= lists(old(t)@).insert(kv, Seq::<V>::empty()));
    } else {
        assert(lists(t@) =~= lists(old(t)@).insert(kv, lists(old(t)@)[kv]));
    }
}

/// Putting back a list that was taken out is replacing the list.
pub proof fn lists_replaced<K, V>(m: Map<K, Vec<V>>, k: K, v: Vec<V>)
    ensures
        lists(m.remove(k).insert(k, v)) == lists(m).insert(k, v@),
{
    assert(lists(m.remove(k).insert(k, v)) =~= lists(m).insert(k, v@));
}

} // verus!
