//! What names come to: a text is made fit for an address, and an address stands under those that
//! lead to it.

use vstd::prelude::*;

use crate::naming::{ancestors, first_chars, is_alnum, slug, slug_parts};
use crate::text::ascii_lower;

verus! {

/// Whether a character is a small letter or a digit.
pub open spec fn is_small(c: char) -> bool {
    ('a' <= c && c <= 'z') || ('0' <= c && c <= '9')
}

/// Whether a text is of small letters and digits, with single hyphens between them and none in
/// front.
pub open spec fn is_clean(s: Seq<char>) -> bool {
    &&& forall|i: int| 0 <= i < s.len() ==> is_small(#[trigger] s[i]) || s[i] == '-'
    &&& s.len() > 0 ==> s[0] != '-'
    &&& forall|i: int, j: int|
        0 <= i && j == i + 1 && j < s.len() ==> !(#[trigger] s[i] == '-' && #[trigger] s[j] == '-')
}

/// A letter or digit comes to a small one.
proof fn lemma_small(c: char)
    requires
        is_alnum(c),
    ensures
        is_small(ascii_lower(c)),
        is_small(c) ==> ascii_lower(c) == c,
{
}

/// The parts of a name are clean.
proof fn lemma_parts_are_clean(s: Seq<char>)
    ensures
        is_clean(slug_parts(s)),
    decreases s.len(),
{
    if s.len() > 0 {
        let rest = slug_parts(s.drop_last());
        let all = slug_parts(s);
        lemma_parts_are_clean(s.drop_last());
        if is_alnum(s.last()) {
            lemma_small(s.last());
        }
        assert forall|i: int| 0 <= i < all.len() implies is_small(#[trigger] all[i]) || all[i]
            == '-' by {
            if i < rest.len() {
                assert(all[i] == rest[i]);
            }
        }
        assert forall|i: int, j: int| 0 <= i && j == i + 1 && j < all.len() implies !(
        #[trigger] all[i] == '-' && #[trigger] all[j] == '-') by {
            assert(all[i] == rest[i]);
            if j < rest.len() {
                assert(all[j] == rest[j]);
            }
        }
    }
}

/// A clean text has itself for its parts.
proof fn lemma_clean_stays(s: Seq<char>)
    requires
        is_clean(s),
    ensures
        slug_parts(s) == s,
    decreases s.len(),
{
    if s.len() > 0 {
        let front = s.drop_last();
        let n = s.len() - 1;
        assert(forall|i: int| 0 <= i < n ==> #[trigger] front[i] == s[i]);
        assert(is_clean(front)) by {
            assert forall|i: int| 0 <= i < front.len() implies is_small(#[trigger] front[i])
                || front[i] == '-' by {
                assert(front[i] == s[i]);
            }
            assert forall|i: int, j: int| 0 <= i && j == i + 1 && j < front.len() implies !(
            #[trigger] front[i] == '-' && #[trigger] front[j] == '-') by {
                assert(front[i] == s[i] && front[j] == s[j]);
            }
        }
        lemma_clean_stays(front);
        assert(is_small(s[n]) || s[n] == '-');
        if is_small(s[n]) {
            lemma_small(s[n]);
        } else {
            assert(n > 0);
            assert(!(s[n - 1] == '-' && s[n] == '-'));
            assert(front.last() == s[n - 1]);
        }
        assert(slug_parts(s) =~= s);
    }
}

/// A name comes to small letters and digits with single hyphens between them, and what has come to
/// that stays as it is.
pub proof fn a_name_comes_to_a_clean_one(s: Seq<char>)
    ensures
        is_clean(slug(s)),
        slug(s).len() > 0 ==> slug(s).last() != '-',
        slug(slug(s)) == slug(s),
{
    let parts = slug_parts(s);
    let r = slug(s);
    lemma_parts_are_clean(s);
    assert(forall|i: int| 0 <= i < r.len() ==> #[trigger] r[i] == parts[i]);
    assert(is_clean(r)) by {
        assert forall|i: int, j: int| 0 <= i && j == i + 1 && j < r.len() implies !(
        #[trigger] r[i] == '-' && #[trigger] r[j] == '-') by {
            assert(r[i] == parts[i] && r[j] == parts[j]);
        }
    }
    if parts.len() > 0 && parts.last() == '-' && r.len() > 0 {
        let n = parts.len() - 1;
        assert(!(parts[n - 1] == '-' && parts[n] == '-'));
        assert(r.last() == parts[n - 1]);
    }
    lemma_clean_stays(r);
}

/// A clean name that does not end in a hyphen is its own.
pub proof fn a_clean_name_stays(s: Seq<char>)
    requires
        is_clean(s),
        s.len() > 0 ==> s.last() != '-',
    ensures
        slug(s) == s,
{
    lemma_clean_stays(s);
}

/// The addresses above an address are its fronts up to each single slash inside it.
proof fn lemma_ancestors(s: Seq<char>, n: int, x: Seq<char>)
    requires
        0 <= n <= s.len(),
    ensures
        ancestors(s, n).contains(x) <==> exists|i: int|
            0 < i < s.len() - 1 && i < n && #[trigger] s[i] == '/' && s[i - 1] != '/' && s[i + 1]
                != '/' && x == s.take(i),
    decreases n,
{
    if n > 0 {
        lemma_ancestors(s, n - 1, x);
        let rest = ancestors(s, n - 1);
        let all = ancestors(s, n);
        if rest.contains(x) {
            let k = choose|k: int| 0 <= k < rest.len() && rest[k] == x;
            assert(all[k] == x);
        }
        if all.contains(x) && !rest.contains(x) {
            let k = choose|k: int| 0 <= k < all.len() && all[k] == x;
            if k < rest.len() {
                assert(rest[k] == x);
            }
            assert(s[n - 1] == '/' && x == s.take(n - 1));
        }
        if exists|i: int|
            0 < i < s.len() - 1 && i < n && #[trigger] s[i] == '/' && s[i - 1] != '/' && s[i + 1]
                != '/' && x == s.take(i) {
            let i = choose|i: int|
                0 < i < s.len() - 1 && i < n && #[trigger] s[i] == '/' && s[i - 1] != '/' && s[i
                    + 1] != '/' && x == s.take(i);
            if i == n - 1 {
                assert(all[rest.len() as int] == x);
            } else {
                assert(rest.contains(x));
            }
        }
    }
}

/// What stands above an address are its fronts up to each slash that is inside it and alone, and
/// nothing else.
pub proof fn an_address_stands_under_its_fronts(s: Seq<char>, x: Seq<char>)
    ensures
        ancestors(s, s.len() as int).contains(x) <==> exists|i: int|
            0 < i < s.len() - 1 && #[trigger] s[i] == '/' && s[i - 1] != '/' && s[i + 1] != '/' && x
                == s.take(i),
{
    lemma_ancestors(s, s.len() as int, x);
}

/// The front of a text is as much of it as is asked for, or the whole of it.
pub proof fn a_front_is_cut(s: Seq<char>, n: nat)
    ensures
        first_chars(s, n).len() <= n,
        s.len() <= n ==> first_chars(s, n) == s,
        s.len() > n ==> first_chars(s, n).len() == n,
        forall|i: int| 0 <= i < first_chars(s, n).len() ==> #[trigger] first_chars(s, n)[i] == s[i],
{
}

} // verus!
