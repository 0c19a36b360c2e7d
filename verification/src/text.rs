//! Text: equality, order, slicing and joining of `str` and `String` values.
//!
//! Every contract speaks of a text as the sequence of its characters.

use vstd::prelude::*;
use vstd::string::*;

use crate::order::{
    deduped, deduped_keeps_contents, first_where, first_where_facts, first_where_is, sort_by,
    sorted_by, sorted_by_commutes, sorted_by_is_in_order, sorted_by_keeps_elements, strict_order,
};

verus! {

/// `String::push` appends one character.
pub assume_specification[ String::push ](s: &mut String, c: char)
    ensures
        final(s)@ == old(s)@.push(c),
;

/// Wraps `==` on `str` (`<str as PartialEq>::eq`): two texts are equal when their characters are.
#[verifier::external_body]
pub(crate) fn text_eq(a: &str, b: &str) -> (r: bool)
    ensures
        r == (a@ == b@),
{
    a == b
}

/// The characters with the Unicode property `White_Space`.
pub open spec fn char_is_whitespace(c: char) -> bool {
    ||| '\u{9}' <= c <= '\u{d}'
    ||| '\u{2000}' <= c <= '\u{200a}'
    ||| c == '\u{20}' || c == '\u{85}' || c == '\u{a0}' || c == '\u{1680}'
    ||| c == '\u{2028}' || c == '\u{2029}' || c == '\u{202f}' || c == '\u{205f}'
    ||| c == '\u{3000}'
}

/// Wraps `char::is_whitespace`, which tells whether a character has the Unicode property
/// `White_Space`.
#[verifier::external_body]
pub(crate) fn is_whitespace(c: char) -> (r: bool)
    ensures
        r == char_is_whitespace(c),
{
    c.is_whitespace()
}

/// The text of an optional value, by its characters.
pub open spec fn opt_text(o: Option<String>) -> Option<Seq<char>> {
    match o {
        Some(s) => Some(s@),
        None => None,
    }
}

/// The text of an optional borrowed value, by its characters.
pub open spec fn opt_str(o: Option<&str>) -> Option<Seq<char>> {
    match o {
        Some(s) => Some(s@),
        None => None,
    }
}

/// Whether an optional text is present and equal to `b`.
pub fn opt_is(a: &Option<String>, b: &str) -> (r: bool)
    ensures
        r == (opt_text(*a) == Some(b@)),
{
    match a {
        Some(s) => text_eq(s.as_str(), b),
        None => false,
    }
}

/// Whether two optional texts are both absent, or both present and equal.
pub fn opt_eq(a: &Option<String>, b: &Option<String>) -> (r: bool)
    ensures
        r == (opt_text(*a) == opt_text(*b)),
{
    match (a, b) {
        (Some(x), Some(y)) => text_eq(x.as_str(), y.as_str()),
        (None, None) => true,
        _ => false,
    }
}

/// Whether an optional text equals an optional borrowed text.
pub fn opt_eq_str(a: &Option<String>, b: Option<&str>) -> (r: bool)
    ensures
        r == (opt_text(*a) == opt_str(b)),
{
    match (a, b) {
        (Some(x), Some(y)) => text_eq(x.as_str(), y),
        (None, None) => true,
        _ => false,
    }
}

/// The borrowed form of an optional text.
pub fn as_deref(a: &Option<String>) -> (r: Option<&str>)
    ensures
        opt_str(r) == opt_text(*a),
{
    match a {
        Some(s) => Some(s.as_str()),
        None => None,
    }
}

/// The owned form of an optional borrowed text.
pub fn opt_owned(a: Option<&str>) -> (r: Option<String>)
    ensures
        opt_text(r) == opt_str(a),
{
    match a {
        Some(s) => Some(s.to_owned()),
        None => None,
    }
}

/// The views of a list of texts.
pub open spec fn texts(s: Seq<String>) -> Seq<Seq<char>> {
    Seq::new(s.len(), |i: int| s[i]@)
}

/// Whether two lists of texts are equal, element by element.
pub fn texts_eq(a: &Vec<String>, b: &Vec<String>) -> (r: bool)
    ensures
        r == (texts(a@) == texts(b@)),
{
    if a.len() != b.len() {
        assert(texts(a@).len() != texts(b@).len());
        return false;
    }
    let mut i: usize = 0;
    while i < a.len()
        invariant
            i <= a.len(),
            a.len() == b.len(),
            forall|j: int| 0 <= j < i ==> a@[j]@ == b@[j]@,
        decreases a.len() - i,
    {
        if !text_eq(a[i].as_str(), b[i].as_str()) {
            assert(texts(a@)[i as int] != texts(b@)[i as int]);
            return false;
        }
        i += 1;
    }
    assert(texts(a@) =~= texts(b@));
    true
}

/// Whether a list of texts holds `x`.
pub fn texts_contain(v: &Vec<String>, x: &str) -> (r: bool)
    ensures
        r == texts(v@).contains(x@),
{
    let mut i: usize = 0;
    while i < v.len()
        invariant
            i <= v.len(),
            forall|j: int| 0 <= j < i ==> v@[j]@ != x@,
        decreases v.len() - i,
    {
        if text_eq(v[i].as_str(), x) {
            assert(texts(v@)[i as int] == x@);
            return true;
        }
        i += 1;
    }
    assert forall|j: int| 0 <= j < texts(v@).len() implies texts(v@)[j] != x@ by {}
    false
}

/// Adds `x` to a list of texts unless the list already holds it.
pub fn texts_add(v: &mut Vec<String>, x: String)
    ensures
        final(v)@ == (if texts(old(v)@).contains(x@) {
            old(v)@
        } else {
            old(v)@.push(x)
        }),
        texts(final(v)@).to_set() == texts(old(v)@).to_set().insert(x@),
        texts(old(v)@).no_duplicates() ==> texts(final(v)@).no_duplicates(),
{
    if texts_contain(v, x.as_str()) {
        assert(texts(v@).to_set().insert(x@) =~= texts(v@).to_set());
    } else {
        let ghost before = v@;
        let ghost added = x;
        v.push(x);
        assert(texts(v@) =~= texts(before).push(added@));
        assert forall|t: Seq<char>|
            texts(before).push(added@).to_set().contains(t) == texts(
                before,
            ).to_set().insert(added@).contains(t) by {
            if texts(before).to_set().contains(t) {
                let i = choose|i: int| 0 <= i < texts(before).len() && texts(before)[i] == t;
                assert(texts(before).push(added@)[i] == t);
            }
            if t == added@ {
                assert(texts(before).push(added@)[texts(before).len() as int] == t);
            }
        }
        assert(texts(v@).to_set() =~= texts(before).to_set().insert(added@));
    }
}

/// A copy of a list of texts.
pub fn texts_copy(v: &Vec<String>) -> (r: Vec<String>)
    ensures
        r@ == v@,
{
    let mut out: Vec<String> = Vec::new();
    let mut i: usize = 0;
    while i < v.len()
        invariant
            i <= v.len(),
            out@ == v@.take(i as int),
        decreases v.len() - i,
    {
        out.push(v[i].clone());
        i += 1;
        assert(v@.take(i as int) =~= v@.take(i - 1).push(v@[i - 1]));
    }
    assert(v@.take(i as int) =~= v@);
    out
}

/// The characters of a text.
pub fn chars_of(s: &str) -> (r: Vec<char>)
    ensures
        r@ == s@,
{
    let mut out: Vec<char> = Vec::new();
    for c in it: s.chars()
        invariant
            it.seq() == s@,
            out@ == s@.take(it.index() as int),
    {
        assert(s@.take(it.index() + 1) =~= s@.take(it.index() as int).push(s@[it.index() as int]));
        out.push(c);
    }
    assert(out@ =~= s@);
    out
}

/// The text with the given characters.
pub fn text_of(v: &Vec<char>) -> (r: String)
    ensures
        r@ == v@,
{
    let mut out: String = String::new();
    let mut i: usize = 0;
    while i < v.len()
        invariant
            i <= v.len(),
            out@ == v@.take(i as int),
        decreases v.len() - i,
    {
        out.push(v[i]);
        i += 1;
        assert(v@.take(i as int) =~= v@.take(i - 1).push(v@[i - 1]));
    }
    assert(v@.take(i as int) =~= v@);
    out
}

/// The text with the characters of `v` from `from` up to `to`.
pub fn text_range(v: &Vec<char>, from: usize, to: usize) -> (r: String)
    requires
        from <= to <= v.len(),
    ensures
        r@ == v@.subrange(from as int, to as int),
{
    let mut out: String = String::new();
    let mut i: usize = from;
    while i < to
        invariant
            from <= i <= to <= v.len(),
            out@ == v@.subrange(from as int, i as int),
        decreases to - i,
    {
        out.push(v[i]);
        i += 1;
        assert(v@.subrange(from as int, i as int) =~= v@.subrange(from as int, i - 1).push(
            v@[i - 1],
        ));
    }
    out
}

/// Lexicographic order by code point, the order in which `str` compares.
pub open spec fn text_lt(a: Seq<char>, b: Seq<char>) -> bool
    decreases a.len(),
{
    if b.len() == 0 {
        false
    } else if a.len() == 0 {
        true
    } else if a[0] != b[0] {
        a[0] < b[0]
    } else {
        text_lt(a.drop_first(), b.drop_first())
    }
}

proof fn lemma_text_lt_skip(a: Seq<char>, b: Seq<char>, n: int)
    requires
        0 <= n <= a.len(),
        n <= b.len(),
        forall|j: int| 0 <= j < n ==> a[j] == b[j],
    ensures
        text_lt(a, b) == text_lt(a.skip(n), b.skip(n)),
    decreases n,
{
    if n == 0 {
        assert(a.skip(0) =~= a);
        assert(b.skip(0) =~= b);
    } else {
        assert(a[0] == b[0]);
        assert forall|j: int| 0 <= j < n - 1 implies a.drop_first()[j] == b.drop_first()[j] by {
            assert(a[j + 1] == b[j + 1]);
        }
        lemma_text_lt_skip(a.drop_first(), b.drop_first(), n - 1);
        assert(a.drop_first().skip(n - 1) =~= a.skip(n));
        assert(b.drop_first().skip(n - 1) =~= b.skip(n));
    }
}

/// Whether `a` comes before `b`.
pub fn text_before(a: &str, b: &str) -> (r: bool)
    ensures
        r == text_lt(a@, b@),
{
    let x: Vec<char> = chars_of(a);
    let y: Vec<char> = chars_of(b);
    let mut i: usize = 0;
    while i < x.len() && i < y.len() && x[i] == y[i]
        invariant
            i <= x.len(),
            i <= y.len(),
            forall|j: int| 0 <= j < i ==> x@[j] == y@[j],
        decreases x.len() - i,
    {
        i += 1;
    }
    proof {
        lemma_text_lt_skip(x@, y@, i as int);
    }
    if i >= y.len() {
        false
    } else if i >= x.len() {
        true
    } else {
        assert(x@.skip(i as int)[0] == x@[i as int]);
        assert(y@.skip(i as int)[0] == y@[i as int]);
        x[i] < y[i]
    }
}

/// No text comes before itself.
pub proof fn text_lt_irreflexive(a: Seq<char>)
    ensures
        !text_lt(a, a),
    decreases a.len(),
{
    if a.len() > 0 {
        text_lt_irreflexive(a.drop_first());
    }
}

/// The order of texts is transitive.
pub proof fn text_lt_transitive(a: Seq<char>, b: Seq<char>, c: Seq<char>)
    requires
        text_lt(a, b),
        text_lt(b, c),
    ensures
        text_lt(a, c),
    decreases a.len(),
{
    if a.len() > 0 && a[0] == b[0] && b[0] == c[0] {
        text_lt_transitive(a.drop_first(), b.drop_first(), c.drop_first());
    }
}

/// Two different texts are ordered one way or the other.
pub proof fn text_lt_total(a: Seq<char>, b: Seq<char>)
    ensures
        text_lt(a, b) || text_lt(b, a) || a == b,
    decreases a.len(),
{
    if a.len() > 0 && b.len() > 0 {
        if a[0] == b[0] {
            text_lt_total(a.drop_first(), b.drop_first());
            if a.drop_first() == b.drop_first() {
                assert(a =~= seq![a[0]] + a.drop_first());
                assert(b =~= seq![b[0]] + b.drop_first());
            }
        }
    } else if a.len() == 0 && b.len() == 0 {
        assert(a =~= b);
    }
}

/// Whether `s` begins with `prefix`.
pub open spec fn has_prefix(s: Seq<char>, prefix: Seq<char>) -> bool {
    prefix.len() <= s.len() && s.take(prefix.len() as int) == prefix
}

/// Whether `needle` stands in `s` somewhere.
pub open spec fn has_part(s: Seq<char>, needle: Seq<char>) -> bool {
    exists|i: int|
        0 <= i && i + needle.len() <= s.len() && #[trigger] s.subrange(
            i,
            i + needle.len(),
        ) == needle
}

fn part_at(s: &Vec<char>, needle: &Vec<char>, at: usize) -> (r: bool)
    requires
        at + needle.len() <= s.len(),
    ensures
        r == (s@.subrange(at as int, at + needle.len()) == needle@),
{
    let mut i: usize = 0;
    while i < needle.len()
        invariant
            i <= needle.len(),
            at + needle.len() <= s.len(),
            forall|j: int| 0 <= j < i ==> s@[at + j] == needle@[j],
        decreases needle.len() - i,
    {
        if s[at + i] != needle[i] {
            assert(s@.subrange(at as int, at + needle.len())[i as int] != needle@[i as int]);
            return false;
        }
        i += 1;
    }
    assert(s@.subrange(at as int, at + needle.len()) =~= needle@);
    true
}

/// Whether `s` begins with `prefix`.
pub fn starts_with(s: &str, prefix: &str) -> (r: bool)
    ensures
        r == has_prefix(s@, prefix@),
{
    let x: Vec<char> = chars_of(s);
    let y: Vec<char> = chars_of(prefix);
    if y.len() > x.len() {
        return false;
    }
    assert(x@.subrange(0, 0 + y.len()) =~= x@.take(y@.len() as int));
    part_at(&x, &y, 0)
}

/// Whether `needle` stands in `s` somewhere.
pub fn contains_text(s: &str, needle: &str) -> (r: bool)
    ensures
        r == has_part(s@, needle@),
{
    let x: Vec<char> = chars_of(s);
    let y: Vec<char> = chars_of(needle);
    if y.len() > x.len() {
        return false;
    }
    let mut i: usize = 0;
    let last: usize = x.len() - y.len();
    while i <= last
        invariant
            x@ == s@,
            y@ == needle@,
            last + y.len() == x.len(),
            i <= last + 1,
            forall|j: int|
                0 <= j < i ==> #[trigger] x@.subrange(j, j + y.len()) != y@,
        decreases last + 1 - i,
    {
        if part_at(&x, &y, i) {
            return true;
        }
        if i == last {
            assert(forall|j: int|
                0 <= j && j + needle@.len() <= s@.len() ==> #[trigger] s@.subrange(
                    j,
                    j + needle@.len(),
                ) != needle@);
            return false;
        }
        i += 1;
    }
    false
}

/// A text without the white space at both ends.
pub open spec fn trimmed(s: Seq<char>) -> Seq<char>
    decreases s.len(),
{
    if s.len() > 0 && char_is_whitespace(s[0]) {
        trimmed(s.drop_first())
    } else if s.len() > 0 && char_is_whitespace(s.last()) {
        trimmed(s.drop_last())
    } else {
        s
    }
}

/// Whether a text holds nothing but white space.
pub open spec fn blank(s: Seq<char>) -> bool {
    forall|i: int| 0 <= i < s.len() ==> char_is_whitespace(#[trigger] s[i])
}

/// A text is blank exactly when nothing is left of it between the white space at both ends.
pub proof fn blank_iff_trimmed_empty(s: Seq<char>)
    ensures
        blank(s) <==> trimmed(s).len() == 0,
    decreases s.len(),
{
    if s.len() > 0 && char_is_whitespace(s[0]) {
        blank_iff_trimmed_empty(s.drop_first());
        assert forall|i: int| 0 <= i < s.len() && blank(s.drop_first()) implies char_is_whitespace(
            #[trigger] s[i],
        ) by {
            if i > 0 {
                assert(s.drop_first()[i - 1] == s[i]);
            }
        }
        if blank(s) {
            assert forall|i: int| 0 <= i < s.drop_first().len() implies char_is_whitespace(
                #[trigger] s.drop_first()[i],
            ) by {
                assert(s[i + 1] == s.drop_first()[i]);
            }
        }
    } else if s.len() > 0 && char_is_whitespace(s.last()) {
        blank_iff_trimmed_empty(s.drop_last());
        assert(!char_is_whitespace(s[0]));
        assert(s.drop_last().len() > 0);
        assert(s.drop_last()[0] == s[0]);
    }
}

/// Whether a text neither begins nor ends with white space.
pub open spec fn has_bare_ends(s: Seq<char>) -> bool {
    s.len() == 0 || (!char_is_whitespace(s[0]) && !char_is_whitespace(s.last()))
}

/// Trimming takes the white space at both ends and nothing else.
pub proof fn trimming_takes_the_ends(front: Seq<char>, s: Seq<char>, back: Seq<char>)
    requires
        blank(front),
        blank(back),
        has_bare_ends(s),
    ensures
        trimmed(front + s + back) == s,
    decreases front.len() + back.len(),
{
    let all = front + s + back;
    if s.len() == 0 {
        blank_iff_trimmed_empty(all);
        assert(trimmed(all) =~= s);
    } else if front.len() > 0 {
        assert(all[0] == front[0]);
        assert(all.drop_first() =~= front.drop_first() + s + back);
        assert forall|i: int| 0 <= i < front.drop_first().len() implies char_is_whitespace(
            #[trigger] front.drop_first()[i],
        ) by {
            assert(front.drop_first()[i] == front[i + 1]);
        }
        trimming_takes_the_ends(front.drop_first(), s, back);
    } else if back.len() > 0 {
        assert(all[0] == s[0]);
        assert(all.last() == back[back.len() - 1]);
        assert(all.drop_last() =~= front + s + back.drop_last());
        trimming_takes_the_ends(front, s, back.drop_last());
    } else {
        assert(all =~= s);
    }
}

/// What trimming leaves begins and ends with no white space; a text of which it leaves everything
/// does so too.
pub proof fn trimmed_has_bare_ends(s: Seq<char>)
    ensures
        has_bare_ends(trimmed(s)),
        trimmed(s).len() <= s.len(),
        trimmed(s).len() == s.len() ==> trimmed(s) == s,
    decreases s.len(),
{
    if s.len() > 0 && char_is_whitespace(s[0]) {
        trimmed_has_bare_ends(s.drop_first());
    } else if s.len() > 0 && char_is_whitespace(s.last()) {
        trimmed_has_bare_ends(s.drop_last());
    }
}

/// Whether a text holds nothing but white space.
pub fn is_blank(s: &str) -> (r: bool)
    ensures
        r == blank(s@),
{
    let x: Vec<char> = chars_of(s);
    let mut i: usize = 0;
    while i < x.len()
        invariant
            i <= x.len(),
            x@ == s@,
            forall|j: int| 0 <= j < i ==> char_is_whitespace(#[trigger] x@[j]),
        decreases x.len() - i,
    {
        if !is_whitespace(x[i]) {
            assert(!char_is_whitespace(s@[i as int]));
            return false;
        }
        i += 1;
    }
    true
}

/// A text without the white space at both ends.
#[verifier::rlimit(40)]
pub fn trim(s: &str) -> (r: String)
    ensures
        r@ == trimmed(s@),
{
    let x: Vec<char> = chars_of(s);
    let mut from: usize = 0;
    let mut to: usize = x.len();
    assert(x@.subrange(0, x.len() as int) =~= x@);
    while from < to && is_whitespace(x[from])
        invariant
            from <= to == x.len(),
            trimmed(x@) == trimmed(x@.subrange(from as int, to as int)),
        decreases to - from,
    {
        assert(x@.subrange(from as int, to as int).drop_first() =~= x@.subrange(
            from + 1,
            to as int,
        ));
        from += 1;
    }
    while from < to && is_whitespace(x[to - 1])
        invariant
            from <= to <= x.len(),
            from < to ==> !char_is_whitespace(x@[from as int]),
            trimmed(x@) == trimmed(x@.subrange(from as int, to as int)),
        decreases to - from,
    {
        assert(x@.subrange(from as int, to as int).drop_last() =~= x@.subrange(
            from as int,
            to - 1,
        ));
        to -= 1;
    }
    assert(trimmed(x@.subrange(from as int, to as int)) == x@.subrange(from as int, to as int));
    text_range(&x, from, to)
}

/// One character with every ASCII capital letter made small.
pub open spec fn ascii_lower(c: char) -> char {
    if 'A' <= c && c <= 'Z' {
        ((c as u32) + 32) as char
    } else {
        c
    }
}

/// A text with every ASCII capital letter made small.
pub open spec fn lowered(s: Seq<char>) -> Seq<char> {
    Seq::new(s.len(), |i: int| ascii_lower(s[i]))
}

/// A text in which every character that `replaced` picks has become `by`.
pub open spec fn with_chars_replaced(
    s: Seq<char>,
    replaced: spec_fn(char) -> bool,
    by: char,
) -> Seq<char> {
    Seq::new(s.len(), |i: int| if replaced(s[i]) { by } else { s[i] })
}

/// A text in which every `a` and every `b` has become `by`.
pub fn replace_chars(s: &str, a: char, b: char, by: char) -> (r: String)
    ensures
        r@ == with_chars_replaced(s@, |c: char| c == a || c == b, by),
{
    let x: Vec<char> = chars_of(s);
    let mut out: String = String::new();
    let ghost p = |c: char| c == a || c == b;
    let mut i: usize = 0;
    while i < x.len()
        invariant
            i <= x.len(),
            out@ == with_chars_replaced(x@, p, by).take(i as int),
            p == (|c: char| c == a || c == b),
        decreases x.len() - i,
    {
        let c: char = x[i];
        let d: char = if c == a || c == b {
            by
        } else {
            c
        };
        out.push(d);
        i += 1;
        assert(with_chars_replaced(x@, p, by).take(i as int) =~= with_chars_replaced(
            x@,
            p,
            by,
        ).take(i - 1).push(d));
    }
    assert(out@ =~= with_chars_replaced(x@, p, by));
    out
}

/// The texts of `parts`, each followed by `separator` but for the last.
pub open spec fn joined(parts: Seq<Seq<char>>, separator: Seq<char>) -> Seq<char>
    decreases parts.len(),
{
    if parts.len() == 0 {
        Seq::empty()
    } else if parts.len() == 1 {
        parts[0]
    } else {
        joined(parts.drop_last(), separator) + separator + parts.last()
    }
}

/// The texts of a list, joined by `separator`.
pub fn join(parts: &Vec<String>, separator: &str) -> (r: String)
    ensures
        r@ == joined(texts(parts@), separator@),
{
    let mut out: String = String::new();
    let mut i: usize = 0;
    while i < parts.len()
        invariant
            i <= parts.len(),
            out@ == joined(texts(parts@).take(i as int), separator@),
        decreases parts.len() - i,
    {
        if i > 0 {
            out.append(separator);
        }
        out.append(parts[i].as_str());
        i += 1;
        let ghost done = texts(parts@).take(i as int);
        assert(done.drop_last() =~= texts(parts@).take(i - 1));
        assert(done.last() == parts@[i - 1]@);
        if i == 1 {
            assert(out@ =~= done[0]);
        }
    }
    assert(texts(parts@).take(i as int) =~= texts(parts@));
    out
}

/// The decimal digits of a number.
pub open spec fn decimal(n: nat) -> Seq<char>
    decreases n,
{
    if n < 10 {
        seq![digit_char(n)]
    } else {
        decimal(n / 10).push(digit_char(n % 10))
    }
}

/// The character of one decimal digit.
pub open spec fn digit_char(d: nat) -> char {
    (d + 48) as char
}

fn digit(d: u64) -> (c: char)
    requires
        d < 10,
    ensures
        c == digit_char(d as nat),
{
    if d == 0 {
        '0'
    } else if d == 1 {
        '1'
    } else if d == 2 {
        '2'
    } else if d == 3 {
        '3'
    } else if d == 4 {
        '4'
    } else if d == 5 {
        '5'
    } else if d == 6 {
        '6'
    } else if d == 7 {
        '7'
    } else if d == 8 {
        '8'
    } else {
        '9'
    }
}

/// A number written in decimal.
pub fn decimal_text(n: u64) -> (r: String)
    ensures
        r@ == decimal(n as nat),
    decreases n,
{
    if n < 10 {
        let mut out: String = String::new();
        out.push(digit(n));
        assert(out@ =~= decimal(n as nat));
        out
    } else {
        let mut out: String = decimal_text(n / 10);
        out.push(digit(n % 10));
        out
    }
}

/// The number that a text of decimal digits stands for.
pub open spec fn decimal_value(s: Seq<char>) -> nat
    decreases s.len(),
{
    if s.len() == 0 {
        0
    } else {
        (decimal_value(s.drop_last()) * 10 + (s.last() as u32 - 48)) as nat
    }
}

/// Whether a text holds nothing but decimal digits.
pub open spec fn all_digits(s: Seq<char>) -> bool {
    forall|i: int| 0 <= i < s.len() ==> '0' <= #[trigger] s[i] && s[i] <= '9'
}

/// What `usize::from_str` reads: an optional plus sign and at least one digit.
pub open spec fn parsed_number(s: Seq<char>) -> Option<nat> {
    let digits = if s.len() > 0 && s[0] == '+' {
        s.drop_first()
    } else {
        s
    };
    if digits.len() > 0 && all_digits(digits) && decimal_value(digits) <= usize::MAX {
        Some(decimal_value(digits))
    } else {
        None
    }
}

proof fn lemma_decimal_value_grows(s: Seq<char>, n: int)
    requires
        0 <= n <= s.len(),
        all_digits(s),
    ensures
        decimal_value(s.take(n)) <= decimal_value(s),
    decreases s.len() - n,
{
    if n < s.len() {
        lemma_decimal_value_grows(s, n + 1);
        assert(s.take(n + 1).drop_last() =~= s.take(n));
        assert('0' <= s[n]);
    } else {
        assert(s.take(n) =~= s);
    }
}

/// The number that a text stands for, where it stands for one that fits.
pub fn parse_number(s: &str) -> (r: Option<usize>)
    ensures
        match r {
            Some(n) => parsed_number(s@) == Some(n as nat),
            None => parsed_number(s@) is None,
        },
{
    let x: Vec<char> = chars_of(s);
    let start: usize = if x.len() > 0 && x[0] == '+' {
        1
    } else {
        0
    };
    let ghost digits = x@.skip(start as int);
    assert(x@.skip(0) =~= x@);
    assert(start == 1 ==> x@.drop_first() =~= x@.skip(1));
    if start == x.len() {
        return None;
    }
    let mut value: usize = 0;
    let mut i: usize = start;
    while i < x.len()
        invariant
            start <= i <= x.len(),
            start < x.len(),
            digits == x@.skip(start as int),
            parsed_number(s@) == (if digits.len() > 0 && all_digits(digits) && decimal_value(digits)
                <= usize::MAX {
                Some(decimal_value(digits))
            } else {
                None
            }),
            all_digits(digits.take(i - start)),
            value == decimal_value(digits.take(i - start)),
        decreases x.len() - i,
    {
        let c: char = x[i];
        let ghost done = digits.take(i - start + 1);
        assert(done.drop_last() =~= digits.take(i - start));
        assert(digits[i - start] == c);
        if c < '0' || c > '9' {
            assert(!all_digits(digits));
            return None;
        }
        let d: usize = (c as u32 - 48) as usize;
        if value > (usize::MAX - d) / 10 {
            proof {
                if all_digits(digits) {
                    lemma_decimal_value_grows(digits, i - start + 1);
                    assert(decimal_value(done) == value * 10 + d);
                }
            }
            return None;
        }
        value = value * 10 + d;
        i += 1;
        assert forall|j: int| 0 <= j < done.len() implies '0' <= #[trigger] done[j] && done[j]
            <= '9' by {
            if j < done.len() - 1 {
                assert(done[j] == digits.take(i - 1 - start)[j]);
            }
        }
    }
    assert(digits.take(i - start) =~= digits);
    Some(value)
}

/// The digits of a number stand for that number.
pub proof fn decimal_round_trip(n: nat)
    ensures
        decimal_value(decimal(n)) == n,
        all_digits(decimal(n)),
        decimal(n).len() > 0,
        n <= usize::MAX ==> parsed_number(decimal(n)) == Some(n),
    decreases n,
{
    if n < 10 {
        let s = decimal(n);
        assert(s.drop_last() =~= Seq::<char>::empty());
        assert(decimal_value(s.drop_last()) == 0);
        assert(s.last() == digit_char(n));
        assert((n + 48) as char as u32 == n + 48);
    } else {
        decimal_round_trip(n / 10);
        let s = decimal(n);
        assert(s.drop_last() =~= decimal(n / 10));
        let d = n % 10;
        assert((d + 48) as char as u32 == d + 48);
        assert forall|i: int| 0 <= i < s.len() implies '0' <= #[trigger] s[i] && s[i] <= '9' by {
            if i < s.len() - 1 {
                assert(s[i] == decimal(n / 10)[i]);
            }
        }
    }
    assert(decimal(n)[0] != '+');
}

/// Texts in order.
pub open spec fn sorted_texts(s: Seq<Seq<char>>) -> Seq<Seq<char>> {
    sorted_by(s, |a: Seq<char>, b: Seq<char>| text_lt(a, b))
}

/// Puts texts in order.
pub fn sort_texts(v: Vec<String>) -> (r: Vec<String>)
    ensures
        texts(r@) == sorted_texts(texts(v@)),
{
    let ghost lt = |a: String, b: String| text_lt(a@, b@);
    let before = |a: &String, b: &String| -> (c: bool)
        ensures
            c == lt(*a, *b),
        { text_before(a.as_str(), b.as_str()) };
    let ghost all = v@;
    let r: Vec<String> = sort_by(v, before, Ghost(lt));
    proof {
        let f = |s: String| s@;
        sorted_by_commutes(all, f, lt, |a: Seq<char>, b: Seq<char>| text_lt(a, b));
        assert(all.map_values(f) =~= texts(all));
        assert(r@.map_values(f) =~= texts(r@));
    }
    r
}

/// Makes each run of equal neighbours one.
pub fn dedup_texts(v: Vec<String>) -> (r: Vec<String>)
    ensures
        texts(r@) == deduped(texts(v@)),
{
    let mut out: Vec<String> = Vec::new();
    let mut i: usize = 0;
    assert(texts(v@).take(0) =~= Seq::<Seq<char>>::empty());
    assert(texts(out@) =~= deduped(texts(v@).take(0)));
    while i < v.len()
        invariant
            i <= v.len(),
            texts(out@) == deduped(texts(v@).take(i as int)),
        decreases v.len() - i,
    {
        let ghost before = out@;
        let ghost next = texts(v@).take(i + 1);
        assert(next.drop_last() =~= texts(v@).take(i as int));
        assert(next.last() == v@[i as int]@);
        let repeated: bool = out.len() > 0 && text_eq(out[out.len() - 1].as_str(), v[i].as_str());
        if !repeated {
            out.push(v[i].clone());
            assert(texts(out@) =~= texts(before).push(v@[i as int]@));
        }
        i += 1;
    }
    assert(texts(v@).take(i as int) =~= texts(v@));
    out
}

/// The list of texts with one more.
pub proof fn texts_push(s: Seq<String>, x: String)
    ensures
        texts(s.push(x)) == texts(s).push(x@),
{
    assert(texts(s.push(x)) =~= texts(s).push(x@));
}

/// Two lists of texts, one behind the other.
pub proof fn texts_concat(a: Seq<String>, b: Seq<String>)
    ensures
        texts(a + b) == texts(a) + texts(b),
{
    assert(texts(a + b) =~= texts(a) + texts(b));
}

/// A number in decimal, with zeros in front up to four digits.
pub open spec fn padded4(n: nat) -> Seq<char> {
    if n < 10 {
        "000"@ + decimal(n)
    } else if n < 100 {
        "00"@ + decimal(n)
    } else if n < 1000 {
        "0"@ + decimal(n)
    } else {
        decimal(n)
    }
}

/// A number in decimal, with zeros in front up to four digits.
pub fn padded4_text(n: u64) -> (r: String)
    ensures
        r@ == padded4(n as nat),
{
    let digits: String = decimal_text(n);
    if n < 10 {
        "000".to_owned().concat(digits.as_str())
    } else if n < 100 {
        "00".to_owned().concat(digits.as_str())
    } else if n < 1000 {
        "0".to_owned().concat(digits.as_str())
    } else {
        digits
    }
}

/// Whether a character is `c`.
pub open spec fn char_is(c: char) -> spec_fn(char) -> bool {
    |x: char| x == c
}

/// The texts between the `c` of a text.
pub open spec fn split_at_char(s: Seq<char>, c: char) -> Seq<Seq<char>>
    decreases s.len(),
{
    let at = first_where(s, char_is(c));
    if 0 <= at < s.len() {
        seq![s.take(at)] + split_at_char(s.skip(at + 1), c)
    } else {
        seq![s]
    }
}

fn find_char(x: &Vec<char>, from: usize, c: char) -> (r: usize)
    requires
        from <= x.len(),
    ensures
        from <= r <= x.len(),
        r == from + first_where(x@.skip(from as int), char_is(c)),
{
    let ghost p = char_is(c);
    let mut i: usize = from;
    while i < x.len() && x[i] != c
        invariant
            from <= i <= x.len(),
            forall|j: int| from <= j < i ==> x@[j] != c,
        ensures
            from <= i <= x.len(),
            forall|j: int| from <= j < i ==> x@[j] != c,
            i < x.len() ==> x@[i as int] == c,
        decreases x.len() - i,
    {
        i += 1;
    }
    proof {
        first_where_is(x@.skip(from as int), p, i - from);
    }
    i
}

/// The texts between the `c` of a text.
pub fn split_text(s: &str, c: char) -> (r: Vec<String>)
    ensures
        texts(r@) == split_at_char(s@, c),
{
    let x: Vec<char> = chars_of(s);
    let mut out: Vec<String> = Vec::new();
    let mut from: usize = 0;
    assert(x@.skip(0) =~= x@);
    assert(texts(out@) + split_at_char(x@.skip(0), c) =~= split_at_char(x@, c));
    loop
        invariant
            x@ == s@,
            from <= x.len(),
            texts(out@) + split_at_char(x@.skip(from as int), c) == split_at_char(x@, c),
        decreases x.len() - from,
    {
        let at: usize = find_char(&x, from, c);
        let part: String = text_range(&x, from, at);
        let ghost before = out@;
        let ghost rest = x@.skip(from as int);
        proof {
            first_where_facts(rest, char_is(c));
            texts_push(before, part);
            assert(part@ =~= rest.take(at - from));
        }
        out.push(part);
        if at == x.len() {
            assert(rest.take(at - from) =~= rest);
            assert(texts(out@) =~= split_at_char(x@, c));
            return out;
        }
        assert(rest.skip(at - from + 1) =~= x@.skip(at + 1));
        assert(texts(out@) + split_at_char(x@.skip(at + 1), c) =~= texts(before) + (seq![part@]
            + split_at_char(x@.skip(at + 1), c)));
        from = at + 1;
    }
}

/// A text without any `c` is one piece.
pub proof fn split_without(s: Seq<char>, c: char)
    requires
        !s.contains(c),
    ensures
        split_at_char(s, c) == seq![s],
{
    let p = char_is(c);
    first_where_facts(s, p);
    let at = first_where(s, p);
    if at < s.len() {
        assert(s.contains(s[at]));
    }
}

/// A text without any `c`, then `c`, then more, is split behind the first.
pub proof fn split_step(a: Seq<char>, c: char, rest: Seq<char>)
    requires
        !a.contains(c),
    ensures
        split_at_char(a + seq![c] + rest, c) == seq![a] + split_at_char(rest, c),
{
    let s = a + seq![c] + rest;
    let p = char_is(c);
    assert forall|j: int| 0 <= j < a.len() implies !p(#[trigger] s[j]) by {
        assert(s[j] == a[j]);
        assert(a.contains(a[j]));
    }
    first_where_is(s, p, a.len() as int);
    assert(s.take(a.len() as int) =~= a);
    assert(s.skip((a.len() + 1) as int) =~= rest);
}

/// The text in front of the first `c` and the text behind it.
pub open spec fn split_once_at(s: Seq<char>, c: char) -> Option<(Seq<char>, Seq<char>)> {
    let at = first_where(s, char_is(c));
    if 0 <= at < s.len() {
        Some((s.take(at), s.skip(at + 1)))
    } else {
        None
    }
}

/// The text in front of the first `c` and the text behind it.
pub fn split_once(s: &str, c: char) -> (r: Option<(String, String)>)
    ensures
        match r {
            Some(pair) => split_once_at(s@, c) == Some((pair.0@, pair.1@)),
            None => split_once_at(s@, c) is None,
        },
{
    let x: Vec<char> = chars_of(s);
    assert(x@.skip(0) =~= x@);
    let at: usize = find_char(&x, 0, c);
    if at < x.len() {
        let front: String = text_range(&x, 0, at);
        let back: String = text_range(&x, at + 1, x.len());
        assert(front@ =~= x@.take(at as int));
        assert(back@ =~= x@.skip(at + 1));
        Some((front, back))
    } else {
        None
    }
}

/// Whether a character stands in a text.
pub fn contains_char(s: &str, c: char) -> (r: bool)
    ensures
        r == s@.contains(c),
{
    let x: Vec<char> = chars_of(s);
    let at: usize = find_char(&x, 0, c);
    proof {
        assert(x@.skip(0) =~= x@);
        first_where_facts(x@, char_is(c));
    }
    at < x.len()
}

/// Whether a text has no characters.
pub fn is_empty_text(s: &str) -> (r: bool)
    ensures
        r == (s@.len() == 0),
{
    chars_of(s).len() == 0
}

/// One character with every ASCII capital letter made small.
pub fn lower_char(c: char) -> (r: char)
    ensures
        r == ascii_lower(c),
{
    if c >= 'A' && c <= 'Z' {
        let small: u32 = c as u32 + 32;
        assert(97 <= small <= 122);
        let b: u8 = small as u8;
        b as char
    } else {
        c
    }
}

/// A text with its ASCII letters made small.
pub fn lower_text(s: &str) -> (r: String)
    ensures
        r@ == lowered(s@),
{
    let x: Vec<char> = chars_of(s);
    let mut out: Vec<char> = Vec::new();
    let mut i: usize = 0;
    while i < x.len()
        invariant
            i <= x.len(),
            out@.len() == i,
            forall|j: int| 0 <= j < i ==> #[trigger] out@[j] == ascii_lower(x@[j]),
        decreases x.len() - i,
    {
        out.push(lower_char(x[i]));
        i += 1;
    }
    assert(out@ =~= lowered(s@));
    text_of(&out)
}

/// What `str::to_lowercase` makes of a text.
pub uninterp spec fn unicode_lowered(s: Seq<char>) -> Seq<char>;

/// Wraps `str::to_lowercase`, which writes every character in lower case by the rules of Unicode.
/// What it returns is named.
#[verifier::external_body]
pub(crate) fn to_lowercase(s: &str) -> (r: String)
    ensures
        r@ == unicode_lowered(s@),
{
    s.to_lowercase()
}

/// The texts that `accept` accepts, in order.
pub(crate) fn select_texts<F: Fn(&str) -> bool>(
    v: &Vec<String>,
    accept: F,
    Ghost(p): Ghost<spec_fn(Seq<char>) -> bool>,
) -> (r: Vec<String>)
    requires
        forall|a: &str| #[trigger] accept.requires((a,)),
        forall|a: &str, b: bool| accept.ensures((a,), b) ==> b == p(a@),
    ensures
        texts(r@) == texts(v@).filter(p),
{
    let ghost all = texts(v@);
    let mut out: Vec<String> = Vec::new();
    let mut i: usize = 0;
    assert(texts(out@) =~= all.take(0).filter(p)) by {
        reveal(Seq::filter);
    }
    while i < v.len()
        invariant
            i <= v.len(),
            all == texts(v@),
            texts(out@) == all.take(i as int).filter(p),
            forall|a: &str| #[trigger] accept.requires((a,)),
            forall|a: &str, b: bool| accept.ensures((a,), b) ==> b == p(a@),
        decreases v.len() - i,
    {
        assert(all.take(i + 1).drop_last() =~= all.take(i as int));
        assert(all.take(i + 1).last() == v@[i as int]@);
        assert(all.take(i + 1).filter(p) == (if p(v@[i as int]@) {
            all.take(i as int).filter(p).push(v@[i as int]@)
        } else {
            all.take(i as int).filter(p)
        })) by {
            reveal(Seq::filter);
        }
        if accept(v[i].as_str()) {
            let text: String = v[i].clone();
            proof {
                texts_push(out@, text);
            }
            out.push(text);
        }
        i += 1;
    }
    assert(all.take(i as int) =~= all);
    out
}

/// Whether each text is before every later one.
pub open spec fn ascending(s: Seq<Seq<char>>) -> bool {
    forall|i: int, j: int| 0 <= i < j < s.len() ==> text_lt(#[trigger] s[i], #[trigger] s[j])
}

/// Whether `s` lists the texts that `p` accepts, each once and in order.
pub open spec fn lists_all(s: Seq<Seq<char>>, p: spec_fn(Seq<char>) -> bool) -> bool {
    ascending(s) && forall|x: Seq<char>| #[trigger] s.contains(x) <==> p(x)
}

/// There is one list of the texts that `p` accepts, each once and in order.
pub proof fn listed_one_way(a: Seq<Seq<char>>, b: Seq<Seq<char>>, p: spec_fn(Seq<char>) -> bool)
    requires
        lists_all(a, p),
        lists_all(b, p),
    ensures
        a == b,
    decreases a.len(),
{
    if a.len() == 0 {
        if b.len() > 0 {
            assert(b.contains(b[0]));
            assert(a.contains(b[0]));
        }
        assert(a =~= b);
    } else {
        assert(a.contains(a.last()));
        assert(b.contains(a.last()));
        assert(b.contains(b.last()));
        assert(a.contains(b.last()));
        let i = choose|i: int| 0 <= i < b.len() && b[i] == a.last();
        let j = choose|j: int| 0 <= j < a.len() && a[j] == b.last();
        text_lt_irreflexive(a.last());
        if i < b.len() - 1 && j < a.len() - 1 {
            text_lt_transitive(a.last(), b.last(), a.last());
        }
        assert(a.last() == b.last());
        let q = |x: Seq<char>| p(x) && x != a.last();
        lemma_listed_front(a, p);
        lemma_listed_front(b, p);
        assert(lists_all(a.drop_last(), q));
        assert(lists_all(b.drop_last(), q));
        listed_one_way(a.drop_last(), b.drop_last(), q);
        assert(a =~= a.drop_last().push(a.last()));
        assert(b =~= b.drop_last().push(b.last()));
    }
}

proof fn lemma_listed_front(a: Seq<Seq<char>>, p: spec_fn(Seq<char>) -> bool)
    requires
        lists_all(a, p),
        a.len() > 0,
    ensures
        ascending(a.drop_last()),
        forall|x: Seq<char>| #[trigger]
            a.drop_last().contains(x) <==> p(x) && x != a.last(),
{
    let front = a.drop_last();
    assert forall|i: int, j: int| 0 <= i < j < front.len() implies text_lt(
        #[trigger] front[i],
        #[trigger] front[j],
    ) by {
        assert(text_lt(a[i], a[j]));
    }
    assert forall|x: Seq<char>| #[trigger] front.contains(x) <==> p(x) && x != a.last() by {
        if front.contains(x) {
            let i = choose|i: int| 0 <= i < front.len() && front[i] == x;
            assert(a[i] == x);
            assert(a.contains(x));
            assert(text_lt(a[i], a[a.len() - 1]));
            text_lt_irreflexive(x);
        }
        if p(x) && x != a.last() {
            assert(a.contains(x));
            let i = choose|i: int| 0 <= i < a.len() && a[i] == x;
            assert(front[i] == x);
        }
    }
}

proof fn lemma_deduped_ascends(s: Seq<Seq<char>>)
    requires
        forall|i: int, j: int| 0 <= i < j < s.len() ==> !text_lt(#[trigger] s[j], #[trigger] s[i]),
    ensures
        ascending(deduped(s)),
    decreases s.len(),
{
    if s.len() > 0 {
        let front = s.drop_last();
        let d = deduped(front);
        assert forall|i: int, j: int| 0 <= i < j < front.len() implies !text_lt(
            #[trigger] front[j],
            #[trigger] front[i],
        ) by {
            assert(front[j] == s[j] && front[i] == s[i]);
        }
        lemma_deduped_ascends(front);
        deduped_keeps_contents(front);
        if !(d.len() > 0 && d.last() == s.last()) {
            let all = d.push(s.last());
            assert forall|i: int, j: int| 0 <= i < j < all.len() implies text_lt(
                #[trigger] all[i],
                #[trigger] all[j],
            ) by {
                if j < d.len() {
                    assert(text_lt(d[i], d[j]));
                } else {
                    assert(d.contains(d[i]));
                    let k = choose|k: int| 0 <= k < front.len() && front[k] == d[i];
                    assert(!text_lt(s[s.len() - 1], s[k]));
                    text_lt_total(d[i], s.last());
                    if d[i] == s.last() && i < d.len() - 1 {
                        assert(text_lt(d[i], d[d.len() - 1]));
                        assert(d.contains(d[d.len() - 1]));
                        let l = choose|l: int| 0 <= l < front.len() && front[l] == d[d.len() - 1];
                        assert(!text_lt(s[s.len() - 1], s[l]));
                    }
                }
            }
        }
    }
}

/// The texts of a list, each once and in order.
pub fn sorted_set(v: Vec<String>) -> (r: Vec<String>)
    ensures
        ascending(texts(r@)),
        forall|x: Seq<char>| #[trigger] texts(r@).contains(x) <==> texts(v@).contains(x),
{
    let ghost all = texts(v@);
    let sorted: Vec<String> = sort_texts(v);
    let ghost s = texts(sorted@);
    let r: Vec<String> = dedup_texts(sorted);
    proof {
        let lt = |a: Seq<char>, b: Seq<char>| text_lt(a, b);
        assert(strict_order(lt)) by {
            assert forall|a: Seq<char>, b: Seq<char>| lt(a, b) implies !#[trigger] lt(b, a) by {
                text_lt_irreflexive(a);
                if lt(b, a) {
                    text_lt_transitive(a, b, a);
                }
            }
            assert forall|a: Seq<char>, b: Seq<char>, c: Seq<char>|
                !#[trigger] lt(b, a) && !#[trigger] lt(c, b) implies !lt(c, a) by {
                text_lt_total(a, b);
                text_lt_total(b, c);
                if lt(c, a) {
                    if lt(a, b) {
                        text_lt_transitive(c, a, b);
                    }
                }
            }
        }
        sorted_by_is_in_order(all, lt);
        assert forall|i: int, j: int| 0 <= i < j < s.len() implies !text_lt(
            #[trigger] s[j],
            #[trigger] s[i],
        ) by {
            assert(!lt(s[j], s[i]));
        }
        lemma_deduped_ascends(s);
        deduped_keeps_contents(s);
        sorted_by_keeps_elements(all, lt);
        assert forall|x: Seq<char>| #[trigger] texts(r@).contains(x) <==> all.contains(x) by {
            assert(s.contains(x) <==> all.contains(x)) by {
                broadcast use vstd::seq_lib::group_to_multiset_ensures;

                assert(s.to_multiset().count(x) == all.to_multiset().count(x));
            }
        }
    }
    r
}

/// A text, or another where there is none.
pub open spec fn text_or(o: Option<Seq<char>>, other: Seq<char>) -> Seq<char> {
    match o {
        Some(text) => text,
        None => other,
    }
}

/// A text, or another where there is none.
pub fn owned_or(o: &Option<String>, other: &str) -> (r: String)
    ensures
        r@ == text_or(opt_text(*o), other@),
{
    match o {
        Some(text) => text.clone(),
        None => other.to_owned(),
    }
}

/// A text, or else another, where there is one.
pub open spec fn either(a: Option<Seq<char>>, b: Option<Seq<char>>) -> Option<Seq<char>> {
    match a {
        Some(text) => Some(text),
        None => b,
    }
}

/// A text, or else another, where there is one.
pub fn either_text(a: &Option<String>, b: &Option<String>) -> (r: Option<String>)
    ensures
        opt_text(r) == either(opt_text(*a), opt_text(*b)),
{
    match a {
        Some(text) => Some(text.clone()),
        None => b.clone(),
    }
}

pub(crate) proof fn lemma_filter_ascends(s: Seq<Seq<char>>, p: spec_fn(Seq<char>) -> bool)
    requires
        ascending(s),
    ensures
        ascending(s.filter(p)),
        forall|x: Seq<char>| #[trigger] s.filter(p).contains(x) <==> s.contains(x) && p(x),
    decreases s.len(),
{
    reveal(Seq::filter);
    if s.len() > 0 {
        let front = s.drop_last();
        assert forall|i: int, j: int| 0 <= i < j < front.len() implies text_lt(
            #[trigger] front[i],
            #[trigger] front[j],
        ) by {
            assert(front[i] == s[i] && front[j] == s[j]);
        }
        lemma_filter_ascends(front, p);
        let f = front.filter(p);
        let g = s.filter(p);
        assert forall|x: Seq<char>| #[trigger] g.contains(x) <==> s.contains(x) && p(x) by {
            if g.contains(x) {
                let k = choose|k: int| 0 <= k < g.len() && g[k] == x;
                if k < f.len() {
                    assert(f[k] == x);
                    assert(f.contains(x));
                    let i = choose|i: int| 0 <= i < front.len() && front[i] == x;
                    assert(s[i] == x);
                } else {
                    assert(s[s.len() - 1] == x);
                }
            }
            if s.contains(x) && p(x) {
                let i = choose|i: int| 0 <= i < s.len() && s[i] == x;
                if i < front.len() {
                    assert(front[i] == x);
                    assert(f.contains(x));
                    let k = choose|k: int| 0 <= k < f.len() && f[k] == x;
                    assert(g[k] == x);
                } else {
                    assert(g[f.len() as int] == x);
                }
            }
        }
        assert forall|i: int, j: int| 0 <= i < j < g.len() implies text_lt(
            #[trigger] g[i],
            #[trigger] g[j],
        ) by {
            assert(f[i] == g[i]);
            if j < f.len() {
                assert(f[j] == g[j]);
            } else {
                assert(f.contains(f[i]));
                let k = choose|k: int| 0 <= k < front.len() && front[k] == f[i];
                assert(text_lt(s[k], s[s.len() - 1]));
            }
        }
    }
}

} // verus!
