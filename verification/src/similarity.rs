//! How much two texts have in common: the words that both hold among those that either holds.

use vstd::prelude::*;
use vstd::string::*;

use crate::model::harness::Rate;
use crate::naming::is_alnum;
use crate::text::{
    ascending, chars_of, lemma_filter_ascends, select_texts, sorted_set, text_lt,
    text_lt_irreflexive, texts, texts_concat, texts_contain, texts_copy, to_lowercase,
    unicode_lowered,
};

verus! {

/// The runs of ASCII letters and digits in a text.
pub open spec fn tokens(s: Seq<char>) -> Seq<Seq<char>>
    decreases s.len(),
{
    if s.len() == 0 {
        Seq::empty()
    } else {
        let front = tokens(s.drop_last());
        if !is_alnum(s.last()) {
            front
        } else if s.len() > 1 && is_alnum(s[s.len() - 2]) {
            front.drop_last().push(front.last().push(s.last()))
        } else {
            front.push(seq![s.last()])
        }
    }
}

proof fn lemma_open_token(s: Seq<char>)
    requires
        s.len() > 0,
        is_alnum(s.last()),
    ensures
        tokens(s).len() > 0,
{
}

/// The runs of ASCII letters and digits in a text.
pub fn tokens_of(s: &str) -> (r: Vec<String>)
    ensures
        texts(r@) == tokens(s@),
{
    let x: Vec<char> = chars_of(s);
    let mut out: Vec<String> = Vec::new();
    let mut inside: bool = false;
    let mut i: usize = 0;
    assert(texts(out@) =~= tokens(x@.take(0)));
    while i < x.len()
        invariant
            i <= x@.len(),
            texts(out@) == tokens(x@.take(i as int)),
            inside == (i > 0 && is_alnum(x@[i - 1])),
        decreases x.len() - i,
    {
        let c: char = x[i];
        let ghost front = x@.take(i as int);
        let ghost next = x@.take(i + 1);
        let ghost had = texts(out@);
        proof {
            assert(next.drop_last() =~= front);
            assert(next.last() == c);
        }
        let alnum: bool = ('a' <= c && c <= 'z') || ('A' <= c && c <= 'Z') || ('0' <= c && c
            <= '9');
        if alnum {
            if inside {
                proof {
                    assert(next[next.len() - 2] == x@[i - 1]);
                    assert(front.last() == x@[i - 1]);
                    lemma_open_token(front);
                }
                let n: usize = out.len() - 1;
                let mut word: String = out[n].clone();
                word.push(c);
                out.set(n, word);
                assert(texts(out@) =~= had.drop_last().push(had.last().push(c)));
            } else {
                let mut word: String = String::new();
                word.push(c);
                assert(word@ =~= seq![c]);
                out.push(word);
                assert(texts(out@) =~= had.push(seq![c]));
                assert(i > 0 ==> next[next.len() - 2] == x@[i - 1]);
            }
        }
        inside = alnum;
        i += 1;
    }
    assert(x@.take(i as int) =~= x@);
    out
}

/// The words that two lists both hold, and those that either holds.
pub open spec fn is_overlap(r: Rate, a: Seq<Seq<char>>, b: Seq<Seq<char>>) -> bool {
    if a.len() == 0 || b.len() == 0 {
        r == (Rate { part: 0, whole: 0 })
    } else {
        &&& r.part as nat == a.to_set().intersect(b.to_set()).len()
        &&& r.whole as nat == a.to_set().union(b.to_set()).len()
    }
}

proof fn lemma_ascending_distinct(s: Seq<Seq<char>>)
    requires
        ascending(s),
    ensures
        s.len() == s.to_set().len(),
{
    assert(s.no_duplicates()) by {
        assert forall|i: int, j: int| 0 <= i < s.len() && 0 <= j < s.len() && i != j implies s[i]
            != s[j] by {
            text_lt_irreflexive(s[i]);
            if i < j {
                assert(text_lt(s[i], s[j]));
            } else {
                assert(text_lt(s[j], s[i]));
            }
        }
    }
    s.unique_seq_to_set();
}

/// How much two lists of words have in common; nothing of nothing where one of them is empty.
pub fn overlap_of(a: &Vec<String>, b: &Vec<String>) -> (r: Rate)
    ensures
        is_overlap(r, texts(a@), texts(b@)),
{
    if a.len() == 0 || b.len() == 0 {
        return Rate { part: 0, whole: 0 };
    }
    let ghost ta = texts(a@);
    let ghost tb = texts(b@);
    let left: Vec<String> = sorted_set(texts_copy(a));
    let ghost p = |x: Seq<char>| tb.contains(x);
    let accept = |x: &str| -> (c: bool)
        ensures
            c == p(x@),
        { texts_contain(b, x) };
    let shared: Vec<String> = select_texts(&left, accept, Ghost(p));
    let mut whole: Vec<String> = texts_copy(a);
    let mut more: Vec<String> = texts_copy(b);
    proof {
        texts_concat(whole@, more@);
    }
    whole.append(&mut more);
    let ghost tw = texts(whole@);
    let all: Vec<String> = sorted_set(whole);
    proof {
        let s = texts(shared@);
        lemma_filter_ascends(texts(left@), p);
        lemma_ascending_distinct(s);
        assert(s.to_set() =~= ta.to_set().intersect(tb.to_set())) by {
            assert forall|x: Seq<char>| s.to_set().contains(x) == ta.to_set().intersect(
                tb.to_set(),
            ).contains(x) by {
                assert(s.contains(x) <==> texts(left@).contains(x) && p(x));
                assert(texts(left@).contains(x) <==> ta.contains(x));
            }
        }
        let u = texts(all@);
        lemma_ascending_distinct(u);
        assert(tw == ta + tb);
        assert(u.to_set() =~= ta.to_set().union(tb.to_set())) by {
            assert forall|x: Seq<char>| u.to_set().contains(x) == ta.to_set().union(
                tb.to_set(),
            ).contains(x) by {
                assert(u.contains(x) <==> tw.contains(x));
                if tw.contains(x) {
                    let k = choose|k: int| 0 <= k < tw.len() && tw[k] == x;
                    if k < ta.len() {
                        assert(ta[k] == x);
                    } else {
                        assert(tb[k - ta.len()] == x);
                    }
                }
                if ta.contains(x) {
                    let k = choose|k: int| 0 <= k < ta.len() && ta[k] == x;
                    assert(tw[k] == x);
                }
                if tb.contains(x) {
                    let k = choose|k: int| 0 <= k < tb.len() && tb[k] == x;
                    assert(tw[ta.len() + k] == x);
                }
            }
        }
        assert(texts(shared@).len() == shared@.len());
        assert(texts(all@).len() == all@.len());
    }
    Rate { part: shared.len() as u64, whole: all.len() as u64 }
}

/// How much two texts have in common, whatever the case of the letters: the words that both hold
/// among those that either holds.
pub fn token_similarity(a: &str, b: &str) -> (r: Rate)
    ensures
        is_overlap(r, tokens(unicode_lowered(a@)), tokens(unicode_lowered(b@))),
{
    let left: Vec<String> = tokens_of(to_lowercase(a).as_str());
    let right: Vec<String> = tokens_of(to_lowercase(b).as_str());
    overlap_of(&left, &right)
}

/// Two texts have as much in common one way round as the other.
pub proof fn similarity_is_symmetric(r: Rate, q: Rate, a: Seq<Seq<char>>, b: Seq<Seq<char>>)
    requires
        is_overlap(r, a, b),
        is_overlap(q, b, a),
    ensures
        r == q,
{
    assert(a.to_set().intersect(b.to_set()) =~= b.to_set().intersect(a.to_set()));
    assert(a.to_set().union(b.to_set()) =~= b.to_set().union(a.to_set()));
}

/// No more words are in common than there are.
pub proof fn similarity_is_at_most_one(r: Rate, a: Seq<Seq<char>>, b: Seq<Seq<char>>)
    requires
        is_overlap(r, a, b),
    ensures
        r.part <= r.whole,
{
    if a.len() > 0 && b.len() > 0 {
        let u = a.to_set().union(b.to_set());
        a.lemma_cardinality_of_set();
        b.lemma_cardinality_of_set();
        vstd::set_lib::lemma_len_subset(a.to_set().intersect(b.to_set()), u);
    }
}

} // verus!
