//! Masking configured secrets in texts. Every mask keeps the number of characters.

use vstd::prelude::*;

use crate::model::ingest::ParsedBlock;
use crate::text::{chars_of, opt_text, text_of, texts};

verus! {

/// What a masked character becomes.
pub const MASK: char = '*';

/// The number of characters of a secret that may not be shown together in a fragment.
pub const FRAGMENT_WINDOW: usize = 4;

/// Whether `w` characters of `s` from `b` on are those of `text` from `a` on.
pub open spec fn window_matches(text: Seq<char>, a: int, s: Seq<char>, b: int, w: int) -> bool {
    0 <= a && a + w <= text.len() && 0 <= b && b + w <= s.len() && text.subrange(a, a + w)
        == s.subrange(b, b + w)
}

/// Whether `w` characters of `text` from `a` on stand together in `s`.
pub open spec fn stands_in(text: Seq<char>, a: int, s: Seq<char>, w: int) -> bool {
    exists|b: int| window_matches(text, a, s, b, w)
}

/// Whether `w` characters of `text` from `a` on stand together in a secret.
pub open spec fn window_secret(text: Seq<char>, a: int, secrets: Seq<Seq<char>>, w: int) -> bool {
    exists|k: int| 0 <= k < secrets.len() && stands_in(text, a, #[trigger] secrets[k], w)
}

/// Whether the character at `i` lies among `w` that stand together in a secret.
pub open spec fn window_covers(text: Seq<char>, secrets: Seq<Seq<char>>, w: int, i: int) -> bool {
    exists|a: int| a <= i < a + w && #[trigger] window_secret(text, a, secrets, w)
}

/// A text in which no part of a secret of the width of a fragment window is left.
pub open spec fn fragment_masked(text: Seq<char>, secrets: Seq<Seq<char>>) -> Seq<char> {
    Seq::new(
        text.len(),
        |i: int|
            if window_covers(text, secrets, FRAGMENT_WINDOW as int, i) {
                MASK
            } else {
                text[i]
            },
    )
}

/// Whether a whole secret stands in `text` from `a` on.
pub open spec fn secret_at(text: Seq<char>, a: int, s: Seq<char>) -> bool {
    s.len() > 0 && window_matches(text, a, s, 0, s.len() as int)
}

/// Whether the character at `i` belongs to a whole secret.
pub open spec fn secret_covers(text: Seq<char>, secrets: Seq<Seq<char>>, i: int) -> bool {
    exists|k: int, a: int|
        0 <= k < secrets.len() && a <= i < a + secrets[k].len() && #[trigger] secret_at(
            text,
            a,
            secrets[k],
        )
}

/// A text in which no whole secret is left.
pub open spec fn egress_masked(text: Seq<char>, secrets: Seq<Seq<char>>) -> Seq<char> {
    Seq::new(
        text.len(),
        |i: int|
            if secret_covers(text, secrets, i) {
                MASK
            } else {
                text[i]
            },
    )
}

fn same_window(text: &Vec<char>, a: usize, s: &Vec<char>, b: usize, w: usize) -> (r: bool)
    requires
        a + w <= text.len(),
        b + w <= s.len(),
    ensures
        r == window_matches(text@, a as int, s@, b as int, w as int),
{
    let mut i: usize = 0;
    while i < w
        invariant
            i <= w,
            a + w <= text.len(),
            b + w <= s.len(),
            forall|j: int| 0 <= j < i ==> #[trigger] text@.subrange(a as int, a + w)[j]
                == s@.subrange(b as int, b + w)[j],
        decreases w - i,
    {
        if text[a + i] != s[b + i] {
            assert(text@.subrange(a as int, a + w)[i as int] != s@.subrange(
                b as int,
                b + w,
            )[i as int]);
            return false;
        }
        i += 1;
    }
    assert(text@.subrange(a as int, a + w) =~= s@.subrange(b as int, b + w));
    true
}

fn window_stands_in(text: &Vec<char>, a: usize, s: &Vec<char>, w: usize) -> (r: bool)
    requires
        a + w <= text.len(),
    ensures
        r == stands_in(text@, a as int, s@, w as int),
{
    if s.len() < w {
        return false;
    }
    let last: usize = s.len() - w;
    let mut b: usize = 0;
    loop
        invariant
            a + w <= text.len(),
            last + w == s.len(),
            b <= last,
            forall|j: int| 0 <= j < b ==> !#[trigger] window_matches(text@, a as int, s@, j, w as int),
        decreases last - b,
    {
        if same_window(text, a, s, b, w) {
            return true;
        }
        if b == last {
            assert forall|j: int| !#[trigger] window_matches(text@, a as int, s@, j, w as int) by {
                if 0 <= j < b {
                    assert(!window_matches(text@, a as int, s@, j, w as int));
                }
            }
            return false;
        }
        b += 1;
    }
}

/// The views of texts that are held as characters.
pub open spec fn char_views(s: Seq<Vec<char>>) -> Seq<Seq<char>> {
    Seq::new(s.len(), |i: int| s[i]@)
}

fn secret_chars(secrets: &Vec<String>) -> (r: Vec<Vec<char>>)
    ensures
        char_views(r@) == texts(secrets@),
{
    let mut out: Vec<Vec<char>> = Vec::new();
    let mut i: usize = 0;
    while i < secrets.len()
        invariant
            i <= secrets.len(),
            out@.len() == i,
            forall|j: int| 0 <= j < i ==> (#[trigger] out@[j])@ == secrets@[j]@,
        decreases secrets.len() - i,
    {
        out.push(chars_of(secrets[i].as_str()));
        i += 1;
    }
    assert(char_views(out@) =~= texts(secrets@));
    out
}

fn window_is_secret(text: &Vec<char>, a: usize, secrets: &Vec<Vec<char>>, w: usize) -> (r: bool)
    requires
        a + w <= text.len(),
    ensures
        r == window_secret(text@, a as int, char_views(secrets@), w as int),
{
    let ghost views = char_views(secrets@);
    let mut k: usize = 0;
    while k < secrets.len()
        invariant
            k <= secrets.len(),
            a + w <= text.len(),
            views == char_views(secrets@),
            forall|j: int| 0 <= j < k ==> !stands_in(text@, a as int, #[trigger] views[j], w as int),
        decreases secrets.len() - k,
    {
        assert(views[k as int] == secrets@[k as int]@);
        if window_stands_in(text, a, &secrets[k], w) {
            return true;
        }
        k += 1;
    }
    false
}

fn covered_by_window(text: &Vec<char>, secrets: &Vec<Vec<char>>, w: usize, i: usize) -> (r: bool)
    requires
        i < text.len(),
        0 < w <= 4,
    ensures
        r == window_covers(text@, char_views(secrets@), w as int, i as int),
{
    let ghost views = char_views(secrets@);
    let mut a: usize = if i + 1 >= w {
        i + 1 - w
    } else {
        0
    };
    let ghost start = a;
    while a <= i
        invariant
            i < text.len(),
            0 < w <= 4,
            start <= a <= i + 1,
            start == (if i + 1 >= w {
                i + 1 - w
            } else {
                0
            }),
            views == char_views(secrets@),
            forall|c: int|
                start <= c < a ==> !#[trigger] window_secret(text@, c, views, w as int),
        decreases i + 1 - a,
    {
        if w <= text.len() && a <= text.len() - w && window_is_secret(text, a, secrets, w) {
            return true;
        }
        assert(!window_secret(text@, a as int, views, w as int)) by {
            if a + w > text.len() {
                assert forall|k: int| 0 <= k < views.len() implies !stands_in(
                    text@,
                    a as int,
                    #[trigger] views[k],
                    w as int,
                ) by {}
            }
        }
        a += 1;
    }
    assert forall|c: int|
        c <= i < c + w implies !#[trigger] window_secret(text@, c, views, w as int) by {
        if c < 0 {
            assert forall|k: int| 0 <= k < views.len() implies !stands_in(
                text@,
                c,
                #[trigger] views[k],
                w as int,
            ) by {}
        }
    }
    false
}

/// Masks every part of a secret that is as wide as a fragment window.
pub fn mask_secret_fragment_projection_preserving_chars(text: &str, secrets: &Vec<String>) -> (r:
    String)
    ensures
        r@ == fragment_masked(text@, texts(secrets@)),
{
    let x: Vec<char> = chars_of(text);
    let chars: Vec<Vec<char>> = secret_chars(secrets);
    let mut out: Vec<char> = Vec::new();
    let ghost views = texts(secrets@);
    let mut i: usize = 0;
    while i < x.len()
        invariant
            i <= x.len(),
            x@ == text@,
            views == texts(secrets@),
            char_views(chars@) == views,
            out@ == fragment_masked(text@, views).take(i as int),
        decreases x.len() - i,
    {
        let c: char = if covered_by_window(&x, &chars, FRAGMENT_WINDOW, i) {
            MASK
        } else {
            x[i]
        };
        out.push(c);
        i += 1;
        assert(fragment_masked(text@, views).take(i as int) =~= fragment_masked(
            text@,
            views,
        ).take(i - 1).push(c));
    }
    assert(fragment_masked(text@, views).take(i as int) =~= fragment_masked(text@, views));
    text_of(&out)
}

fn covered_by_secret(text: &Vec<char>, secrets: &Vec<Vec<char>>, i: usize) -> (r: bool)
    requires
        i < text.len(),
    ensures
        r == secret_covers(text@, char_views(secrets@), i as int),
{
    let ghost views = char_views(secrets@);
    let mut k: usize = 0;
    while k < secrets.len()
        invariant
            i < text.len(),
            k <= secrets.len(),
            views == char_views(secrets@),
            forall|j: int, a: int|
                0 <= j < k && a <= i < a + views[j].len() ==> !#[trigger] secret_at(
                    text@,
                    a,
                    views[j],
                ),
        decreases secrets.len() - k,
    {
        let s: &Vec<char> = &secrets[k];
        assert(views[k as int] == s@);
        let mut a: usize = 0;
        while a <= i
            invariant
                i < text.len(),
                k < secrets.len(),
                views == char_views(secrets@),
                views[k as int] == s@,
                a <= i + 1,
                forall|c: int| 0 <= c < a && i < c + s@.len() ==> !#[trigger] secret_at(
                    text@,
                    c,
                    s@,
                ),
            decreases i + 1 - a,
        {
            if s.len() > 0 && s.len() <= text.len() && a <= text.len() - s.len() && s.len() > i - a
                && same_window(text, a, s, 0, s.len()) {
                assert(secret_at(text@, a as int, views[k as int]));
                return true;
            }
            a += 1;
        }
        assert forall|j: int, c: int|
            0 <= j < k + 1 && c <= i < c + views[j].len() implies !#[trigger] secret_at(
            text@,
            c,
            views[j],
        ) by {
            if j == k && c >= 0 {
                assert(!secret_at(text@, c, s@));
            }
        }
        k += 1;
    }
    false
}

/// Masks every whole secret.
pub fn mask_secret_egress_projection_preserving_chars(text: &str, secrets: &Vec<String>) -> (r:
    String)
    ensures
        r@ == egress_masked(text@, texts(secrets@)),
{
    let x: Vec<char> = chars_of(text);
    let chars: Vec<Vec<char>> = secret_chars(secrets);
    let mut out: Vec<char> = Vec::new();
    let ghost views = texts(secrets@);
    let mut i: usize = 0;
    while i < x.len()
        invariant
            i <= x.len(),
            x@ == text@,
            views == texts(secrets@),
            char_views(chars@) == views,
            out@ == egress_masked(text@, views).take(i as int),
        decreases x.len() - i,
    {
        let c: char = if covered_by_secret(&x, &chars, i) {
            MASK
        } else {
            x[i]
        };
        out.push(c);
        i += 1;
        assert(egress_masked(text@, views).take(i as int) =~= egress_masked(text@, views).take(
            i - 1,
        ).push(c));
    }
    assert(egress_masked(text@, views).take(i as int) =~= egress_masked(text@, views));
    text_of(&out)
}

/// Wherever a part of a secret as wide as a fragment window stood, nothing but masks is left; the
/// text keeps its length.
pub proof fn fragment_masking_leaves_no_window(text: Seq<char>, secrets: Seq<Seq<char>>, a: int)
    requires
        window_secret(text, a, secrets, FRAGMENT_WINDOW as int),
    ensures
        fragment_masked(text, secrets).len() == text.len(),
        0 <= a && a + FRAGMENT_WINDOW <= text.len(),
        forall|i: int|
            a <= i < a + FRAGMENT_WINDOW ==> #[trigger] fragment_masked(text, secrets)[i] == MASK,
{
    let k = choose|k: int|
        0 <= k < secrets.len() && stands_in(text, a, #[trigger] secrets[k], FRAGMENT_WINDOW as int);
    let b = choose|b: int| window_matches(text, a, secrets[k], b, FRAGMENT_WINDOW as int);
    assert forall|i: int| a <= i < a + FRAGMENT_WINDOW implies #[trigger] fragment_masked(
        text,
        secrets,
    )[i] == MASK by {
        assert(window_covers(text, secrets, FRAGMENT_WINDOW as int, i));
    }
}

/// A text that holds no part of a secret as wide as a fragment window is left as it is.
pub proof fn fragment_masking_keeps_other_text(text: Seq<char>, secrets: Seq<Seq<char>>)
    requires
        forall|a: int| !#[trigger] window_secret(text, a, secrets, FRAGMENT_WINDOW as int),
    ensures
        fragment_masked(text, secrets) == text,
{
    assert(fragment_masked(text, secrets) =~= text);
}

/// Wherever a whole secret stood, nothing but masks is left.
pub proof fn egress_masking_leaves_no_secret(
    text: Seq<char>,
    secrets: Seq<Seq<char>>,
    k: int,
    a: int,
)
    requires
        0 <= k < secrets.len(),
        secret_at(text, a, secrets[k]),
    ensures
        egress_masked(text, secrets).len() == text.len(),
        forall|i: int|
            a <= i < a + secrets[k].len() ==> #[trigger] egress_masked(text, secrets)[i] == MASK,
{
    assert forall|i: int| a <= i < a + secrets[k].len() implies #[trigger] egress_masked(
        text,
        secrets,
    )[i] == MASK by {
        assert(secret_covers(text, secrets, i));
    }
}

/// An optional text masked for a fragment.
pub open spec fn opt_masked(o: Option<Seq<char>>, secrets: Seq<Seq<char>>) -> Option<Seq<char>> {
    match o {
        Some(text) => Some(fragment_masked(text, secrets)),
        None => None,
    }
}

fn mask_optional(o: &Option<String>, secrets: &Vec<String>) -> (r: Option<String>)
    ensures
        opt_text(r) == opt_masked(opt_text(*o), texts(secrets@)),
{
    match o {
        Some(text) => Some(
            mask_secret_fragment_projection_preserving_chars(text.as_str(), secrets),
        ),
        None => None,
    }
}

/// Texts with every whole secret masked.
pub open spec fn all_egress_masked(s: Seq<Seq<char>>, secrets: Seq<Seq<char>>) -> Seq<Seq<char>> {
    Seq::new(s.len(), |i: int| egress_masked(s[i], secrets))
}

/// Masks the texts of a parsed block before it is cut into fragments.
pub fn mask_parsed_block_for_retrieval(block: ParsedBlock, redaction_secrets: &Vec<String>) -> (r:
    ParsedBlock)
    ensures
        r == (ParsedBlock {
            text: r.text,
            html: r.html,
            latex: r.latex,
            image_ref: r.image_ref,
            caption: r.caption,
            footnote: r.footnote,
            section_path: r.section_path,
            ..block
        }),
        opt_text(r.text) == opt_masked(opt_text(block.text), texts(redaction_secrets@)),
        opt_text(r.html) == opt_masked(opt_text(block.html), texts(redaction_secrets@)),
        opt_text(r.latex) == opt_masked(opt_text(block.latex), texts(redaction_secrets@)),
        opt_text(r.image_ref) == opt_masked(opt_text(block.image_ref), texts(redaction_secrets@)),
        opt_text(r.caption) == opt_masked(opt_text(block.caption), texts(redaction_secrets@)),
        opt_text(r.footnote) == opt_masked(opt_text(block.footnote), texts(redaction_secrets@)),
        texts(r.section_path@) == all_egress_masked(
            texts(block.section_path@),
            texts(redaction_secrets@),
        ),
{
    let mut path: Vec<String> = Vec::new();
    let mut i: usize = 0;
    while i < block.section_path.len()
        invariant
            i <= block.section_path@.len(),
            path@.len() == i,
            forall|j: int|
                0 <= j < i ==> (#[trigger] path@[j])@ == egress_masked(
                    block.section_path@[j]@,
                    texts(redaction_secrets@),
                ),
        decreases block.section_path@.len() - i,
    {
        path.push(
            mask_secret_egress_projection_preserving_chars(
                block.section_path[i].as_str(),
                redaction_secrets,
            ),
        );
        i += 1;
    }
    assert(texts(path@) =~= all_egress_masked(
        texts(block.section_path@),
        texts(redaction_secrets@),
    ));
    ParsedBlock {
        text: mask_optional(&block.text, redaction_secrets),
        html: mask_optional(&block.html, redaction_secrets),
        latex: mask_optional(&block.latex, redaction_secrets),
        image_ref: mask_optional(&block.image_ref, redaction_secrets),
        caption: mask_optional(&block.caption, redaction_secrets),
        footnote: mask_optional(&block.footnote, redaction_secrets),
        section_path: std::sync::Arc::new(path),
        ..block
    }
}

} // verus!
