//! Names and ids that are derived from other names: slugs, ancestors, keyed digests.

use hmac::{Hmac, Mac};
use sha2::{Digest, Sha256};
use vstd::prelude::*;
use vstd::string::*;
use vstd::utf8::*;

use crate::text::{
    ascii_lower, chars_of, lower_char, opt_str, text_of, text_range, texts, texts_push,
};

verus! {

/// Whether a character is an ASCII letter or digit.
pub open spec fn is_alnum(c: char) -> bool {
    ('a' <= c && c <= 'z') || ('A' <= c && c <= 'Z') || ('0' <= c && c <= '9')
}

/// Letters and digits made small; every run of anything else behind them made one dash.
pub open spec fn slug_parts(s: Seq<char>) -> Seq<char>
    decreases s.len(),
{
    if s.len() == 0 {
        s
    } else {
        let rest = slug_parts(s.drop_last());
        if is_alnum(s.last()) {
            rest.push(ascii_lower(s.last()))
        } else if rest.len() > 0 && rest.last() != '-' {
            rest.push('-')
        } else {
            rest
        }
    }
}

/// A text as a slug: small letters and digits, with single dashes between them.
pub open spec fn slug(s: Seq<char>) -> Seq<char> {
    let parts = slug_parts(s);
    if parts.len() > 0 && parts.last() == '-' {
        parts.drop_last()
    } else {
        parts
    }
}

/// A text as a slug: small letters and digits, with single dashes between them.
pub fn sanitize_slug(s: &str) -> (r: String)
    ensures
        r@ == slug(s@),
{
    let x: Vec<char> = chars_of(s);
    let mut out: Vec<char> = Vec::new();
    let mut i: usize = 0;
    assert(x@.take(0) =~= Seq::<char>::empty());
    while i < x.len()
        invariant
            i <= x.len(),
            out@ == slug_parts(x@.take(i as int)),
        decreases x.len() - i,
    {
        let c: char = x[i];
        assert(x@.take(i + 1).drop_last() =~= x@.take(i as int));
        if (c >= 'a' && c <= 'z') || (c >= 'A' && c <= 'Z') || (c >= '0' && c <= '9') {
            out.push(lower_char(c));
        } else if out.len() > 0 && out[out.len() - 1] != '-' {
            out.push('-');
        }
        i += 1;
    }
    assert(x@.take(i as int) =~= x@);
    if out.len() > 0 && out[out.len() - 1] == '-' {
        let _dash: Option<char> = out.pop();
        assert(out@ =~= slug_parts(x@).drop_last());
    }
    text_of(&out)
}

/// Whether a path goes one level down at `i`: a single slash, not at the end.
pub open spec fn is_step(s: Seq<char>, i: int) -> bool {
    0 < i < s.len() - 1 && s[i] == '/' && s[i - 1] != '/' && s[i + 1] != '/'
}

/// The parts of a path in front of the steps among its first `n` characters.
pub open spec fn ancestors(s: Seq<char>, n: int) -> Seq<Seq<char>>
    decreases n,
{
    if n <= 0 {
        Seq::empty()
    } else if is_step(s, n - 1) {
        ancestors(s, n - 1).push(s.take(n - 1))
    } else {
        ancestors(s, n - 1)
    }
}

/// The URIs above a URI, the topmost first.
pub fn ancestor_uris(uri: &str) -> (r: Vec<String>)
    ensures
        texts(r@) == ancestors(uri@, uri@.len() as int),
{
    let x: Vec<char> = chars_of(uri);
    let mut out: Vec<String> = Vec::new();
    let mut i: usize = 0;
    assert(texts(out@) =~= ancestors(x@, 0));
    while i < x.len()
        invariant
            i <= x.len(),
            texts(out@) == ancestors(x@, i as int),
        decreases x.len() - i,
    {
        if i > 0 && i < x.len() - 1 && x[i] == '/' && x[i - 1] != '/' && x[i + 1] != '/' {
            let ghost before = out@;
            let part: String = text_range(&x, 0, i);
            assert(part@ =~= x@.take(i as int));
            out.push(part);
            proof {
                texts_push(before, part);
            }
        }
        i += 1;
    }
    out
}

/// The first `n` characters of a text, or all of it where it has fewer.
pub open spec fn first_chars(s: Seq<char>, n: nat) -> Seq<char> {
    if s.len() <= n {
        s
    } else {
        s.take(n as int)
    }
}

/// The first `n` characters of a text, or all of it where it has fewer.
pub fn truncate_chars(s: &str, n: usize) -> (r: String)
    ensures
        r@ == first_chars(s@, n as nat),
{
    let x: Vec<char> = chars_of(s);
    if x.len() <= n {
        s.to_owned()
    } else {
        let r: String = text_range(&x, 0, n);
        assert(r@ =~= s@.take(n as int));
        r
    }
}

/// What `sha2` computes as the SHA-256 digest of `bytes`.
pub uninterp spec fn sha256(bytes: Seq<u8>) -> Seq<u8>;

/// Wraps `sha2::Sha256::digest`. The digest is named; all that is said of it is that it has 32
/// bytes.
#[verifier::external_body]
fn sha256_digest(bytes: &[u8]) -> (r: Vec<u8>)
    ensures
        r@ == sha256(bytes@),
        r@.len() == 32,
{
    Sha256::digest(bytes).to_vec()
}

/// What `hmac` computes as the HMAC-SHA256 of `message` under `key`.
pub uninterp spec fn hmac_sha256(key: Seq<u8>, message: Seq<u8>) -> Seq<u8>;

/// Wraps `hmac::Hmac` over `sha2::Sha256`: `new_from_slice`, which takes a key of any length, one
/// `update` and `finalize`. The code is named; all that is said of it is that it has 32 bytes.
#[verifier::external_body]
fn hmac_sha256_code(key: &[u8], message: &[u8]) -> (r: Vec<u8>)
    ensures
        r@ == hmac_sha256(key@, message@),
        r@.len() == 32,
{
    let mut mac = Hmac::<Sha256>::new_from_slice(key).expect("a key of any length");
    mac.update(message);
    mac.finalize().into_bytes().to_vec()
}

/// One small hexadecimal digit.
pub open spec fn hex_char(n: int) -> char {
    if n < 10 {
        (n + 48) as char
    } else {
        (n + 87) as char
    }
}

/// Bytes in hexadecimal, two small digits to a byte.
pub open spec fn hex_text(bytes: Seq<u8>) -> Seq<char> {
    Seq::new(
        bytes.len() * 2,
        |i: int|
            if i % 2 == 0 {
                hex_char(bytes[i / 2] as int / 16)
            } else {
                hex_char(bytes[i / 2] as int % 16)
            },
    )
}

/// Wraps `hex::encode`: two small digits to a byte, the upper half of the byte first.
#[verifier::external_body]
pub(crate) fn hex_encode(bytes: &[u8]) -> (r: String)
    ensures
        r@ == hex_text(bytes@),
{
    hex::encode(bytes)
}

/// The number that a hexadecimal digit of either case stands for.
pub open spec fn hex_value(c: char) -> Option<int> {
    if '0' <= c && c <= '9' {
        Some(c as u32 - 48)
    } else if 'a' <= c && c <= 'f' {
        Some(c as u32 - 87)
    } else if 'A' <= c && c <= 'F' {
        Some(c as u32 - 55)
    } else {
        None
    }
}

/// Whether a text is an even number of hexadecimal digits.
pub open spec fn is_hex(s: Seq<char>) -> bool {
    s.len() % 2 == 0 && forall|i: int| 0 <= i < s.len() ==> hex_value(#[trigger] s[i]) is Some
}

/// The bytes that a text of hexadecimal digits stands for.
pub open spec fn unhexed(s: Seq<char>) -> Seq<u8> {
    Seq::new(
        s.len() / 2,
        |i: int| (hex_value(s[2 * i])->0 * 16 + hex_value(s[2 * i + 1])->0) as u8,
    )
}

/// The error of `hex` for a text that is not hexadecimal.
#[verifier::external_type_specification]
#[verifier::external_body]
pub struct ExFromHexError(hex::FromHexError);

/// Wraps `hex::decode`: it takes digits of either case and refuses an odd number of them and
/// everything else.
#[verifier::external_body]
pub(crate) fn hex_decode(text: &str) -> (r: Result<Vec<u8>, hex::FromHexError>)
    ensures
        match r {
            Ok(bytes) => is_hex(text@) && bytes@ == unhexed(text@),
            Err(_) => !is_hex(text@),
        },
{
    hex::decode(text)
}

/// What was encoded in hexadecimal is decoded again.
pub proof fn hex_round_trip(bytes: Seq<u8>)
    ensures
        is_hex(hex_text(bytes)),
        unhexed(hex_text(bytes)) == bytes,
{
    let s = hex_text(bytes);
    assert forall|i: int| 0 <= i < s.len() implies hex_value(#[trigger] s[i]) == Some(
        if i % 2 == 0 {
            bytes[i / 2] as int / 16
        } else {
            bytes[i / 2] as int % 16
        },
    ) by {
        lemma_hex_char(
            if i % 2 == 0 {
                bytes[i / 2] as int / 16
            } else {
                bytes[i / 2] as int % 16
            },
        );
    }
    assert(unhexed(s) =~= bytes) by {
        assert forall|i: int| 0 <= i < bytes.len() implies unhexed(s)[i] == bytes[i] by {
            assert((2 * i) / 2 == i && (2 * i + 1) / 2 == i);
            assert(hex_value(s[2 * i]) == Some(bytes[i] as int / 16));
            assert(hex_value(s[2 * i + 1]) == Some(bytes[i] as int % 16));
        }
    }
}

proof fn lemma_hex_char(n: int)
    requires
        0 <= n < 16,
    ensures
        hex_value(hex_char(n)) == Some(n),
{
    if n < 10 {
        assert((n + 48) as char as u32 == n + 48);
    } else {
        assert((n + 87) as char as u32 == n + 87);
    }
}

/// The SHA-256 digest of bytes, in hexadecimal.
pub fn sha256_hex(bytes: &[u8]) -> (r: String)
    ensures
        r@ == hex_text(sha256(bytes@)),
{
    let digest: Vec<u8> = sha256_digest(bytes);
    hex_encode(digest.as_slice())
}

/// The first `len` hexadecimal digits of the code of `value` in `domain` under `secret`.
pub open spec fn keyed_digest(
    secret: Seq<u8>,
    domain: Seq<char>,
    value: Seq<char>,
    len: nat,
) -> Seq<char> {
    first_chars(
        hex_text(hmac_sha256(secret, encode_utf8(domain + "\0"@ + value))),
        len,
    )
}

/// The first `len` hexadecimal digits of the code of `value` in `domain` under `secret`.
pub fn hmac_hex(secret: &[u8], domain: &str, value: &str, len: usize) -> (r: String)
    ensures
        r@ == keyed_digest(secret@, domain@, value@, len as nat),
{
    let mut message: String = domain.to_owned();
    message.append("\0");
    message.append(value);
    let code: Vec<u8> = hmac_sha256_code(secret, message.as_str().as_bytes());
    let digits: String = hex_encode(code.as_slice());
    truncate_chars(digits.as_str(), len)
}

/// The registry id of an owner's event index.
pub fn user_event_index_id(tenant_hash: &str, owner_user_id_hash: &str) -> (r: String)
    ensures
        r@ == index_id(tenant_hash@, owner_user_id_hash@),
{
    let mut out: String = "uei__t_".to_owned();
    out.append(tenant_hash);
    out.append("__u_");
    out.append(owner_user_id_hash);
    out
}

/// The registry id of an owner's event index.
pub open spec fn index_id(tenant_hash: Seq<char>, owner_user_id_hash: Seq<char>) -> Seq<char> {
    "uei__t_"@ + tenant_hash + "__u_"@ + owner_user_id_hash
}

/// The URI of the source document of a company revision.
pub open spec fn revision_document_uri(source_id: Seq<char>, revision_id: Seq<char>) -> Seq<char> {
    "ctx://company/docs/"@ + slug(source_id) + "/source/"@ + slug(revision_id)
}

/// The URI of the source document of a company revision.
pub fn company_revision_source_document_uri(source_id: &str, revision_id: &str) -> (r: String)
    ensures
        r@ == revision_document_uri(source_id@, revision_id@),
{
    let mut out: String = "ctx://company/docs/".to_owned();
    out.append(sanitize_slug(source_id).as_str());
    out.append("/source/");
    out.append(sanitize_slug(revision_id).as_str());
    out
}

/// The source of the documents of a fact.
pub open spec fn fact_source_id(
    owner_user_id: Seq<char>,
    state_type: Seq<char>,
    fact_key: Seq<char>,
) -> Seq<char> {
    "state:"@ + slug(owner_user_id) + ":"@ + slug(state_type) + ":"@ + slug(fact_key)
}

/// The source of the documents of a fact.
pub fn state_document_source_id(owner_user_id: &str, state_type: &str, fact_key: &str) -> (r:
    String)
    ensures
        r@ == fact_source_id(owner_user_id@, state_type@, fact_key@),
{
    let mut out: String = "state:".to_owned();
    out.append(sanitize_slug(owner_user_id).as_str());
    out.append(":");
    out.append(sanitize_slug(state_type).as_str());
    out.append(":");
    out.append(sanitize_slug(fact_key).as_str());
    out
}

/// The text of an optional owner; no owner is the empty text.
pub open spec fn owner_text(owner_user_id: Option<Seq<char>>) -> Seq<char> {
    match owner_user_id {
        Some(owner) => owner,
        None => Seq::empty(),
    }
}

/// The text of an optional owner; no owner is the empty text.
pub fn owner_or_empty<'a>(owner_user_id: Option<&'a str>) -> (r: &'a str)
    ensures
        r@ == owner_text(opt_str(owner_user_id)),
{
    match owner_user_id {
        Some(owner) => owner,
        None => {
            proof {
                reveal_strlit("");
                assert(""@ =~= Seq::<char>::empty());
            }
            ""
        },
    }
}

/// The bytes of a text.
pub(crate) fn bytes_of(text: &str) -> (r: Vec<u8>)
    ensures
        r@ == encode_utf8(text@),
{
    text.as_bytes_vec()
}

/// The id of a source document.
pub open spec fn document_id(
    tenant_id: Seq<char>,
    owner_user_id: Option<Seq<char>>,
    source_id: Seq<char>,
    revision_id: Seq<char>,
) -> Seq<char> {
    "srcdoc_"@ + keyed_digest(
        encode_utf8("nowledge-source-document"@),
        "source_document"@,
        tenant_id + ":"@ + owner_text(owner_user_id) + ":"@ + source_id + ":"@ + revision_id,
        24,
    )
}

/// The id of a source document.
pub fn source_document_id(
    tenant_id: &str,
    owner_user_id: Option<&str>,
    source_id: &str,
    revision_id: &str,
) -> (r: String)
    ensures
        r@ == document_id(tenant_id@, opt_str(owner_user_id), source_id@, revision_id@),
{
    let mut value: String = tenant_id.to_owned();
    value.append(":");
    value.append(owner_or_empty(owner_user_id));
    value.append(":");
    value.append(source_id);
    value.append(":");
    value.append(revision_id);
    let secret: Vec<u8> = bytes_of("nowledge-source-document");
    let digest: String = hmac_hex(secret.as_slice(), "source_document", value.as_str(), 24);
    "srcdoc_".to_owned().concat(digest.as_str())
}

/// What identifies a link: tenant, owner, both ends and the relation, with unit separators
/// between them.
pub open spec fn natural_key(
    tenant_id: Seq<char>,
    owner_user_id: Option<Seq<char>>,
    source_uri: Seq<char>,
    target_uri: Seq<char>,
    relation: Seq<char>,
) -> Seq<char> {
    tenant_id + "\u{1f}"@ + owner_text(owner_user_id) + "\u{1f}"@ + source_uri + "\u{1f}"@
        + target_uri + "\u{1f}"@ + relation
}

/// What identifies a link: tenant, owner, both ends and the relation, with unit separators
/// between them.
pub fn link_natural_key(
    tenant_id: &str,
    owner_user_id: Option<&str>,
    source_uri: &str,
    target_uri: &str,
    relation: &str,
) -> (r: String)
    ensures
        r@ == natural_key(tenant_id@, opt_str(owner_user_id), source_uri@, target_uri@, relation@),
{
    let mut out: String = tenant_id.to_owned();
    out.append("\u{1f}");
    out.append(owner_or_empty(owner_user_id));
    out.append("\u{1f}");
    out.append(source_uri);
    out.append("\u{1f}");
    out.append(target_uri);
    out.append("\u{1f}");
    out.append(relation);
    out
}

/// The id of the link from a fragment to its source document.
pub open spec fn part_of_id(
    tenant_id: Seq<char>,
    owner_user_id: Option<Seq<char>>,
    source_uri: Seq<char>,
    target_uri: Seq<char>,
) -> Seq<char> {
    "link_"@ + keyed_digest(
        encode_utf8("nowledge-part-of-link"@),
        "part_of"@,
        natural_key(tenant_id, owner_user_id, source_uri, target_uri, "part_of"@),
        24,
    )
}

/// The id of the link from a fragment to its source document.
pub fn part_of_link_id(
    tenant_id: &str,
    owner_user_id: Option<&str>,
    source_uri: &str,
    target_uri: &str,
) -> (r: String)
    ensures
        r@ == part_of_id(tenant_id@, opt_str(owner_user_id), source_uri@, target_uri@),
{
    let key: String = link_natural_key(
        tenant_id,
        owner_user_id,
        source_uri,
        target_uri,
        "part_of",
    );
    let secret: Vec<u8> = bytes_of("nowledge-part-of-link");
    let digest: String = hmac_hex(secret.as_slice(), "part_of", key.as_str(), 24);
    "link_".to_owned().concat(digest.as_str())
}

} // verus!
