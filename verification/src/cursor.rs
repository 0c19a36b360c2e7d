//! Pages of operations and the signed cursors that lead from one page to the next.

use vstd::prelude::*;
use vstd::string::*;
use vstd::utf8::*;

use crate::error::{fails_with, ApiError, ErrorView};
use crate::json::json_quoted;
use crate::model::operation::{OperationRecord, OperationStatus};
use crate::naming::{
    hex_decode, hex_encode, hex_round_trip, hex_text, hex_value, hmac_hex, hmac_sha256, is_hex,
    keyed_digest, unhexed,
};
use crate::operations::{asks_status, status_asked};
use crate::order::{deduped, sort_by, sorted_by};
use crate::text::{
    blank, contains_char, decimal, decimal_round_trip, decimal_text, dedup_texts, is_blank, joined,
    parse_number, parsed_number, sort_texts, sorted_texts, split_at_char, split_once,
    split_once_at, split_step, split_text, split_without, text_before, text_eq, text_lt, texts,
    texts_contain, texts_copy,
};

verus! {

/// What every cursor begins with.
pub const OPERATION_LIST_CURSOR_PREFIX: &'static str = "op1";

/// The length in bytes beyond which a cursor is refused.
pub const OPERATION_LIST_CURSOR_MAX_BYTES: usize = 4_096;

/// Where a page begins: behind `offset` operations, the last of which is named.
#[derive(Debug, PartialEq, Eq)]
pub struct OperationListCursor {
    pub offset: usize,
    pub previous_operation_id: String,
}

/// The name of a status.
pub open spec fn status_name(status: OperationStatus) -> Seq<char> {
    match status {
        OperationStatus::Pending => "pending"@,
        OperationStatus::PrimaryCommitted => "primary_committed"@,
        OperationStatus::EffectsSubmitted => "effects_submitted"@,
        OperationStatus::PartiallyFailed => "partially_failed"@,
        OperationStatus::Completed => "completed"@,
        OperationStatus::Failed => "failed"@,
    }
}

/// The name of a status.
pub fn status_text(status: OperationStatus) -> (r: &'static str)
    ensures
        r@ == status_name(status),
{
    match status {
        OperationStatus::Pending => "pending",
        OperationStatus::PrimaryCommitted => "primary_committed",
        OperationStatus::EffectsSubmitted => "effects_submitted",
        OperationStatus::PartiallyFailed => "partially_failed",
        OperationStatus::Completed => "completed",
        OperationStatus::Failed => "failed",
    }
}

/// Texts as they are written in a list.
pub open spec fn list_text(parts: Seq<Seq<char>>) -> Seq<char> {
    "["@ + joined(parts, ","@) + "]"@
}

/// Texts in quotes.
pub open spec fn all_quoted(s: Seq<Seq<char>>) -> Seq<Seq<char>> {
    Seq::new(s.len(), |i: int| json_quoted(s[i]))
}

/// Wraps `serde_json::to_string` on a tuple of a text and two lists of texts. A tuple is written as
/// a list is: in brackets, with commas between what it holds and without spaces. Each text is written
/// in quotes. It fails only where a value refuses to be written, which texts and lists never do.
#[verifier::external_body]
fn scope_to_string(tenant_id: &str, statuses: &Vec<String>, kinds: &Vec<String>) -> (r: String)
    ensures
        r@ == list_text(
            seq![
                json_quoted(tenant_id@),
                list_text(all_quoted(texts(statuses@))),
                list_text(all_quoted(texts(kinds@))),
            ],
        ),
{
    serde_json::to_string(&(tenant_id, statuses, kinds)).unwrap_or_default()
}

/// The names of statuses, each once, in order.
pub open spec fn status_names(statuses: Seq<OperationStatus>) -> Seq<Seq<char>> {
    deduped(sorted_texts(Seq::new(statuses.len(), |i: int| status_name(statuses[i]))))
}

/// What a cursor is bound to: the tenant, the statuses and the kinds that are asked for.
pub open spec fn cursor_scope(
    tenant_id: Seq<char>,
    statuses: Seq<OperationStatus>,
    kinds: Seq<Seq<char>>,
) -> Seq<char> {
    list_text(
        seq![
            json_quoted(tenant_id),
            list_text(all_quoted(status_names(statuses))),
            list_text(all_quoted(deduped(sorted_texts(kinds)))),
        ],
    )
}

/// What a cursor is bound to: the tenant, the statuses and the kinds that are asked for, each of
/// them once and in order.
pub fn operation_list_cursor_scope(
    tenant_id: &str,
    statuses: &Vec<OperationStatus>,
    operation_kinds: &Vec<String>,
) -> (r: Result<String, ApiError>)
    ensures
        r is Ok,
        r->Ok_0@ == cursor_scope(tenant_id@, statuses@, texts(operation_kinds@)),
{
    let mut names: Vec<String> = Vec::new();
    let mut i: usize = 0;
    while i < statuses.len()
        invariant
            i <= statuses.len(),
            names@.len() == i,
            forall|j: int| 0 <= j < i ==> (#[trigger] names@[j])@ == status_name(statuses@[j]),
        decreases statuses.len() - i,
    {
        names.push(status_text(statuses[i]).to_owned());
        i += 1;
    }
    assert(texts(names@) =~= Seq::new(statuses@.len(), |i: int| status_name(statuses@[i])));
    let names: Vec<String> = dedup_texts(sort_texts(names));
    let kinds: Vec<String> = dedup_texts(sort_texts(texts_copy(operation_kinds)));
    Ok(scope_to_string(tenant_id, &names, &kinds))
}

/// What the payload of a cursor holds before it is put in hexadecimal.
pub open spec fn payload_text(offset: nat, previous_operation_id: Seq<char>) -> Seq<char> {
    decimal(offset) + "\0"@ + previous_operation_id
}

/// The payload of a cursor.
pub open spec fn payload_hex(offset: nat, previous_operation_id: Seq<char>) -> Seq<char> {
    hex_text(encode_utf8(payload_text(offset, previous_operation_id)))
}

/// The signature of a payload within a scope.
pub open spec fn cursor_signature(secret: Seq<u8>, scope: Seq<char>, payload: Seq<char>) -> Seq<
    char,
> {
    keyed_digest(secret, "operation-list-cursor"@, scope + "\0"@ + payload, 32)
}

/// A cursor as text.
pub open spec fn cursor_text(
    secret: Seq<u8>,
    scope: Seq<char>,
    offset: nat,
    previous_operation_id: Seq<char>,
) -> Seq<char> {
    let payload = payload_hex(offset, previous_operation_id);
    "op1"@ + "."@ + payload + "."@ + cursor_signature(secret, scope, payload)
}

fn sign_payload(secret: &Vec<u8>, scope: &str, payload: &str) -> (r: String)
    ensures
        r@ == cursor_signature(secret@, scope@, payload@),
{
    let mut signed: String = scope.to_owned();
    signed.append("\0");
    signed.append(payload);
    hmac_hex(secret.as_slice(), "operation-list-cursor", signed.as_str(), 32)
}

/// The cursor that leads behind `offset` operations, the last of which is named.
pub fn encode_operation_list_cursor(
    secret: &Vec<u8>,
    tenant_id: &str,
    statuses: &Vec<OperationStatus>,
    operation_kinds: &Vec<String>,
    offset: usize,
    previous_operation_id: &str,
) -> (r: Result<String, ApiError>)
    ensures
        if offset == 0 || blank(previous_operation_id@) {
            fails_with(
                r,
                ErrorView::Internal("operation cursor requires a non-empty prior page"@),
            )
        } else {
            r is Ok && r->Ok_0@ == cursor_text(
                secret@,
                cursor_scope(tenant_id@, statuses@, texts(operation_kinds@)),
                offset as nat,
                previous_operation_id@,
            )
        },
{
    if offset == 0 || is_blank(previous_operation_id) {
        return Err(ApiError::internal("operation cursor requires a non-empty prior page"));
    }
    let scope: String = operation_list_cursor_scope(tenant_id, statuses, operation_kinds)?;
    let mut payload: String = decimal_text(offset as u64);
    payload.append("\0");
    payload.append(previous_operation_id);
    let payload: String = hex_encode(payload.as_str().as_bytes());
    let signature: String = sign_payload(secret, scope.as_str(), payload.as_str());
    let mut out: String = OPERATION_LIST_CURSOR_PREFIX.to_owned();
    out.append(".");
    out.append(payload.as_str());
    out.append(".");
    out.append(signature.as_str());
    Ok(out)
}

/// Wraps `String::from_utf8`: the text that bytes encode, where they are valid UTF-8.
#[verifier::external_body]
pub(crate) fn utf8_text(bytes: Vec<u8>) -> (r: Option<String>)
    ensures
        match r {
            Some(text) => valid_utf8(bytes@) && text@ == decode_utf8(bytes@),
            None => !valid_utf8(bytes@),
        },
{
    String::from_utf8(bytes).ok()
}

/// What the payload of a cursor says, where it says anything.
pub open spec fn opened_payload(payload: Seq<char>) -> Option<(nat, Seq<char>)> {
    if !is_hex(payload) || !valid_utf8(unhexed(payload)) {
        None
    } else {
        match split_once_at(decode_utf8(unhexed(payload)), '\0') {
            None => None,
            Some((front, previous)) => match parsed_number(front) {
                None => None,
                Some(offset) => if offset == 0 || blank(previous) || previous.contains('\0') {
                    None
                } else {
                    Some((offset, previous))
                },
            },
        }
    }
}

/// Whether a cursor has the form of one and carries the signature of its payload.
pub open spec fn cursor_signed(secret: Seq<u8>, scope: Seq<char>, cursor: Seq<char>) -> bool {
    let parts = split_at_char(cursor, '.');
    parts.len() == 3 && parts[0] == "op1"@ && parts[2] == cursor_signature(secret, scope, parts[1])
}

/// Whether a cursor has the form of one.
pub open spec fn cursor_formed(cursor: Seq<char>) -> bool {
    let parts = split_at_char(cursor, '.');
    encode_utf8(cursor).len() as usize <= OPERATION_LIST_CURSOR_MAX_BYTES && parts.len() == 3
        && parts[0] == "op1"@
}

/// The answer to a cursor that is not one of this list.
pub open spec fn stale_cursor() -> ErrorView {
    ErrorView::BadRequest("cursor is invalid or stale"@)
}

fn invalid() -> (r: ApiError)
    ensures
        r@ == stale_cursor(),
{
    ApiError::bad_request("cursor is invalid or stale")
}

/// Reads a cursor; refuses one that was not made for the same list with the same secret.
pub fn decode_operation_list_cursor(
    secret: &Vec<u8>,
    tenant_id: &str,
    statuses: &Vec<OperationStatus>,
    operation_kinds: &Vec<String>,
    cursor: Option<&str>,
) -> (r: Result<Option<OperationListCursor>, ApiError>)
    ensures
        match cursor {
            None => r == Ok::<Option<OperationListCursor>, ApiError>(None),
            Some(text) => if !cursor_formed(text@) {
                fails_with(r, stale_cursor())
            } else {
                let scope = cursor_scope(tenant_id@, statuses@, texts(operation_kinds@));
                match opened_payload(split_at_char(text@, '.')[1]) {
                    Some((offset, previous)) => if cursor_signed(secret@, scope, text@) {
                        &&& r is Ok
                        &&& r->Ok_0 is Some
                        &&& r->Ok_0->0.offset == offset
                        &&& r->Ok_0->0.previous_operation_id@ == previous
                    } else {
                        fails_with(r, stale_cursor())
                    },
                    None => fails_with(r, stale_cursor()),
                }
            },
        },
{
    let cursor: &str = match cursor {
        None => {
            return Ok(None);
        },
        Some(text) => text,
    };
    if cursor.len() > OPERATION_LIST_CURSOR_MAX_BYTES {
        return Err(invalid());
    }
    let parts: Vec<String> = split_text(cursor, '.');
    assert(texts(parts@).len() == parts@.len());
    if parts.len() != 3 {
        return Err(invalid());
    }
    assert(texts(parts@)[0] == parts@[0]@);
    assert(texts(parts@)[1] == parts@[1]@);
    assert(texts(parts@)[2] == parts@[2]@);
    if !text_eq(parts[0].as_str(), OPERATION_LIST_CURSOR_PREFIX) {
        return Err(invalid());
    }
    let scope: String = operation_list_cursor_scope(tenant_id, statuses, operation_kinds)?;
    let payload: &str = parts[1].as_str();
    let expected: String = sign_payload(secret, scope.as_str(), payload);
    if !text_eq(parts[2].as_str(), expected.as_str()) {
        return Err(invalid());
    }
    let bytes: Vec<u8> = match hex_decode(payload) {
        Ok(bytes) => bytes,
        Err(_) => {
            return Err(invalid());
        },
    };
    let decoded: String = match utf8_text(bytes) {
        Some(text) => text,
        None => {
            return Err(invalid());
        },
    };
    let (front, previous): (String, String) = match split_once(decoded.as_str(), '\0') {
        Some(pair) => pair,
        None => {
            return Err(invalid());
        },
    };
    let offset: usize = match parse_number(front.as_str()) {
        Some(n) => n,
        None => {
            return Err(invalid());
        },
    };
    if offset == 0 || is_blank(previous.as_str()) || contains_char(previous.as_str(), '\0') {
        return Err(invalid());
    }
    Ok(Some(OperationListCursor { offset, previous_operation_id: previous }))
}

/// A cursor is read as what it was made from, within the same scope and under the same secret.
pub proof fn cursor_round_trip(
    secret: Seq<u8>,
    scope: Seq<char>,
    offset: nat,
    previous_operation_id: Seq<char>,
)
    requires
        0 < offset <= usize::MAX,
        !blank(previous_operation_id),
        !previous_operation_id.contains('\0'),
    ensures
        ({
            let cursor = cursor_text(secret, scope, offset, previous_operation_id);
            &&& cursor_signed(secret, scope, cursor)
            &&& opened_payload(split_at_char(cursor, '.')[1]) == Some(
                (offset, previous_operation_id),
            )
        }),
{
    let payload = payload_hex(offset, previous_operation_id);
    let signature = cursor_signature(secret, scope, payload);
    let cursor = cursor_text(secret, scope, offset, previous_operation_id);
    reveal_strlit("op1");
    reveal_strlit(".");
    assert("."@ =~= seq!['.']);
    assert(!"op1"@.contains('.'));
    lemma_hex_has_no_dot(encode_utf8(payload_text(offset, previous_operation_id)));
    let code = hmac_sha256(
        secret,
        encode_utf8("operation-list-cursor"@ + "\0"@ + (scope + "\0"@ + payload)),
    );
    lemma_hex_has_no_dot(code);
    assert(!signature.contains('.')) by {
        if signature.contains('.') {
            let i = choose|i: int| 0 <= i < signature.len() && signature[i] == '.';
            assert(hex_text(code)[i] == '.');
            assert(hex_text(code).contains('.'));
        }
    }
    split_without(signature, '.');
    split_step(payload, '.', signature);
    split_step("op1"@, '.', payload + "."@ + signature);
    assert(cursor =~= "op1"@ + seq!['.'] + (payload + "."@ + signature));
    assert(split_at_char(cursor, '.') =~= seq!["op1"@, payload, signature]);
    let text = payload_text(offset, previous_operation_id);
    hex_round_trip(encode_utf8(text));
    encode_utf8_valid_utf8(text);
    encode_utf8_decode_utf8(text);
    decimal_round_trip(offset);
    reveal_strlit("\0");
    assert("\0"@ =~= seq!['\0']);
    assert(!decimal(offset).contains('\0'));
    let p = crate::text::char_is('\0');
    assert forall|j: int| 0 <= j < decimal(offset).len() implies !p(#[trigger] text[j]) by {
        assert(text[j] == decimal(offset)[j]);
    }
    crate::order::first_where_is(text, p, decimal(offset).len() as int);
    assert(text.take(decimal(offset).len() as int) =~= decimal(offset));
    assert(text.skip((decimal(offset).len() + 1) as int) =~= previous_operation_id);
}

proof fn lemma_hex_has_no_dot(bytes: Seq<u8>)
    ensures
        !hex_text(bytes).contains('.'),
{
    hex_round_trip(bytes);
    let s = hex_text(bytes);
    if s.contains('.') {
        let i = choose|i: int| 0 <= i < s.len() && s[i] == '.';
        assert(hex_value(s[i]) is Some);
    }
}

/// One page of operations.
pub struct OperationPage {
    pub operations: Vec<OperationRecord>,
    pub has_more: bool,
}

/// Whether an operation is asked for.
pub open spec fn operation_wanted(
    operation: OperationRecord,
    tenant_id: Seq<char>,
    statuses: Seq<OperationStatus>,
    kinds: Seq<Seq<char>>,
) -> bool {
    &&& operation.tenant_id@ == tenant_id
    &&& status_asked(statuses, operation.status)
    &&& kinds.len() == 0 || kinds.contains(operation.operation_kind@)
}

/// Whether an operation comes before another in the list: the newest first, then by id.
pub open spec fn operation_lt(a: OperationRecord, b: OperationRecord) -> bool {
    b.created_at < a.created_at || (a.created_at == b.created_at && text_lt(b.id@, a.id@))
}

/// The whole list that pages are cut from.
pub open spec fn operation_list(
    operations: Seq<OperationRecord>,
    tenant_id: Seq<char>,
    statuses: Seq<OperationStatus>,
    kinds: Seq<Seq<char>>,
) -> Seq<OperationRecord> {
    sorted_by(
        operations.filter(
            |operation: OperationRecord| operation_wanted(operation, tenant_id, statuses, kinds),
        ),
        |a: OperationRecord, b: OperationRecord| operation_lt(a, b),
    )
}

/// Whether a cursor points behind an operation of the list.
pub open spec fn cursor_fits(list: Seq<OperationRecord>, cursor: OperationListCursor) -> bool {
    0 < cursor.offset <= list.len() && list[cursor.offset - 1].id@
        == cursor.previous_operation_id@
}

/// The page of at most `limit` operations behind a cursor.
pub fn operation_page(
    operations: Vec<OperationRecord>,
    tenant_id: &str,
    statuses: &Vec<OperationStatus>,
    operation_kinds: &Vec<String>,
    cursor: &Option<OperationListCursor>,
    limit: usize,
) -> (r: Result<OperationPage, ApiError>)
    ensures
        ({
            let list = operation_list(
                operations@,
                tenant_id@,
                statuses@,
                texts(operation_kinds@),
            );
            let fits = match *cursor {
                Some(c) => cursor_fits(list, c),
                None => true,
            };
            let rest = match *cursor {
                Some(c) => list.skip(c.offset as int),
                None => list,
            };
            if !fits {
                fails_with(r, stale_cursor())
            } else {
                &&& r is Ok
                &&& r->Ok_0.has_more == (rest.len() > limit)
                &&& r->Ok_0.operations@ == (if rest.len() > limit {
                    rest.take(limit as int)
                } else {
                    rest
                })
            }
        }),
{
    let mut wanted: Vec<OperationRecord> = operations;
    let ghost p = |operation: OperationRecord|
        operation_wanted(operation, tenant_id@, statuses@, texts(operation_kinds@));
    let keep = |operation: &OperationRecord| -> (b: bool)
        ensures
            b == p(*operation),
        {
            text_eq(operation.tenant_id.as_str(), tenant_id) && asks_status(
                statuses,
                operation.status,
            ) && (operation_kinds.len() == 0 || texts_contain(
                operation_kinds,
                operation.operation_kind.as_str(),
            ))
        };
    crate::order::retain(&mut wanted, keep, Ghost(p));
    let ghost lt = |a: OperationRecord, b: OperationRecord| operation_lt(a, b);
    let earlier = |a: &OperationRecord, b: &OperationRecord| -> (c: bool)
        ensures
            c == lt(*a, *b),
        {
            b.created_at < a.created_at || (a.created_at == b.created_at && text_before(
                b.id.as_str(),
                a.id.as_str(),
            ))
        };
    let mut list: Vec<OperationRecord> = sort_by(wanted, earlier, Ghost(lt));
    let ghost all = list@;
    if let Some(c) = cursor {
        if c.offset == 0 || c.offset > list.len() || !text_eq(
            list[c.offset - 1].id.as_str(),
            c.previous_operation_id.as_str(),
        ) {
            return Err(invalid());
        }
        list = list.split_off(c.offset);
        assert(list@ =~= all.skip(c.offset as int));
    }
    let has_more: bool = list.len() > limit;
    if has_more {
        let ghost rest = list@;
        list.truncate(limit);
        assert(list@ =~= rest.take(limit as int));
    }
    Ok(OperationPage { operations: list, has_more })
}

} // verus!
