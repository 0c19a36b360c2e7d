//! What is kept of the output of a parser: one artifact for each part of it.

use vstd::prelude::*;
use vstd::string::*;
use vstd::utf8::*;

use crate::json::{as_text, member, rendered, Json};
use crate::model::ingest::{ParseArtifact, ParsedBlock};
use crate::model::knowledge::ParseArtifactRef;
use crate::naming::{bytes_of, first_chars, hex_text, sha256, sha256_hex, truncate_chars};
use crate::text::{blank, is_blank, opt_owned, opt_str, opt_text, padded4, padded4_text, text_eq};

verus! {

/// What a parser made of a document.
pub struct ParserOutput {
    pub provider: String,
    pub backend: String,
    pub parser_version: Option<String>,
    pub markdown: Option<String>,
    pub content_list: Option<Json>,
    pub content_list_v2: Option<Json>,
    pub middle_json: Option<Json>,
    pub model_json: Option<Json>,
    pub images: Vec<Json>,
    pub blocks: Vec<ParsedBlock>,
}

/// The id of the artifact at a URI.
pub open spec fn artifact_id(uri: Seq<char>) -> Seq<char> {
    "artifact_"@ + first_chars(hex_text(sha256(encode_utf8(uri))), 24)
}

/// The id of the artifact at a URI.
pub fn parse_artifact_id(uri: &str) -> (r: String)
    ensures
        r@ == artifact_id(uri@),
{
    let digest: String = sha256_hex(bytes_of(uri).as_slice());
    "artifact_".to_owned().concat(truncate_chars(digest.as_str(), 24).as_str())
}

/// A part of the output of a parser, by content.
pub struct PieceView {
    pub kind: Seq<char>,
    pub uri: Seq<char>,
    pub bytes: Seq<u8>,
}

/// Whether `a` is the artifact of a part of the output of a parser.
pub open spec fn is_artifact(
    a: ParseArtifact,
    tenant_id: Seq<char>,
    owner_user_id: Option<Seq<char>>,
    source_document_uri: Seq<char>,
    source_id: Seq<char>,
    revision_id: Seq<char>,
    parsed: ParserOutput,
    piece: PieceView,
    now: i64,
) -> bool {
    &&& a.id@ == artifact_id(piece.uri)
    &&& a.tenant_id@ == tenant_id
    &&& opt_text(a.owner_user_id) == owner_user_id
    &&& a.source_document_uri@ == source_document_uri
    &&& a.source_id@ == source_id
    &&& a.revision_id@ == revision_id
    &&& a.parser_provider@ == parsed.provider@
    &&& a.parser_backend@ == parsed.backend@
    &&& opt_text(a.parser_version) == opt_text(parsed.parser_version)
    &&& a.artifact_kind@ == piece.kind
    &&& a.uri@ == piece.uri
    &&& a.checksum@ == hex_text(sha256(piece.bytes))
    &&& a.byte_size == piece.bytes.len()
    &&& a.created_at == now
}

/// The artifact of a part of the output of a parser.
pub fn parse_artifact_from_bytes(
    tenant_id: &str,
    owner_user_id: Option<&str>,
    source_document_uri: &str,
    source_id: &str,
    revision_id: &str,
    parsed: &ParserOutput,
    kind: &str,
    uri: &str,
    bytes: &[u8],
    now: i64,
) -> (r: ParseArtifact)
    ensures
        is_artifact(
            r,
            tenant_id@,
            opt_str(owner_user_id),
            source_document_uri@,
            source_id@,
            revision_id@,
            *parsed,
            (PieceView { kind: kind@, uri: uri@, bytes: bytes@ }),
            now,
        ),
{
    ParseArtifact {
        id: parse_artifact_id(uri),
        tenant_id: tenant_id.to_owned(),
        owner_user_id: opt_owned(owner_user_id),
        source_document_uri: source_document_uri.to_owned(),
        source_id: source_id.to_owned(),
        revision_id: revision_id.to_owned(),
        parser_provider: parsed.provider.clone(),
        parser_backend: parsed.backend.clone(),
        parser_version: parsed.parser_version.clone(),
        artifact_kind: kind.to_owned(),
        uri: uri.to_owned(),
        checksum: sha256_hex(bytes),
        byte_size: bytes.len(),
        created_at: now,
    }
}

/// Where an image is: what it says itself, else a place among the artifacts of its document.
pub open spec fn image_uri(source_document_uri: Seq<char>, image: Json, index: u32) -> Seq<char> {
    let named = if member(image, "uri"@) is Some {
        member(image, "uri"@)
    } else if member(image, "path"@) is Some {
        member(image, "path"@)
    } else {
        member(image, "image_path"@)
    };
    let said = match as_text(image) {
        Some(text) => Some(text),
        None => match named {
            Some(value) => as_text(value),
            None => None,
        },
    };
    match said {
        Some(text) => text,
        None => source_document_uri + "/artifacts/images/"@ + padded4(index as nat),
    }
}

/// Where an image is.
pub fn image_artifact_uri(source_document_uri: &str, image: &Json, index: u32) -> (r: String)
    ensures
        r@ == image_uri(source_document_uri@, *image, index),
{
    let said: Option<&str> = match image.as_str() {
        Some(text) => Some(text),
        None => {
            let named: Option<&Json> = match image.get("uri") {
                Some(value) => Some(value),
                None => match image.get("path") {
                    Some(value) => Some(value),
                    None => image.get("image_path"),
                },
            };
            match named {
                Some(value) => value.as_str(),
                None => None,
            }
        },
    };
    match said {
        Some(text) => text.to_owned(),
        None => {
            let mut out: String = source_document_uri.to_owned();
            out.append("/artifacts/images/");
            out.append(padded4_text(index as u64).as_str());
            out
        },
    }
}

/// The part that the document itself is.
pub open spec fn original_piece(uri: Seq<char>, original: Seq<char>) -> Seq<PieceView> {
    if original.len() == 0 {
        Seq::empty()
    } else {
        seq![
            PieceView {
                kind: "original"@,
                uri: uri + "/artifacts/original"@,
                bytes: encode_utf8(original),
            },
        ]
    }
}

/// The part that the document in Markdown is.
pub open spec fn markdown_piece(uri: Seq<char>, markdown: Option<Seq<char>>) -> Seq<PieceView> {
    match markdown {
        Some(text) => if blank(text) {
            Seq::empty()
        } else {
            seq![
                PieceView {
                    kind: "markdown"@,
                    uri: uri + "/artifacts/markdown"@,
                    bytes: encode_utf8(text),
                },
            ]
        },
        None => Seq::empty(),
    }
}

/// The part that a value is.
pub open spec fn value_piece(uri: Seq<char>, kind: Seq<char>, value: Option<Json>) -> Seq<PieceView> {
    match value {
        Some(value) => seq![
            PieceView {
                kind,
                uri: uri + "/artifacts/"@ + kind,
                bytes: encode_utf8(rendered(value)),
            },
        ],
        None => Seq::empty(),
    }
}

/// The parts that images are.
pub open spec fn image_pieces(uri: Seq<char>, images: Seq<Json>) -> Seq<PieceView> {
    Seq::new(
        images.len(),
        |i: int|
            PieceView {
                kind: "image"@,
                uri: image_uri(uri, images[i], i as u32),
                bytes: encode_utf8(rendered(images[i])),
            },
    )
}

/// The images that blocks refer to.
pub open spec fn image_refs(blocks: Seq<ParsedBlock>) -> Seq<Seq<char>>
    decreases blocks.len(),
{
    if blocks.len() == 0 {
        Seq::empty()
    } else {
        let front = image_refs(blocks.drop_last());
        match opt_text(blocks.last().image_ref) {
            Some(uri) => front.push(uri),
            None => front,
        }
    }
}

/// Whether some part is at a URI.
pub open spec fn has_uri(pieces: Seq<PieceView>, uri: Seq<char>) -> bool {
    exists|i: int| 0 <= i < pieces.len() && (#[trigger] pieces[i]).uri == uri
}

/// The part that an image is to which a block refers.
pub open spec fn ref_piece(uri: Seq<char>) -> PieceView {
    PieceView { kind: "image"@, uri, bytes: encode_utf8(uri) }
}

/// How many references to images are looked at before the next new one ends the list.
pub const IMAGE_REFS_LOOKED_AT: usize = 10_000;

/// The parts with the images to which blocks refer, from the `i`th on, each unless it is there. The
/// first that is added behind the limit is the last.
pub open spec fn with_refs(pieces: Seq<PieceView>, refs: Seq<Seq<char>>, i: int) -> Seq<PieceView>
    decreases refs.len() - i,
{
    if i < 0 || i >= refs.len() {
        pieces
    } else if has_uri(pieces, refs[i]) {
        with_refs(pieces, refs, i + 1)
    } else if i > IMAGE_REFS_LOOKED_AT {
        pieces.push(ref_piece(refs[i]))
    } else {
        with_refs(pieces.push(ref_piece(refs[i])), refs, i + 1)
    }
}

/// The parts of the output of a parser but for the images that only blocks name.
pub open spec fn plain_pieces(uri: Seq<char>, parsed: ParserOutput, original: Seq<char>) -> Seq<
    PieceView,
> {
    original_piece(uri, original) + markdown_piece(uri, opt_text(parsed.markdown)) + value_piece(
        uri,
        "content_list"@,
        parsed.content_list,
    ) + value_piece(uri, "content_list_v2"@, parsed.content_list_v2) + value_piece(
        uri,
        "middle_json"@,
        parsed.middle_json,
    ) + value_piece(uri, "model_json"@, parsed.model_json) + image_pieces(uri, parsed.images@)
}

/// The parts of the output of a parser that artifacts are kept of.
pub open spec fn pieces(uri: Seq<char>, parsed: ParserOutput, original: Seq<char>) -> Seq<PieceView> {
    with_refs(plain_pieces(uri, parsed, original), image_refs(parsed.blocks@), 0)
}

/// Whether artifacts are those of parts, one by one.
pub open spec fn are_artifacts(
    artifacts: Seq<ParseArtifact>,
    tenant_id: Seq<char>,
    owner_user_id: Option<Seq<char>>,
    source_document_uri: Seq<char>,
    source_id: Seq<char>,
    revision_id: Seq<char>,
    parsed: ParserOutput,
    parts: Seq<PieceView>,
    now: i64,
) -> bool {
    artifacts.len() == parts.len() && forall|i: int|
        0 <= i < parts.len() ==> is_artifact(
            #[trigger] artifacts[i],
            tenant_id,
            owner_user_id,
            source_document_uri,
            source_id,
            revision_id,
            parsed,
            parts[i],
            now,
        )
}

/// Where the output of a parser belongs.
pub struct Origin<'a> {
    pub tenant_id: &'a str,
    pub owner_user_id: Option<&'a str>,
    pub source_document_uri: &'a str,
    pub source_id: &'a str,
    pub revision_id: &'a str,
}

/// Whether artifacts of one origin are those of parts, one by one.
pub open spec fn are_of(
    artifacts: Seq<ParseArtifact>,
    origin: Origin<'_>,
    parsed: ParserOutput,
    parts: Seq<PieceView>,
    now: i64,
) -> bool {
    are_artifacts(
        artifacts,
        origin.tenant_id@,
        opt_str(origin.owner_user_id),
        origin.source_document_uri@,
        origin.source_id@,
        origin.revision_id@,
        parsed,
        parts,
        now,
    )
}

fn add_artifact(
    artifacts: &mut Vec<ParseArtifact>,
    origin: &Origin<'_>,
    parsed: &ParserOutput,
    kind: &str,
    uri: &str,
    bytes: &[u8],
    now: i64,
    Ghost(parts): Ghost<Seq<PieceView>>,
)
    requires
        are_of(old(artifacts)@, *origin, *parsed, parts, now),
    ensures
        are_of(
            final(artifacts)@,
            *origin,
            *parsed,
            parts.push(PieceView { kind: kind@, uri: uri@, bytes: bytes@ }),
            now,
        ),
{
    artifacts.push(
        parse_artifact_from_bytes(
            origin.tenant_id,
            origin.owner_user_id,
            origin.source_document_uri,
            origin.source_id,
            origin.revision_id,
            parsed,
            kind,
            uri,
            bytes,
            now,
        ),
    );
}

fn add_value(
    artifacts: &mut Vec<ParseArtifact>,
    origin: &Origin<'_>,
    parsed: &ParserOutput,
    kind: &str,
    value: &Option<Json>,
    now: i64,
    Ghost(parts): Ghost<Seq<PieceView>>,
)
    requires
        are_of(old(artifacts)@, *origin, *parsed, parts, now),
    ensures
        are_of(
            final(artifacts)@,
            *origin,
            *parsed,
            parts + value_piece(origin.source_document_uri@, kind@, *value),
            now,
        ),
{
    match value {
        Some(value) => {
            let mut uri: String = origin.source_document_uri.to_owned();
            uri.append("/artifacts/");
            uri.append(kind);
            let text: String = value.render();
            let bytes: Vec<u8> = bytes_of(text.as_str());
            add_artifact(
                artifacts,
                origin,
                parsed,
                kind,
                uri.as_str(),
                bytes.as_slice(),
                now,
                Ghost(parts),
            );
            proof {
                let piece = PieceView { kind: kind@, uri: uri@, bytes: bytes@ };
                assert(parts + seq![piece] =~= parts.push(piece));
            }
        },
        None => {
            assert(parts + Seq::<PieceView>::empty() =~= parts);
        },
    }
}

fn add_images(
    artifacts: &mut Vec<ParseArtifact>,
    origin: &Origin<'_>,
    parsed: &ParserOutput,
    now: i64,
    Ghost(parts): Ghost<Seq<PieceView>>,
)
    requires
        are_of(old(artifacts)@, *origin, *parsed, parts, now),
    ensures
        are_of(
            final(artifacts)@,
            *origin,
            *parsed,
            parts + image_pieces(origin.source_document_uri@, parsed.images@),
            now,
        ),
{
    let ghost all = image_pieces(origin.source_document_uri@, parsed.images@);
    let mut i: usize = 0;
    assert(parts + all.take(0) =~= parts);
    while i < parsed.images.len()
        invariant
            i <= parsed.images@.len(),
            all == image_pieces(origin.source_document_uri@, parsed.images@),
            are_of(artifacts@, *origin, *parsed, parts + all.take(i as int), now),
        decreases parsed.images.len() - i,
    {
        let uri: String = image_artifact_uri(
            origin.source_document_uri,
            &parsed.images[i],
            i as u32,
        );
        let text: String = parsed.images[i].render();
        let bytes: Vec<u8> = bytes_of(text.as_str());
        add_artifact(
            artifacts,
            origin,
            parsed,
            "image",
            uri.as_str(),
            bytes.as_slice(),
            now,
            Ghost(parts + all.take(i as int)),
        );
        proof {
            let piece = PieceView { kind: "image"@, uri: uri@, bytes: bytes@ };
            assert(all[i as int] == piece);
            assert((parts + all.take(i as int)).push(piece) =~= parts + all.take(i + 1));
        }
        i += 1;
    }
    assert(all.take(i as int) =~= all);
}

fn list_image_refs(blocks: &Vec<ParsedBlock>) -> (r: Vec<String>)
    ensures
        crate::text::texts(r@) == image_refs(blocks@),
{
    let mut out: Vec<String> = Vec::new();
    let mut i: usize = 0;
    assert(crate::text::texts(out@) =~= image_refs(blocks@.take(0)));
    while i < blocks.len()
        invariant
            i <= blocks@.len(),
            crate::text::texts(out@) == image_refs(blocks@.take(i as int)),
        decreases blocks.len() - i,
    {
        assert(blocks@.take(i + 1).drop_last() =~= blocks@.take(i as int));
        match &blocks[i].image_ref {
            Some(uri) => {
                let uri: String = uri.clone();
                proof {
                    crate::text::texts_push(out@, uri);
                }
                out.push(uri);
            },
            None => {},
        }
        i += 1;
    }
    assert(blocks@.take(i as int) =~= blocks@);
    out
}

fn has_artifact_at(
    artifacts: &Vec<ParseArtifact>,
    uri: &str,
    origin: &Origin<'_>,
    parsed: &ParserOutput,
    now: i64,
    Ghost(parts): Ghost<Seq<PieceView>>,
) -> (r: bool)
    requires
        are_of(artifacts@, *origin, *parsed, parts, now),
    ensures
        r == has_uri(parts, uri@),
{
    let mut i: usize = 0;
    while i < artifacts.len()
        invariant
            i <= artifacts@.len(),
            are_of(artifacts@, *origin, *parsed, parts, now),
            forall|j: int| 0 <= j < i ==> (#[trigger] parts[j]).uri != uri@,
        decreases artifacts.len() - i,
    {
        assert(artifacts@[i as int].uri@ == parts[i as int].uri);
        if text_eq(artifacts[i].uri.as_str(), uri) {
            return true;
        }
        i += 1;
    }
    false
}

fn add_refs(
    artifacts: &mut Vec<ParseArtifact>,
    origin: &Origin<'_>,
    parsed: &ParserOutput,
    now: i64,
    Ghost(parts): Ghost<Seq<PieceView>>,
)
    requires
        are_of(old(artifacts)@, *origin, *parsed, parts, now),
    ensures
        are_of(
            final(artifacts)@,
            *origin,
            *parsed,
            with_refs(parts, image_refs(parsed.blocks@), 0),
            now,
        ),
{
    let refs: Vec<String> = list_image_refs(&parsed.blocks);
    let ghost all = image_refs(parsed.blocks@);
    let ghost mut has = parts;
    let mut i: usize = 0;
    while i < refs.len()
        invariant
            i <= refs@.len(),
            all == image_refs(parsed.blocks@),
            all == crate::text::texts(refs@),
            are_of(artifacts@, *origin, *parsed, has, now),
            with_refs(has, all, i as int) == with_refs(parts, all, 0),
        decreases refs.len() - i,
    {
        assert(all[i as int] == refs@[i as int]@);
        if !has_artifact_at(artifacts, refs[i].as_str(), origin, parsed, now, Ghost(has)) {
            let bytes: Vec<u8> = bytes_of(refs[i].as_str());
            add_artifact(
                artifacts,
                origin,
                parsed,
                "image",
                refs[i].as_str(),
                bytes.as_slice(),
                now,
                Ghost(has),
            );
            proof {
                has = has.push(ref_piece(all[i as int]));
            }
            if i > IMAGE_REFS_LOOKED_AT {
                return;
            }
        }
        i += 1;
    }
}

/// The artifacts of the output of a parser: the document itself, what the parser made of it, and
/// the images, each once.
pub fn build_parse_artifacts(
    origin: &Origin<'_>,
    parsed: &ParserOutput,
    original_content: &str,
    now: i64,
) -> (r: Vec<ParseArtifact>)
    ensures
        are_of(
            r@,
            *origin,
            *parsed,
            pieces(origin.source_document_uri@, *parsed, original_content@),
            now,
        ),
{
    let ghost uri = origin.source_document_uri@;
    let mut artifacts: Vec<ParseArtifact> = Vec::new();
    let ghost a = original_piece(uri, original_content@);
    let ghost b = a + markdown_piece(uri, opt_text(parsed.markdown));
    let ghost c = b + value_piece(uri, "content_list"@, parsed.content_list);
    let ghost d = c + value_piece(uri, "content_list_v2"@, parsed.content_list_v2);
    let ghost e = d + value_piece(uri, "middle_json"@, parsed.middle_json);
    let ghost f = e + value_piece(uri, "model_json"@, parsed.model_json);
    let ghost none = Seq::<PieceView>::empty();
    if !crate::text::is_empty_text(original_content) {
        let place: String = origin.source_document_uri.to_owned().concat("/artifacts/original");
        let bytes: Vec<u8> = bytes_of(original_content);
        add_artifact(
            &mut artifacts,
            origin,
            parsed,
            "original",
            place.as_str(),
            bytes.as_slice(),
            now,
            Ghost(none),
        );
        assert(a =~= none.push(PieceView { kind: "original"@, uri: place@, bytes: bytes@ }));
    }
    assert(are_of(artifacts@, *origin, *parsed, a, now));
    match &parsed.markdown {
        Some(text) => if !is_blank(text.as_str()) {
            let place: String = origin.source_document_uri.to_owned().concat(
                "/artifacts/markdown",
            );
            let bytes: Vec<u8> = bytes_of(text.as_str());
            add_artifact(
                &mut artifacts,
                origin,
                parsed,
                "markdown",
                place.as_str(),
                bytes.as_slice(),
                now,
                Ghost(a),
            );
            assert(b =~= a.push(PieceView { kind: "markdown"@, uri: place@, bytes: bytes@ }));
        } else {
            assert(b =~= a);
        },
        None => {
            assert(b =~= a);
        },
    }
    add_value(
        &mut artifacts,
        origin,
        parsed,
        "content_list",
        &parsed.content_list,
        now,
        Ghost(b),
    );
    add_value(
        &mut artifacts,
        origin,
        parsed,
        "content_list_v2",
        &parsed.content_list_v2,
        now,
        Ghost(c),
    );
    add_value(&mut artifacts, origin, parsed, "middle_json", &parsed.middle_json, now, Ghost(d));
    add_value(&mut artifacts, origin, parsed, "model_json", &parsed.model_json, now, Ghost(e));
    add_images(&mut artifacts, origin, parsed, now, Ghost(f));
    assert(f + image_pieces(uri, parsed.images@) == plain_pieces(uri, *parsed, original_content@));
    add_refs(
        &mut artifacts,
        origin,
        parsed,
        now,
        Ghost(plain_pieces(uri, *parsed, original_content@)),
    );
    artifacts
}

/// Whether references lead to artifacts, one by one.
pub open spec fn are_refs(refs: Seq<ParseArtifactRef>, artifacts: Seq<ParseArtifact>) -> bool {
    refs.len() == artifacts.len() && forall|i: int|
        0 <= i < refs.len() ==> {
            &&& (#[trigger] refs[i]).id@ == artifacts[i].id@
            &&& refs[i].artifact_kind@ == artifacts[i].artifact_kind@
            &&& refs[i].uri@ == artifacts[i].uri@
            &&& opt_text(refs[i].checksum) == Some(artifacts[i].checksum@)
        }
}

/// References to artifacts.
pub fn artifact_refs(artifacts: &Vec<ParseArtifact>) -> (r: Vec<ParseArtifactRef>)
    ensures
        are_refs(r@, artifacts@),
{
    let mut out: Vec<ParseArtifactRef> = Vec::new();
    let mut i: usize = 0;
    while i < artifacts.len()
        invariant
            i <= artifacts@.len(),
            are_refs(out@, artifacts@.take(i as int)),
        decreases artifacts.len() - i,
    {
        let ghost front = artifacts@.take(i as int);
        out.push(
            ParseArtifactRef {
                id: artifacts[i].id.clone(),
                artifact_kind: artifacts[i].artifact_kind.clone(),
                uri: artifacts[i].uri.clone(),
                checksum: Some(artifacts[i].checksum.clone()),
            },
        );
        assert(artifacts@.take(i + 1) =~= front.push(artifacts@[i as int]));
        i += 1;
    }
    assert(artifacts@.take(i as int) =~= artifacts@);
    out
}

/// Every image that a block names has an artifact, up to the reference at which the list ends.
pub proof fn every_image_has_an_artifact(
    uri: Seq<char>,
    parsed: ParserOutput,
    original: Seq<char>,
    i: int,
)
    requires
        0 <= i < image_refs(parsed.blocks@).len(),
        i <= IMAGE_REFS_LOOKED_AT + 1,
    ensures
        has_uri(pieces(uri, parsed, original), image_refs(parsed.blocks@)[i]),
{
    lemma_refs_are_there(plain_pieces(uri, parsed, original), image_refs(parsed.blocks@), 0, i);
}

proof fn lemma_refs_are_there(parts: Seq<PieceView>, refs: Seq<Seq<char>>, from: int, i: int)
    requires
        0 <= from <= i < refs.len(),
        i <= IMAGE_REFS_LOOKED_AT + 1,
    ensures
        has_uri(with_refs(parts, refs, from), refs[i]),
    decreases refs.len() - from,
{
    let next = if has_uri(parts, refs[from]) {
        parts
    } else {
        parts.push(ref_piece(refs[from]))
    };
    if from < i {
        lemma_refs_are_there(next, refs, from + 1, i);
    } else {
        assert(has_uri(next, refs[i])) by {
            if !has_uri(parts, refs[from]) {
                assert(next[parts.len() as int].uri == refs[i]);
            }
        }
        lemma_parts_stay(next, refs, from + 1, refs[i]);
    }
}

proof fn lemma_parts_stay(parts: Seq<PieceView>, refs: Seq<Seq<char>>, from: int, uri: Seq<char>)
    requires
        has_uri(parts, uri),
        0 <= from,
    ensures
        has_uri(with_refs(parts, refs, from), uri),
    decreases refs.len() - from,
{
    if from < refs.len() {
        let at = choose|i: int| 0 <= i < parts.len() && (#[trigger] parts[i]).uri == uri;
        let more = parts.push(ref_piece(refs[from]));
        assert(more[at].uri == uri);
        if has_uri(parts, refs[from]) {
            lemma_parts_stay(parts, refs, from + 1, uri);
        } else if from <= IMAGE_REFS_LOOKED_AT {
            lemma_parts_stay(more, refs, from + 1, uri);
        }
    }
}

} // verus!
