//! Company sources, source documents, parser output and ingest tasks.

use vstd::prelude::*;

use crate::float::{float_same, same_float};
use crate::json::Json;
use crate::record::{
    all_itself, all_same, lists_same, opt_itself, opt_same, options_same, List, Record, Row,
};
use crate::text::{opt_eq, opt_text, text_eq, texts, texts_eq};

verus! {

/// A document source of the company.
#[derive(Debug, PartialEq, Eq)]
pub struct CompanySource {
    pub id: String,
    pub tenant_id: String,
    pub title: String,
    pub canonical_key: String,
    pub source_uri: String,
    pub active_revision_id: Option<String>,
}

impl Clone for CompanySource {
    fn clone(&self) -> (r: Self)
        ensures
            r == *self,
    {
        CompanySource {
            id: self.id.clone(),
            tenant_id: self.tenant_id.clone(),
            title: self.title.clone(),
            canonical_key: self.canonical_key.clone(),
            source_uri: self.source_uri.clone(),
            active_revision_id: self.active_revision_id.clone(),
        }
    }
}

impl Record for CompanySource {
    open spec fn same_as(&self, other: &Self) -> bool {
        &&& self.id@ == other.id@
        &&& self.tenant_id@ == other.tenant_id@
        &&& self.title@ == other.title@
        &&& self.canonical_key@ == other.canonical_key@
        &&& self.source_uri@ == other.source_uri@
        &&& opt_text(self.active_revision_id) == opt_text(other.active_revision_id)
    }

    proof fn itself(&self) {
    }

    fn same(&self, other: &Self) -> (r: bool) {
        text_eq(self.id.as_str(), other.id.as_str())
            && text_eq(self.tenant_id.as_str(), other.tenant_id.as_str())
            && text_eq(self.title.as_str(), other.title.as_str())
            && text_eq(self.canonical_key.as_str(), other.canonical_key.as_str())
            && text_eq(self.source_uri.as_str(), other.source_uri.as_str())
            && opt_eq(&self.active_revision_id, &other.active_revision_id)
    }

    fn copy(&self) -> (r: Self) {
        self.clone()
    }
}

impl Row<String> for CompanySource {
    open spec fn key(&self) -> Seq<char> {
        self.id@
    }

    open spec fn tenant(&self) -> Seq<char> {
        self.tenant_id@
    }

    open spec fn rank(&self) -> Seq<char> {
        self.id@
    }

    fn key_of(&self) -> (k: String) {
        self.id.clone()
    }

    fn tenant_of(&self) -> (t: &str) {
        self.tenant_id.as_str()
    }

    fn rank_of(&self) -> (t: &str) {
        self.id.as_str()
    }
}

/// One revision of a company source.
#[derive(Debug, PartialEq, Eq)]
pub struct SourceRevision {
    pub id: String,
    pub tenant_id: String,
    pub source_id: String,
    pub title: String,
    pub source_uri: String,
    pub checksum: String,
    pub content: String,
    pub status: String,
    pub created_at: i64,
}

impl Clone for SourceRevision {
    fn clone(&self) -> (r: Self)
        ensures
            r == *self,
    {
        SourceRevision {
            id: self.id.clone(),
            tenant_id: self.tenant_id.clone(),
            source_id: self.source_id.clone(),
            title: self.title.clone(),
            source_uri: self.source_uri.clone(),
            checksum: self.checksum.clone(),
            content: self.content.clone(),
            status: self.status.clone(),
            created_at: self.created_at,
        }
    }
}

impl Record for SourceRevision {
    open spec fn same_as(&self, other: &Self) -> bool {
        &&& self.id@ == other.id@
        &&& self.tenant_id@ == other.tenant_id@
        &&& self.source_id@ == other.source_id@
        &&& self.title@ == other.title@
        &&& self.source_uri@ == other.source_uri@
        &&& self.checksum@ == other.checksum@
        &&& self.content@ == other.content@
        &&& self.status@ == other.status@
        &&& self.created_at == other.created_at
    }

    proof fn itself(&self) {
    }

    fn same(&self, other: &Self) -> (r: bool) {
        text_eq(self.id.as_str(), other.id.as_str())
            && text_eq(self.tenant_id.as_str(), other.tenant_id.as_str())
            && text_eq(self.source_id.as_str(), other.source_id.as_str())
            && text_eq(self.title.as_str(), other.title.as_str())
            && text_eq(self.source_uri.as_str(), other.source_uri.as_str())
            && text_eq(self.checksum.as_str(), other.checksum.as_str())
            && text_eq(self.content.as_str(), other.content.as_str())
            && text_eq(self.status.as_str(), other.status.as_str())
            && self.created_at == other.created_at
    }

    fn copy(&self) -> (r: Self) {
        self.clone()
    }
}

impl Row<String> for SourceRevision {
    open spec fn key(&self) -> Seq<char> {
        self.id@
    }

    open spec fn tenant(&self) -> Seq<char> {
        self.tenant_id@
    }

    open spec fn rank(&self) -> Seq<char> {
        self.id@
    }

    fn key_of(&self) -> (k: String) {
        self.id.clone()
    }

    fn tenant_of(&self) -> (t: &str) {
        self.tenant_id.as_str()
    }

    fn rank_of(&self) -> (t: &str) {
        self.id.as_str()
    }
}

/// A stored source document.
#[derive(Debug, PartialEq, Eq)]
pub struct SourceDocument {
    pub id: String,
    pub tenant_id: String,
    pub owner_user_id: Option<String>,
    pub source_kind: String,
    pub source_id: String,
    pub revision_id: String,
    pub uri: String,
    pub title: String,
    pub content: String,
    pub checksum: String,
    pub status: String,
    pub retrieval_enabled: bool,
    pub created_at: i64,
    pub updated_at: i64,
}

impl Clone for SourceDocument {
    fn clone(&self) -> (r: Self)
        ensures
            r == *self,
    {
        SourceDocument {
            id: self.id.clone(),
            tenant_id: self.tenant_id.clone(),
            owner_user_id: self.owner_user_id.clone(),
            source_kind: self.source_kind.clone(),
            source_id: self.source_id.clone(),
            revision_id: self.revision_id.clone(),
            uri: self.uri.clone(),
            title: self.title.clone(),
            content: self.content.clone(),
            checksum: self.checksum.clone(),
            status: self.status.clone(),
            retrieval_enabled: self.retrieval_enabled,
            created_at: self.created_at,
            updated_at: self.updated_at,
        }
    }
}

impl Record for SourceDocument {
    open spec fn same_as(&self, other: &Self) -> bool {
        &&& self.id@ == other.id@
        &&& self.tenant_id@ == other.tenant_id@
        &&& opt_text(self.owner_user_id) == opt_text(other.owner_user_id)
        &&& self.source_kind@ == other.source_kind@
        &&& self.source_id@ == other.source_id@
        &&& self.revision_id@ == other.revision_id@
        &&& self.uri@ == other.uri@
        &&& self.title@ == other.title@
        &&& self.content@ == other.content@
        &&& self.checksum@ == other.checksum@
        &&& self.status@ == other.status@
        &&& self.retrieval_enabled == other.retrieval_enabled
        &&& self.created_at == other.created_at
        &&& self.updated_at == other.updated_at
    }

    proof fn itself(&self) {
    }

    fn same(&self, other: &Self) -> (r: bool) {
        text_eq(self.id.as_str(), other.id.as_str())
            && text_eq(self.tenant_id.as_str(), other.tenant_id.as_str())
            && opt_eq(&self.owner_user_id, &other.owner_user_id)
            && text_eq(self.source_kind.as_str(), other.source_kind.as_str())
            && text_eq(self.source_id.as_str(), other.source_id.as_str())
            && text_eq(self.revision_id.as_str(), other.revision_id.as_str())
            && text_eq(self.uri.as_str(), other.uri.as_str())
            && text_eq(self.title.as_str(), other.title.as_str())
            && text_eq(self.content.as_str(), other.content.as_str())
            && text_eq(self.checksum.as_str(), other.checksum.as_str())
            && text_eq(self.status.as_str(), other.status.as_str())
            && self.retrieval_enabled == other.retrieval_enabled
            && self.created_at == other.created_at
            && self.updated_at == other.updated_at
    }

    fn copy(&self) -> (r: Self) {
        self.clone()
    }
}

/// A stored output of a parser.
#[derive(Debug, PartialEq, Eq)]
pub struct ParseArtifact {
    pub id: String,
    pub tenant_id: String,
    pub owner_user_id: Option<String>,
    pub source_document_uri: String,
    pub source_id: String,
    pub revision_id: String,
    pub parser_provider: String,
    pub parser_backend: String,
    pub parser_version: Option<String>,
    pub artifact_kind: String,
    pub uri: String,
    pub checksum: String,
    pub byte_size: usize,
    pub created_at: i64,
}

impl Clone for ParseArtifact {
    fn clone(&self) -> (r: Self)
        ensures
            r == *self,
    {
        ParseArtifact {
            id: self.id.clone(),
            tenant_id: self.tenant_id.clone(),
            owner_user_id: self.owner_user_id.clone(),
            source_document_uri: self.source_document_uri.clone(),
            source_id: self.source_id.clone(),
            revision_id: self.revision_id.clone(),
            parser_provider: self.parser_provider.clone(),
            parser_backend: self.parser_backend.clone(),
            parser_version: self.parser_version.clone(),
            artifact_kind: self.artifact_kind.clone(),
            uri: self.uri.clone(),
            checksum: self.checksum.clone(),
            byte_size: self.byte_size,
            created_at: self.created_at,
        }
    }
}

impl Record for ParseArtifact {
    open spec fn same_as(&self, other: &Self) -> bool {
        &&& self.id@ == other.id@
        &&& self.tenant_id@ == other.tenant_id@
        &&& opt_text(self.owner_user_id) == opt_text(other.owner_user_id)
        &&& self.source_document_uri@ == other.source_document_uri@
        &&& self.source_id@ == other.source_id@
        &&& self.revision_id@ == other.revision_id@
        &&& self.parser_provider@ == other.parser_provider@
        &&& self.parser_backend@ == other.parser_backend@
        &&& opt_text(self.parser_version) == opt_text(other.parser_version)
        &&& self.artifact_kind@ == other.artifact_kind@
        &&& self.uri@ == other.uri@
        &&& self.checksum@ == other.checksum@
        &&& self.byte_size == other.byte_size
        &&& self.created_at == other.created_at
    }

    proof fn itself(&self) {
    }

    fn same(&self, other: &Self) -> (r: bool) {
        text_eq(self.id.as_str(), other.id.as_str())
            && text_eq(self.tenant_id.as_str(), other.tenant_id.as_str())
            && opt_eq(&self.owner_user_id, &other.owner_user_id)
            && text_eq(self.source_document_uri.as_str(), other.source_document_uri.as_str())
            && text_eq(self.source_id.as_str(), other.source_id.as_str())
            && text_eq(self.revision_id.as_str(), other.revision_id.as_str())
            && text_eq(self.parser_provider.as_str(), other.parser_provider.as_str())
            && text_eq(self.parser_backend.as_str(), other.parser_backend.as_str())
            && opt_eq(&self.parser_version, &other.parser_version)
            && text_eq(self.artifact_kind.as_str(), other.artifact_kind.as_str())
            && text_eq(self.uri.as_str(), other.uri.as_str())
            && text_eq(self.checksum.as_str(), other.checksum.as_str())
            && self.byte_size == other.byte_size
            && self.created_at == other.created_at
    }

    fn copy(&self) -> (r: Self) {
        self.clone()
    }
}

/// A block of a parsed document.
#[derive(Debug, PartialEq, Eq, Default)]
pub struct ParsedBlock {
    pub block_id: String,
    pub block_type: String,
    pub text: Option<String>,
    pub html: Option<String>,
    pub latex: Option<String>,
    pub image_ref: Option<String>,
    pub caption: Option<String>,
    pub footnote: Option<String>,
    pub section_path: List<String>,
    pub page_idx: Option<usize>,
    pub bbox: Option<Json>,
    pub heading_level: Option<usize>,
    pub reading_order: usize,
}

impl Clone for ParsedBlock {
    fn clone(&self) -> (r: Self)
        ensures
            r == *self,
    {
        ParsedBlock {
            block_id: self.block_id.clone(),
            block_type: self.block_type.clone(),
            text: self.text.clone(),
            html: self.html.clone(),
            latex: self.latex.clone(),
            image_ref: self.image_ref.clone(),
            caption: self.caption.clone(),
            footnote: self.footnote.clone(),
            section_path: self.section_path.clone(),
            page_idx: self.page_idx,
            bbox: self.bbox.clone(),
            heading_level: self.heading_level,
            reading_order: self.reading_order,
        }
    }
}

impl Record for ParsedBlock {
    open spec fn same_as(&self, other: &Self) -> bool {
        &&& self.block_id@ == other.block_id@
        &&& self.block_type@ == other.block_type@
        &&& opt_text(self.text) == opt_text(other.text)
        &&& opt_text(self.html) == opt_text(other.html)
        &&& opt_text(self.latex) == opt_text(other.latex)
        &&& opt_text(self.image_ref) == opt_text(other.image_ref)
        &&& opt_text(self.caption) == opt_text(other.caption)
        &&& opt_text(self.footnote) == opt_text(other.footnote)
        &&& texts(self.section_path@) == texts(other.section_path@)
        &&& self.page_idx == other.page_idx
        &&& opt_same(self.bbox, other.bbox)
        &&& self.heading_level == other.heading_level
        &&& self.reading_order == other.reading_order
    }

    proof fn itself(&self) {
        opt_itself(self.bbox);
    }

    fn same(&self, other: &Self) -> (r: bool) {
        text_eq(self.block_id.as_str(), other.block_id.as_str())
            && text_eq(self.block_type.as_str(), other.block_type.as_str())
            && opt_eq(&self.text, &other.text)
            && opt_eq(&self.html, &other.html)
            && opt_eq(&self.latex, &other.latex)
            && opt_eq(&self.image_ref, &other.image_ref)
            && opt_eq(&self.caption, &other.caption)
            && opt_eq(&self.footnote, &other.footnote)
            && texts_eq(&self.section_path, &other.section_path)
            && self.page_idx == other.page_idx
            && options_same(&self.bbox, &other.bbox)
            && self.heading_level == other.heading_level
            && self.reading_order == other.reading_order
    }

    fn copy(&self) -> (r: Self) {
        self.clone()
    }
}

/// A task that turns content into context nodes.
#[derive(Debug, PartialEq, Eq)]
pub struct IngestTask {
    pub task_id: String,
    pub tenant_id: String,
    pub owner_user_id: Option<String>,
    pub source_id: String,
    pub revision_id: String,
    pub source_document_uri: Option<String>,
    pub parser_provider: String,
    pub parser_backend: String,
    pub state: String,
    pub error: Option<String>,
    pub created_at: i64,
    pub updated_at: i64,
    pub completed_at: Option<i64>,
    pub status_url: Option<String>,
    pub result_url: Option<String>,
    pub queued_ahead: Option<usize>,
}

impl Clone for IngestTask {
    fn clone(&self) -> (r: Self)
        ensures
            r == *self,
    {
        IngestTask {
            task_id: self.task_id.clone(),
            tenant_id: self.tenant_id.clone(),
            owner_user_id: self.owner_user_id.clone(),
            source_id: self.source_id.clone(),
            revision_id: self.revision_id.clone(),
            source_document_uri: self.source_document_uri.clone(),
            parser_provider: self.parser_provider.clone(),
            parser_backend: self.parser_backend.clone(),
            state: self.state.clone(),
            error: self.error.clone(),
            created_at: self.created_at,
            updated_at: self.updated_at,
            completed_at: self.completed_at,
            status_url: self.status_url.clone(),
            result_url: self.result_url.clone(),
            queued_ahead: self.queued_ahead,
        }
    }
}

impl Record for IngestTask {
    open spec fn same_as(&self, other: &Self) -> bool {
        &&& self.task_id@ == other.task_id@
        &&& self.tenant_id@ == other.tenant_id@
        &&& opt_text(self.owner_user_id) == opt_text(other.owner_user_id)
        &&& self.source_id@ == other.source_id@
        &&& self.revision_id@ == other.revision_id@
        &&& opt_text(self.source_document_uri) == opt_text(other.source_document_uri)
        &&& self.parser_provider@ == other.parser_provider@
        &&& self.parser_backend@ == other.parser_backend@
        &&& self.state@ == other.state@
        &&& opt_text(self.error) == opt_text(other.error)
        &&& self.created_at == other.created_at
        &&& self.updated_at == other.updated_at
        &&& self.completed_at == other.completed_at
        &&& opt_text(self.status_url) == opt_text(other.status_url)
        &&& opt_text(self.result_url) == opt_text(other.result_url)
        &&& self.queued_ahead == other.queued_ahead
    }

    proof fn itself(&self) {
    }

    fn same(&self, other: &Self) -> (r: bool) {
        text_eq(self.task_id.as_str(), other.task_id.as_str())
            && text_eq(self.tenant_id.as_str(), other.tenant_id.as_str())
            && opt_eq(&self.owner_user_id, &other.owner_user_id)
            && text_eq(self.source_id.as_str(), other.source_id.as_str())
            && text_eq(self.revision_id.as_str(), other.revision_id.as_str())
            && opt_eq(&self.source_document_uri, &other.source_document_uri)
            && text_eq(self.parser_provider.as_str(), other.parser_provider.as_str())
            && text_eq(self.parser_backend.as_str(), other.parser_backend.as_str())
            && text_eq(self.state.as_str(), other.state.as_str())
            && opt_eq(&self.error, &other.error)
            && self.created_at == other.created_at
            && self.updated_at == other.updated_at
            && self.completed_at == other.completed_at
            && opt_eq(&self.status_url, &other.status_url)
            && opt_eq(&self.result_url, &other.result_url)
            && self.queued_ahead == other.queued_ahead
    }

    fn copy(&self) -> (r: Self) {
        self.clone()
    }
}

impl Row<String> for IngestTask {
    open spec fn key(&self) -> Seq<char> {
        self.task_id@
    }

    open spec fn tenant(&self) -> Seq<char> {
        self.tenant_id@
    }

    open spec fn rank(&self) -> Seq<char> {
        self.task_id@
    }

    fn key_of(&self) -> (k: String) {
        self.task_id.clone()
    }

    fn tenant_of(&self) -> (t: &str) {
        self.tenant_id.as_str()
    }

    fn rank_of(&self) -> (t: &str) {
        self.task_id.as_str()
    }
}

/// What an ingest task produced.
#[derive(Debug, PartialEq, Eq)]
pub struct IngestTaskResult {
    pub task: IngestTask,
    pub source_document_uri: String,
    pub source_id: String,
    pub revision_id: String,
    pub parse_artifacts: List<ParseArtifact>,
    pub parsed_blocks: List<ParsedBlock>,
    pub fragment_uris: List<String>,
    pub context_uris: List<String>,
}

impl Clone for IngestTaskResult {
    fn clone(&self) -> (r: Self)
        ensures
            r == *self,
    {
        IngestTaskResult {
            task: self.task.clone(),
            source_document_uri: self.source_document_uri.clone(),
            source_id: self.source_id.clone(),
            revision_id: self.revision_id.clone(),
            parse_artifacts: self.parse_artifacts.clone(),
            parsed_blocks: self.parsed_blocks.clone(),
            fragment_uris: self.fragment_uris.clone(),
            context_uris: self.context_uris.clone(),
        }
    }
}

impl Record for IngestTaskResult {
    open spec fn same_as(&self, other: &Self) -> bool {
        &&& self.task.same_as(&other.task)
        &&& self.source_document_uri@ == other.source_document_uri@
        &&& self.source_id@ == other.source_id@
        &&& self.revision_id@ == other.revision_id@
        &&& all_same(self.parse_artifacts@, other.parse_artifacts@)
        &&& all_same(self.parsed_blocks@, other.parsed_blocks@)
        &&& texts(self.fragment_uris@) == texts(other.fragment_uris@)
        &&& texts(self.context_uris@) == texts(other.context_uris@)
    }

    proof fn itself(&self) {
        self.task.itself();
        all_itself(self.parse_artifacts@);
        all_itself(self.parsed_blocks@);
    }

    fn same(&self, other: &Self) -> (r: bool) {
        self.task.same(&other.task)
            && text_eq(self.source_document_uri.as_str(), other.source_document_uri.as_str())
            && text_eq(self.source_id.as_str(), other.source_id.as_str())
            && text_eq(self.revision_id.as_str(), other.revision_id.as_str())
            && lists_same(&self.parse_artifacts, &other.parse_artifacts)
            && lists_same(&self.parsed_blocks, &other.parsed_blocks)
            && texts_eq(&self.fragment_uris, &other.fragment_uris)
            && texts_eq(&self.context_uris, &other.context_uris)
    }

    fn copy(&self) -> (r: Self) {
        self.clone()
    }
}

impl Row<String> for IngestTaskResult {
    open spec fn key(&self) -> Seq<char> {
        self.task.task_id@
    }

    open spec fn tenant(&self) -> Seq<char> {
        self.task.tenant_id@
    }

    open spec fn rank(&self) -> Seq<char> {
        self.task.task_id@
    }

    fn key_of(&self) -> (k: String) {
        self.task.task_id.clone()
    }

    fn tenant_of(&self) -> (t: &str) {
        self.task.tenant_id.as_str()
    }

    fn rank_of(&self) -> (t: &str) {
        self.task.task_id.as_str()
    }
}

/// The advice given before a company document is written.
#[derive(Debug, PartialEq, Eq)]
pub struct CompanyDocPreflightResponse {
    pub decision_id: String,
    pub recommended_action: String,
    /// The bits of a 32-bit float.
    pub confidence: u32,
    pub matched_sources: List<PreflightMatch>,
    pub reasons: List<String>,
}

impl Clone for CompanyDocPreflightResponse {
    fn clone(&self) -> (r: Self)
        ensures
            r == *self,
    {
        CompanyDocPreflightResponse {
            decision_id: self.decision_id.clone(),
            recommended_action: self.recommended_action.clone(),
            confidence: self.confidence,
            matched_sources: self.matched_sources.clone(),
            reasons: self.reasons.clone(),
        }
    }
}

impl Record for CompanyDocPreflightResponse {
    open spec fn same_as(&self, other: &Self) -> bool {
        &&& self.decision_id@ == other.decision_id@
        &&& self.recommended_action@ == other.recommended_action@
        &&& float_same(self.confidence, other.confidence)
        &&& all_same(self.matched_sources@, other.matched_sources@)
        &&& texts(self.reasons@) == texts(other.reasons@)
    }

    proof fn itself(&self) {
        all_itself(self.matched_sources@);
    }

    fn same(&self, other: &Self) -> (r: bool) {
        text_eq(self.decision_id.as_str(), other.decision_id.as_str())
            && text_eq(self.recommended_action.as_str(), other.recommended_action.as_str())
            && same_float(self.confidence, other.confidence)
            && lists_same(&self.matched_sources, &other.matched_sources)
            && texts_eq(&self.reasons, &other.reasons)
    }

    fn copy(&self) -> (r: Self) {
        self.clone()
    }
}

/// An existing source that a new document resembles.
#[derive(Debug, PartialEq, Eq)]
pub struct PreflightMatch {
    pub source_id: String,
    pub title: String,
    pub source_uri: String,
    /// The bits of a 32-bit float.
    pub confidence: u32,
}

impl Clone for PreflightMatch {
    fn clone(&self) -> (r: Self)
        ensures
            r == *self,
    {
        PreflightMatch {
            source_id: self.source_id.clone(),
            title: self.title.clone(),
            source_uri: self.source_uri.clone(),
            confidence: self.confidence,
        }
    }
}

impl Record for PreflightMatch {
    open spec fn same_as(&self, other: &Self) -> bool {
        &&& self.source_id@ == other.source_id@
        &&& self.title@ == other.title@
        &&& self.source_uri@ == other.source_uri@
        &&& float_same(self.confidence, other.confidence)
    }

    proof fn itself(&self) {
    }

    fn same(&self, other: &Self) -> (r: bool) {
        text_eq(self.source_id.as_str(), other.source_id.as_str())
            && text_eq(self.title.as_str(), other.title.as_str())
            && text_eq(self.source_uri.as_str(), other.source_uri.as_str())
            && same_float(self.confidence, other.confidence)
    }

    fn copy(&self) -> (r: Self) {
        self.clone()
    }
}

} // verus!
