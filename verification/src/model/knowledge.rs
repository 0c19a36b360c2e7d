//! Events, context nodes, state, insights, links, sessions and traces.

use vstd::prelude::*;

use crate::float::{float_same, same_float};
use crate::json::Json;
use crate::record::{
    all_itself, all_same, lists_same, opt_itself, opt_same, options_same, List, Record, Row,
};
use crate::text::{opt_eq, opt_text, text_eq, texts, texts_eq};

verus! {

/// Where a record comes from.
#[derive(Debug, PartialEq, Eq)]
pub struct SourceRef {
    pub kind: String,
    pub id: String,
    pub uri: Option<String>,
    pub meta: Option<Json>,
}

impl Clone for SourceRef {
    fn clone(&self) -> (r: Self)
        ensures
            r == *self,
    {
        SourceRef {
            kind: self.kind.clone(),
            id: self.id.clone(),
            uri: self.uri.clone(),
            meta: self.meta.clone(),
        }
    }
}

impl Record for SourceRef {
    open spec fn same_as(&self, other: &Self) -> bool {
        &&& self.kind@ == other.kind@
        &&& self.id@ == other.id@
        &&& opt_text(self.uri) == opt_text(other.uri)
        &&& opt_same(self.meta, other.meta)
    }

    proof fn itself(&self) {
        opt_itself(self.meta);
    }

    fn same(&self, other: &Self) -> (r: bool) {
        text_eq(self.kind.as_str(), other.kind.as_str())
            && text_eq(self.id.as_str(), other.id.as_str())
            && opt_eq(&self.uri, &other.uri)
            && options_same(&self.meta, &other.meta)
    }

    fn copy(&self) -> (r: Self) {
        self.clone()
    }
}

/// The registry row of an owner's event index.
#[derive(Debug, PartialEq, Eq)]
pub struct UserEventIndex {
    pub id: String,
    pub tenant_id: String,
    pub tenant_hash: String,
    pub owner_user_id_hash: String,
    pub event_index_uid: String,
    pub personal_context_index_uid: String,
    pub schema_version: u32,
    pub settings_hash: String,
    pub status: String,
    pub created_at: i64,
    pub last_event_at: Option<i64>,
    pub event_count_estimate: u64,
}

impl Clone for UserEventIndex {
    fn clone(&self) -> (r: Self)
        ensures
            r == *self,
    {
        UserEventIndex {
            id: self.id.clone(),
            tenant_id: self.tenant_id.clone(),
            tenant_hash: self.tenant_hash.clone(),
            owner_user_id_hash: self.owner_user_id_hash.clone(),
            event_index_uid: self.event_index_uid.clone(),
            personal_context_index_uid: self.personal_context_index_uid.clone(),
            schema_version: self.schema_version,
            settings_hash: self.settings_hash.clone(),
            status: self.status.clone(),
            created_at: self.created_at,
            last_event_at: self.last_event_at,
            event_count_estimate: self.event_count_estimate,
        }
    }
}

impl Record for UserEventIndex {
    open spec fn same_as(&self, other: &Self) -> bool {
        &&& self.id@ == other.id@
        &&& self.tenant_id@ == other.tenant_id@
        &&& self.tenant_hash@ == other.tenant_hash@
        &&& self.owner_user_id_hash@ == other.owner_user_id_hash@
        &&& self.event_index_uid@ == other.event_index_uid@
        &&& self.personal_context_index_uid@ == other.personal_context_index_uid@
        &&& self.schema_version == other.schema_version
        &&& self.settings_hash@ == other.settings_hash@
        &&& self.status@ == other.status@
        &&& self.created_at == other.created_at
        &&& self.last_event_at == other.last_event_at
        &&& self.event_count_estimate == other.event_count_estimate
    }

    proof fn itself(&self) {
    }

    fn same(&self, other: &Self) -> (r: bool) {
        text_eq(self.id.as_str(), other.id.as_str())
            && text_eq(self.tenant_id.as_str(), other.tenant_id.as_str())
            && text_eq(self.tenant_hash.as_str(), other.tenant_hash.as_str())
            && text_eq(self.owner_user_id_hash.as_str(), other.owner_user_id_hash.as_str())
            && text_eq(self.event_index_uid.as_str(), other.event_index_uid.as_str())
            && text_eq(self.personal_context_index_uid.as_str(), other.personal_context_index_uid.as_str())
            && self.schema_version == other.schema_version
            && text_eq(self.settings_hash.as_str(), other.settings_hash.as_str())
            && text_eq(self.status.as_str(), other.status.as_str())
            && self.created_at == other.created_at
            && self.last_event_at == other.last_event_at
            && self.event_count_estimate == other.event_count_estimate
    }

    fn copy(&self) -> (r: Self) {
        self.clone()
    }
}

impl Row<(String, String)> for UserEventIndex {
    open spec fn key(&self) -> (Seq<char>, Seq<char>) {
        (self.tenant_id@, self.owner_user_id_hash@)
    }

    open spec fn tenant(&self) -> Seq<char> {
        self.tenant_id@
    }

    open spec fn rank(&self) -> Seq<char> {
        self.id@
    }

    fn key_of(&self) -> (k: (String, String)) {
        (self.tenant_id.clone(), self.owner_user_id_hash.clone())
    }

    fn tenant_of(&self) -> (t: &str) {
        self.tenant_id.as_str()
    }

    fn rank_of(&self) -> (t: &str) {
        self.id.as_str()
    }
}

/// Something that happened to an entity of an owner.
#[derive(Debug, PartialEq, Eq)]
pub struct HistoryEvent {
    pub id: String,
    pub event_type: String,
    pub entity_type: String,
    pub entity_id: String,
    pub occurred_at: i64,
    pub observed_at: i64,
    pub source_kind: String,
    pub source_ref: SourceRef,
    pub text: String,
    pub payload: Json,
    pub tags: List<String>,
    pub privacy: String,
    pub tenant_id: String,
    pub owner_user_id: String,
    pub owner_user_id_hash: String,
    pub event_index_uid: String,
    pub event_index_schema_version: u32,
    pub idempotency_key_hash: Option<String>,
}

impl Clone for HistoryEvent {
    fn clone(&self) -> (r: Self)
        ensures
            r == *self,
    {
        HistoryEvent {
            id: self.id.clone(),
            event_type: self.event_type.clone(),
            entity_type: self.entity_type.clone(),
            entity_id: self.entity_id.clone(),
            occurred_at: self.occurred_at,
            observed_at: self.observed_at,
            source_kind: self.source_kind.clone(),
            source_ref: self.source_ref.clone(),
            text: self.text.clone(),
            payload: self.payload.clone(),
            tags: self.tags.clone(),
            privacy: self.privacy.clone(),
            tenant_id: self.tenant_id.clone(),
            owner_user_id: self.owner_user_id.clone(),
            owner_user_id_hash: self.owner_user_id_hash.clone(),
            event_index_uid: self.event_index_uid.clone(),
            event_index_schema_version: self.event_index_schema_version,
            idempotency_key_hash: self.idempotency_key_hash.clone(),
        }
    }
}

impl Record for HistoryEvent {
    open spec fn same_as(&self, other: &Self) -> bool {
        &&& self.id@ == other.id@
        &&& self.event_type@ == other.event_type@
        &&& self.entity_type@ == other.entity_type@
        &&& self.entity_id@ == other.entity_id@
        &&& self.occurred_at == other.occurred_at
        &&& self.observed_at == other.observed_at
        &&& self.source_kind@ == other.source_kind@
        &&& self.source_ref.same_as(&other.source_ref)
        &&& self.text@ == other.text@
        &&& self.payload.same_as(&other.payload)
        &&& texts(self.tags@) == texts(other.tags@)
        &&& self.privacy@ == other.privacy@
        &&& self.tenant_id@ == other.tenant_id@
        &&& self.owner_user_id@ == other.owner_user_id@
        &&& self.owner_user_id_hash@ == other.owner_user_id_hash@
        &&& self.event_index_uid@ == other.event_index_uid@
        &&& self.event_index_schema_version == other.event_index_schema_version
        &&& opt_text(self.idempotency_key_hash) == opt_text(other.idempotency_key_hash)
    }

    proof fn itself(&self) {
        self.source_ref.itself();
        self.payload.itself();
    }

    fn same(&self, other: &Self) -> (r: bool) {
        text_eq(self.id.as_str(), other.id.as_str())
            && text_eq(self.event_type.as_str(), other.event_type.as_str())
            && text_eq(self.entity_type.as_str(), other.entity_type.as_str())
            && text_eq(self.entity_id.as_str(), other.entity_id.as_str())
            && self.occurred_at == other.occurred_at
            && self.observed_at == other.observed_at
            && text_eq(self.source_kind.as_str(), other.source_kind.as_str())
            && self.source_ref.same(&other.source_ref)
            && text_eq(self.text.as_str(), other.text.as_str())
            && self.payload.same(&other.payload)
            && texts_eq(&self.tags, &other.tags)
            && text_eq(self.privacy.as_str(), other.privacy.as_str())
            && text_eq(self.tenant_id.as_str(), other.tenant_id.as_str())
            && text_eq(self.owner_user_id.as_str(), other.owner_user_id.as_str())
            && text_eq(self.owner_user_id_hash.as_str(), other.owner_user_id_hash.as_str())
            && text_eq(self.event_index_uid.as_str(), other.event_index_uid.as_str())
            && self.event_index_schema_version == other.event_index_schema_version
            && opt_eq(&self.idempotency_key_hash, &other.idempotency_key_hash)
    }

    fn copy(&self) -> (r: Self) {
        self.clone()
    }
}

impl Row<String> for HistoryEvent {
    open spec fn key(&self) -> Seq<char> {
        self.id@
    }

    open spec fn tenant(&self) -> Seq<char> {
        self.tenant_id@
    }

    open spec fn rank(&self) -> Seq<char> {
        self.id@
    }

    fn key_of(&self) -> (k: String) {
        self.id.clone()
    }

    fn tenant_of(&self) -> (t: &str) {
        self.tenant_id.as_str()
    }

    fn rank_of(&self) -> (t: &str) {
        self.id.as_str()
    }
}

/// A reference to a parse artifact.
#[derive(Debug, PartialEq, Eq)]
pub struct ParseArtifactRef {
    pub id: String,
    pub artifact_kind: String,
    pub uri: String,
    pub checksum: Option<String>,
}

impl Clone for ParseArtifactRef {
    fn clone(&self) -> (r: Self)
        ensures
            r == *self,
    {
        ParseArtifactRef {
            id: self.id.clone(),
            artifact_kind: self.artifact_kind.clone(),
            uri: self.uri.clone(),
            checksum: self.checksum.clone(),
        }
    }
}

impl Record for ParseArtifactRef {
    open spec fn same_as(&self, other: &Self) -> bool {
        &&& self.id@ == other.id@
        &&& self.artifact_kind@ == other.artifact_kind@
        &&& self.uri@ == other.uri@
        &&& opt_text(self.checksum) == opt_text(other.checksum)
    }

    proof fn itself(&self) {
    }

    fn same(&self, other: &Self) -> (r: bool) {
        text_eq(self.id.as_str(), other.id.as_str())
            && text_eq(self.artifact_kind.as_str(), other.artifact_kind.as_str())
            && text_eq(self.uri.as_str(), other.uri.as_str())
            && opt_eq(&self.checksum, &other.checksum)
    }

    fn copy(&self) -> (r: Self) {
        self.clone()
    }
}

/// A node of a context index.
#[derive(Debug, PartialEq, Eq)]
pub struct ContextNode {
    pub uri: String,
    pub title: String,
    pub layer: u8,
    pub body: String,
    pub tenant_id: String,
    pub owner_user_id: Option<String>,
    pub index_uid: String,
    pub index_kind: String,
    pub ancestor_uris: List<String>,
    pub node_kind: String,
    pub retrieval_role: String,
    pub retrieval_enabled: bool,
    pub parent_uri: Option<String>,
    pub source_document_uri: Option<String>,
    pub fragment_index: Option<usize>,
    pub char_start: Option<usize>,
    pub char_end: Option<usize>,
    pub token_estimate: Option<usize>,
    pub checksum: Option<String>,
    pub source_id: Option<String>,
    pub revision_id: Option<String>,
    pub block_type: Option<String>,
    pub page_idx: Option<usize>,
    pub bbox: Option<Json>,
    pub section_path: List<String>,
    pub heading_level: Option<usize>,
    pub asset_refs: List<String>,
    pub artifact_refs: List<ParseArtifactRef>,
    pub status: String,
    pub privacy: String,
    pub updated_at: i64,
}

impl Clone for ContextNode {
    fn clone(&self) -> (r: Self)
        ensures
            r == *self,
    {
        ContextNode {
            uri: self.uri.clone(),
            title: self.title.clone(),
            layer: self.layer,
            body: self.body.clone(),
            tenant_id: self.tenant_id.clone(),
            owner_user_id: self.owner_user_id.clone(),
            index_uid: self.index_uid.clone(),
            index_kind: self.index_kind.clone(),
            ancestor_uris: self.ancestor_uris.clone(),
            node_kind: self.node_kind.clone(),
            retrieval_role: self.retrieval_role.clone(),
            retrieval_enabled: self.retrieval_enabled,
            parent_uri: self.parent_uri.clone(),
            source_document_uri: self.source_document_uri.clone(),
            fragment_index: self.fragment_index,
            char_start: self.char_start,
            char_end: self.char_end,
            token_estimate: self.token_estimate,
            checksum: self.checksum.clone(),
            source_id: self.source_id.clone(),
            revision_id: self.revision_id.clone(),
            block_type: self.block_type.clone(),
            page_idx: self.page_idx,
            bbox: self.bbox.clone(),
            section_path: self.section_path.clone(),
            heading_level: self.heading_level,
            asset_refs: self.asset_refs.clone(),
            artifact_refs: self.artifact_refs.clone(),
            status: self.status.clone(),
            privacy: self.privacy.clone(),
            updated_at: self.updated_at,
        }
    }
}

impl Record for ContextNode {
    open spec fn same_as(&self, other: &Self) -> bool {
        &&& self.uri@ == other.uri@
        &&& self.title@ == other.title@
        &&& self.layer == other.layer
        &&& self.body@ == other.body@
        &&& self.tenant_id@ == other.tenant_id@
        &&& opt_text(self.owner_user_id) == opt_text(other.owner_user_id)
        &&& self.index_uid@ == other.index_uid@
        &&& self.index_kind@ == other.index_kind@
        &&& texts(self.ancestor_uris@) == texts(other.ancestor_uris@)
        &&& self.node_kind@ == other.node_kind@
        &&& self.retrieval_role@ == other.retrieval_role@
        &&& self.retrieval_enabled == other.retrieval_enabled
        &&& opt_text(self.parent_uri) == opt_text(other.parent_uri)
        &&& opt_text(self.source_document_uri) == opt_text(other.source_document_uri)
        &&& self.fragment_index == other.fragment_index
        &&& self.char_start == other.char_start
        &&& self.char_end == other.char_end
        &&& self.token_estimate == other.token_estimate
        &&& opt_text(self.checksum) == opt_text(other.checksum)
        &&& opt_text(self.source_id) == opt_text(other.source_id)
        &&& opt_text(self.revision_id) == opt_text(other.revision_id)
        &&& opt_text(self.block_type) == opt_text(other.block_type)
        &&& self.page_idx == other.page_idx
        &&& opt_same(self.bbox, other.bbox)
        &&& texts(self.section_path@) == texts(other.section_path@)
        &&& self.heading_level == other.heading_level
        &&& texts(self.asset_refs@) == texts(other.asset_refs@)
        &&& all_same(self.artifact_refs@, other.artifact_refs@)
        &&& self.status@ == other.status@
        &&& self.privacy@ == other.privacy@
        &&& self.updated_at == other.updated_at
    }

    proof fn itself(&self) {
        opt_itself(self.bbox);
        all_itself(self.artifact_refs@);
    }

    fn same(&self, other: &Self) -> (r: bool) {
        text_eq(self.uri.as_str(), other.uri.as_str())
            && text_eq(self.title.as_str(), other.title.as_str())
            && self.layer == other.layer
            && text_eq(self.body.as_str(), other.body.as_str())
            && text_eq(self.tenant_id.as_str(), other.tenant_id.as_str())
            && opt_eq(&self.owner_user_id, &other.owner_user_id)
            && text_eq(self.index_uid.as_str(), other.index_uid.as_str())
            && text_eq(self.index_kind.as_str(), other.index_kind.as_str())
            && texts_eq(&self.ancestor_uris, &other.ancestor_uris)
            && text_eq(self.node_kind.as_str(), other.node_kind.as_str())
            && text_eq(self.retrieval_role.as_str(), other.retrieval_role.as_str())
            && self.retrieval_enabled == other.retrieval_enabled
            && opt_eq(&self.parent_uri, &other.parent_uri)
            && opt_eq(&self.source_document_uri, &other.source_document_uri)
            && self.fragment_index == other.fragment_index
            && self.char_start == other.char_start
            && self.char_end == other.char_end
            && self.token_estimate == other.token_estimate
            && opt_eq(&self.checksum, &other.checksum)
            && opt_eq(&self.source_id, &other.source_id)
            && opt_eq(&self.revision_id, &other.revision_id)
            && opt_eq(&self.block_type, &other.block_type)
            && self.page_idx == other.page_idx
            && options_same(&self.bbox, &other.bbox)
            && texts_eq(&self.section_path, &other.section_path)
            && self.heading_level == other.heading_level
            && texts_eq(&self.asset_refs, &other.asset_refs)
            && lists_same(&self.artifact_refs, &other.artifact_refs)
            && text_eq(self.status.as_str(), other.status.as_str())
            && text_eq(self.privacy.as_str(), other.privacy.as_str())
            && self.updated_at == other.updated_at
    }

    fn copy(&self) -> (r: Self) {
        self.clone()
    }
}

/// A versioned fact about an owner.
#[derive(Debug, PartialEq, Eq)]
pub struct StateItem {
    pub id: String,
    pub tenant_id: String,
    pub owner_user_id: String,
    pub state_type: String,
    pub natural_key: String,
    pub title: String,
    pub statement: String,
    pub value: Json,
    pub status: String,
    /// The bits of a 32-bit float.
    pub confidence: u32,
    /// The bits of a 32-bit float.
    pub salience: u32,
    pub valid_from: Option<i64>,
    pub valid_to: Option<i64>,
    pub source_refs: List<SourceRef>,
    pub context_uri: String,
    pub current_version: u64,
    pub supersedes: List<String>,
    pub created_at: i64,
    pub updated_at: i64,
}

impl Clone for StateItem {
    fn clone(&self) -> (r: Self)
        ensures
            r == *self,
    {
        StateItem {
            id: self.id.clone(),
            tenant_id: self.tenant_id.clone(),
            owner_user_id: self.owner_user_id.clone(),
            state_type: self.state_type.clone(),
            natural_key: self.natural_key.clone(),
            title: self.title.clone(),
            statement: self.statement.clone(),
            value: self.value.clone(),
            status: self.status.clone(),
            confidence: self.confidence,
            salience: self.salience,
            valid_from: self.valid_from,
            valid_to: self.valid_to,
            source_refs: self.source_refs.clone(),
            context_uri: self.context_uri.clone(),
            current_version: self.current_version,
            supersedes: self.supersedes.clone(),
            created_at: self.created_at,
            updated_at: self.updated_at,
        }
    }
}

impl Record for StateItem {
    open spec fn same_as(&self, other: &Self) -> bool {
        &&& self.id@ == other.id@
        &&& self.tenant_id@ == other.tenant_id@
        &&& self.owner_user_id@ == other.owner_user_id@
        &&& self.state_type@ == other.state_type@
        &&& self.natural_key@ == other.natural_key@
        &&& self.title@ == other.title@
        &&& self.statement@ == other.statement@
        &&& self.value.same_as(&other.value)
        &&& self.status@ == other.status@
        &&& float_same(self.confidence, other.confidence)
        &&& float_same(self.salience, other.salience)
        &&& self.valid_from == other.valid_from
        &&& self.valid_to == other.valid_to
        &&& all_same(self.source_refs@, other.source_refs@)
        &&& self.context_uri@ == other.context_uri@
        &&& self.current_version == other.current_version
        &&& texts(self.supersedes@) == texts(other.supersedes@)
        &&& self.created_at == other.created_at
        &&& self.updated_at == other.updated_at
    }

    proof fn itself(&self) {
        self.value.itself();
        all_itself(self.source_refs@);
    }

    fn same(&self, other: &Self) -> (r: bool) {
        text_eq(self.id.as_str(), other.id.as_str())
            && text_eq(self.tenant_id.as_str(), other.tenant_id.as_str())
            && text_eq(self.owner_user_id.as_str(), other.owner_user_id.as_str())
            && text_eq(self.state_type.as_str(), other.state_type.as_str())
            && text_eq(self.natural_key.as_str(), other.natural_key.as_str())
            && text_eq(self.title.as_str(), other.title.as_str())
            && text_eq(self.statement.as_str(), other.statement.as_str())
            && self.value.same(&other.value)
            && text_eq(self.status.as_str(), other.status.as_str())
            && same_float(self.confidence, other.confidence)
            && same_float(self.salience, other.salience)
            && self.valid_from == other.valid_from
            && self.valid_to == other.valid_to
            && lists_same(&self.source_refs, &other.source_refs)
            && text_eq(self.context_uri.as_str(), other.context_uri.as_str())
            && self.current_version == other.current_version
            && texts_eq(&self.supersedes, &other.supersedes)
            && self.created_at == other.created_at
            && self.updated_at == other.updated_at
    }

    fn copy(&self) -> (r: Self) {
        self.clone()
    }
}

impl Row<(String, String, String)> for StateItem {
    open spec fn key(&self) -> (Seq<char>, Seq<char>, Seq<char>) {
        (self.tenant_id@, self.owner_user_id@, self.natural_key@)
    }

    open spec fn tenant(&self) -> Seq<char> {
        self.tenant_id@
    }

    open spec fn rank(&self) -> Seq<char> {
        self.id@
    }

    fn key_of(&self) -> (k: (String, String, String)) {
        (self.tenant_id.clone(), self.owner_user_id.clone(), self.natural_key.clone())
    }

    fn tenant_of(&self) -> (t: &str) {
        self.tenant_id.as_str()
    }

    fn rank_of(&self) -> (t: &str) {
        self.id.as_str()
    }
}

/// An insight of an owner.
#[derive(Debug, PartialEq, Eq)]
pub struct InsightRecord {
    pub id: String,
    pub tenant_id: String,
    pub insight_type: String,
    pub title: String,
    pub statement: String,
    pub status: String,
    /// The bits of a 32-bit float.
    pub confidence: u32,
    /// The bits of a 32-bit float.
    pub salience: u32,
    pub context_uri: String,
    pub source_refs: List<SourceRef>,
    pub owner_user_id: String,
    pub privacy: String,
    pub created_at: i64,
    pub updated_at: i64,
}

impl Clone for InsightRecord {
    fn clone(&self) -> (r: Self)
        ensures
            r == *self,
    {
        InsightRecord {
            id: self.id.clone(),
            tenant_id: self.tenant_id.clone(),
            insight_type: self.insight_type.clone(),
            title: self.title.clone(),
            statement: self.statement.clone(),
            status: self.status.clone(),
            confidence: self.confidence,
            salience: self.salience,
            context_uri: self.context_uri.clone(),
            source_refs: self.source_refs.clone(),
            owner_user_id: self.owner_user_id.clone(),
            privacy: self.privacy.clone(),
            created_at: self.created_at,
            updated_at: self.updated_at,
        }
    }
}

impl Record for InsightRecord {
    open spec fn same_as(&self, other: &Self) -> bool {
        &&& self.id@ == other.id@
        &&& self.tenant_id@ == other.tenant_id@
        &&& self.insight_type@ == other.insight_type@
        &&& self.title@ == other.title@
        &&& self.statement@ == other.statement@
        &&& self.status@ == other.status@
        &&& float_same(self.confidence, other.confidence)
        &&& float_same(self.salience, other.salience)
        &&& self.context_uri@ == other.context_uri@
        &&& all_same(self.source_refs@, other.source_refs@)
        &&& self.owner_user_id@ == other.owner_user_id@
        &&& self.privacy@ == other.privacy@
        &&& self.created_at == other.created_at
        &&& self.updated_at == other.updated_at
    }

    proof fn itself(&self) {
        all_itself(self.source_refs@);
    }

    fn same(&self, other: &Self) -> (r: bool) {
        text_eq(self.id.as_str(), other.id.as_str())
            && text_eq(self.tenant_id.as_str(), other.tenant_id.as_str())
            && text_eq(self.insight_type.as_str(), other.insight_type.as_str())
            && text_eq(self.title.as_str(), other.title.as_str())
            && text_eq(self.statement.as_str(), other.statement.as_str())
            && text_eq(self.status.as_str(), other.status.as_str())
            && same_float(self.confidence, other.confidence)
            && same_float(self.salience, other.salience)
            && text_eq(self.context_uri.as_str(), other.context_uri.as_str())
            && lists_same(&self.source_refs, &other.source_refs)
            && text_eq(self.owner_user_id.as_str(), other.owner_user_id.as_str())
            && text_eq(self.privacy.as_str(), other.privacy.as_str())
            && self.created_at == other.created_at
            && self.updated_at == other.updated_at
    }

    fn copy(&self) -> (r: Self) {
        self.clone()
    }
}

impl Row<String> for InsightRecord {
    open spec fn key(&self) -> Seq<char> {
        self.id@
    }

    open spec fn tenant(&self) -> Seq<char> {
        self.tenant_id@
    }

    open spec fn rank(&self) -> Seq<char> {
        self.id@
    }

    fn key_of(&self) -> (k: String) {
        self.id.clone()
    }

    fn tenant_of(&self) -> (t: &str) {
        self.tenant_id.as_str()
    }

    fn rank_of(&self) -> (t: &str) {
        self.id.as_str()
    }
}

/// A directed relation between two context nodes.
#[derive(Debug, PartialEq, Eq)]
pub struct KnowledgeLink {
    pub id: String,
    pub tenant_id: String,
    pub owner_user_id: Option<String>,
    pub source_uri: String,
    pub target_uri: String,
    pub source_title: Option<String>,
    pub target_title: Option<String>,
    pub relation: String,
    pub rationale: Option<String>,
    pub evidence_text: Option<String>,
    /// The bits of a 32-bit float.
    pub confidence: u32,
    pub created_by: String,
    pub status: String,
    pub tags: List<String>,
    pub created_at: i64,
    pub updated_at: i64,
}

impl Clone for KnowledgeLink {
    fn clone(&self) -> (r: Self)
        ensures
            r == *self,
    {
        KnowledgeLink {
            id: self.id.clone(),
            tenant_id: self.tenant_id.clone(),
            owner_user_id: self.owner_user_id.clone(),
            source_uri: self.source_uri.clone(),
            target_uri: self.target_uri.clone(),
            source_title: self.source_title.clone(),
            target_title: self.target_title.clone(),
            relation: self.relation.clone(),
            rationale: self.rationale.clone(),
            evidence_text: self.evidence_text.clone(),
            confidence: self.confidence,
            created_by: self.created_by.clone(),
            status: self.status.clone(),
            tags: self.tags.clone(),
            created_at: self.created_at,
            updated_at: self.updated_at,
        }
    }
}

impl Record for KnowledgeLink {
    open spec fn same_as(&self, other: &Self) -> bool {
        &&& self.id@ == other.id@
        &&& self.tenant_id@ == other.tenant_id@
        &&& opt_text(self.owner_user_id) == opt_text(other.owner_user_id)
        &&& self.source_uri@ == other.source_uri@
        &&& self.target_uri@ == other.target_uri@
        &&& opt_text(self.source_title) == opt_text(other.source_title)
        &&& opt_text(self.target_title) == opt_text(other.target_title)
        &&& self.relation@ == other.relation@
        &&& opt_text(self.rationale) == opt_text(other.rationale)
        &&& opt_text(self.evidence_text) == opt_text(other.evidence_text)
        &&& float_same(self.confidence, other.confidence)
        &&& self.created_by@ == other.created_by@
        &&& self.status@ == other.status@
        &&& texts(self.tags@) == texts(other.tags@)
        &&& self.created_at == other.created_at
        &&& self.updated_at == other.updated_at
    }

    proof fn itself(&self) {
    }

    fn same(&self, other: &Self) -> (r: bool) {
        text_eq(self.id.as_str(), other.id.as_str())
            && text_eq(self.tenant_id.as_str(), other.tenant_id.as_str())
            && opt_eq(&self.owner_user_id, &other.owner_user_id)
            && text_eq(self.source_uri.as_str(), other.source_uri.as_str())
            && text_eq(self.target_uri.as_str(), other.target_uri.as_str())
            && opt_eq(&self.source_title, &other.source_title)
            && opt_eq(&self.target_title, &other.target_title)
            && text_eq(self.relation.as_str(), other.relation.as_str())
            && opt_eq(&self.rationale, &other.rationale)
            && opt_eq(&self.evidence_text, &other.evidence_text)
            && same_float(self.confidence, other.confidence)
            && text_eq(self.created_by.as_str(), other.created_by.as_str())
            && text_eq(self.status.as_str(), other.status.as_str())
            && texts_eq(&self.tags, &other.tags)
            && self.created_at == other.created_at
            && self.updated_at == other.updated_at
    }

    fn copy(&self) -> (r: Self) {
        self.clone()
    }
}

impl Row<String> for KnowledgeLink {
    open spec fn key(&self) -> Seq<char> {
        self.id@
    }

    open spec fn tenant(&self) -> Seq<char> {
        self.tenant_id@
    }

    open spec fn rank(&self) -> Seq<char> {
        self.id@
    }

    fn key_of(&self) -> (k: String) {
        self.id.clone()
    }

    fn tenant_of(&self) -> (t: &str) {
        self.tenant_id.as_str()
    }

    fn rank_of(&self) -> (t: &str) {
        self.id.as_str()
    }
}

/// A conversation of an owner.
#[derive(Debug, PartialEq, Eq)]
pub struct SessionRecord {
    pub id: String,
    pub tenant_id: String,
    pub owner_user_id: String,
    pub title: String,
    pub status: String,
    pub messages: List<Json>,
    pub created_at: i64,
}

impl Clone for SessionRecord {
    fn clone(&self) -> (r: Self)
        ensures
            r == *self,
    {
        SessionRecord {
            id: self.id.clone(),
            tenant_id: self.tenant_id.clone(),
            owner_user_id: self.owner_user_id.clone(),
            title: self.title.clone(),
            status: self.status.clone(),
            messages: self.messages.clone(),
            created_at: self.created_at,
        }
    }
}

impl Record for SessionRecord {
    open spec fn same_as(&self, other: &Self) -> bool {
        &&& self.id@ == other.id@
        &&& self.tenant_id@ == other.tenant_id@
        &&& self.owner_user_id@ == other.owner_user_id@
        &&& self.title@ == other.title@
        &&& self.status@ == other.status@
        &&& all_same(self.messages@, other.messages@)
        &&& self.created_at == other.created_at
    }

    proof fn itself(&self) {
        all_itself(self.messages@);
    }

    fn same(&self, other: &Self) -> (r: bool) {
        text_eq(self.id.as_str(), other.id.as_str())
            && text_eq(self.tenant_id.as_str(), other.tenant_id.as_str())
            && text_eq(self.owner_user_id.as_str(), other.owner_user_id.as_str())
            && text_eq(self.title.as_str(), other.title.as_str())
            && text_eq(self.status.as_str(), other.status.as_str())
            && lists_same(&self.messages, &other.messages)
            && self.created_at == other.created_at
    }

    fn copy(&self) -> (r: Self) {
        self.clone()
    }
}

impl Row<String> for SessionRecord {
    open spec fn key(&self) -> Seq<char> {
        self.id@
    }

    open spec fn tenant(&self) -> Seq<char> {
        self.tenant_id@
    }

    open spec fn rank(&self) -> Seq<char> {
        self.id@
    }

    fn key_of(&self) -> (k: String) {
        self.id.clone()
    }

    fn tenant_of(&self) -> (t: &str) {
        self.tenant_id.as_str()
    }

    fn rank_of(&self) -> (t: &str) {
        self.id.as_str()
    }
}

/// What one retrieval did.
#[derive(Debug, PartialEq, Eq)]
pub struct TraceRecord {
    pub id: String,
    pub tenant_id: String,
    pub owner_user_id: Option<String>,
    pub query: String,
    pub mode: String,
    pub stages: List<Json>,
    pub context_uris: List<String>,
    pub created_at: i64,
}

impl Clone for TraceRecord {
    fn clone(&self) -> (r: Self)
        ensures
            r == *self,
    {
        TraceRecord {
            id: self.id.clone(),
            tenant_id: self.tenant_id.clone(),
            owner_user_id: self.owner_user_id.clone(),
            query: self.query.clone(),
            mode: self.mode.clone(),
            stages: self.stages.clone(),
            context_uris: self.context_uris.clone(),
            created_at: self.created_at,
        }
    }
}

impl Record for TraceRecord {
    open spec fn same_as(&self, other: &Self) -> bool {
        &&& self.id@ == other.id@
        &&& self.tenant_id@ == other.tenant_id@
        &&& opt_text(self.owner_user_id) == opt_text(other.owner_user_id)
        &&& self.query@ == other.query@
        &&& self.mode@ == other.mode@
        &&& all_same(self.stages@, other.stages@)
        &&& texts(self.context_uris@) == texts(other.context_uris@)
        &&& self.created_at == other.created_at
    }

    proof fn itself(&self) {
        all_itself(self.stages@);
    }

    fn same(&self, other: &Self) -> (r: bool) {
        text_eq(self.id.as_str(), other.id.as_str())
            && text_eq(self.tenant_id.as_str(), other.tenant_id.as_str())
            && opt_eq(&self.owner_user_id, &other.owner_user_id)
            && text_eq(self.query.as_str(), other.query.as_str())
            && text_eq(self.mode.as_str(), other.mode.as_str())
            && lists_same(&self.stages, &other.stages)
            && texts_eq(&self.context_uris, &other.context_uris)
            && self.created_at == other.created_at
    }

    fn copy(&self) -> (r: Self) {
        self.clone()
    }
}

impl Row<String> for TraceRecord {
    open spec fn key(&self) -> Seq<char> {
        self.id@
    }

    open spec fn tenant(&self) -> Seq<char> {
        self.tenant_id@
    }

    open spec fn rank(&self) -> Seq<char> {
        self.id@
    }

    fn key_of(&self) -> (k: String) {
        self.id.clone()
    }

    fn tenant_of(&self) -> (t: &str) {
        self.tenant_id.as_str()
    }

    fn rank_of(&self) -> (t: &str) {
        self.id.as_str()
    }
}

/// A structured dataset.
#[derive(Debug, PartialEq, Eq)]
pub struct DatasetRecord {
    pub id: String,
    pub tenant_id: String,
    pub dataset_key: String,
    pub title: String,
    pub schema_version: u32,
    pub status: String,
    pub columns: List<Json>,
}

impl Clone for DatasetRecord {
    fn clone(&self) -> (r: Self)
        ensures
            r == *self,
    {
        DatasetRecord {
            id: self.id.clone(),
            tenant_id: self.tenant_id.clone(),
            dataset_key: self.dataset_key.clone(),
            title: self.title.clone(),
            schema_version: self.schema_version,
            status: self.status.clone(),
            columns: self.columns.clone(),
        }
    }
}

impl Record for DatasetRecord {
    open spec fn same_as(&self, other: &Self) -> bool {
        &&& self.id@ == other.id@
        &&& self.tenant_id@ == other.tenant_id@
        &&& self.dataset_key@ == other.dataset_key@
        &&& self.title@ == other.title@
        &&& self.schema_version == other.schema_version
        &&& self.status@ == other.status@
        &&& all_same(self.columns@, other.columns@)
    }

    proof fn itself(&self) {
        all_itself(self.columns@);
    }

    fn same(&self, other: &Self) -> (r: bool) {
        text_eq(self.id.as_str(), other.id.as_str())
            && text_eq(self.tenant_id.as_str(), other.tenant_id.as_str())
            && text_eq(self.dataset_key.as_str(), other.dataset_key.as_str())
            && text_eq(self.title.as_str(), other.title.as_str())
            && self.schema_version == other.schema_version
            && text_eq(self.status.as_str(), other.status.as_str())
            && lists_same(&self.columns, &other.columns)
    }

    fn copy(&self) -> (r: Self) {
        self.clone()
    }
}

impl Row<String> for DatasetRecord {
    open spec fn key(&self) -> Seq<char> {
        self.dataset_key@
    }

    open spec fn tenant(&self) -> Seq<char> {
        self.tenant_id@
    }

    open spec fn rank(&self) -> Seq<char> {
        self.dataset_key@
    }

    fn key_of(&self) -> (k: String) {
        self.dataset_key.clone()
    }

    fn tenant_of(&self) -> (t: &str) {
        self.tenant_id.as_str()
    }

    fn rank_of(&self) -> (t: &str) {
        self.dataset_key.as_str()
    }
}

/// One period of a dataset.
#[derive(Debug, PartialEq, Eq)]
pub struct StructuredSnapshot {
    pub id: String,
    pub tenant_id: String,
    pub dataset_key: String,
    pub owner_user_id: String,
    pub period_key: String,
    pub period_start: i64,
    pub period_end: i64,
    pub row_count: usize,
    pub status: String,
}

impl Clone for StructuredSnapshot {
    fn clone(&self) -> (r: Self)
        ensures
            r == *self,
    {
        StructuredSnapshot {
            id: self.id.clone(),
            tenant_id: self.tenant_id.clone(),
            dataset_key: self.dataset_key.clone(),
            owner_user_id: self.owner_user_id.clone(),
            period_key: self.period_key.clone(),
            period_start: self.period_start,
            period_end: self.period_end,
            row_count: self.row_count,
            status: self.status.clone(),
        }
    }
}

impl Record for StructuredSnapshot {
    open spec fn same_as(&self, other: &Self) -> bool {
        &&& self.id@ == other.id@
        &&& self.tenant_id@ == other.tenant_id@
        &&& self.dataset_key@ == other.dataset_key@
        &&& self.owner_user_id@ == other.owner_user_id@
        &&& self.period_key@ == other.period_key@
        &&& self.period_start == other.period_start
        &&& self.period_end == other.period_end
        &&& self.row_count == other.row_count
        &&& self.status@ == other.status@
    }

    proof fn itself(&self) {
    }

    fn same(&self, other: &Self) -> (r: bool) {
        text_eq(self.id.as_str(), other.id.as_str())
            && text_eq(self.tenant_id.as_str(), other.tenant_id.as_str())
            && text_eq(self.dataset_key.as_str(), other.dataset_key.as_str())
            && text_eq(self.owner_user_id.as_str(), other.owner_user_id.as_str())
            && text_eq(self.period_key.as_str(), other.period_key.as_str())
            && self.period_start == other.period_start
            && self.period_end == other.period_end
            && self.row_count == other.row_count
            && text_eq(self.status.as_str(), other.status.as_str())
    }

    fn copy(&self) -> (r: Self) {
        self.clone()
    }
}

impl Row<String> for StructuredSnapshot {
    open spec fn key(&self) -> Seq<char> {
        self.id@
    }

    open spec fn tenant(&self) -> Seq<char> {
        self.tenant_id@
    }

    open spec fn rank(&self) -> Seq<char> {
        self.id@
    }

    fn key_of(&self) -> (k: String) {
        self.id.clone()
    }

    fn tenant_of(&self) -> (t: &str) {
        self.tenant_id.as_str()
    }

    fn rank_of(&self) -> (t: &str) {
        self.id.as_str()
    }
}

/// An audited administrative action.
#[derive(Debug, PartialEq, Eq)]
pub struct AuditRecord {
    pub id: String,
    pub tenant_id: String,
    pub request_id: String,
    pub principal_scope: String,
    pub principal_owner_user_id_hash: Option<String>,
    pub resource_id_hash: String,
    pub action: String,
    pub reason_code: String,
    pub reason_fingerprint: String,
    pub outcome: String,
    pub error_kind: Option<String>,
    pub operation_id: Option<String>,
    pub occurred_at: i64,
    pub updated_at: i64,
}

impl Clone for AuditRecord {
    fn clone(&self) -> (r: Self)
        ensures
            r == *self,
    {
        AuditRecord {
            id: self.id.clone(),
            tenant_id: self.tenant_id.clone(),
            request_id: self.request_id.clone(),
            principal_scope: self.principal_scope.clone(),
            principal_owner_user_id_hash: self.principal_owner_user_id_hash.clone(),
            resource_id_hash: self.resource_id_hash.clone(),
            action: self.action.clone(),
            reason_code: self.reason_code.clone(),
            reason_fingerprint: self.reason_fingerprint.clone(),
            outcome: self.outcome.clone(),
            error_kind: self.error_kind.clone(),
            operation_id: self.operation_id.clone(),
            occurred_at: self.occurred_at,
            updated_at: self.updated_at,
        }
    }
}

impl Record for AuditRecord {
    open spec fn same_as(&self, other: &Self) -> bool {
        &&& self.id@ == other.id@
        &&& self.tenant_id@ == other.tenant_id@
        &&& self.request_id@ == other.request_id@
        &&& self.principal_scope@ == other.principal_scope@
        &&& opt_text(self.principal_owner_user_id_hash) == opt_text(other.principal_owner_user_id_hash)
        &&& self.resource_id_hash@ == other.resource_id_hash@
        &&& self.action@ == other.action@
        &&& self.reason_code@ == other.reason_code@
        &&& self.reason_fingerprint@ == other.reason_fingerprint@
        &&& self.outcome@ == other.outcome@
        &&& opt_text(self.error_kind) == opt_text(other.error_kind)
        &&& opt_text(self.operation_id) == opt_text(other.operation_id)
        &&& self.occurred_at == other.occurred_at
        &&& self.updated_at == other.updated_at
    }

    proof fn itself(&self) {
    }

    fn same(&self, other: &Self) -> (r: bool) {
        text_eq(self.id.as_str(), other.id.as_str())
            && text_eq(self.tenant_id.as_str(), other.tenant_id.as_str())
            && text_eq(self.request_id.as_str(), other.request_id.as_str())
            && text_eq(self.principal_scope.as_str(), other.principal_scope.as_str())
            && opt_eq(&self.principal_owner_user_id_hash, &other.principal_owner_user_id_hash)
            && text_eq(self.resource_id_hash.as_str(), other.resource_id_hash.as_str())
            && text_eq(self.action.as_str(), other.action.as_str())
            && text_eq(self.reason_code.as_str(), other.reason_code.as_str())
            && text_eq(self.reason_fingerprint.as_str(), other.reason_fingerprint.as_str())
            && text_eq(self.outcome.as_str(), other.outcome.as_str())
            && opt_eq(&self.error_kind, &other.error_kind)
            && opt_eq(&self.operation_id, &other.operation_id)
            && self.occurred_at == other.occurred_at
            && self.updated_at == other.updated_at
    }

    fn copy(&self) -> (r: Self) {
        self.clone()
    }
}

} // verus!
