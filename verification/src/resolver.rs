//! Where the events and the personal context of an owner are stored.

use vstd::prelude::*;
use vstd::string::*;

use crate::naming::{hmac_hex, keyed_digest};

verus! {

/// The version of the schema of event indexes.
pub const EVENT_INDEX_SCHEMA_VERSION: u32 = 1;

/// The fingerprint of the settings of event indexes.
pub const EVENT_SETTINGS_HASH: &'static str = "event-settings-v1";

/// Derives the indexes of an owner from keyed hashes of tenant and owner.
pub struct EventIndexResolver {
    pub secret: Vec<u8>,
}

/// Where the events and the personal context of an owner are stored.
#[derive(Debug, PartialEq, Eq)]
pub struct EventRouting {
    pub tenant_id: String,
    pub owner_user_id_hash: String,
    pub event_index_uid: String,
    pub personal_context_index_uid: String,
    pub schema_version: u32,
    pub settings_hash: String,
}

impl Clone for EventRouting {
    fn clone(&self) -> (r: Self)
        ensures
            r == *self,
    {
        EventRouting {
            tenant_id: self.tenant_id.clone(),
            owner_user_id_hash: self.owner_user_id_hash.clone(),
            event_index_uid: self.event_index_uid.clone(),
            personal_context_index_uid: self.personal_context_index_uid.clone(),
            schema_version: self.schema_version,
            settings_hash: self.settings_hash.clone(),
        }
    }
}

/// The event index of an owner, by the hashes of tenant and owner.
pub open spec fn event_uid(tenant_hash: Seq<char>, owner_hash: Seq<char>) -> Seq<char> {
    "rag_events__t_"@ + tenant_hash + "__u_"@ + owner_hash
}

/// The personal context index of an owner, by the hashes of tenant and owner.
pub open spec fn context_uid(tenant_hash: Seq<char>, owner_hash: Seq<char>) -> Seq<char> {
    "rag_context__t_"@ + tenant_hash + "__u_"@ + owner_hash
}

/// The event index of an owner, by the hashes of tenant and owner.
pub fn event_index_uid(tenant_hash: &str, owner_hash: &str) -> (r: String)
    ensures
        r@ == event_uid(tenant_hash@, owner_hash@),
{
    let mut out: String = "rag_events__t_".to_owned();
    out.append(tenant_hash);
    out.append("__u_");
    out.append(owner_hash);
    out
}

/// The personal context index of an owner, by the hashes of tenant and owner.
pub fn context_index_uid(tenant_hash: &str, owner_hash: &str) -> (r: String)
    ensures
        r@ == context_uid(tenant_hash@, owner_hash@),
{
    let mut out: String = "rag_context__t_".to_owned();
    out.append(tenant_hash);
    out.append("__u_");
    out.append(owner_hash);
    out
}

impl EventIndexResolver {
    /// The hash of a tenant.
    pub open spec fn tenant_digest(&self, tenant_id: Seq<char>) -> Seq<char> {
        keyed_digest(self.secret@, "tenant"@, tenant_id, 16)
    }

    /// The hash of an owner.
    pub open spec fn user_digest(&self, owner_user_id: Seq<char>) -> Seq<char> {
        keyed_digest(self.secret@, "user"@, owner_user_id, 16)
    }

    /// The hash of an idempotency key.
    pub open spec fn key_digest(&self, key: Seq<char>) -> Seq<char> {
        keyed_digest(self.secret@, "idempotency"@, key, 32)
    }

    /// The event index of an owner.
    pub open spec fn events_of(&self, tenant_id: Seq<char>, owner_user_id: Seq<char>) -> Seq<char> {
        event_uid(self.tenant_digest(tenant_id), self.user_digest(owner_user_id))
    }

    /// The personal context index of an owner.
    pub open spec fn context_of(&self, tenant_id: Seq<char>, owner_user_id: Seq<char>) -> Seq<
        char,
    > {
        context_uid(self.tenant_digest(tenant_id), self.user_digest(owner_user_id))
    }

    /// Whether `routing` is that of an owner.
    pub open spec fn routes(
        &self,
        routing: EventRouting,
        tenant_id: Seq<char>,
        owner_user_id: Seq<char>,
    ) -> bool {
        &&& routing.tenant_id@ == tenant_id
        &&& routing.owner_user_id_hash@ == self.user_digest(owner_user_id)
        &&& routing.event_index_uid@ == self.events_of(tenant_id, owner_user_id)
        &&& routing.personal_context_index_uid@ == self.context_of(tenant_id, owner_user_id)
        &&& routing.schema_version == EVENT_INDEX_SCHEMA_VERSION
        &&& routing.settings_hash@ == EVENT_SETTINGS_HASH@
    }

    pub fn tenant_hash(&self, tenant_id: &str) -> (r: String)
        ensures
            r@ == self.tenant_digest(tenant_id@),
    {
        hmac_hex(self.secret.as_slice(), "tenant", tenant_id, 16)
    }

    pub fn user_hash(&self, owner_user_id: &str) -> (r: String)
        ensures
            r@ == self.user_digest(owner_user_id@),
    {
        hmac_hex(self.secret.as_slice(), "user", owner_user_id, 16)
    }

    pub fn idempotency_hash(&self, key: &str) -> (r: String)
        ensures
            r@ == self.key_digest(key@),
    {
        hmac_hex(self.secret.as_slice(), "idempotency", key, 32)
    }

    /// Where the events and the personal context of an owner are stored.
    pub fn resolve(&self, tenant_id: &str, owner_user_id: &str) -> (r: EventRouting)
        ensures
            self.routes(r, tenant_id@, owner_user_id@),
    {
        let tenant_hash: String = self.tenant_hash(tenant_id);
        let owner_hash: String = self.user_hash(owner_user_id);
        EventRouting {
            tenant_id: tenant_id.to_owned(),
            event_index_uid: event_index_uid(tenant_hash.as_str(), owner_hash.as_str()),
            personal_context_index_uid: context_index_uid(
                tenant_hash.as_str(),
                owner_hash.as_str(),
            ),
            owner_user_id_hash: owner_hash,
            schema_version: EVENT_INDEX_SCHEMA_VERSION,
            settings_hash: EVENT_SETTINGS_HASH.to_owned(),
        }
    }
}

} // verus!
