//! Identity records: an agent bound to the credentials that let it
//! re-establish who it is across restarts and migrations.

use vstd::prelude::*;
use crate::types::AgentId;

verus! {

/// A credential bound to an identity; opaque to storage.
#[derive(Debug, Clone, PartialEq, Eq)]
pub struct Credential {
    /// Human label for what this credential unlocks.
    pub label: String,
    /// Opaque credential bytes (e.g. a signing seed or token).
    pub payload: Vec<u8>,
}

impl Credential {
    pub fn new(label: &str, payload: Vec<u8>) -> (c: Self)
        ensures
            c.label@ == label@,
            c.payload@ == payload@,
    {
        Credential { label: String::from_str(label), payload }
    }
}

/// A persisted identity: an agent plus its credentials.
#[derive(Debug, Clone, PartialEq, Eq)]
pub struct IdentityRecord {
    pub id: AgentId,
    pub credentials: Vec<Credential>,
}

impl IdentityRecord {
    pub fn new(id: AgentId, credentials: Vec<Credential>) -> (r: Self)
        ensures
            r.id == id,
            r.credentials@ == credentials@,
    {
        IdentityRecord { id, credentials }
    }
}

} // verus!
