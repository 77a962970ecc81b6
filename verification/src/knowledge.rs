//! Versioned "knowledge" blobs with forward migration: older stored
//! records are migrated to the current shape on read.

use vstd::prelude::*;
use crate::error::Error;
use crate::text::{join, str_eq};

verus! {

/// The current knowledge schema version.
pub const CURRENT_SCHEMA_VERSION: u32 = 2;

/// Category of a knowledge blob.
#[derive(Debug, Clone, PartialEq, Eq)]
pub enum KnowledgeKind {
    Profile,
    Fact,
    Preference,
    Other(String),
}

/// A decoded, current-version knowledge record.
#[derive(Debug, Clone, PartialEq, Eq)]
pub struct Knowledge {
    pub kind: KnowledgeKind,
    pub id: String,
    pub payload: Vec<u8>,
    pub timestamp_secs: u64,
}

impl Knowledge {
    pub fn new(kind: KnowledgeKind, id: &str, payload: Vec<u8>, timestamp_secs: u64) -> (k: Self)
        ensures
            k.kind == kind,
            k.id@ == id@,
            k.payload@ == payload@,
            k.timestamp_secs == timestamp_secs,
    {
        Knowledge { kind, id: String::from_str(id), payload, timestamp_secs }
    }
}

/// A schema-1 record: textual kind and textual payload.
#[derive(Debug, Clone)]
pub struct StoredV1 {
    pub kind: String,
    pub id: String,
    pub text: String,
    pub timestamp_secs: u64,
}

/// A schema-2 record: the current shape.
#[derive(Debug, Clone)]
pub struct StoredV2 {
    pub kind: KnowledgeKind,
    pub id: String,
    pub payload: Vec<u8>,
    pub timestamp_secs: u64,
}

/// A stored record of any schema version.
#[derive(Debug, Clone)]
pub enum Envelope {
    V1(StoredV1),
    V2(StoredV2),
}

/// The kind a schema-1 kind string migrates to.
pub open spec fn migrated_kind(k: Seq<char>, original: String) -> KnowledgeKind {
    if k == "profile"@ {
        KnowledgeKind::Profile
    } else if k == "fact"@ {
        KnowledgeKind::Fact
    } else if k == "preference"@ {
        KnowledgeKind::Preference
    } else {
        KnowledgeKind::Other(original)
    }
}

/// The UTF-8 bytes of a text.
pub open spec fn utf8_of(s: String) -> Seq<u8> {
    vstd::utf8::encode_utf8(s@)
}

/// The UTF-8 encoding of a text, as bytes.
fn text_into_bytes(s: String) -> (b: Vec<u8>)
    ensures
        b@ == vstd::utf8::encode_utf8(s@),
{
    s.as_str().as_bytes_vec()
}

/// Migrate any stored envelope to the current [`Knowledge`] shape: a
/// schema-2 record is taken as is; a schema-1 record's kind string becomes
/// the matching kind (unknown strings are kept as `Other`) and its text
/// becomes the UTF-8 payload.
pub fn migrate(env: Envelope) -> (k: Knowledge)
    ensures
        (k.kind, k.id@, k.payload@, k.timestamp_secs) == migrated_fields(env),
{
    match env {
        Envelope::V2(v) => Knowledge { kind: v.kind, id: v.id, payload: v.payload, timestamp_secs: v.timestamp_secs },
        Envelope::V1(v) => {
            proof {
                reveal_strlit("profile");
                reveal_strlit("fact");
                reveal_strlit("preference");
            }
            let kind = if str_eq(v.kind.as_str(), "profile") {
                KnowledgeKind::Profile
            } else if str_eq(v.kind.as_str(), "fact") {
                KnowledgeKind::Fact
            } else if str_eq(v.kind.as_str(), "preference") {
                KnowledgeKind::Preference
            } else {
                KnowledgeKind::Other(v.kind)
            };
            Knowledge { kind, id: v.id, payload: text_into_bytes(v.text), timestamp_secs: v.timestamp_secs }
        },
    }
}

/// Package a record in the current schema for storage.
pub fn envelope_of(k: &Knowledge) -> (e: Envelope)
    ensures
        e matches Envelope::V2(v) && v.kind == k.kind && v.id@ == k.id@ && v.payload@ == k.payload@
            && v.timestamp_secs == k.timestamp_secs,
{
    Envelope::V2(StoredV2 {
        kind: clone_kind(&k.kind),
        id: k.id.clone(),
        payload: vstd::slice::slice_to_vec(k.payload.as_slice()),
        timestamp_secs: k.timestamp_secs,
    })
}

fn clone_kind(k: &KnowledgeKind) -> (r: KnowledgeKind)
    ensures
        r == *k,
{
    match k {
        KnowledgeKind::Profile => KnowledgeKind::Profile,
        KnowledgeKind::Fact => KnowledgeKind::Fact,
        KnowledgeKind::Preference => KnowledgeKind::Preference,
        KnowledgeKind::Other(s) => KnowledgeKind::Other(s.clone()),
    }
}

/// The plain fields a migrated envelope yields: kind, id, payload, time.
pub open spec fn migrated_fields(env: Envelope) -> (KnowledgeKind, Seq<char>, Seq<u8>, u64) {
    match env {
        Envelope::V2(v) => (v.kind, v.id@, v.payload@, v.timestamp_secs),
        Envelope::V1(v) => (migrated_kind(v.kind@, v.kind), v.id@, utf8_of(v.text), v.timestamp_secs),
    }
}

/// Storing a record in the current schema and migrating it on read gives the
/// same record back.
pub proof fn lemma_store_then_migrate(k: Knowledge, e: Envelope)
    requires
        e matches Envelope::V2(v) && v.kind == k.kind && v.id@ == k.id@ && v.payload@ == k.payload@
            && v.timestamp_secs == k.timestamp_secs,
    ensures
        migrated_fields(e) == (k.kind, k.id@, k.payload@, k.timestamp_secs),
{
}

/// Error type for the storage layer.
#[derive(Debug)]
pub enum MemoryStoreError {
    /// Underlying backend failure (its rendered message).
    Backend(String),
    /// Serialization / deserialization failure.
    Encode(String),
    /// Caller-supplied I/O / validation failure.
    Invalid(String),
}

/// The rendered message of a storage failure.
pub open spec fn store_error_text(e: MemoryStoreError) -> Seq<char> {
    match e {
        MemoryStoreError::Backend(m) => "memory backend error: "@ + m@,
        MemoryStoreError::Encode(m) => "memory encode error: "@ + m@,
        MemoryStoreError::Invalid(m) => "memory invalid: "@ + m@,
    }
}

impl MemoryStoreError {
    /// The failure rendered as text.
    pub fn to_string(&self) -> (s: String)
        ensures
            s@ == store_error_text(*self),
    {
        match self {
            MemoryStoreError::Backend(m) => join("memory backend error: ", m.as_str()),
            MemoryStoreError::Encode(m) => join("memory encode error: ", m.as_str()),
            MemoryStoreError::Invalid(m) => join("memory invalid: ", m.as_str()),
        }
    }

    /// The unified error each storage failure maps to.
    pub fn into_error(self) -> (e: Error)
        ensures
            match self {
                MemoryStoreError::Backend(m) => e == Error::Other(m),
                MemoryStoreError::Encode(m) => e == Error::Encode(m),
                MemoryStoreError::Invalid(m) => e == Error::Invalid(m),
            },
    {
        match self {
            MemoryStoreError::Backend(m) => Error::Other(m),
            MemoryStoreError::Encode(m) => Error::Encode(m),
            MemoryStoreError::Invalid(m) => Error::Invalid(m),
        }
    }
}

} // verus!
