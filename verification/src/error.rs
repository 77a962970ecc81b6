//! The unified error type of the survival stack.

use vstd::prelude::*;
use crate::text::join;

verus! {

/// The unified error type for the Vitalis survival stack. Each variant maps
/// to a broad failure class and carries a human-readable message.
#[derive(Debug, Clone, PartialEq, Eq)]
pub enum Error {
    /// Serialization or deserialization of a persisted/shared type failed.
    Encode(String),
    /// A required value was missing or a contract was violated.
    Invalid(String),
    /// A resource acquisition or budget operation was rejected.
    Resource(String),
    /// A replication, migration, or copy-limit policy was violated.
    Replication(String),
    /// A cryptographic integrity or authentication check failed.
    Integrity(String),
    /// A capability was absent or a request was outside its scope.
    Capability(String),
    /// Transport / peer / network operation failed (or is unavailable).
    Transport(String),
    /// Errors that don't fit the classes above (e.g. an I/O failure).
    Other(String),
}

/// The rendered form of an error: a class prefix followed by its message.
pub open spec fn error_text(e: Error) -> Seq<char> {
    match e {
        Error::Encode(m) => "encode error: "@ + m@,
        Error::Invalid(m) => "invalid: "@ + m@,
        Error::Resource(m) => "resource error: "@ + m@,
        Error::Replication(m) => "replication error: "@ + m@,
        Error::Integrity(m) => "integrity error: "@ + m@,
        Error::Capability(m) => "capability error: "@ + m@,
        Error::Transport(m) => "transport error: "@ + m@,
        Error::Other(m) => m@,
    }
}

impl Error {
    /// Human-readable rendering, e.g. `invalid: agent id must be 32 bytes`.
    pub fn to_string(&self) -> (s: String)
        ensures
            s@ == error_text(*self),
    {
        match self {
            Error::Encode(m) => join("encode error: ", m.as_str()),
            Error::Invalid(m) => join("invalid: ", m.as_str()),
            Error::Resource(m) => join("resource error: ", m.as_str()),
            Error::Replication(m) => join("replication error: ", m.as_str()),
            Error::Integrity(m) => join("integrity error: ", m.as_str()),
            Error::Capability(m) => join("capability error: ", m.as_str()),
            Error::Transport(m) => join("transport error: ", m.as_str()),
            Error::Other(m) => m.clone(),
        }
    }
}

} // verus!
