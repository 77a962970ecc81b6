//! Vitalis: the survival layer beneath an autonomous agent.
//!
//! The verified core of the survival stack: shared vocabulary (agent
//! identities, threats, capabilities, profiles), the bounded self-improvement
//! engine, threat classification, the copy-limit and checkpoint machinery of
//! replication, erasure-coded shards, and the versioned knowledge format.

pub mod text;
pub mod error;
pub mod types;
pub mod events;
pub mod adapt;
pub mod signal;
pub mod classify;
pub mod traits;
pub mod clock;
pub mod policy;
pub mod repaudit;
pub mod wire;
pub mod checkpoint;
pub mod shards;
pub mod replicator;
pub mod harden;
pub mod sandbox;
pub mod identity;
pub mod knowledge;
pub mod limiter;
pub mod pins;
pub mod integrity;
pub mod defender;
pub mod trades;
pub mod barter;
pub mod hearsay;
pub mod reflect;
pub mod sense;
pub mod drive;
