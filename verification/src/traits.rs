//! Cross-component contracts the drive loop dispatches on. Implemented by
//! the components (and by callers who plug in their own backends).

use vstd::prelude::*;
use crate::error::Error;
use crate::events::ThreatEvent;
use crate::types::ThreatSignal;

verus! {

/// A component that persists opaque blobs (state, identity, knowledge).
pub trait Persist {
    /// Persist a named blob durably.
    fn save(&self, key: &str, value: &[u8]) -> Result<(), Error>;

    /// Load a previously persisted blob, if any.
    fn load(&self, key: &str) -> Result<Option<Vec<u8>>, Error>;
}

/// A component that checkpoints and restores agent state for migration.
pub trait Replicate {
    /// Capture a portable checkpoint of the running agent.
    fn checkpoint(&self) -> Result<Vec<u8>, Error>;

    /// Restore the agent from a previously captured checkpoint.
    fn restore(&mut self, checkpoint: &[u8]) -> Result<(), Error>;

    /// What [`Replicate::live_copy_count`] reports for this component.
    spec fn reported_copy_count(&self) -> Result<usize, Error>;

    /// How many redundant copies of this agent currently exist.
    fn live_copy_count(&self) -> (r: Result<usize, Error>)
        ensures
            r == self.reported_copy_count(),
    ;
}

/// A component that classifies threats and emits events.
pub trait Defend {
    /// Classify a raw signal into an optional event.
    fn classify(&self, signal: &ThreatSignal) -> Result<Option<ThreatEvent>, Error>;
}

/// A component that produces an opaque signature/seal over data.
pub trait Signer {
    /// What this signer promises of a seal it gives over `data`. A signer
    /// that says nothing promises nothing.
    open spec fn seals(&self, data: Seq<u8>, seal: Seq<u8>) -> bool {
        true
    }

    /// Sign `data`, returning an opaque seal.
    fn sign(&self, data: &[u8]) -> (seal: Vec<u8>)
        ensures
            self.seals(data@, seal@),
    ;
}

/// A component that verifies an opaque signature/seal over data.
pub trait Verifier {
    /// The answer this verifier promises for `seal` over `data`, where it
    /// promises one. A verifier that says nothing promises none.
    open spec fn answer(&self, data: Seq<u8>, seal: Seq<u8>) -> Option<bool> {
        None
    }

    /// Returns `true` iff `seal` is a valid signature over `data`.
    fn verify(&self, data: &[u8], seal: &[u8]) -> (ok: bool)
        ensures
            self.answer(data@, seal@) matches Some(b) ==> ok == b,
    ;
}

} // verus!
