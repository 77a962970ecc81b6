//! Cross-crate events: the decoupling mechanism between the classifier and
//! the components that react to threats.

use vstd::prelude::*;
use crate::types::{Severity, Threat};

verus! {

/// An event emitted when a threat is classified and the drive loop must react.
#[derive(Debug, Clone, PartialEq)]
pub struct ThreatEvent {
    /// The classified threat.
    pub threat: Threat,
    /// Timestamp (seconds since epoch, supplied by the producer).
    pub timestamp_secs: u64,
}

impl ThreatEvent {
    pub fn new(threat: Threat, timestamp_secs: u64) -> (e: Self)
        ensures
            e.threat == threat,
            e.timestamp_secs == timestamp_secs,
    {
        ThreatEvent { threat, timestamp_secs }
    }

    /// The severity of the embedded threat.
    pub fn severity(&self) -> (s: Severity)
        ensures
            s == self.threat@.severity,
    {
        self.threat.severity()
    }

    /// Whether this event is serious enough to trigger replication and
    /// migration: exactly the critical ones.
    pub fn is_escape_worthy(&self) -> (r: bool)
        ensures
            r == (self.threat@.severity == Severity::Critical),
    {
        matches!(self.severity(), Severity::Critical)
    }
}

} // verus!
