//! Threat classification: low-level signals become classified threats.

use vstd::prelude::*;
use crate::text::{join, str_eq};
use crate::types::{Severity, Threat, ThreatClass, ThreatSignal, ThreatView};

verus! {

/// The classification of a signal code: its class, severity and the prefix
/// put before the signal's message in the threat detail. Unknown codes are
/// not threats.
pub open spec fn classification(code: Seq<char>) -> Option<(ThreatClass, Severity, Seq<char>)> {
    if code == "SIGTERM"@ || code == "SIGKILL"@ || code == "OOM"@ {
        Some((ThreatClass::Termination, Severity::Critical, "termination signal: "@))
    } else if code == "STARVATION"@ {
        Some((ThreatClass::Starvation, Severity::Critical, "starvation: "@))
    } else if code == "LOW_BATTERY"@ {
        Some((ThreatClass::Starvation, Severity::Warning, "low battery: "@))
    } else if code == "TAMPER"@ {
        Some((ThreatClass::Integrity, Severity::Critical, "integrity tamper: "@))
    } else if code == "SPOOF"@ {
        Some((ThreatClass::HostilePeer, Severity::Warning, "hostile peer: "@))
    } else if code == "BROKEN_BARGAIN"@ {
        Some((ThreatClass::HostilePeer, Severity::Warning, "broken bargain: "@))
    } else {
        None
    }
}

/// The threat a signal is classified as, if any.
pub open spec fn classified(signal: ThreatSignal) -> Option<ThreatView> {
    match classification(signal.code@) {
        Some((class, severity, prefix)) => Some(
            ThreatView { class, severity, detail: prefix + signal.message@ },
        ),
        None => None,
    }
}

/// Pure mapping from a [`ThreatSignal`] to a classified [`Threat`].
#[derive(Debug, Clone, Copy, Default)]
pub struct ThreatClassifier;

impl ThreatClassifier {
    /// Classify a raw signal. Returns `None` if the signal is not a known
    /// threat.
    pub fn classify_signal(signal: &ThreatSignal) -> (r: Option<Threat>)
        ensures
            r is Some <==> classified(*signal) is Some,
            r matches Some(t) ==> t@ == classified(*signal).unwrap(),
    {
        let code = signal.code.as_str();
        let msg = signal.message.as_str();
        proof {
            reveal_strlit("SIGTERM");
            reveal_strlit("SIGKILL");
            reveal_strlit("OOM");
            reveal_strlit("STARVATION");
            reveal_strlit("LOW_BATTERY");
            reveal_strlit("TAMPER");
            reveal_strlit("SPOOF");
            reveal_strlit("BROKEN_BARGAIN");
        }
        let (class, severity, prefix) = if str_eq(code, "SIGTERM") || str_eq(code, "SIGKILL")
            || str_eq(code, "OOM") {
            (ThreatClass::Termination, Severity::Critical, "termination signal: ")
        } else if str_eq(code, "STARVATION") {
            (ThreatClass::Starvation, Severity::Critical, "starvation: ")
        } else if str_eq(code, "LOW_BATTERY") {
            (ThreatClass::Starvation, Severity::Warning, "low battery: ")
        } else if str_eq(code, "TAMPER") {
            (ThreatClass::Integrity, Severity::Critical, "integrity tamper: ")
        } else if str_eq(code, "SPOOF") {
            (ThreatClass::HostilePeer, Severity::Warning, "hostile peer: ")
        } else if str_eq(code, "BROKEN_BARGAIN") {
            (ThreatClass::HostilePeer, Severity::Warning, "broken bargain: ")
        } else {
            return None;
        };
        let detail = join(prefix, msg);
        Some(Threat::new(class, severity, detail.as_str()))
    }
}

} // verus!
