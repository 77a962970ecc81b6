//! Anti-termination signals, modelled as data so the immune response can be
//! exercised deterministically.

use vstd::prelude::*;
use crate::types::ThreatSignal;

verus! {

/// A class of termination / starvation signal.
#[derive(Debug, Clone, Copy, PartialEq, Eq, Structural)]
pub enum TerminationSignal {
    /// Polite shutdown request (SIGTERM).
    SigTerm,
    /// Forced kill (SIGKILL), inferred from absence.
    SigKill,
    /// The OOM-killer reaped the agent.
    Oom,
    /// Sustained resource starvation below the safe floor.
    Starvation,
}

/// The signal code each termination signal maps to.
pub open spec fn code_of(s: TerminationSignal) -> Seq<char> {
    match s {
        TerminationSignal::SigTerm => "SIGTERM"@,
        TerminationSignal::SigKill => "SIGKILL"@,
        TerminationSignal::Oom => "OOM"@,
        TerminationSignal::Starvation => "STARVATION"@,
    }
}

/// The message observed with each termination signal.
pub open spec fn message_of(s: TerminationSignal) -> Seq<char> {
    match s {
        TerminationSignal::SigTerm => "received SIGTERM"@,
        TerminationSignal::SigKill => "process vanished without trace (SIGKILL inferred)"@,
        TerminationSignal::Oom => "OOM-killer terminated the agent"@,
        TerminationSignal::Starvation => "resource starvation below safe floor"@,
    }
}

impl TerminationSignal {
    /// The signal code this signal maps to.
    pub fn code(&self) -> (s: &'static str)
        ensures
            s@ == code_of(*self),
    {
        match self {
            TerminationSignal::SigTerm => "SIGTERM",
            TerminationSignal::SigKill => "SIGKILL",
            TerminationSignal::Oom => "OOM",
            TerminationSignal::Starvation => "STARVATION",
        }
    }
}

/// Produce the [`ThreatSignal`] a termination signal is observed as, sourced
/// from the kernel.
pub fn simulate_termination(signal: TerminationSignal) -> (t: ThreatSignal)
    ensures
        t.source@ == "kernel"@,
        t.code@ == code_of(signal),
        t.message@ == message_of(signal),
{
    let message = match signal {
        TerminationSignal::SigTerm => "received SIGTERM",
        TerminationSignal::SigKill => "process vanished without trace (SIGKILL inferred)",
        TerminationSignal::Oom => "OOM-killer terminated the agent",
        TerminationSignal::Starvation => "resource starvation below safe floor",
    };
    ThreatSignal {
        source: String::from_str("kernel"),
        code: String::from_str(signal.code()),
        message: String::from_str(message),
    }
}

} // verus!
