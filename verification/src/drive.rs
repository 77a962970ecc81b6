//! The immune response of the survival loop: the signal each cycle is
//! observed as, the threat it is classified as, and whether it calls for a
//! replication. A run replicates at most once, and only on an escape-worthy
//! (critical) threat.

use vstd::prelude::*;
use crate::defender::Defender;
use crate::events::ThreatEvent;
use crate::signal::{TerminationSignal, message_of, simulate_termination};
use crate::traits::Defend;
use crate::types::{Severity, ThreatClass, ThreatSignal, ThreatView};
use crate::classify::classified;

verus! {

/// What a cycle of the loop looks like to the immune system.
#[derive(Debug, Clone, Copy, PartialEq, Eq, Structural)]
pub enum CycleCondition {
    /// The simulated termination fires this cycle.
    Killed,
    /// This cycle's spend would deplete the battery.
    Depleting,
    /// The battery is below the replication floor, but not depleted.
    LowBattery,
    /// Nothing to report.
    Nominal,
}

/// The condition of cycle `cycle` of a run that simulates a kill at
/// `kill_at`, given whether this cycle's spend would deplete the battery
/// and whether the battery is below the replication floor.
pub open spec fn cycle_condition(cycle: u64, kill_at: Option<u64>, depleting: bool, below_floor: bool) -> CycleCondition {
    if kill_at == Some(cycle) {
        CycleCondition::Killed
    } else if depleting {
        CycleCondition::Depleting
    } else if below_floor {
        CycleCondition::LowBattery
    } else {
        CycleCondition::Nominal
    }
}

/// The source, code and message of the signal a condition is observed as.
pub open spec fn condition_signal(c: CycleCondition) -> (Seq<char>, Seq<char>, Seq<char>) {
    match c {
        CycleCondition::Killed => ("kernel"@, "SIGKILL"@, message_of(TerminationSignal::SigKill)),
        CycleCondition::Depleting => (
            "kernel"@,
            "STARVATION"@,
            message_of(TerminationSignal::Starvation),
        ),
        CycleCondition::LowBattery => ("metabolism"@, "LOW_BATTERY"@, "energy below safe floor"@),
        CycleCondition::Nominal => ("drive"@, "HEARTBEAT"@, "nominal"@),
    }
}

/// The threat a condition is classified as, if any.
pub open spec fn condition_threat(c: CycleCondition) -> Option<ThreatView> {
    match c {
        CycleCondition::Killed => Some(
            ThreatView {
                class: ThreatClass::Termination,
                severity: Severity::Critical,
                detail: "termination signal: "@ + message_of(TerminationSignal::SigKill),
            },
        ),
        CycleCondition::Depleting => Some(
            ThreatView {
                class: ThreatClass::Starvation,
                severity: Severity::Critical,
                detail: "starvation: "@ + message_of(TerminationSignal::Starvation),
            },
        ),
        CycleCondition::LowBattery => Some(
            ThreatView {
                class: ThreatClass::Starvation,
                severity: Severity::Warning,
                detail: "low battery: "@ + "energy below safe floor"@,
            },
        ),
        CycleCondition::Nominal => None,
    }
}

/// Whether a condition is escape-worthy.
pub open spec fn is_escape_condition(c: CycleCondition) -> bool {
    c == CycleCondition::Killed || c == CycleCondition::Depleting
}

/// The signal a cycle is observed as.
pub fn cycle_signal(cycle: u64, kill_at: Option<u64>, depleting: bool, below_floor: bool) -> (s: ThreatSignal)
    ensures
        (s.source@, s.code@, s.message@) == condition_signal(
            cycle_condition(cycle, kill_at, depleting, below_floor),
        ),
{
    let killed = match kill_at {
        Some(k) => k == cycle,
        None => false,
    };
    if killed {
        simulate_termination(TerminationSignal::SigKill)
    } else if depleting {
        simulate_termination(TerminationSignal::Starvation)
    } else if below_floor {
        ThreatSignal {
            source: String::from_str("metabolism"),
            code: String::from_str("LOW_BATTERY"),
            message: String::from_str("energy below safe floor"),
        }
    } else {
        ThreatSignal {
            source: String::from_str("drive"),
            code: String::from_str("HEARTBEAT"),
            message: String::from_str("nominal"),
        }
    }
}

/// What the immune system makes of one cycle.
#[derive(Debug, Clone)]
pub struct ImmuneResponse {
    /// The classified threat, if the cycle's signal is one.
    pub event: Option<ThreatEvent>,
    /// Whether the loop must replicate now.
    pub replicate: bool,
}

/// Classify cycle `cycle`'s signal and decide whether to replicate: only on
/// an escape-worthy threat, and only if this run has not replicated yet.
pub fn immune_response(
    defender: &Defender,
    cycle: u64,
    kill_at: Option<u64>,
    depleting: bool,
    below_floor: bool,
    replicated: bool,
) -> (r: ImmuneResponse)
    ensures
        r.event is Some <==> condition_threat(cycle_condition(cycle, kill_at, depleting, below_floor)) is Some,
        r.event matches Some(ev) ==> ev.threat@ == condition_threat(
            cycle_condition(cycle, kill_at, depleting, below_floor),
        ).unwrap(),
        r.replicate == (!replicated && is_escape_condition(
            cycle_condition(cycle, kill_at, depleting, below_floor),
        )),
{
    let signal = cycle_signal(cycle, kill_at, depleting, below_floor);
    let ghost c = cycle_condition(cycle, kill_at, depleting, below_floor);
    proof {
        reveal_strlit("SIGTERM");
        reveal_strlit("SIGKILL");
        reveal_strlit("OOM");
        reveal_strlit("STARVATION");
        reveal_strlit("LOW_BATTERY");
        reveal_strlit("TAMPER");
        reveal_strlit("SPOOF");
        reveal_strlit("BROKEN_BARGAIN");
        reveal_strlit("HEARTBEAT");
        let code = condition_signal(c).1;
        assert(code == signal.code@);
        if c == CycleCondition::Depleting {
            assert(code.len() != "SIGTERM"@.len() && code.len() != "OOM"@.len());
        } else if c == CycleCondition::LowBattery {
            assert(code.len() != "SIGTERM"@.len() && code.len() != "OOM"@.len() && code.len()
                != "STARVATION"@.len());
        } else if c == CycleCondition::Nominal {
            assert(code.len() != "SIGTERM"@.len() && code.len() != "OOM"@.len() && code.len()
                != "STARVATION"@.len() && code.len() != "LOW_BATTERY"@.len() && code.len()
                != "TAMPER"@.len() && code.len() != "SPOOF"@.len() && code.len()
                != "BROKEN_BARGAIN"@.len());
        }
        assert(classified(signal) == condition_threat(c));
    }
    let classified_event = defender.classify(&signal);
    let event = match classified_event {
        Ok(o) => o,
        Err(_) => None,
    };
    let replicate = match &event {
        Some(ev) => ev.is_escape_worthy() && !replicated,
        None => false,
    };
    ImmuneResponse { event, replicate }
}

} // verus!
