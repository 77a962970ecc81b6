//! Native-process hardening: no-new-privileges plus non-dumpable, reported
//! as real OS enforcement only when the primitives actually took effect.

use vstd::prelude::*;

verus! {

/// Whether hardening is real OS enforcement or only reported.
#[derive(Debug, Clone, Copy, PartialEq, Eq, Structural)]
pub enum HardeningMode {
    /// Real OS primitives applied.
    Os,
    /// No real enforcement; reported for visibility only.
    Simulated,
}

/// The outcome of a hardening attempt.
#[derive(Debug, Clone)]
pub struct HardeningReport {
    pub applied: bool,
    pub mode: HardeningMode,
    pub detail: String,
}

pub open spec fn simulated_detail() -> Seq<char> {
    "hardening feature disabled or unsupported on this platform; no OS enforcement"@
}

pub open spec fn flag_text(b: bool) -> Seq<char> {
    if b { "true"@ } else { "false"@ }
}

impl HardeningReport {
    fn simulated(detail: &str) -> (r: Self)
        ensures
            !r.applied,
            r.mode == HardeningMode::Simulated,
            r.detail@ == detail@,
    {
        HardeningReport { applied: false, mode: HardeningMode::Simulated, detail: String::from_str(detail) }
    }

    /// The report of a real hardening attempt, given whether each primitive
    /// (`PR_SET_NO_NEW_PRIVS`, `PR_SET_DUMPABLE`) succeeded: applied iff at
    /// least one did, and only then reported as OS enforcement.
    pub fn from_outcomes(no_new_privs: bool, non_dumpable: bool) -> (r: Self)
        ensures
            r.applied == (no_new_privs || non_dumpable),
            r.mode == (if no_new_privs || non_dumpable { HardeningMode::Os } else { HardeningMode::Simulated }),
            r.detail@ == "no-new-privs="@ + flag_text(no_new_privs) + ", non-dumpable="@ + flag_text(non_dumpable),
    {
        let applied = no_new_privs || non_dumpable;
        let a = if no_new_privs { "true" } else { "false" };
        let b = if non_dumpable { "true" } else { "false" };
        let s = String::from_str("no-new-privs=");
        let s = s.concat(a);
        let s = s.concat(", non-dumpable=");
        let s = s.concat(b);
        HardeningReport {
            applied,
            mode: if applied { HardeningMode::Os } else { HardeningMode::Simulated },
            detail: s,
        }
    }
}

/// Apply best-effort native hardening. `allowed_paths` is accepted for API
/// symmetry with a future path-based ruleset and is unused. In this build no
/// OS primitive is invoked here, so the report says so.
pub fn apply_hardening(allowed_paths: &[&str]) -> (r: HardeningReport)
    ensures
        !r.applied,
        r.mode == HardeningMode::Simulated,
        r.detail@ == simulated_detail(),
{
    apply_hardening_inner(allowed_paths)
}

fn apply_hardening_inner(_allowed_paths: &[&str]) -> (r: HardeningReport)
    ensures
        !r.applied,
        r.mode == HardeningMode::Simulated,
        r.detail@ == simulated_detail(),
{
    HardeningReport::simulated("hardening feature disabled or unsupported on this platform; no OS enforcement")
}

} // verus!
