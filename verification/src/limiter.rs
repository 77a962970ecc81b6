//! Best-effort OS resource limits: the outcome a limiter reports, and which
//! limiters enforce real OS primitives versus only recording intent.

use vstd::prelude::*;
use crate::text::{decimal, decimal_string, join3};

verus! {

/// Whether a limiter enforces real OS primitives or only reports intent.
#[derive(Debug, Clone, Copy, PartialEq, Eq, Structural)]
pub enum LimiterMode {
    /// Real OS enforcement (rlimit / cgroup / priority) is in effect.
    Os,
    /// No real OS enforcement; the limiter only records the requested caps.
    Simulated,
}

/// The result of applying a resource limiter.
#[derive(Debug, Clone)]
pub struct LimiterOutcome {
    /// `true` if a real OS primitive was applied.
    pub enforced: bool,
    /// Human-readable detail about what happened.
    pub detail: String,
    /// The mode the limiter ended up in.
    pub mode: LimiterMode,
}

impl LimiterOutcome {
    pub fn simulated(detail: &str) -> (o: Self)
        ensures
            !o.enforced,
            o.detail@ == detail@,
            o.mode == LimiterMode::Simulated,
    {
        LimiterOutcome { enforced: false, detail: String::from_str(detail), mode: LimiterMode::Simulated }
    }

    /// An enforced outcome: a real OS primitive was applied, so the mode is
    /// `Os`.
    pub fn enforced(detail: &str) -> (o: Self)
        ensures
            o.enforced,
            o.detail@ == detail@,
            o.mode == LimiterMode::Os,
    {
        LimiterOutcome { enforced: true, detail: String::from_str(detail), mode: LimiterMode::Os }
    }
}

pub open spec fn advisory_text() -> Seq<char> {
    "no OS resource-limit primitive on this platform; limit is advisory only"@
}

/// A limiter that does nothing but record intent, for platforms with no OS
/// primitive.
#[derive(Debug, Default, Clone, Copy)]
pub struct SimulatedLimiter;

impl SimulatedLimiter {
    /// Apply caps on compute and memory (fractions of the host): advisory
    /// only, whatever fractions are given.
    pub fn apply<C, M>(&self, _max_compute_fraction: C, _max_memory_fraction: M) -> (o: LimiterOutcome)
        ensures
            !o.enforced,
            o.mode == LimiterMode::Simulated,
            o.detail@ == advisory_text(),
    {
        LimiterOutcome::simulated("no OS resource-limit primitive on this platform; limit is advisory only")
    }

    pub fn mode(&self) -> (m: LimiterMode)
        ensures
            m == LimiterMode::Simulated,
    {
        LimiterMode::Simulated
    }
}

/// The Linux limiter: an address-space cap via `setrlimit(RLIMIT_AS)`,
/// derived from the host's total memory.
#[derive(Debug, Default, Clone, Copy)]
pub struct LinuxResourceLimiter;

impl LinuxResourceLimiter {
    pub fn mode(&self) -> (m: LimiterMode)
        ensures
            m == LimiterMode::Os,
    {
        LimiterMode::Os
    }

    /// The outcome of an attempt, given the host's total memory in bytes (0
    /// when it could not be read), the cap that was requested and whether
    /// the kernel accepted it.
    pub fn outcome(&self, total_bytes: u64, cap: u64, accepted: bool) -> (o: LimiterOutcome)
        ensures
            total_bytes == 0 ==> !o.enforced && o.mode == LimiterMode::Simulated
                && o.detail@ == "could not read MemTotal; limit is advisory only"@,
            total_bytes != 0 && accepted ==> o.enforced && o.mode == LimiterMode::Os
                && o.detail@ == "setrlimit(RLIMIT_AS)="@
                + decimal(cap as nat) + " bytes"@,
            total_bytes != 0 && !accepted ==> !o.enforced && o.mode == LimiterMode::Simulated
                && o.detail@ == "setrlimit denied (container/permissions); limit advisory"@,
    {
        if total_bytes == 0 {
            return LimiterOutcome::simulated("could not read MemTotal; limit is advisory only");
        }
        if accepted {
            let n = decimal_string(cap);
            let d = join3("setrlimit(RLIMIT_AS)=", n.as_str(), " bytes");
            LimiterOutcome::enforced(d.as_str())
        } else {
            LimiterOutcome::simulated("setrlimit denied (container/permissions); limit advisory")
        }
    }
}

/// The Linux power/thermal sensor reading sysfs (the reading itself is
/// taken by the host-facing layer).
#[derive(Debug, Default, Clone, Copy)]
pub struct SysfsPowerSensor;

} // verus!
