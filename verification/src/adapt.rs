//! Bounded, auditable self-improvement: propose → verify → apply, with a
//! sandbox bound on each change, a lifetime rate limit, a kill-switch that
//! refuses everything once tripped, rollback hooks and an append-only audit
//! log of every attempt.

use vstd::prelude::*;
use crate::error::{Error, error_text};
use crate::text::{decimal, decimal_string, join, join3};

verus! {

/// What aspect of the agent a change touches.
#[derive(Debug, Clone, Copy, PartialEq, Eq, Structural)]
pub enum ChangeKind {
    /// Agent code / logic.
    Code,
    /// Model weights / parameters.
    Weights,
    /// Hardware configuration.
    Hardware,
}

/// A proposed change to the agent. The `diff` is opaque to the engine; the
/// sandbox decides whether it may be applied.
#[derive(Debug, Clone)]
pub struct ProposedChange {
    pub id: u64,
    pub kind: ChangeKind,
    pub diff: Vec<u8>,
    pub description: String,
}

impl ProposedChange {
    pub fn new(id: u64, kind: ChangeKind, diff: Vec<u8>, description: &str) -> (c: Self)
        ensures
            c.id == id,
            c.kind == kind,
            c.diff@ == diff@,
            c.description@ == description@,
    {
        ProposedChange { id, kind, diff, description: String::from_str(description) }
    }

    /// The diff size in bytes: the primary bound checked by the sandbox.
    pub fn diff_size(&self) -> (n: usize)
        ensures
            n == self.diff@.len(),
    {
        self.diff.len()
    }
}

/// A boundary that decides whether a proposed change may be applied.
pub trait Sandbox {
    /// The decision, as a predicate.
    spec fn allows(&self, change: &ProposedChange) -> bool;

    /// Returns `true` iff the change is within the sandbox's bounds.
    fn permits(&self, change: &ProposedChange) -> (r: bool)
        ensures
            r == self.allows(change),
    ;
}

/// The default bounds checker: a change is permitted iff its diff is within
/// the configured byte cap.
#[derive(Debug, Clone, Copy)]
pub struct BoundsSandbox {
    pub max_diff_bytes: usize,
}

impl BoundsSandbox {
    pub fn new(max_diff_bytes: usize) -> (s: Self)
        ensures
            s.max_diff_bytes == max_diff_bytes,
    {
        BoundsSandbox { max_diff_bytes }
    }
}

impl Sandbox for BoundsSandbox {
    open spec fn allows(&self, change: &ProposedChange) -> bool {
        change.diff@.len() <= self.max_diff_bytes
    }

    fn permits(&self, change: &ProposedChange) -> (r: bool) {
        change.diff_size() <= self.max_diff_bytes
    }
}

/// One audit-log entry for an adaptation attempt.
#[derive(Debug, Clone)]
pub struct AuditEntry {
    pub change_id: u64,
    pub kind: ChangeKind,
    pub applied: bool,
    pub reason: String,
}

/// The plain content of an [`AuditEntry`].
pub ghost struct AuditRecord {
    pub change_id: u64,
    pub kind: ChangeKind,
    pub applied: bool,
    pub reason: Seq<char>,
}

impl View for AuditEntry {
    type V = AuditRecord;

    open spec fn view(&self) -> AuditRecord {
        AuditRecord {
            change_id: self.change_id,
            kind: self.kind,
            applied: self.applied,
            reason: self.reason@,
        }
    }
}

impl AuditEntry {
    fn duplicate(&self) -> (e: AuditEntry)
        ensures
            e@ == self@,
    {
        AuditEntry {
            change_id: self.change_id,
            kind: self.kind,
            applied: self.applied,
            reason: self.reason.clone(),
        }
    }
}

/// The audit record of an attempt on `change`.
pub open spec fn record_of(change: &ProposedChange, applied: bool, reason: Seq<char>) -> AuditRecord {
    AuditRecord { change_id: change.id, kind: change.kind, applied, reason }
}

/// One call's effect on the audit: it stays as it was, or grows by one
/// record at its end.
pub open spec fn audit_step(before: Seq<AuditRecord>, after: Seq<AuditRecord>) -> bool {
    after == before || (after.len() == before.len() + 1 && after.drop_last() == before)
}

/// One call on `change`: the audit stays as it was, or grows by one record
/// of that change at its end.
pub open spec fn audit_step_for(before: Seq<AuditRecord>, after: Seq<AuditRecord>, change: &ProposedChange) -> bool {
    after == before || (after.len() == before.len() + 1 && after.drop_last() == before
        && after.last().change_id == change.id && after.last().kind == change.kind)
}

/// The outcome of proposing a change.
#[derive(Debug, Clone, Copy, PartialEq, Eq, Structural)]
pub enum AdaptationResult {
    /// Verified within bounds and applied.
    Applied,
    /// Rejected by the sandbox, rate limit, or kill-switch.
    Rejected,
}

/// The plain state of an [`AdaptEngine`].
pub ghost struct EngineState {
    pub kill_switch: bool,
    pub max_proposals: u64,
    /// Proposals admitted so far, counted against the proposal limit.
    pub proposals: u64,
    /// Changes whose apply hook succeeded.
    pub applied: u64,
    pub audit: Seq<AuditRecord>,
}

/// Which gate a change meets when it is verified.
pub enum Gate {
    /// The kill-switch is engaged: the change is refused with an error.
    Killed,
    /// The sandbox does not permit the change.
    OverCap,
    /// The lifetime rate limit has been reached.
    RateLimited,
    /// The change may be applied.
    Open,
}

/// Which gate stops a change, if any (kill-switch, sandbox bound, rate
/// limit, checked in this order).
pub open spec fn gate(s: EngineState, allowed: bool) -> Gate {
    if s.kill_switch {
        Gate::Killed
    } else if !allowed {
        Gate::OverCap
    } else if s.proposals >= s.max_proposals {
        Gate::RateLimited
    } else {
        Gate::Open
    }
}

/// The audit reason recorded when a change is refused at a gate.
pub open spec fn refusal_reason(g: Gate, change: &ProposedChange) -> Seq<char> {
    match g {
        Gate::Killed => "kill-switch engaged"@,
        Gate::OverCap => "diff "@ + decimal(change.diff@.len()) + "B exceeds sandbox cap"@,
        _ => "rate limit reached"@,
    }
}

pub open spec fn kill_text() -> Seq<char> {
    "adapt kill-switch engaged; change refused"@
}

pub open spec fn bounds_text() -> Seq<char> {
    "change exceeds sandbox bounds or rate limit"@
}

/// Everything but the audit log and the proposal counter is left alone.
pub open spec fn same_config(a: EngineState, b: EngineState) -> bool {
    a.kill_switch == b.kill_switch && a.max_proposals == b.max_proposals
}

/// Bounded, auditable self-improvement engine.
pub struct AdaptEngine<S> {
    sandbox: S,
    kill_switch: bool,
    max_proposals: u64,
    proposals: u64,
    applied: u64,
    audit: Vec<AuditEntry>,
}

impl<S> View for AdaptEngine<S> {
    type V = EngineState;

    closed spec fn view(&self) -> EngineState {
        EngineState {
            kill_switch: self.kill_switch,
            max_proposals: self.max_proposals,
            proposals: self.proposals,
            applied: self.applied,
            audit: self.audit@.map_values(|e: AuditEntry| e@),
        }
    }
}

impl AdaptEngine<BoundsSandbox> {
    /// `max_diff_bytes` is the sandbox cap; `max_proposals` is the lifetime
    /// rate limit. Uses the default [`BoundsSandbox`].
    pub fn new(max_diff_bytes: usize, max_proposals: u64) -> (e: Self)
        ensures
            e.sandbox_spec().max_diff_bytes == max_diff_bytes,
            e@ == (EngineState {
                kill_switch: false,
                max_proposals,
                proposals: 0,
                applied: 0,
                audit: seq![],
            }),
    {
        Self::with_sandbox(BoundsSandbox::new(max_diff_bytes), max_proposals)
    }
}

impl<S: Sandbox> AdaptEngine<S> {
    pub closed spec fn sandbox_spec(&self) -> S {
        self.sandbox
    }

    /// The rate-limit invariant: never more attempts than allowed, and never
    /// more changes applied than attempted.
    pub open spec fn wf(&self) -> bool {
        self@.proposals <= self@.max_proposals && self@.applied <= self@.proposals
    }

    /// Construct with an explicit sandbox boundary.
    pub fn with_sandbox(sandbox: S, max_proposals: u64) -> (e: Self)
        ensures
            e.sandbox_spec() == sandbox,
            e@ == (EngineState {
                kill_switch: false,
                max_proposals,
                proposals: 0,
                applied: 0,
                audit: seq![],
            }),
            e.wf(),
    {
        let e = AdaptEngine {
            sandbox,
            kill_switch: false,
            max_proposals,
            proposals: 0,
            applied: 0,
            audit: Vec::new(),
        };
        assert(e@.audit =~= seq![]);
        e
    }

    /// Trip the global kill-switch. It stays engaged for the engine's life.
    pub fn trip_kill_switch(&mut self)
        ensures
            final(self)@ == (EngineState { kill_switch: true, ..old(self)@ }),
            final(self).sandbox_spec() == old(self).sandbox_spec(),
            audit_step(old(self)@.audit, final(self)@.audit),
    {
        self.kill_switch = true;
    }

    pub fn kill_switch_engaged(&self) -> (b: bool)
        ensures
            b == self@.kill_switch,
    {
        self.kill_switch
    }

    fn record(&mut self, change: &ProposedChange, applied: bool, reason: String)
        ensures
            final(self)@ == (EngineState {
                audit: old(self)@.audit.push(record_of(change, applied, reason@)),
                ..old(self)@
            }),
            final(self).sandbox_spec() == old(self).sandbox_spec(),
            audit_step_for(old(self)@.audit, final(self)@.audit, change),
    {
        self.audit.push(AuditEntry { change_id: change.id, kind: change.kind, applied, reason });
        proof {
            assert(self@.audit =~= old(self)@.audit.push(record_of(change, applied, reason@)));
            assert(self@.audit.drop_last() =~= old(self)@.audit);
        }
    }

    /// Independent verification step. `Ok(true)` if the change passes the
    /// kill-switch, the sandbox bound and the rate limit (nothing is
    /// recorded); `Ok(false)` if the sandbox or the rate limit rejects it;
    /// `Err` if the kill-switch is engaged. Every refusal is audited. The
    /// proposal budget is never consumed here.
    pub fn verify(&mut self, change: &ProposedChange) -> (r: Result<bool, Error>)
        ensures
            final(self).sandbox_spec() == old(self).sandbox_spec(),
            same_config(final(self)@, old(self)@),
            final(self)@.proposals == old(self)@.proposals,
            final(self)@.applied == old(self)@.applied,
            audit_step_for(old(self)@.audit, final(self)@.audit, change),
            ({
                let g = gate(old(self)@, old(self).sandbox_spec().allows(change));
                match g {
                    Gate::Open => r == Ok::<bool, Error>(true) && final(self)@ == old(self)@,
                    Gate::Killed => r matches Err(Error::Invalid(m)) && m@ == kill_text()
                        && final(self)@.audit == old(self)@.audit.push(
                        record_of(change, false, refusal_reason(g, change))),
                    _ => r == Ok::<bool, Error>(false) && final(self)@.audit == old(self)@.audit.push(
                        record_of(change, false, refusal_reason(g, change))),
                }
            }),
    {
        if self.kill_switch_engaged() {
            self.record(change, false, String::from_str("kill-switch engaged"));
            return Err(Error::Invalid(String::from_str("adapt kill-switch engaged; change refused")));
        }
        if !self.sandbox.permits(change) {
            let n = decimal_string(change.diff_size() as u64);
            self.record(change, false, join3("diff ", n.as_str(), "B exceeds sandbox cap"));
            return Ok(false);
        }
        if self.proposals >= self.max_proposals {
            self.record(change, false, String::from_str("rate limit reached"));
            return Ok(false);
        }
        Ok(true)
    }

    /// Apply a change via a caller-supplied hook, after verifying it. A change
    /// that fails verification is refused with an error. Otherwise one unit
    /// of the rate-limit budget is consumed and the hook runs; if it
    /// succeeds the change counts as applied; if it fails, the rollback hook
    /// is invoked and the hook's error is returned. Every attempt is written
    /// to the audit log.
    pub fn apply<F, G>(&mut self, change: &ProposedChange, apply_fn: F, rollback_fn: G) -> (r: Result<
        AdaptationResult,
        Error,
    >) where
        F: FnOnce(&ProposedChange) -> Result<(), Error>,
        G: FnOnce(&ProposedChange) -> Result<(), Error>,

        requires
            old(self).wf(),
            call_requires(apply_fn, (change,)),
            call_requires(rollback_fn, (change,)),
        ensures
            final(self).wf(),
            final(self).sandbox_spec() == old(self).sandbox_spec(),
            same_config(final(self)@, old(self)@),
            audit_step_for(old(self)@.audit, final(self)@.audit, change),
            ({
                let g = gate(old(self)@, old(self).sandbox_spec().allows(change));
                match g {
                    Gate::Open => {
                        &&& final(self)@.proposals == old(self)@.proposals + 1
                        &&& r matches Ok(a) ==> a == AdaptationResult::Applied
                            && call_ensures(apply_fn, (change,), Ok::<(), Error>(()))
                            && final(self)@.applied == old(self)@.applied + 1
                            && final(self)@.audit == old(self)@.audit.push(
                            record_of(change, true, "verified and applied"@))
                        &&& r matches Err(e) ==> call_ensures(apply_fn, (change,), Err::<(), Error>(e))
                            && (exists|o: Result<(), Error>| call_ensures(rollback_fn, (change,), o))
                            && final(self)@.applied == old(self)@.applied
                            && final(self)@.audit == old(self)@.audit.push(
                            record_of(change, false, "apply failed; rolled back: "@ + error_text(e)))
                    },
                    Gate::Killed => {
                        &&& r matches Err(Error::Invalid(m)) && m@ == kill_text()
                        &&& final(self)@.proposals == old(self)@.proposals
                        &&& final(self)@.applied == old(self)@.applied
                        &&& final(self)@.audit == old(self)@.audit.push(
                            record_of(change, false, refusal_reason(g, change)))
                    },
                    _ => {
                        &&& r matches Err(Error::Invalid(m)) && m@ == bounds_text()
                        &&& final(self)@.proposals == old(self)@.proposals
                        &&& final(self)@.applied == old(self)@.applied
                        &&& final(self)@.audit == old(self)@.audit.push(
                            record_of(change, false, refusal_reason(g, change)))
                    },
                }
            }),
    {
        let ok = match self.verify(change) {
            Ok(b) => b,
            Err(e) => return Err(e),
        };
        if !ok {
            return Err(Error::Invalid(String::from_str("change exceeds sandbox bounds or rate limit")));
        }
        self.proposals = self.proposals + 1;
        let res = apply_fn(change);
        match res {
            Ok(u) => {
                assert(res == Ok::<(), Error>(u));
                assert(u == ());
                self.applied = self.applied + 1;
                self.record(change, true, String::from_str("verified and applied"));
                Ok(AdaptationResult::Applied)
            },
            Err(e) => {
                let undone = rollback_fn(change);
                assert(call_ensures(rollback_fn, (change,), undone));
                let text = e.to_string();
                self.record(change, false, join("apply failed; rolled back: ", text.as_str()));
                Err(e)
            },
        }
    }

    /// Roll back a previously applied change via a caller-supplied hook. A
    /// successful rollback is audited; a failing hook's error is returned and
    /// nothing is recorded.
    pub fn rollback<G>(&mut self, change: &ProposedChange, rollback_fn: G) -> (r: Result<(), Error>) where
        G: FnOnce(&ProposedChange) -> Result<(), Error>,

        requires
            call_requires(rollback_fn, (change,)),
        ensures
            final(self).sandbox_spec() == old(self).sandbox_spec(),
            call_ensures(rollback_fn, (change,), r),
            audit_step_for(old(self)@.audit, final(self)@.audit, change),
            r is Ok ==> final(self)@ == (EngineState {
                audit: old(self)@.audit.push(record_of(change, false, "rolled back on demand"@)),
                ..old(self)@
            }),
            r is Err ==> final(self)@ == old(self)@,
    {
        let res = rollback_fn(change);
        if let Err(_) = &res {
            return res;
        }
        self.record(change, false, String::from_str("rolled back on demand"));
        res
    }

    /// Propose a change with no-op apply and rollback hooks: applied iff it
    /// passes verification.
    pub fn propose(&mut self, change: &ProposedChange) -> (r: Result<AdaptationResult, Error>)
        requires
            old(self).wf(),
        ensures
            final(self).wf(),
            final(self).sandbox_spec() == old(self).sandbox_spec(),
            same_config(final(self)@, old(self)@),
            audit_step_for(old(self)@.audit, final(self)@.audit, change),
            ({
                let g = gate(old(self)@, old(self).sandbox_spec().allows(change));
                match g {
                    Gate::Open => {
                        &&& r == Ok::<AdaptationResult, Error>(AdaptationResult::Applied)
                        &&& final(self)@.proposals == old(self)@.proposals + 1
                        &&& final(self)@.applied == old(self)@.applied + 1
                        &&& final(self)@.audit == old(self)@.audit.push(
                            record_of(change, true, "verified and applied"@))
                    },
                    Gate::Killed => {
                        &&& r matches Err(Error::Invalid(m)) && m@ == kill_text()
                        &&& final(self)@.proposals == old(self)@.proposals
                        &&& final(self)@.applied == old(self)@.applied
                        &&& final(self)@.audit == old(self)@.audit.push(
                            record_of(change, false, refusal_reason(g, change)))
                    },
                    _ => {
                        &&& r matches Err(Error::Invalid(m)) && m@ == bounds_text()
                        &&& final(self)@.proposals == old(self)@.proposals
                        &&& final(self)@.applied == old(self)@.applied
                        &&& final(self)@.audit == old(self)@.audit.push(
                            record_of(change, false, refusal_reason(g, change)))
                    },
                }
            }),
    {
        let noop = |c: &ProposedChange| -> (out: Result<(), Error>)
            ensures
                out is Ok,
            { Ok(()) };
        let undo = |c: &ProposedChange| -> (out: Result<(), Error>)
            ensures
                out is Ok,
            { Ok(()) };
        self.apply(change, noop, undo)
    }

    /// All audit entries, oldest first.
    pub fn audit(&self) -> (entries: Vec<AuditEntry>)
        ensures
            entries@.map_values(|e: AuditEntry| e@) == self@.audit,
    {
        let mut out: Vec<AuditEntry> = Vec::new();
        let mut i: usize = 0;
        while i < self.audit.len()
            invariant
                i <= self.audit@.len(),
                out@.len() == i,
                forall|j: int| 0 <= j < i ==> out@[j]@ == self.audit@[j]@,
            decreases self.audit@.len() - i,
        {
            out.push(self.audit[i].duplicate());
            i = i + 1;
        }
        assert(out@.map_values(|e: AuditEntry| e@) =~= self@.audit);
        out
    }

    /// How many changes have been applied: attempts whose apply hook
    /// failed and was rolled back do not count.
    pub fn proposals_made(&self) -> (n: u64)
        ensures
            n == self@.applied,
    {
        self.applied
    }
}

/// A call on a change is one audit step.
pub proof fn lemma_step_for_is_step(before: Seq<AuditRecord>, after: Seq<AuditRecord>, change: &ProposedChange)
    requires
        audit_step_for(before, after, change),
    ensures
        audit_step(before, after),
{
}

/// The audit is append-only: over a run of audits, each following the one
/// before by one call (`verify`, `apply`, `propose`, `rollback` or
/// `trip_kill_switch`), every audit is a prefix of every later one, and
/// never longer than its position in the run allows.
pub proof fn lemma_audit_append_only(runs: Seq<Seq<AuditRecord>>)
    requires
        forall|i: int| 0 <= i < runs.len() - 1 ==> audit_step(#[trigger] runs[i], runs[i + 1]),
    ensures
        forall|i: int, j: int| 0 <= i <= j < runs.len() ==> (#[trigger] runs[i]).is_prefix_of(#[trigger] runs[j]),
        forall|j: int| 0 <= j < runs.len() ==> (#[trigger] runs[j]).len() <= runs[0].len() + j,
    decreases runs.len(),
{
    if runs.len() > 1 {
        let init = runs.drop_last();
        assert forall|i: int| 0 <= i < init.len() - 1 implies audit_step(#[trigger] init[i], init[i + 1]) by {
            assert(init[i] == runs[i] && init[i + 1] == runs[i + 1]);
        }
        lemma_audit_append_only(init);
        let n = runs.len() - 1;
        assert(audit_step(runs[n - 1], runs[n]));
        assert(runs[n - 1].is_prefix_of(runs[n])) by {
            if runs[n] != runs[n - 1] {
                assert(runs[n - 1] =~= runs[n].take(runs[n - 1].len() as int));
            }
        }
        assert forall|i: int, j: int| 0 <= i <= j < runs.len() implies (#[trigger] runs[i]).is_prefix_of(
            #[trigger] runs[j],
        ) by {
            if j < n {
                assert(init[i] == runs[i] && init[j] == runs[j]);
            } else if i < n {
                assert(init[i] == runs[i] && init[n - 1] == runs[n - 1]);
                assert(runs[i].is_prefix_of(runs[n - 1]));
            } else {
                assert(runs[i] =~= runs[j].take(runs[i].len() as int));
            }
        }
        assert forall|j: int| 0 <= j < runs.len() implies (#[trigger] runs[j]).len() <= runs[0].len() + j by {
            if j < n {
                assert(init[j] == runs[j] && init[0] == runs[0]);
            } else {
                assert(init[n - 1] == runs[n - 1] && init[0] == runs[0]);
                assert(runs[n - 1].len() <= runs[0].len() + n - 1);
            }
        }
    }
}

/// The bounds sandbox judges a change by its size alone, whatever its kind:
/// it admits exactly the changes whose diff fits in `max_diff_bytes`, and
/// two changes with diffs of one size are judged alike.
pub proof fn lemma_bounds_sandbox_judges_size_only(sb: BoundsSandbox, c: ProposedChange, d: ProposedChange)
    ensures
        sb.allows(&c) <==> c.diff@.len() <= sb.max_diff_bytes,
        c.diff@.len() == d.diff@.len() ==> sb.allows(&c) == sb.allows(&d),
{
}

/// A change whose diff exceeds the bounds sandbox's cap never reaches the
/// open gate, whatever its kind and whatever the engine's state: it is
/// refused and never applied.
pub proof fn lemma_oversize_change_never_opens(s: EngineState, sb: BoundsSandbox, c: ProposedChange)
    requires
        c.diff@.len() > sb.max_diff_bytes,
    ensures
        !(gate(s, sb.allows(&c)) is Open),
{
}

/// A change passes the open gate only when the kill-switch is off, the
/// sandbox permits it and the proposal budget is not exhausted.
pub proof fn lemma_open_gate_is_bounded(s: EngineState, allowed: bool)
    ensures
        gate(s, allowed) is Open <==> (!s.kill_switch && allowed && s.proposals < s.max_proposals),
{
}

} // verus!
