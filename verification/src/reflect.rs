//! The bookkeeping of self-reflection: what is predicted, the ground truth
//! a peer-outcome prediction is checked against, and the bounded queues of
//! samples and pending predictions a long-running loop keeps.
//!
//! The history and the pending predictions are each held to
//! `window + horizon + 4` entries, so memory stays bounded however long the
//! loop runs; pending predictions resolve, oldest first, once the cycle they
//! target has been reached.

use vstd::prelude::*;
use crate::types::AgentId;

verus! {

/// The quantity being predicted.
#[derive(Debug, Clone, Copy, PartialEq, Eq, PartialOrd, Ord, Hash, Structural)]
pub enum PredictedValue {
    /// Energy (joules) at a future cycle.
    Energy,
    /// Probability that a warning-or-worse threat occurs next cycle.
    ThreatLikelihood,
    /// Probability that a peer will honor its next bargain.
    PeerOutcome,
}

/// Ground truth of how a peer actually behaved, where known.
#[derive(Debug, Clone, Copy, PartialEq)]
pub struct PeerOutcomeActual {
    /// The peer this outcome is about.
    pub peer: AgentId,
    /// Whether the peer honored the bargain.
    pub honored: bool,
}

/// The larger of `n` and one.
pub open spec fn at_least_one(n: usize) -> nat {
    if n == 0 {
        1
    } else {
        n as nat
    }
}

/// The normalised sizes of a reflector: the sample window and the
/// prediction horizon, each at least one.
#[derive(Debug, Clone, Copy, PartialEq, Eq, Structural)]
pub struct ReflectBounds {
    window: usize,
    horizon: usize,
}

impl ReflectBounds {
    pub closed spec fn window_spec(&self) -> nat {
        self.window as nat
    }

    pub closed spec fn horizon_spec(&self) -> nat {
        self.horizon as nat
    }

    /// How many samples, and how many pending predictions, are retained.
    pub open spec fn cap_spec(&self) -> nat {
        self.window_spec() + self.horizon_spec() + 4
    }

    /// Normalise a window and horizon (zero becomes one).
    pub fn new(window: usize, horizon: usize) -> (b: Self)
        requires
            at_least_one(window) + at_least_one(horizon) + 4 <= usize::MAX,
        ensures
            b.window_spec() == at_least_one(window),
            b.horizon_spec() == at_least_one(horizon),
            b.cap_spec() <= usize::MAX,
    {
        let window = if window == 0 {
            1
        } else {
            window
        };
        let horizon = if horizon == 0 {
            1
        } else {
            horizon
        };
        ReflectBounds { window, horizon }
    }

    pub fn window(&self) -> (n: usize)
        ensures
            n == self.window_spec(),
    {
        self.window
    }

    pub fn horizon(&self) -> (n: usize)
        ensures
            n == self.horizon_spec(),
    {
        self.horizon
    }

    /// The retention cap, `window + horizon + 4`.
    pub fn cap(&self) -> (n: usize)
        requires
            self.cap_spec() <= usize::MAX,
        ensures
            n == self.cap_spec(),
    {
        self.window + self.horizon + 4
    }
}

/// The last `n` entries of `s` (all of them if there are fewer).
pub open spec fn keep_last<T>(s: Seq<T>, n: nat) -> Seq<T> {
    if s.len() <= n {
        s
    } else {
        s.skip(s.len() - n)
    }
}

/// Append `item` to a bounded queue, dropping the oldest entries until at
/// most `cap` remain.
pub fn push_bounded<T>(queue: &mut Vec<T>, item: T, cap: usize)
    ensures
        final(queue)@ == keep_last(old(queue)@.push(item), cap as nat),
        final(queue)@.len() <= cap,
        cap >= 1 ==> final(queue)@.last() == item,
{
    let ghost full = old(queue)@.push(item);
    queue.push(item);
    while queue.len() > cap
        invariant
            full.len() > 0,
            queue@.len() <= full.len(),
            queue@ == full.skip(full.len() - queue@.len()),
            queue@.len() >= cap || queue@.len() == full.len(),
        decreases queue@.len(),
    {
        let _ = queue.remove(0);
        assert(queue@ =~= full.skip(full.len() - queue@.len()));
    }
    assert(full.skip(0) =~= full);
    if cap >= 1 {
        assert(queue@.last() == full.last());
    }
}

/// How many entries at the front of `targets` are due at `cycle`: the
/// leading run whose target cycle has been reached.
pub open spec fn leading_due(targets: Seq<u64>, cycle: u64) -> nat
    decreases targets.len(),
{
    if targets.len() == 0 || targets[0] > cycle {
        0
    } else {
        1 + leading_due(targets.drop_first(), cycle)
    }
}

/// The number of pending predictions, oldest first, that resolve at `cycle`.
pub fn due_count(targets: &[u64], cycle: u64) -> (n: usize)
    ensures
        n == leading_due(targets@, cycle),
        n <= targets@.len(),
        forall|i: int| 0 <= i < n ==> targets@[i] <= cycle,
        n < targets@.len() ==> targets@[n as int] > cycle,
{
    let mut i: usize = 0;
    assert(targets@.skip(0) =~= targets@);
    while i < targets.len() && targets[i] <= cycle
        invariant
            i <= targets@.len(),
            i + leading_due(targets@.skip(i as int), cycle) == leading_due(targets@, cycle),
            forall|j: int| 0 <= j < i ==> targets@[j] <= cycle,
        decreases targets@.len() - i,
    {
        assert(targets@.skip(i as int).drop_first() =~= targets@.skip(i as int + 1));
        i = i + 1;
    }
    i
}

/// How many resolved evaluations of `kind` there are.
pub open spec fn count_kind(evals: Seq<(PredictedValue, bool)>, kind: PredictedValue) -> nat
    decreases evals.len(),
{
    if evals.len() == 0 {
        0
    } else {
        (if evals[0].0 == kind { 1nat } else { 0nat }) + count_kind(evals.drop_first(), kind)
    }
}

/// How many resolved evaluations of `kind` were hits.
pub open spec fn count_hits(evals: Seq<(PredictedValue, bool)>, kind: PredictedValue) -> nat
    decreases evals.len(),
{
    if evals.len() == 0 {
        0
    } else {
        (if evals[0].0 == kind && evals[0].1 { 1nat } else { 0nat }) + count_hits(
            evals.drop_first(),
            kind,
        )
    }
}

/// The counts behind a calibration summary: resolved predictions of each
/// kind and, for the categorical kinds, how many were hits.
#[derive(Debug, Clone, Copy, PartialEq, Eq, Structural)]
pub struct CalibrationTally {
    pub energy_n: usize,
    pub threat_n: usize,
    pub threat_hits: usize,
    pub peer_n: usize,
    pub peer_hits: usize,
}

/// Tally resolved evaluations, each given by its kind and whether it hit.
pub fn tally(evals: &[(PredictedValue, bool)]) -> (t: CalibrationTally)
    ensures
        t.energy_n == count_kind(evals@, PredictedValue::Energy),
        t.threat_n == count_kind(evals@, PredictedValue::ThreatLikelihood),
        t.threat_hits == count_hits(evals@, PredictedValue::ThreatLikelihood),
        t.peer_n == count_kind(evals@, PredictedValue::PeerOutcome),
        t.peer_hits == count_hits(evals@, PredictedValue::PeerOutcome),
        t.threat_hits <= t.threat_n,
        t.peer_hits <= t.peer_n,
{
    let mut t = CalibrationTally { energy_n: 0, threat_n: 0, threat_hits: 0, peer_n: 0, peer_hits: 0 };
    let mut i: usize = 0;
    let ghost s = evals@;
    assert(s.skip(0) =~= s);
    while i < evals.len()
        invariant
            s == evals@,
            i <= s.len(),
            t.energy_n + t.threat_n + t.peer_n <= i,
            t.threat_hits <= t.threat_n,
            t.peer_hits <= t.peer_n,
            t.energy_n + count_kind(s.skip(i as int), PredictedValue::Energy) == count_kind(s, PredictedValue::Energy),
            t.threat_n + count_kind(s.skip(i as int), PredictedValue::ThreatLikelihood) == count_kind(s, PredictedValue::ThreatLikelihood),
            t.threat_hits + count_hits(s.skip(i as int), PredictedValue::ThreatLikelihood) == count_hits(s, PredictedValue::ThreatLikelihood),
            t.peer_n + count_kind(s.skip(i as int), PredictedValue::PeerOutcome) == count_kind(s, PredictedValue::PeerOutcome),
            t.peer_hits + count_hits(s.skip(i as int), PredictedValue::PeerOutcome) == count_hits(s, PredictedValue::PeerOutcome),
        decreases s.len() - i,
    {
        assert(s.skip(i as int).drop_first() =~= s.skip(i as int + 1));
        let (kind, hit) = evals[i];
        match kind {
            PredictedValue::Energy => {
                t.energy_n = t.energy_n + 1;
            },
            PredictedValue::ThreatLikelihood => {
                t.threat_n = t.threat_n + 1;
                if hit {
                    t.threat_hits = t.threat_hits + 1;
                }
            },
            PredictedValue::PeerOutcome => {
                t.peer_n = t.peer_n + 1;
                if hit {
                    t.peer_hits = t.peer_hits + 1;
                }
            },
        }
        i = i + 1;
    }
    assert(s.skip(i as int) =~= Seq::<(PredictedValue, bool)>::empty());
    t
}

/// The target cycles of pending predictions, oldest first.
pub open spec fn targets_of<P>(pending: Seq<(u64, P)>) -> Seq<u64> {
    pending.map_values(|e: (u64, P)| e.0)
}

/// The predictions themselves, oldest first.
pub open spec fn payloads_of<P>(pending: Seq<(u64, P)>) -> Seq<P> {
    pending.map_values(|e: (u64, P)| e.1)
}

/// The bounded queues a reflector keeps as it runs: its recent samples, and
/// its pending predictions, each with the cycle it targets, oldest first.
pub struct ReflectQueues<S, P> {
    bounds: ReflectBounds,
    history: Vec<S>,
    pending: Vec<(u64, P)>,
}

impl<S, P> ReflectQueues<S, P> {
    pub closed spec fn bounds_spec(&self) -> ReflectBounds {
        self.bounds
    }

    pub closed spec fn history_spec(&self) -> Seq<S> {
        self.history@
    }

    pub closed spec fn pending_spec(&self) -> Seq<(u64, P)> {
        self.pending@
    }

    /// The cap fits a `usize`, and neither queue holds more than the cap.
    pub open spec fn wf(&self) -> bool {
        &&& self.bounds_spec().cap_spec() <= usize::MAX
        &&& self.history_spec().len() <= self.bounds_spec().cap_spec()
        &&& self.pending_spec().len() <= self.bounds_spec().cap_spec()
    }

    /// Empty queues for a window and horizon (zero becomes one).
    pub fn new(window: usize, horizon: usize) -> (q: Self)
        requires
            at_least_one(window) + at_least_one(horizon) + 4 <= usize::MAX,
        ensures
            q.wf(),
            q.bounds_spec().window_spec() == at_least_one(window),
            q.bounds_spec().horizon_spec() == at_least_one(horizon),
            q.history_spec() == Seq::<S>::empty(),
            q.pending_spec() == Seq::<(u64, P)>::empty(),
    {
        ReflectQueues { bounds: ReflectBounds::new(window, horizon), history: Vec::new(), pending: Vec::new() }
    }

    pub fn bounds(&self) -> (b: ReflectBounds)
        ensures
            b == self.bounds_spec(),
    {
        self.bounds
    }

    /// The recent samples, oldest first.
    pub fn history(&self) -> (h: &[S])
        ensures
            h@ == self.history_spec(),
    {
        self.history.as_slice()
    }

    pub fn history_len(&self) -> (n: usize)
        ensures
            n == self.history_spec().len(),
    {
        self.history.len()
    }

    pub fn pending_len(&self) -> (n: usize)
        ensures
            n == self.pending_spec().len(),
    {
        self.pending.len()
    }

    /// The cycle a prediction made at `cycle` targets: `horizon` cycles on,
    /// or `None` where that overflows.
    pub fn target_for(&self, cycle: u64) -> (t: Option<u64>)
        ensures
            cycle + self.bounds_spec().horizon_spec() <= u64::MAX ==> t == Some(
                (cycle + self.bounds_spec().horizon_spec()) as u64,
            ),
            cycle + self.bounds_spec().horizon_spec() > u64::MAX ==> t is None,
    {
        let h = self.bounds.horizon() as u64;
        cycle.checked_add(h)
    }

    /// Take out the pending predictions due at `cycle`: the leading run,
    /// oldest first, whose target cycle has been reached.
    pub fn resolve_due(&mut self, cycle: u64) -> (due: Vec<P>)
        requires
            old(self).wf(),
        ensures
            final(self).wf(),
            final(self).bounds_spec() == old(self).bounds_spec(),
            final(self).history_spec() == old(self).history_spec(),
            ({
                let n = leading_due(targets_of(old(self).pending_spec()), cycle) as int;
                &&& due@ == payloads_of(old(self).pending_spec().take(n))
                &&& final(self).pending_spec() == old(self).pending_spec().skip(n)
            }),
    {
        let mut targets: Vec<u64> = Vec::new();
        let mut i: usize = 0;
        while i < self.pending.len()
            invariant
                i <= self.pending@.len(),
                targets@ == targets_of(self.pending@.take(i as int)),
            decreases self.pending@.len() - i,
        {
            targets.push(self.pending[i].0);
            assert(targets_of(self.pending@.take(i + 1)) =~= targets_of(self.pending@.take(i as int)).push(
                self.pending@[i as int].0,
            ));
            i = i + 1;
        }
        assert(self.pending@.take(self.pending@.len() as int) =~= self.pending@);
        let n = due_count(targets.as_slice(), cycle);
        let ghost start = self.pending@;
        let mut due: Vec<P> = Vec::new();
        let mut k: usize = 0;
        while k < n
            invariant
                n <= start.len(),
                k <= n,
                self.pending@ == start.skip(k as int),
                due@ == payloads_of(start.take(k as int)),
                self.bounds == old(self).bounds,
                self.history@ == old(self).history@,
            decreases n - k,
        {
            let (_t, p) = self.pending.remove(0);
            assert(self.pending@ =~= start.skip(k + 1));
            assert(payloads_of(start.take(k + 1)) =~= payloads_of(start.take(k as int)).push(start[k as int].1));
            due.push(p);
            k = k + 1;
        }
        due
    }

    /// Record a sample, dropping the oldest once the cap is reached.
    pub fn record_sample(&mut self, sample: S)
        requires
            old(self).wf(),
        ensures
            final(self).wf(),
            final(self).bounds_spec() == old(self).bounds_spec(),
            final(self).pending_spec() == old(self).pending_spec(),
            final(self).history_spec() == keep_last(old(self).history_spec().push(sample), old(self).bounds_spec().cap_spec()),
            final(self).history_spec().last() == sample,
    {
        let cap = self.bounds.cap();
        push_bounded(&mut self.history, sample, cap);
    }

    /// Queue a prediction for the cycle it targets, dropping the oldest once
    /// the cap is reached.
    pub fn queue_prediction(&mut self, target: u64, prediction: P)
        requires
            old(self).wf(),
        ensures
            final(self).wf(),
            final(self).bounds_spec() == old(self).bounds_spec(),
            final(self).history_spec() == old(self).history_spec(),
            final(self).pending_spec() == keep_last(
                old(self).pending_spec().push((target, prediction)),
                old(self).bounds_spec().cap_spec(),
            ),
    {
        let cap = self.bounds.cap();
        push_bounded(&mut self.pending, (target, prediction), cap);
    }
}

/// Well-formed queues are bounded: however long a reflector runs, each
/// queue holds at most `window + horizon + 4` entries (window and horizon
/// taken as at least one).
pub proof fn lemma_queues_bounded<S, P>(q: ReflectQueues<S, P>)
    requires
        q.wf(),
    ensures
        q.history_spec().len() <= q.bounds_spec().window_spec() + q.bounds_spec().horizon_spec() + 4,
        q.pending_spec().len() <= q.bounds_spec().window_spec() + q.bounds_spec().horizon_spec() + 4,
{
}

} // verus!
