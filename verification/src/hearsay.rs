//! Reputation hearsay: gossiped claims about third parties, kept per
//! subject and keyed by the claim's *original* witness, so the same claim
//! arriving over several relay paths is held once rather than counted again.
//!
//! A claim is stored only when it is not about this agent, not a witness
//! vouching for (or accusing) itself, has travelled a trusted number of
//! hops, and is neither future-dated nor stale. A newer claim from the same
//! witness replaces an older one; an older one is ignored.

use vstd::prelude::*;
use crate::types::AgentId;
use crate::barter::{MAX_HOPS, MAX_REPORT_AGE_CYCLES};
use crate::trades::{age, agent_views};

verus! {

/// One witness's claimed trust in a subject.
#[derive(Debug, Clone)]
pub struct Hearsay<T> {
    /// Who the claim is about.
    pub subject: AgentId,
    /// The original witness who made it.
    pub origin: AgentId,
    /// The claimed trust.
    pub trust: T,
    /// The cycle the witness made the claim.
    pub as_of_cycle: u64,
    /// How far it travelled from the witness (1 = heard directly).
    pub hops: u32,
}

/// Whether a report made at `as_of` is still current at `now`.
pub open spec fn report_is_current(as_of: u64, now: u64) -> bool {
    age(now, as_of) <= MAX_REPORT_AGE_CYCLES
}

/// Whether a claim may enter the book of agent `self_id` at `now`.
pub open spec fn claim_admissible<T>(self_id: Seq<u8>, h: Hearsay<T>, now: u64) -> bool {
    &&& h.subject@ != self_id
    &&& h.subject@ != h.origin@
    &&& 1 <= h.hops <= MAX_HOPS
    &&& h.as_of_cycle <= now
    &&& report_is_current(h.as_of_cycle, now)
}

/// The claim held about `subject` from witness `origin`, if any.
pub open spec fn find_claim<T>(s: Seq<Hearsay<T>>, subject: Seq<u8>, origin: Seq<u8>) -> Option<Hearsay<T>>
    decreases s.len(),
{
    if s.len() == 0 {
        None
    } else if s[0].subject@ == subject && s[0].origin@ == origin {
        Some(s[0])
    } else {
        find_claim(s.drop_first(), subject, origin)
    }
}

/// The claims without the one about `subject` from `origin`.
pub open spec fn without_claim<T>(s: Seq<Hearsay<T>>, subject: Seq<u8>, origin: Seq<u8>) -> Seq<Hearsay<T>>
    decreases s.len(),
{
    if s.len() == 0 {
        s
    } else if s[0].subject@ == subject && s[0].origin@ == origin {
        without_claim(s.drop_first(), subject, origin)
    } else {
        seq![s[0]] + without_claim(s.drop_first(), subject, origin)
    }
}

/// At most one claim per subject and witness.
pub open spec fn one_claim_per_witness<T>(s: Seq<Hearsay<T>>) -> bool
    decreases s.len(),
{
    s.len() == 0 || (find_claim(s.drop_first(), s[0].subject@, s[0].origin@) is None
        && one_claim_per_witness(s.drop_first()))
}

/// Every claim is from a witness other than its subject and within the
/// hop bound.
pub open spec fn claims_sound<T>(s: Seq<Hearsay<T>>) -> bool {
    forall|i: int|
        0 <= i < s.len() ==> (#[trigger] s[i]).subject@ != s[i].origin@ && 1 <= s[i].hops
            <= MAX_HOPS
}

/// The current claims about `subject`, in order.
pub open spec fn current_claims<T>(s: Seq<Hearsay<T>>, subject: Seq<u8>, now: u64) -> Seq<Hearsay<T>>
    decreases s.len(),
{
    if s.len() == 0 {
        s
    } else if s[0].subject@ == subject && report_is_current(s[0].as_of_cycle, now) {
        seq![s[0]] + current_claims(s.drop_first(), subject, now)
    } else {
        current_claims(s.drop_first(), subject, now)
    }
}

pub open spec fn witnesses_of<T>(s: Seq<Hearsay<T>>) -> Seq<Seq<u8>> {
    s.map_values(|h: Hearsay<T>| h.origin@)
}

proof fn lemma_find_without<T>(s: Seq<Hearsay<T>>, sub: Seq<u8>, ori: Seq<u8>, sub2: Seq<u8>, ori2: Seq<u8>)
    ensures
        find_claim(without_claim(s, sub, ori), sub2, ori2) == if sub2 == sub && ori2 == ori {
            None
        } else {
            find_claim(s, sub2, ori2)
        },
    decreases s.len(),
{
    if s.len() > 0 {
        lemma_find_without(s.drop_first(), sub, ori, sub2, ori2);
        let w = without_claim(s.drop_first(), sub, ori);
        if !(s[0].subject@ == sub && s[0].origin@ == ori) {
            assert((seq![s[0]] + w).drop_first() =~= w);
        }
    }
}

proof fn lemma_find_push<T>(s: Seq<Hearsay<T>>, h: Hearsay<T>, sub: Seq<u8>, ori: Seq<u8>)
    ensures
        find_claim(s.push(h), sub, ori) == match find_claim(s, sub, ori) {
            Some(c) => Some(c),
            None => if h.subject@ == sub && h.origin@ == ori { Some(h) } else { None },
        },
    decreases s.len(),
{
    if s.len() > 0 {
        assert(s.push(h).drop_first() =~= s.drop_first().push(h));
        assert(s.push(h)[0] == s[0]);
        lemma_find_push(s.drop_first(), h, sub, ori);
    } else {
        assert(s.push(h).drop_first() =~= Seq::<Hearsay<T>>::empty());
        reveal_with_fuel(find_claim, 2);
    }
}

proof fn lemma_unique_without<T>(s: Seq<Hearsay<T>>, sub: Seq<u8>, ori: Seq<u8>)
    requires
        one_claim_per_witness(s),
    ensures
        one_claim_per_witness(without_claim(s, sub, ori)),
    decreases s.len(),
{
    if s.len() > 0 {
        lemma_unique_without(s.drop_first(), sub, ori);
        let w = without_claim(s.drop_first(), sub, ori);
        if !(s[0].subject@ == sub && s[0].origin@ == ori) {
            assert((seq![s[0]] + w).drop_first() =~= w);
            lemma_find_without(s.drop_first(), sub, ori, s[0].subject@, s[0].origin@);
        }
    }
}

proof fn lemma_unique_push<T>(s: Seq<Hearsay<T>>, h: Hearsay<T>)
    requires
        one_claim_per_witness(s),
        find_claim(s, h.subject@, h.origin@) is None,
    ensures
        one_claim_per_witness(s.push(h)),
    decreases s.len(),
{
    if s.len() > 0 {
        assert(s.push(h).drop_first() =~= s.drop_first().push(h));
        assert(s.push(h)[0] == s[0]);
        lemma_unique_push(s.drop_first(), h);
        lemma_find_push(s.drop_first(), h, s[0].subject@, s[0].origin@);
    } else {
        assert(s.push(h).drop_first() =~= Seq::<Hearsay<T>>::empty());
        reveal_with_fuel(find_claim, 2);
        reveal_with_fuel(one_claim_per_witness, 2);
    }
}

proof fn lemma_sound_without<T>(s: Seq<Hearsay<T>>, sub: Seq<u8>, ori: Seq<u8>)
    requires
        claims_sound(s),
    ensures
        claims_sound(without_claim(s, sub, ori)),
    decreases s.len(),
{
    if s.len() > 0 {
        assert(claims_sound(s.drop_first())) by {
            assert forall|i: int| 0 <= i < s.drop_first().len() implies (#[trigger] s.drop_first()[i]).subject@
                != s.drop_first()[i].origin@ && 1 <= s.drop_first()[i].hops <= MAX_HOPS by {
                assert(s.drop_first()[i] == s[i + 1]);
            }
        }
        lemma_sound_without(s.drop_first(), sub, ori);
        let w = without_claim(s.drop_first(), sub, ori);
        if !(s[0].subject@ == sub && s[0].origin@ == ori) {
            assert forall|i: int| 0 <= i < (seq![s[0]] + w).len() implies (#[trigger] (seq![s[0]]
                + w)[i]).subject@ != (seq![s[0]] + w)[i].origin@ && 1 <= (seq![s[0]] + w)[i].hops
                <= MAX_HOPS by {
                if i > 0 {
                    assert((seq![s[0]] + w)[i] == w[i - 1]);
                }
            }
        }
    }
}

proof fn lemma_without_absent<T>(s: Seq<Hearsay<T>>, sub: Seq<u8>, ori: Seq<u8>)
    requires
        find_claim(s, sub, ori) is None,
    ensures
        without_claim(s, sub, ori) == s,
    decreases s.len(),
{
    if s.len() > 0 {
        lemma_without_absent(s.drop_first(), sub, ori);
        assert(seq![s[0]] + s.drop_first() =~= s);
    }
}

proof fn lemma_without_len<T>(s: Seq<Hearsay<T>>, sub: Seq<u8>, ori: Seq<u8>)
    requires
        one_claim_per_witness(s),
        find_claim(s, sub, ori) is Some,
    ensures
        without_claim(s, sub, ori).len() + 1 == s.len(),
    decreases s.len(),
{
    if s[0].subject@ == sub && s[0].origin@ == ori {
        lemma_without_absent(s.drop_first(), sub, ori);
    } else {
        lemma_without_len(s.drop_first(), sub, ori);
    }
}

/// Gossip does not inflate corroboration: a claim from a witness already
/// heard about the subject replaces the earlier one, so the number of
/// claims held stays the same, and the newer claim is the one held.
pub proof fn lemma_refold_replaces<T>(s: Seq<Hearsay<T>>, claim: Hearsay<T>)
    requires
        one_claim_per_witness(s),
        find_claim(s, claim.subject@, claim.origin@) is Some,
    ensures
        without_claim(s, claim.subject@, claim.origin@).push(claim).len() == s.len(),
        find_claim(without_claim(s, claim.subject@, claim.origin@).push(claim), claim.subject@, claim.origin@)
            == Some(claim),
{
    lemma_without_len(s, claim.subject@, claim.origin@);
    lemma_find_without(s, claim.subject@, claim.origin@, claim.subject@, claim.origin@);
    lemma_find_push(without_claim(s, claim.subject@, claim.origin@), claim, claim.subject@, claim.origin@);
}

/// The current view of a subject is complete: it lists, in the order they
/// are held, exactly the claims about that subject whose report is at most
/// `MAX_REPORT_AGE_CYCLES` cycles old at `now` (a report dated after `now`
/// counts as zero cycles old).
pub proof fn lemma_current_claims_complete<T>(s: Seq<Hearsay<T>>, subject: Seq<u8>, now: u64)
    ensures
        current_claims(s, subject, now) == s.filter(
            |h: Hearsay<T>|
                h.subject@ == subject && (if now >= h.as_of_cycle { now - h.as_of_cycle } else { 0 })
                    <= MAX_REPORT_AGE_CYCLES,
        ),
    decreases s.len(),
{
    let pred = |h: Hearsay<T>|
        h.subject@ == subject && (if now >= h.as_of_cycle { now - h.as_of_cycle } else { 0 })
            <= MAX_REPORT_AGE_CYCLES;
    reveal(Seq::filter);
    if s.len() > 0 {
        lemma_current_claims_complete(s.drop_first(), subject, now);
        let head = seq![s[0]];
        assert(s =~= head + s.drop_first());
        Seq::filter_distributes_over_add(head, s.drop_first(), pred);
        assert(head.drop_last() =~= Seq::<Hearsay<T>>::empty());
        assert(head.last() == s[0]);
        if pred(s[0]) {
            assert(head.filter(pred) =~= head);
        } else {
            assert(head.drop_last().filter(pred) == head.drop_last());
            assert(head.filter(pred) == head.drop_last());
            assert(head.filter(pred) =~= Seq::<Hearsay<T>>::empty());
            assert(Seq::<Hearsay<T>>::empty() + s.drop_first().filter(pred) =~= s.drop_first().filter(pred));
        }
    }
}

/// Every claim the current-claims view yields is current and about the
/// subject asked for.
pub proof fn lemma_current_claims_are_current<T>(s: Seq<Hearsay<T>>, subject: Seq<u8>, now: u64)
    ensures
        forall|i: int|
            0 <= i < current_claims(s, subject, now).len() ==> (#[trigger] current_claims(
                s,
                subject,
                now,
            )[i]).subject@ == subject && report_is_current(
                current_claims(s, subject, now)[i].as_of_cycle,
                now,
            ),
    decreases s.len(),
{
    if s.len() > 0 {
        lemma_current_claims_are_current(s.drop_first(), subject, now);
        let w = current_claims(s.drop_first(), subject, now);
        if s[0].subject@ == subject && report_is_current(s[0].as_of_cycle, now) {
            assert forall|i: int| 0 <= i < (seq![s[0]] + w).len() implies (#[trigger] (seq![s[0]]
                + w)[i]).subject@ == subject && report_is_current(
                (seq![s[0]] + w)[i].as_of_cycle,
                now,
            ) by {
                if i > 0 {
                    assert((seq![s[0]] + w)[i] == w[i - 1]);
                }
            }
        }
    }
}

/// The hearsay this agent holds about third parties.
#[derive(Debug)]
pub struct HearsayBook<T> {
    claims: Vec<Hearsay<T>>,
}

impl<T> HearsayBook<T> {
    pub closed spec fn claims(&self) -> Seq<Hearsay<T>> {
        self.claims@
    }

    /// One claim per subject and witness, each sound.
    pub open spec fn well_formed(&self) -> bool {
        one_claim_per_witness(self.claims()) && claims_sound(self.claims())
    }

    pub fn new() -> (b: Self)
        ensures
            b.well_formed(),
            b.claims() == Seq::<Hearsay<T>>::empty(),
    {
        HearsayBook { claims: Vec::new() }
    }

    /// Fold a claim received by agent `self_id` at `now` into the book:
    /// stored (replacing the witness's earlier claim about the subject)
    /// when admissible and at least as recent as what is held; ignored
    /// otherwise. Returns whether it was stored.
    pub fn fold(&mut self, self_id: &AgentId, claim: Hearsay<T>, now: u64) -> (stored: bool)
        requires
            old(self).well_formed(),
        ensures
            final(self).well_formed(),
            stored == (claim_admissible(self_id@, claim, now) && match find_claim(
                old(self).claims(),
                claim.subject@,
                claim.origin@,
            ) {
                Some(held) => held.as_of_cycle <= claim.as_of_cycle,
                None => true,
            }),
            stored ==> final(self).claims() == without_claim(
                old(self).claims(),
                claim.subject@,
                claim.origin@,
            ).push(claim),
            !stored ==> final(self).claims() == old(self).claims(),
    {
        if claim.subject == *self_id || claim.subject == claim.origin {
            return false;
        }
        if claim.hops < 1 || claim.hops > MAX_HOPS {
            return false;
        }
        if claim.as_of_cycle > now || now - claim.as_of_cycle > MAX_REPORT_AGE_CYCLES {
            return false;
        }
        let held = match claim_ref(&self.claims, &claim.subject, &claim.origin) {
            Some(h) => Some(h.as_of_cycle),
            None => None,
        };
        match held {
            Some(c) => {
                if c > claim.as_of_cycle {
                    return false;
                }
            },
            None => {},
        }
        let ghost old_claims = self.claims@;
        drop_claim(&mut self.claims, &claim.subject, &claim.origin);
        proof {
            lemma_unique_without(old_claims, claim.subject@, claim.origin@);
            lemma_find_without(old_claims, claim.subject@, claim.origin@, claim.subject@, claim.origin@);
            lemma_unique_push(self.claims@, claim);
            lemma_sound_without(old_claims, claim.subject@, claim.origin@);
        }
        let ghost w = self.claims@;
        self.claims.push(claim);
        proof {
            assert forall|i: int| 0 <= i < self.claims@.len() implies (#[trigger] self.claims@[i]).subject@
                != self.claims@[i].origin@ && 1 <= self.claims@[i].hops <= MAX_HOPS by {
                if i < w.len() {
                    assert(self.claims@[i] == w[i]);
                }
            }
        }
        true
    }

    /// The current claims about `subject` at `now`, in the order held.
    pub fn current(&self, subject: &AgentId, now: u64) -> (r: Vec<&Hearsay<T>>)
        ensures
            r@.len() == current_claims(self.claims(), subject@, now).len(),
            forall|i: int| 0 <= i < r@.len() ==> *r@[i] == current_claims(self.claims(), subject@, now)[i],
    {
        let ghost s = self.claims@;
        let mut out: Vec<&Hearsay<T>> = Vec::new();
        let mut i: usize = 0;
        assert(s.skip(0) =~= s);
        while i < self.claims.len()
            invariant
                s == self.claims@,
                i <= s.len(),
                out@.len() + current_claims(s.skip(i as int), subject@, now).len() == current_claims(s, subject@, now).len(),
                forall|j: int| 0 <= j < out@.len() ==> *out@[j] == current_claims(s, subject@, now)[j],
                forall|j: int| 0 <= j < current_claims(s.skip(i as int), subject@, now).len() ==>
                    current_claims(s.skip(i as int), subject@, now)[j] == current_claims(s, subject@, now)[out@.len() + j],
            decreases s.len() - i,
        {
            let ghost rest = s.skip(i as int);
            assert(rest.drop_first() =~= s.skip(i as int + 1));
            let h = &self.claims[i];
            let current = if now >= h.as_of_cycle {
                now - h.as_of_cycle <= MAX_REPORT_AGE_CYCLES
            } else {
                true
            };
            if h.subject == *subject && current {
                proof {
                    let tail = current_claims(s.skip(i as int + 1), subject@, now);
                    assert(current_claims(rest, subject@, now) == seq![s[i as int]] + tail);
                    assert forall|j: int| 0 <= j < tail.len() implies tail[j] == current_claims(s, subject@, now)[out@.len() + 1 + j] by {
                        assert((seq![s[i as int]] + tail)[j + 1] == tail[j]);
                    }
                    assert((seq![s[i as int]] + tail)[0] == s[i as int]);
                }
                out.push(h);
            }
            i = i + 1;
        }
        assert(s.skip(i as int) =~= Seq::<Hearsay<T>>::empty());
        out
    }

    /// The distinct witnesses currently backing what is held about
    /// `subject` at `now`.
    pub fn origins(&self, subject: &AgentId, now: u64) -> (r: Vec<AgentId>)
        ensures
            agent_views(r@) == witnesses_of(current_claims(self.claims(), subject@, now)),
    {
        let claims = self.current(subject, now);
        let ghost cur = current_claims(self.claims(), subject@, now);
        let mut out: Vec<AgentId> = Vec::new();
        let mut i: usize = 0;
        while i < claims.len()
            invariant
                i <= claims@.len(),
                claims@.len() == cur.len(),
                forall|j: int| 0 <= j < claims@.len() ==> *claims@[j] == cur[j],
                agent_views(out@) =~= witnesses_of(cur.take(i as int)),
            decreases claims@.len() - i,
        {
            let ghost prev = out@;
            out.push(claims[i].origin);
            proof {
                assert(cur.take(i as int + 1) =~= cur.take(i as int).push(cur[i as int]));
                assert(witnesses_of(cur.take(i as int).push(cur[i as int])) =~= witnesses_of(
                    cur.take(i as int),
                ).push(cur[i as int].origin@));
                assert(agent_views(prev.push(claims@[i as int].origin)) =~= agent_views(prev).push(
                    claims@[i as int].origin@,
                ));
            }
            i = i + 1;
        }
        assert(cur.take(i as int) =~= cur);
        out
    }
}

/// The claim held about `subject` from `origin`, by reference.
fn claim_ref<'a, T>(v: &'a Vec<Hearsay<T>>, subject: &AgentId, origin: &AgentId) -> (r: Option<&'a Hearsay<T>>)
    ensures
        match r {
            Some(h) => find_claim(v@, subject@, origin@) == Some(*h),
            None => find_claim(v@, subject@, origin@) is None,
        },
{
    let mut i: usize = 0;
    assert(v@.skip(0) =~= v@);
    while i < v.len()
        invariant
            i <= v@.len(),
            find_claim(v@, subject@, origin@) == find_claim(v@.skip(i as int), subject@, origin@),
        decreases v@.len() - i,
    {
        assert(v@.skip(i as int).drop_first() =~= v@.skip(i as int + 1));
        if v[i].subject == *subject && v[i].origin == *origin {
            return Some(&v[i]);
        }
        i = i + 1;
    }
    None
}

/// Remove the claim held about `subject` from `origin`.
fn drop_claim<T>(v: &mut Vec<Hearsay<T>>, subject: &AgentId, origin: &AgentId)
    ensures
        final(v)@ == without_claim(old(v)@, subject@, origin@),
{
    let mut rest: Vec<Hearsay<T>> = Vec::new();
    std::mem::swap(&mut rest, v);
    let ghost orig = rest@;
    let mut kept: Vec<Hearsay<T>> = Vec::new();
    while rest.len() > 0
        invariant
            kept@ + without_claim(rest@, subject@, origin@) == without_claim(orig, subject@, origin@),
        decreases rest@.len(),
    {
        let ghost before = rest@;
        let h = rest.remove(0);
        assert(rest@ =~= before.drop_first());
        if !(h.subject == *subject && h.origin == *origin) {
            proof {
                assert(kept@.push(h) + without_claim(rest@, subject@, origin@) =~= kept@ + (seq![h]
                    + without_claim(rest@, subject@, origin@)));
            }
            kept.push(h);
        }
    }
    assert(kept@ =~= without_claim(orig, subject@, origin@));
    *v = kept;
}

} // verus!
