//! The replicator: checkpoint capture and restore, erasure-coded sharding,
//! migration, copy-limit enforcement and the replication audit.

use vstd::prelude::*;
use crate::checkpoint::{encoded, fields_len_bound, parsed, signable, Checkpoint, CheckpointView, CHECKPOINT_VERSION, MAX_CHECKPOINT_BYTES};
use crate::clock::now_secs;
use crate::error::Error;
use crate::policy::CopyLimitPolicy;
use crate::repaudit::{AuditEntry, ReplicationAudit, ReplicationReason, ReplicationRecord};
use crate::shards::{
    agrees, codeword, data_pieces, decode_shards, encode_shards, piece_len, present_count, present_of, present_uniform,
    rs_reconstruct, shaped, unframe, uniform, views,
};
use crate::text::{decimal, decimal_string, join, join3};
use crate::traits::{Replicate, Signer, Verifier};
use crate::types::{hex_lower, AgentId};
use vstd::slice::slice_to_vec;

verus! {

/// The blob's checkpoint `c` was restored: its payload returned, and it is
/// the current checkpoint.
pub open spec fn took(c: CheckpointView, r: Result<Vec<u8>, Error>, current: Option<CheckpointView>) -> bool {
    (r matches Ok(p) && p@ == c.payload) && current == Some(c)
}

/// The refusal of a checkpoint whose seal the verifier rejected.
pub open spec fn seal_refused(r: Result<Vec<u8>, Error>) -> bool {
    r matches Err(Error::Integrity(m)) && m@ == "checkpoint seal verification failed"@
}

/// What restoring the blob `bytes` into `rep` answers: a blob that does
/// not parse is refused; one for another agent is a replication error;
/// without a verifier it is restored; with a verifier an unsigned one is
/// refused, and a signed one is restored if the verifier accepts its seal
/// over its signable bytes and refused if it rejects it.
pub open spec fn restored(
    rep: Replicator,
    bytes: Seq<u8>,
    r: Result<Vec<u8>, Error>,
    current: Option<CheckpointView>,
) -> bool {
    match parsed(bytes) {
        None => r is Err,
        Some(c) => if c.agent != rep.agent_spec() {
            r matches Err(Error::Replication(_))
        } else if !rep.has_verifier() {
            took(c, r, current)
        } else if c.seal is None {
            r matches Err(Error::Integrity(m)) && m@ == "checkpoint is unsigned"@
        } else {
            match rep.seal_answer(signable(c), c.seal.unwrap()) {
                Some(true) => took(c, r, current),
                Some(false) => seal_refused(r),
                None => took(c, r, current) || seal_refused(r),
            }
        },
    }
}

/// Orchestrates an agent's reproductive lifecycle.
pub struct Replicator {
    agent_id: AgentId,
    current: Option<Checkpoint>,
    policy: CopyLimitPolicy,
    audit: ReplicationAudit,
    data_shards: usize,
    parity_shards: usize,
    signer: Option<Box<dyn Signer>>,
    verifier: Option<Box<dyn Verifier>>,
}

pub open spec fn current_view(c: Option<Checkpoint>) -> Option<CheckpointView> {
    match c {
        Some(k) => Some(k@),
        None => None,
    }
}

/// The audit record of an event.
pub open spec fn event(
    agent: Seq<u8>,
    reason: ReplicationReason,
    ts: u64,
    live: usize,
    detail: Seq<char>,
) -> ReplicationRecord {
    ReplicationRecord { agent, reason, timestamp_secs: ts, live_copies_after: live, detail }
}

impl Replicator {
    pub closed spec fn agent_spec(&self) -> Seq<u8> {
        self.agent_id@
    }

    pub closed spec fn current_spec(&self) -> Option<CheckpointView> {
        current_view(self.current)
    }

    pub closed spec fn live_spec(&self) -> usize {
        self.policy.live_spec()
    }

    pub closed spec fn max_spec(&self) -> usize {
        self.policy.max_spec()
    }

    pub closed spec fn audit_spec(&self) -> Seq<ReplicationRecord> {
        self.audit@
    }

    pub closed spec fn data_count(&self) -> usize {
        self.data_shards
    }

    pub closed spec fn parity_count(&self) -> usize {
        self.parity_shards
    }

    /// The signing backend, if any.
    pub closed spec fn signer_of(&self) -> Option<Box<dyn Signer>> {
        self.signer
    }

    /// The verification backend, if any.
    pub closed spec fn verifier_of(&self) -> Option<Box<dyn Verifier>> {
        self.verifier
    }

    pub open spec fn has_signer(&self) -> bool {
        self.signer_of() is Some
    }

    pub open spec fn has_verifier(&self) -> bool {
        self.verifier_of() is Some
    }

    /// What the configured signer promises of `seal` over `data` (nothing
    /// holds without a signer).
    pub open spec fn signer_seals(&self, data: Seq<u8>, seal: Seq<u8>) -> bool {
        match self.signer_of() {
            Some(s) => s.seals(data, seal),
            None => false,
        }
    }

    /// The answer the configured verifier promises for `seal` over `data`.
    pub open spec fn seal_answer(&self, data: Seq<u8>, seal: Seq<u8>) -> Option<bool> {
        match self.verifier_of() {
            Some(v) => v.answer(data, seal),
            None => None,
        }
    }

    /// Everything but the current checkpoint and the audit is unchanged.
    pub open spec fn same_setup(&self, other: &Self) -> bool {
        &&& self.agent_spec() == other.agent_spec()
        &&& self.live_spec() == other.live_spec()
        &&& self.max_spec() == other.max_spec()
        &&& self.data_count() == other.data_count()
        &&& self.parity_count() == other.parity_count()
        &&& self.signer_of() == other.signer_of()
        &&& self.verifier_of() == other.verifier_of()
    }

    /// `max_copies` is the hard cap on concurrent redundant copies;
    /// `data_shards` / `parity_shards` configure erasure coding.
    pub fn new(agent_id: AgentId, max_copies: usize, data_shards: usize, parity_shards: usize) -> (r: Self)
        ensures
            r.agent_spec() == agent_id@,
            r.current_spec() is None,
            r.live_spec() == 0,
            r.max_spec() == max_copies,
            r.audit_spec() == Seq::<ReplicationRecord>::empty(),
            r.data_count() == data_shards,
            r.parity_count() == parity_shards,
            !r.has_signer(),
            !r.has_verifier(),
    {
        Replicator {
            agent_id,
            current: None,
            policy: CopyLimitPolicy::new(max_copies),
            audit: ReplicationAudit::new(),
            data_shards,
            parity_shards,
            signer: None,
            verifier: None,
        }
    }

    /// Attach a signing backend: captured checkpoints carry a seal over
    /// their signable bytes.
    pub fn with_signer(&mut self, signer: Box<dyn Signer>)
        ensures
            final(self).signer_of() == Some(signer),
            final(self).verifier_of() == old(self).verifier_of(),
            final(self).agent_spec() == old(self).agent_spec(),
            final(self).current_spec() == old(self).current_spec(),
            final(self).live_spec() == old(self).live_spec(),
            final(self).max_spec() == old(self).max_spec(),
            final(self).audit_spec() == old(self).audit_spec(),
            final(self).data_count() == old(self).data_count(),
            final(self).parity_count() == old(self).parity_count(),
    {
        let attached = Some(signer);
        self.signer = attached;
    }

    /// Attach a verification backend: restores then reject unsigned or
    /// failed-verification checkpoints.
    pub fn with_verifier(&mut self, verifier: Box<dyn Verifier>)
        ensures
            final(self).verifier_of() == Some(verifier),
            final(self).signer_of() == old(self).signer_of(),
            final(self).agent_spec() == old(self).agent_spec(),
            final(self).current_spec() == old(self).current_spec(),
            final(self).live_spec() == old(self).live_spec(),
            final(self).max_spec() == old(self).max_spec(),
            final(self).audit_spec() == old(self).audit_spec(),
            final(self).data_count() == old(self).data_count(),
            final(self).parity_count() == old(self).parity_count(),
    {
        let attached = Some(verifier);
        self.verifier = attached;
    }

    /// The copy-limit policy.
    pub fn policy(&self) -> (p: &CopyLimitPolicy)
        ensures
            p.live_spec() == self.live_spec(),
            p.max_spec() == self.max_spec(),
    {
        &self.policy
    }

    pub fn audit(&self) -> (a: &ReplicationAudit)
        ensures
            a@ == self.audit_spec(),
    {
        &self.audit
    }

    /// Capture a checkpoint of the running agent's state blob, signing it if
    /// a signer is configured, and audit the capture.
    pub fn capture(&mut self, state: &[u8]) -> (r: Result<(), Error>)
        ensures
            final(self).same_setup(old(self)),
            r is Ok,
            r is Ok ==> ({
                let c = final(self).current_spec().unwrap();
                &&& final(self).current_spec() is Some
                &&& c.version == CHECKPOINT_VERSION
                &&& c.agent == old(self).agent_spec()
                &&& c.payload == state@
                &&& (c.seal is Some <==> old(self).has_signer())
                &&& (c.seal matches Some(s) ==> old(self).signer_seals(signable(c), s))
                &&& final(self).audit_spec().len() == old(self).audit_spec().len() + 1
                &&& final(self).audit_spec().drop_last() == old(self).audit_spec()
                &&& final(self).audit_spec().last().agent == old(self).agent_spec()
                &&& final(self).audit_spec().last().reason == ReplicationReason::Checkpoint
                &&& final(self).audit_spec().last().live_copies_after == old(self).live_spec()
                &&& final(self).audit_spec().last().detail == "state "@ + decimal(state@.len()) + " bytes"@
            }),
    {
        let mut ckpt = Checkpoint::new(self.agent_id, slice_to_vec(state), now_secs());
        match &self.signer {
            Some(signer) => {
                let signable = match ckpt.signable_bytes() {
                    Ok(b) => b,
                    Err(e) => return Err(e),
                };
                ckpt.seal = Some(signer.sign(signable.as_slice()));
            },
            None => {},
        }
        self.current = Some(ckpt);
        let n = decimal_string(state.len() as u64);
        let entry = AuditEntry {
            agent_id: self.agent_id,
            reason: ReplicationReason::Checkpoint,
            timestamp_secs: now_secs(),
            live_copies_after: self.policy.live_copies(),
            detail: join3("state ", n.as_str(), " bytes"),
        };
        self.audit.record(entry);
        Ok(())
    }

    /// The current checkpoint as a magic-prefixed blob, or an error if none
    /// has been captured yet.
    pub fn checkpoint_bytes(&self) -> (r: Result<Vec<u8>, Error>)
        ensures
            self.current_spec() is None ==> (r matches Err(Error::Replication(m)) && m@
                == "no checkpoint captured"@),
            self.current_spec() is Some ==> r is Ok,
            r matches Ok(b) ==> b@ == encoded(self.current_spec().unwrap()),
            r matches Ok(b) ==> (self.current_spec().unwrap().version <= CHECKPOINT_VERSION && b@.len()
                <= MAX_CHECKPOINT_BYTES ==> parsed(b@) == self.current_spec()),
            r matches Ok(b) ==> b@.len() <= 4 + fields_len_bound(
                self.current_spec().unwrap().payload.len(),
                self.current_spec().unwrap().seal,
            ),
    {
        match &self.current {
            Some(c) => c.to_bytes(),
            None => Err(Error::Replication(String::from_str("no checkpoint captured"))),
        }
    }

    /// Restore state from a checkpoint blob, returning the agent state
    /// payload. A blob that does not parse, or that belongs to another agent,
    /// is rejected. With a verifier configured the seal must be present and
    /// verify. On success the blob becomes the current checkpoint; on any
    /// error nothing changes.
    pub fn restore_state(&mut self, bytes: &[u8]) -> (r: Result<Vec<u8>, Error>)
        ensures
            final(self).same_setup(old(self)),
            final(self).audit_spec() == old(self).audit_spec(),
            r is Err ==> final(self).current_spec() == old(self).current_spec(),
            r is Ok ==> parsed(bytes@) is Some && parsed(bytes@).unwrap().agent == old(self).agent_spec(),
            r matches Ok(p) ==> p@ == parsed(bytes@).unwrap().payload && final(self).current_spec()
                == parsed(bytes@),
            r is Ok && old(self).has_verifier() ==> parsed(bytes@).unwrap().seal is Some,
            parsed(bytes@) is Some && parsed(bytes@).unwrap().agent != old(self).agent_spec() ==> (r matches Err(
                Error::Replication(_),
            )),
            parsed(bytes@) is Some && parsed(bytes@).unwrap().agent == old(self).agent_spec()
                && !old(self).has_verifier() ==> r is Ok,
            parsed(bytes@) is Some && parsed(bytes@).unwrap().agent == old(self).agent_spec()
                && old(self).has_verifier() && parsed(bytes@).unwrap().seal is None ==> (r matches Err(
                Error::Integrity(m),
            ) && m@ == "checkpoint is unsigned"@),
            r is Ok && old(self).has_verifier() ==> old(self).seal_answer(
                signable(parsed(bytes@).unwrap()),
                parsed(bytes@).unwrap().seal.unwrap(),
            ) != Some(false),
            restored(*old(self), bytes@, r, final(self).current_spec()),
    {
        let ckpt = match Checkpoint::from_bytes(bytes) {
            Ok(c) => c,
            Err(e) => return Err(e),
        };
        if !(ckpt.agent_id == self.agent_id) {
            let a = ckpt.agent_id.to_string();
            let b = self.agent_id.to_string();
            let m = join3("checkpoint is for ", a.as_str(), " but this agent is ");
            return Err(Error::Replication(join(m.as_str(), b.as_str())));
        }
        match &self.verifier {
            Some(verifier) => {
                let seal = match &ckpt.seal {
                    Some(s) => s,
                    None => return Err(Error::Integrity(String::from_str("checkpoint is unsigned"))),
                };
                let signable = match ckpt.signable_bytes() {
                    Ok(b) => b,
                    Err(e) => return Err(e),
                };
                if !verifier.verify(signable.as_slice(), seal.as_slice()) {
                    return Err(Error::Integrity(String::from_str("checkpoint seal verification failed")));
                }
            },
            None => {},
        }
        let payload = slice_to_vec(ckpt.payload.as_slice());
        self.current = Some(ckpt);
        Ok(payload)
    }

    /// Erasure-code the current checkpoint into shards.
    pub fn shards(&self) -> (r: Result<Vec<Vec<u8>>, Error>)
        requires
            self.data_count() + self.parity_count() <= usize::MAX,
        ensures
            self.current_spec() is None ==> (r matches Err(Error::Replication(m)) && m@
                == "no checkpoint captured"@),
            self.current_spec() is Some && encoded(self.current_spec().unwrap()).len() + 300 > usize::MAX
                ==> (r matches Err(Error::Invalid(_))),
            self.current_spec() is Some && encoded(self.current_spec().unwrap()).len() + 300 <= usize::MAX
                ==> ({
                let b = encoded(self.current_spec().unwrap());
                let d = self.data_count() as nat;
                let p = self.parity_count() as nat;
                &&& d == 0 ==> (r matches Err(Error::Invalid(m)) && m@ == "need at least one data shard"@)
                &&& d > 0 && p == 0 ==> (r matches Err(Error::Invalid(m)) && m@
                    == "need at least one parity shard"@)
                &&& d > 0 && p > 0 && d + p > 256 ==> (r matches Err(Error::Replication(_)))
                &&& d > 0 && p > 0 && d + p <= 256 ==> (r matches Ok(v) && views(v@) == codeword(
                    d,
                    p,
                    data_pieces(b, d),
                ) && uniform(views(v@), piece_len(b.len(), d)))
            }),
    {
        let bytes = match self.checkpoint_bytes() {
            Ok(b) => b,
            Err(e) => return Err(e),
        };
        if bytes.len() > usize::MAX - 300 {
            return Err(Error::Invalid(String::from_str("checkpoint too large to shard")));
        }
        encode_shards(bytes.as_slice(), self.data_shards, self.parity_shards)
    }

    /// Recover state from (possibly partial) shards: the blob they encode
    /// is decoded and restored as [`Replicator::restore_state`] restores it.
    pub fn restore_from_shards(&mut self, shards: &[Vec<u8>]) -> (r: Result<Vec<u8>, Error>)
        requires
            old(self).data_count() + old(self).parity_count() <= usize::MAX,
        ensures
            final(self).same_setup(old(self)),
            final(self).audit_spec() == old(self).audit_spec(),
            r is Err ==> final(self).current_spec() == old(self).current_spec(),
            r is Ok ==> final(self).current_spec() is Some && final(self).current_spec().unwrap().agent
                == old(self).agent_spec(),
            r matches Ok(p) ==> p@ == final(self).current_spec().unwrap().payload,
            shards@.len() != old(self).data_count() + old(self).parity_count() ==> (r matches Err(
                Error::Invalid(_),
            )),
            shards@.len() == old(self).data_count() + old(self).parity_count() && !(old(self).data_count()
                > 0 && old(self).parity_count() > 0 && old(self).data_count() + old(self).parity_count()
                <= 256) ==> (r matches Err(Error::Replication(_))),
            shards@.len() == old(self).data_count() + old(self).parity_count() && old(self).data_count()
                > 0 && old(self).parity_count() > 0 && old(self).data_count() + old(self).parity_count()
                <= 256 && !(present_uniform(present_of(views(shards@))) && present_count(
                present_of(views(shards@)),
            ) >= old(self).data_count()) ==> (r matches Err(Error::Replication(_))),
            forall|data: Seq<Seq<u8>>|
                #![trigger codeword(old(self).data_count() as nat, old(self).parity_count() as nat, data)]
                shards@.len() == old(self).data_count() + old(self).parity_count() && old(self).data_count()
                    > 0 && old(self).parity_count() > 0 && old(self).data_count()
                    + old(self).parity_count() <= 256 && present_uniform(present_of(views(shards@)))
                    && present_count(present_of(views(shards@))) >= old(self).data_count() && data.len()
                    == old(self).data_count() && shaped(data, present_of(views(shards@))) && agrees(
                    present_of(views(shards@)),
                    codeword(old(self).data_count() as nat, old(self).parity_count() as nat, data),
                ) ==> match unframe(data.flatten()) {
                    Some(x) => restored(*old(self), x, r, final(self).current_spec()),
                    None => r matches Err(Error::Invalid(_)),
                },
            shards@.len() == old(self).data_count() + old(self).parity_count() && old(self).data_count() > 0
                && old(self).parity_count() > 0 && old(self).data_count() + old(self).parity_count() <= 256
                && present_uniform(present_of(views(shards@))) && present_count(present_of(views(shards@)))
                >= old(self).data_count() ==> match unframe(
                rs_reconstruct(
                    old(self).data_count() as nat,
                    old(self).parity_count() as nat,
                    present_of(views(shards@)),
                ).take(old(self).data_count() as int).flatten(),
            ) {
                Some(x) => restored(*old(self), x, r, final(self).current_spec()),
                None => r matches Err(Error::Invalid(_)),
            },
    {
        let bytes = match decode_shards(shards, self.data_shards, self.parity_shards) {
            Ok(b) => b,
            Err(e) => return Err(e),
        };
        self.restore_state(bytes.as_slice())
    }

    /// Number of live concurrent copies (from the copy-limit policy).
    pub fn live_copy_count(&self) -> (n: usize)
        ensures
            n == self.live_spec(),
    {
        self.policy.live_copies()
    }

    /// Authorize one more redundant copy, enforcing the hard cap, and audit
    /// it. A refused copy changes nothing.
    pub fn authorize_copy(&mut self, reason: ReplicationReason) -> (r: Result<(), Error>)
        ensures
            final(self).agent_spec() == old(self).agent_spec(),
            final(self).current_spec() == old(self).current_spec(),
            final(self).max_spec() == old(self).max_spec(),
            final(self).data_count() == old(self).data_count(),
            final(self).parity_count() == old(self).parity_count(),
            final(self).has_signer() == old(self).has_signer(),
            final(self).has_verifier() == old(self).has_verifier(),
            r is Ok <==> old(self).live_spec() < old(self).max_spec(),
            r is Ok ==> final(self).live_spec() == old(self).live_spec() + 1
                && final(self).audit_spec().len() == old(self).audit_spec().len() + 1
                && final(self).audit_spec().drop_last() == old(self).audit_spec()
                && final(self).audit_spec().last().agent == old(self).agent_spec()
                && final(self).audit_spec().last().reason == reason
                && final(self).audit_spec().last().live_copies_after == final(self).live_spec()
                && final(self).audit_spec().last().detail == Seq::<char>::empty(),
            r is Err ==> final(self).live_spec() == old(self).live_spec() && final(self).audit_spec()
                == old(self).audit_spec() && (r matches Err(e) && e is Replication),
            old(self).live_spec() <= old(self).max_spec() ==> final(self).live_spec() <= final(self).max_spec(),
    {
        match self.policy.authorize_copy() {
            Ok(()) => {},
            Err(e) => return Err(e),
        }
        let entry = AuditEntry {
            agent_id: self.agent_id,
            reason,
            timestamp_secs: now_secs(),
            live_copies_after: self.policy.live_copies(),
            detail: String::new(),
        };
        self.audit.record(entry);
        proof {
            assert(self.audit@.drop_last() =~= old(self).audit@);
        }
        Ok(())
    }

    /// Live-migrate this agent's checkpoint into `target` (another node
    /// hosting the same agent), and audit the migration on both ends.
    pub fn migrate_to(&mut self, target: &mut Replicator, reason: ReplicationReason) -> (r: Result<(), Error>)
        ensures
            final(self).same_setup(old(self)),
            final(self).current_spec() == old(self).current_spec(),
            final(target).same_setup(old(target)),
            r is Ok ==> old(self).current_spec() is Some && (old(self).current_spec().unwrap().version
                <= CHECKPOINT_VERSION && encoded(old(self).current_spec().unwrap()).len() <= MAX_CHECKPOINT_BYTES
                ==> final(target).current_spec() == old(self).current_spec())
                && final(self).audit_spec().len() == old(self).audit_spec().len() + 1
                && final(self).audit_spec().drop_last() == old(self).audit_spec()
                && final(self).audit_spec().last().reason == reason
                && final(self).audit_spec().last().detail == "migrated to "@ + hex_lower(old(target).agent_spec())
                && final(target).audit_spec().len() == old(target).audit_spec().len() + 1
                && final(target).audit_spec().drop_last() == old(target).audit_spec()
                && final(target).audit_spec().last().reason == reason
                && final(target).audit_spec().last().detail == "migrated from "@ + hex_lower(old(self).agent_spec()),
            r is Err ==> final(self).audit_spec() == old(self).audit_spec() && final(target).current_spec()
                == old(target).current_spec() && final(target).audit_spec() == old(target).audit_spec(),
            old(self).current_spec() is None ==> (r matches Err(Error::Replication(m)) && m@
                == "no checkpoint captured"@),
            old(self).current_spec() is Some ==> ({
                let c = old(self).current_spec().unwrap();
                c.version <= CHECKPOINT_VERSION && (encoded(c).len() <= MAX_CHECKPOINT_BYTES || 4
                    + fields_len_bound(c.payload.len(), c.seal) <= MAX_CHECKPOINT_BYTES) ==> {
                    &&& r is Ok ==> final(target).current_spec() == Some(c)
                    &&& c.agent != old(target).agent_spec() ==> (r matches Err(Error::Replication(_)))
                    &&& c.agent == old(target).agent_spec() && !old(target).has_verifier() ==> r is Ok
                    &&& c.agent == old(target).agent_spec() && old(target).has_verifier() && c.seal is None
                        ==> (r matches Err(Error::Integrity(m)) && m@ == "checkpoint is unsigned"@)
                    &&& c.agent == old(target).agent_spec() && old(target).has_verifier() && c.seal is Some
                        && old(target).seal_answer(signable(c), c.seal.unwrap()) == Some(true) ==> r is Ok
                    &&& c.agent == old(target).agent_spec() && old(target).has_verifier() && c.seal is Some
                        && old(target).seal_answer(signable(c), c.seal.unwrap()) == Some(false) ==> (r matches Err(
                        Error::Integrity(m),
                    ) && m@ == "checkpoint seal verification failed"@)
                }
            }),
    {
        let bytes = match self.checkpoint_bytes() {
            Ok(b) => b,
            Err(e) => return Err(e),
        };
        match target.restore_state(bytes.as_slice()) {
            Ok(_) => {},
            Err(e) => return Err(e),
        }
        let ts = now_secs();
        let to_hex = target.agent_id.to_string();
        let from_hex = self.agent_id.to_string();
        let e1 = AuditEntry {
            agent_id: self.agent_id,
            reason,
            timestamp_secs: ts,
            live_copies_after: self.policy.live_copies(),
            detail: join("migrated to ", to_hex.as_str()),
        };
        self.audit.record(e1);
        let e2 = AuditEntry {
            agent_id: target.agent_id,
            reason,
            timestamp_secs: ts,
            live_copies_after: target.policy.live_copies(),
            detail: join("migrated from ", from_hex.as_str()),
        };
        target.audit.record(e2);
        proof {
            assert(self.audit@.drop_last() =~= old(self).audit@);
            assert(target.audit@.drop_last() =~= old(target).audit@);
        }
        Ok(())
    }
}

impl Replicate for Replicator {
    /// The current checkpoint's bytes, as [`Replicator::checkpoint_bytes`].
    fn checkpoint(&self) -> (r: Result<Vec<u8>, Error>)
        ensures
            self.current_spec() is None ==> (r matches Err(Error::Replication(m)) && m@
                == "no checkpoint captured"@),
            self.current_spec() is Some ==> (r matches Ok(b) && b@ == encoded(self.current_spec().unwrap())),
    {
        self.checkpoint_bytes()
    }

    /// Restore from a checkpoint blob, as [`Replicator::restore_state`],
    /// dropping the returned payload.
    fn restore(&mut self, checkpoint: &[u8]) -> (r: Result<(), Error>)
        ensures
            final(self).same_setup(old(self)),
            final(self).audit_spec() == old(self).audit_spec(),
            r is Err ==> final(self).current_spec() == old(self).current_spec(),
            r is Ok ==> parsed(checkpoint@) is Some && parsed(checkpoint@).unwrap().agent == old(
                self,
            ).agent_spec() && final(self).current_spec() == parsed(checkpoint@),
            r is Ok && old(self).has_verifier() ==> parsed(checkpoint@).unwrap().seal is Some,
            match parsed(checkpoint@) {
                None => r is Err,
                Some(c) => if c.agent != old(self).agent_spec() {
                    r matches Err(Error::Replication(_))
                } else if !old(self).has_verifier() {
                    r is Ok
                } else if c.seal is None {
                    r matches Err(Error::Integrity(m)) && m@ == "checkpoint is unsigned"@
                } else {
                    match old(self).seal_answer(signable(c), c.seal.unwrap()) {
                        Some(true) => r is Ok,
                        Some(false) => r matches Err(Error::Integrity(m)) && m@
                            == "checkpoint seal verification failed"@,
                        None => r is Ok || (r matches Err(Error::Integrity(m)) && m@
                            == "checkpoint seal verification failed"@),
                    }
                },
            },
    {
        match self.restore_state(checkpoint) {
            Ok(_) => Ok(()),
            Err(e) => Err(e),
        }
    }

    /// Always known: the copy-limit policy's live count.
    open spec fn reported_copy_count(&self) -> Result<usize, Error> {
        Ok(self.live_spec())
    }

    fn live_copy_count(&self) -> Result<usize, Error> {
        Ok(self.policy.live_copies())
    }
}

} // verus!
