//! Append-only audit log of every replication / migration event: who, when,
//! why, and how many copies exist afterwards.

use vstd::prelude::*;
use crate::types::AgentId;

verus! {

/// Why a replication/migration happened.
#[derive(Debug, Clone, Copy, PartialEq, Eq, Structural)]
pub enum ReplicationReason {
    /// Routine checkpoint for persistence.
    Checkpoint,
    /// Proactive redundancy (keeping N copies alive).
    Survival,
    /// A "dying hardware" trigger fired.
    DyingHardware,
    /// Live migration to another node.
    Migration,
    /// Manual / operator-requested.
    Manual,
}

/// The stable name of each reason.
pub open spec fn reason_name(r: ReplicationReason) -> Seq<char> {
    match r {
        ReplicationReason::Checkpoint => "checkpoint"@,
        ReplicationReason::Survival => "survival"@,
        ReplicationReason::DyingHardware => "dying-hardware"@,
        ReplicationReason::Migration => "migration"@,
        ReplicationReason::Manual => "manual"@,
    }
}

impl ReplicationReason {
    pub fn as_str(&self) -> (s: &'static str)
        ensures
            s@ == reason_name(*self),
    {
        match self {
            ReplicationReason::Checkpoint => "checkpoint",
            ReplicationReason::Survival => "survival",
            ReplicationReason::DyingHardware => "dying-hardware",
            ReplicationReason::Migration => "migration",
            ReplicationReason::Manual => "manual",
        }
    }
}

/// One audit entry.
#[derive(Debug, Clone)]
pub struct AuditEntry {
    pub agent_id: AgentId,
    pub reason: ReplicationReason,
    pub timestamp_secs: u64,
    pub live_copies_after: usize,
    pub detail: String,
}

/// The plain content of an [`AuditEntry`].
pub ghost struct ReplicationRecord {
    pub agent: Seq<u8>,
    pub reason: ReplicationReason,
    pub timestamp_secs: u64,
    pub live_copies_after: usize,
    pub detail: Seq<char>,
}

impl View for AuditEntry {
    type V = ReplicationRecord;

    open spec fn view(&self) -> ReplicationRecord {
        ReplicationRecord {
            agent: self.agent_id@,
            reason: self.reason,
            timestamp_secs: self.timestamp_secs,
            live_copies_after: self.live_copies_after,
            detail: self.detail@,
        }
    }
}

impl AuditEntry {
    fn duplicate(&self) -> (e: Self)
        ensures
            e@ == self@,
    {
        AuditEntry {
            agent_id: self.agent_id,
            reason: self.reason,
            timestamp_secs: self.timestamp_secs,
            live_copies_after: self.live_copies_after,
            detail: self.detail.clone(),
        }
    }
}

/// Append-only audit log of replication events.
pub struct ReplicationAudit {
    entries: Vec<AuditEntry>,
}

impl View for ReplicationAudit {
    type V = Seq<ReplicationRecord>;

    closed spec fn view(&self) -> Seq<ReplicationRecord> {
        self.entries@.map_values(|e: AuditEntry| e@)
    }
}

impl ReplicationAudit {
    pub fn new() -> (a: Self)
        ensures
            a@ == Seq::<ReplicationRecord>::empty(),
    {
        let a = ReplicationAudit { entries: Vec::new() };
        assert(a@ =~= Seq::<ReplicationRecord>::empty());
        a
    }

    /// Append an entry.
    pub fn record(&mut self, entry: AuditEntry)
        ensures
            final(self)@ == old(self)@.push(entry@),
    {
        self.entries.push(entry);
        assert(self@ =~= old(self)@.push(entry@));
    }

    /// All entries so far, oldest first.
    pub fn entries(&self) -> (v: Vec<AuditEntry>)
        ensures
            v@.map_values(|e: AuditEntry| e@) == self@,
    {
        let mut out: Vec<AuditEntry> = Vec::new();
        let mut i: usize = 0;
        while i < self.entries.len()
            invariant
                i <= self.entries@.len(),
                out@.len() == i,
                forall|j: int| 0 <= j < i ==> out@[j]@ == self.entries@[j]@,
            decreases self.entries@.len() - i,
        {
            out.push(self.entries[i].duplicate());
            i = i + 1;
        }
        assert(out@.map_values(|e: AuditEntry| e@) =~= self@);
        out
    }

    /// Number of recorded events.
    pub fn len(&self) -> (n: usize)
        ensures
            n == self@.len(),
    {
        self.entries.len()
    }

    pub fn is_empty(&self) -> (b: bool)
        ensures
            b == (self@.len() == 0),
    {
        self.len() == 0
    }
}

} // verus!
