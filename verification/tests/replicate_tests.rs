use vitalis::checkpoint::Checkpoint;
use vitalis::defender::Defender;
use vitalis::error::Error;
use vitalis::policy::CopyLimitPolicy;
use vitalis::repaudit::{ReplicationAudit, ReplicationReason};
use vitalis::replicator::Replicator;
use vitalis::shards::{decode_shards, encode_shards};
use vitalis::traits::{Replicate, Signer, Verifier};
use vitalis::types::AgentId;

/// A trivial signer: the "seal" is the data itself.
struct EchoSigner;

impl Signer for EchoSigner {
    fn sign(&self, data: &[u8]) -> Vec<u8> {
        data.to_vec()
    }
}

/// Accepts iff the seal equals the data (i.e. was produced by `EchoSigner`).
struct EchoVerifier;

impl Verifier for EchoVerifier {
    fn verify(&self, data: &[u8], seal: &[u8]) -> bool {
        seal == data
    }
}

#[test]
fn checkpoint_roundtrip() {
    let id = AgentId::new();
    let state = b"the agent's mind".to_vec();
    let mut r = Replicator::new(id, 3, 4, 2);
    r.capture(&state).unwrap();
    let bytes = r.checkpoint_bytes().unwrap();
    let restored = r.restore_state(&bytes).unwrap();
    assert_eq!(restored, state);
}

#[test]
fn erasure_coding_survives_shard_loss() {
    let data: Vec<u8> = (0..1000u32).map(|i| (i % 251) as u8).collect();
    let data_shards = 4;
    let parity = 2;
    let mut shards = encode_shards(&data, data_shards, parity).unwrap();
    assert_eq!(shards.len(), data_shards + parity);

    // Lose `parity` shards (simulate node/disk loss): blank them out.
    shards[0] = Vec::new();
    shards[3] = Vec::new();

    let recovered = decode_shards(&shards, data_shards, parity).unwrap();
    assert_eq!(recovered, data);
}

#[test]
fn copy_limit_rejects_extra_copy() {
    let id = AgentId::new();
    let mut r = Replicator::new(id, 2, 4, 2);
    r.authorize_copy(ReplicationReason::Survival).unwrap();
    r.authorize_copy(ReplicationReason::Survival).unwrap();
    // A 3rd copy (beyond the cap of 2) is rejected.
    assert!(r.authorize_copy(ReplicationReason::Survival).is_err());
    assert_eq!(r.live_copy_count(), 2);
}

#[test]
fn host_death_reconstitutes_on_new_node() {
    let id = AgentId::new();
    let state = b"persistent agent knowledge".to_vec();

    // --- node A runs, captures, then "dies" (dropped) ---
    let mut a = Replicator::new(id, 3, 4, 2);
    a.capture(&state).unwrap();
    let bytes = a.checkpoint_bytes().unwrap();
    drop(a);

    // --- node B (fresh) reconstitutes from the checkpoint ---
    let mut b = Replicator::new(id, 3, 4, 2);
    b.restore(&bytes).unwrap();
    let payload = b.restore_state(&bytes).unwrap();
    assert_eq!(payload, state);
}

#[test]
fn migrate_transfers_checkpoint() {
    let id = AgentId::new();
    let state = b"migrating mind".to_vec();
    let mut src = Replicator::new(id, 3, 4, 2);
    src.capture(&state).unwrap();

    // The receiving node hosts the *same* agent identity.
    let mut dst = Replicator::new(id, 3, 4, 2);
    src.migrate_to(&mut dst, ReplicationReason::Migration).unwrap();

    let payload = dst.restore_state(&dst.checkpoint_bytes().unwrap()).unwrap();
    assert_eq!(payload, state);
    // Both ends logged a migration audit entry.
    assert!(src.audit().entries().iter().any(|e| e.reason == ReplicationReason::Migration));
    assert!(dst.audit().entries().iter().any(|e| e.reason == ReplicationReason::Migration));
}

/// A signed checkpoint restores cleanly, and an unsigned / wrong-seal /
/// tampered one is rejected.
#[test]
fn signed_checkpoint_restores_but_poisoned_is_rejected() {
    let id = AgentId::new();

    let mut r = Replicator::new(id, 3, 4, 2);
    r.with_signer(Box::new(EchoSigner));
    r.with_verifier(Box::new(EchoVerifier));
    r.capture(b"live agent state").unwrap();
    let bytes = r.checkpoint_bytes().unwrap();

    // Happy path: the signed checkpoint verifies and restores.
    assert_eq!(r.restore_state(&bytes).unwrap(), b"live agent state");

    // Unsigned checkpoint is rejected outright.
    let unsigned = Checkpoint::new(id, b"live agent state".to_vec(), 0).to_bytes().unwrap();
    assert!(r.restore_state(&unsigned).is_err());

    // Wrong-seal checkpoint is rejected.
    let mut wrong_seal = bytes.clone();
    wrong_seal[5] ^= 0xFF;
    assert!(r.restore_state(&wrong_seal).is_err());

    // Tampered payload: the seal no longer matches the bytes.
    let mut tampered = bytes.clone();
    tampered[5] ^= 0xFF;
    assert!(r.restore_state(&tampered).is_err());
}

/// A checkpoint for a different agent identity is always rejected.
#[test]
fn restore_rejects_wrong_agent() {
    let a = AgentId::new();
    let b = AgentId::new();

    let mut src = Replicator::new(a, 3, 4, 2);
    src.with_signer(Box::new(EchoSigner));
    src.capture(b"state for A").unwrap();
    let bytes = src.checkpoint_bytes().unwrap();

    let mut dst = Replicator::new(b, 3, 4, 2);
    dst.with_verifier(Box::new(EchoVerifier));
    assert!(dst.restore_state(&bytes).is_err());
}

#[test]
fn replication_never_exceeds_copy_limit() {
    let id = AgentId::new();
    let max = 3;
    let mut r = Replicator::new(id, max, 4, 2);
    r.capture(b"state").unwrap();
    let mut authorized = 0;
    for _ in 0..(max * 3) {
        if r.authorize_copy(ReplicationReason::DyingHardware).is_ok() {
            authorized += 1;
        }
    }
    assert_eq!(authorized, max);
    assert_eq!(r.live_copy_count(), max);
}

#[test]
fn shards_roundtrip_through_replicator() {
    let id = AgentId::new();
    let mut r = Replicator::new(id, 3, 3, 2);
    r.capture(b"sharded mind").unwrap();
    let mut shards = r.shards().unwrap();
    assert_eq!(shards.len(), 5);
    shards[1] = Vec::new();
    shards[4] = Vec::new();
    assert_eq!(r.restore_from_shards(&shards).unwrap(), b"sharded mind");
}

#[test]
fn too_many_lost_shards_fail() {
    let data = b"fragile".to_vec();
    let mut shards = encode_shards(&data, 3, 1).unwrap();
    shards[0] = Vec::new();
    shards[1] = Vec::new();
    assert!(matches!(decode_shards(&shards, 3, 1), Err(Error::Replication(_))));
}

#[test]
fn shard_parameter_errors() {
    assert_eq!(
        encode_shards(b"x", 0, 2),
        Err(Error::Invalid("need at least one data shard".into()))
    );
    assert_eq!(
        encode_shards(b"x", 2, 0),
        Err(Error::Invalid("need at least one parity shard".into()))
    );
    assert!(matches!(encode_shards(b"x", 200, 100), Err(Error::Replication(_))));
    assert_eq!(
        decode_shards(&[vec![1u8]], 2, 1),
        Err(Error::Invalid("expected 3 shards, got 1".into()))
    );
}

#[test]
fn shard_layout_is_framed_and_padded() {
    // 5 bytes + 8-byte length prefix = 13 bytes, split 2 ways => 7-byte shards.
    let shards = encode_shards(b"hello", 2, 1).unwrap();
    assert_eq!(shards.len(), 3);
    assert!(shards.iter().all(|s| s.len() == 7));
    assert_eq!(&shards[0][..], &[5, 0, 0, 0, 0, 0, 0]);
    assert_eq!(&shards[1][..], &[0, b'h', b'e', b'l', b'l', b'o', 0]);
}

#[test]
fn checkpoint_framing_errors() {
    assert_eq!(Checkpoint::from_bytes(b"VC"), Err(Error::Invalid("checkpoint too short".into())));
    assert_eq!(
        Checkpoint::from_bytes(b"XXXXabc"),
        Err(Error::Invalid("bad checkpoint magic".into()))
    );
    assert!(matches!(Checkpoint::from_bytes(b"VCP1"), Err(Error::Encode(_))));
    let mut newer = Checkpoint::new(AgentId::new(), vec![1, 2], 7);
    newer.version = 2;
    let bytes = newer.to_bytes().unwrap();
    assert_eq!(
        Checkpoint::from_bytes(&bytes),
        Err(Error::Invalid("unsupported checkpoint version 2".into()))
    );
}

#[test]
fn checkpoint_bytes_start_with_magic_and_roundtrip() {
    let c = Checkpoint::new(AgentId::new(), b"payload".to_vec(), 42);
    let bytes = c.to_bytes().unwrap();
    assert_eq!(&bytes[..4], b"VCP1");
    assert_eq!(Checkpoint::from_bytes(&bytes).unwrap(), c);
}

#[test]
fn no_checkpoint_yet_is_an_error() {
    let r = Replicator::new(AgentId::new(), 1, 2, 1);
    assert_eq!(
        r.checkpoint_bytes(),
        Err(Error::Replication("no checkpoint captured".into()))
    );
}

#[test]
fn copy_limit_policy_counts_and_messages() {
    let mut p = CopyLimitPolicy::new(1);
    assert!(p.authorize_copy().is_ok());
    assert_eq!(
        p.authorize_copy(),
        Err(Error::Replication("copy-limit reached: 1/1 concurrent copies".into()))
    );
    p.retire_copy();
    assert_eq!(p.live_copies(), 0);
    assert!(p.authorize_copy().is_ok());
    assert_eq!(p.max_copies(), 1);
}

#[test]
fn capture_is_audited_with_size() {
    let id = AgentId::new();
    let mut r = Replicator::new(id, 3, 4, 2);
    r.capture(b"12345").unwrap();
    let entries = r.audit().entries();
    assert_eq!(entries.len(), 1);
    assert_eq!(entries[0].reason, ReplicationReason::Checkpoint);
    assert_eq!(entries[0].detail, "state 5 bytes");
    assert_eq!(entries[0].agent_id, id);
    assert_eq!(ReplicationReason::DyingHardware.as_str(), "dying-hardware");
    let empty = ReplicationAudit::new();
    assert!(empty.is_empty());
}

/// With a defender as signer and another as verifier, a captured checkpoint
/// restores; one whose seal is cut short, or which is re-sealed over other
/// bytes, is refused with the seal error.
#[test]
fn defender_sealed_checkpoint_restores_and_poisoned_is_refused() {
    let id = AgentId::new();
    let mut r = Replicator::new(id, 3, 4, 2);
    r.with_signer(Box::new(Defender::new().unwrap()));
    r.with_verifier(Box::new(Defender::new().unwrap()));
    r.capture(b"mind").unwrap();
    let bytes = r.checkpoint_bytes().unwrap();
    assert_eq!(r.restore_state(&bytes).unwrap(), b"mind");

    // a seal made over other bytes
    let mut forged = Checkpoint::from_bytes(&bytes).unwrap();
    let other = Defender::new().unwrap();
    forged.seal = Some(other.sign(b"something else"));
    let forged_bytes = forged.to_bytes().unwrap();
    assert_eq!(
        r.restore_state(&forged_bytes),
        Err(Error::Integrity("checkpoint seal verification failed".into()))
    );

    // a seal that no longer decodes
    let mut cut = Checkpoint::from_bytes(&bytes).unwrap();
    let mut seal = cut.seal.clone().unwrap();
    seal.truncate(3);
    cut.seal = Some(seal);
    assert_eq!(
        r.restore_state(&cut.to_bytes().unwrap()),
        Err(Error::Integrity("checkpoint seal verification failed".into()))
    );
}

#[test]
fn oversized_checkpoint_is_invalid() {
    let big = vec![0u8; 64 * 1024 * 1024 + 1];
    assert!(matches!(Checkpoint::from_bytes(&big), Err(Error::Invalid(_))));
}

#[test]
fn checkpoint_encoding_stays_within_its_bound() {
    let c = Checkpoint::new(AgentId::new(), vec![7u8; 300], u64::MAX);
    let bytes = c.to_bytes().unwrap();
    // magic, version, id, payload with its length, time, seal tag
    assert!(bytes.len() <= 4 + 58 + 300);
    assert!(bytes.len() >= 4 + 1 + 32 + 2 + 300 + 10 + 1);
    let d = Defender::new().unwrap();
    let seal = d.sign(b"data");
    assert!(seal.len() <= 64 + 32 + 20);
}
