use vitalis::barter::Signer as BarterSigner;
use vitalis::defender::{verify_seal_bytes, Defender};
use vitalis::error::Error;
use vitalis::integrity::{CheckpointSeal, KeyPair};
use vitalis::repaudit::ReplicationReason;
use vitalis::shards::{decode_shards, encode_shards, unframe_data_shards};
use vitalis::replicator::Replicator;
use vitalis::traits::{Replicate, Signer};
use vitalis::types::AgentId;

#[test]
fn seal_bytes_roundtrip() {
    let kp = KeyPair::generate().unwrap();
    let seal = kp.seal(b"blob");
    let bytes = seal.to_bytes();
    assert!(!bytes.is_empty());
    assert_eq!(CheckpointSeal::from_bytes(&bytes), Some(seal));
}

#[test]
fn defender_signature_verifies_and_binds_data() {
    let d = Defender::new().unwrap();
    let seal = Signer::sign(&d, b"state");
    assert!(verify_seal_bytes(b"state", &seal));
    assert!(!verify_seal_bytes(b"other", &seal));
    let parsed = CheckpointSeal::from_bytes(&seal).unwrap();
    assert_eq!(parsed.public_key, d.public_key());
}

#[test]
fn key_generation_succeeds_here() {
    assert!(KeyPair::generate().is_ok());
    assert!(BarterSigner::generate().is_ok());
}

#[test]
fn sharding_needs_a_checkpoint() {
    let r = Replicator::new(AgentId::new(), 3, 4, 2);
    assert_eq!(r.shards(), Err(Error::Replication("no checkpoint captured".to_string())));
    assert_eq!(
        Replicate::checkpoint(&r),
        Err(Error::Replication("no checkpoint captured".to_string()))
    );
}

#[test]
fn sharding_reports_bad_layouts() {
    let mut r = Replicator::new(AgentId::new(), 3, 0, 2);
    r.capture(b"state").unwrap();
    assert_eq!(r.shards(), Err(Error::Invalid("need at least one data shard".to_string())));
    let mut r = Replicator::new(AgentId::new(), 3, 4, 0);
    r.capture(b"state").unwrap();
    assert_eq!(r.shards(), Err(Error::Invalid("need at least one parity shard".to_string())));
    let mut r = Replicator::new(AgentId::new(), 3, 200, 100);
    r.capture(b"state").unwrap();
    assert!(matches!(r.shards(), Err(Error::Replication(_))));
}

#[test]
fn shard_restore_rejects_a_wrong_count_and_another_agent() {
    let id = AgentId::new();
    let mut a = Replicator::new(id, 3, 4, 2);
    a.capture(b"state").unwrap();
    let shards = a.shards().unwrap();
    let mut b = Replicator::new(id, 3, 4, 2);
    assert!(matches!(b.restore_from_shards(&shards[..5]), Err(Error::Invalid(_))));
    let mut other = Replicator::new(AgentId::new(), 3, 4, 2);
    assert!(matches!(other.restore_from_shards(&shards), Err(Error::Replication(_))));
    assert_eq!(b.restore_from_shards(&shards), Ok(b"state".to_vec()));
}

#[test]
fn migration_needs_a_checkpoint_and_the_same_agent() {
    let id = AgentId::new();
    let mut a = Replicator::new(id, 3, 4, 2);
    let mut b = Replicator::new(id, 3, 4, 2);
    assert_eq!(
        a.migrate_to(&mut b, ReplicationReason::Migration),
        Err(Error::Replication("no checkpoint captured".to_string()))
    );
    a.capture(b"state").unwrap();
    let mut stranger = Replicator::new(AgentId::new(), 3, 4, 2);
    assert!(matches!(
        a.migrate_to(&mut stranger, ReplicationReason::Migration),
        Err(Error::Replication(_))
    ));
    assert_eq!(a.migrate_to(&mut b, ReplicationReason::Migration), Ok(()));
}

#[test]
fn trait_restore_and_copy_count() {
    let id = AgentId::new();
    let mut a = Replicator::new(id, 3, 4, 2);
    a.capture(b"state").unwrap();
    let bytes = Replicate::checkpoint(&a).unwrap();
    let mut b = Replicator::new(id, 3, 4, 2);
    assert_eq!(Replicate::restore(&mut b, &bytes), Ok(()));
    assert!(Replicate::restore(&mut b, b"junk").is_err());
    assert_eq!(Replicate::live_copy_count(&b), Ok(0));
    b.authorize_copy(ReplicationReason::Survival).unwrap();
    assert_eq!(Replicate::live_copy_count(&b), Ok(1));
}

#[test]
fn identity_text_parses_through_from_str() {
    let a = AgentId::new();
    let parsed: AgentId = a.to_string().parse().unwrap();
    assert_eq!(parsed, a);
    let bad: Result<AgentId, Error> = "zz".parse();
    assert!(matches!(bad, Err(Error::Invalid(_))));
    let short: Result<AgentId, Error> = "abcd".parse();
    assert_eq!(short, Err(Error::Invalid("agent id must be 32 bytes, got 2".to_string())));
}

#[test]
fn generated_keys_and_signatures_have_ed25519_lengths() {
    let kp = KeyPair::generate().unwrap();
    assert_eq!(kp.public_key().len(), 32);
    assert_eq!(kp.sign(b"x").len(), 64);
    let s = BarterSigner::generate().unwrap();
    assert_eq!(s.public_key().len(), 32);
    assert_eq!(s.sign(b"y").len(), 64);
    let seal = kp.seal(b"z").to_bytes();
    // two length bytes, the 64-byte signature, the 32-byte key
    assert_eq!(seal.len(), 1 + 64 + 1 + 32);
}

#[test]
fn decoding_inconsistent_shards_is_deterministic() {
    let data: Vec<u8> = (0..200u32).map(|i| (i * 7) as u8).collect();
    let mut s = encode_shards(&data, 3, 2).unwrap();
    s[1] = Vec::new();
    s[4][0] ^= 0x55; // a parity shard that no longer matches the data
    let a = decode_shards(&s, 3, 2);
    let b = decode_shards(&s, 3, 2);
    assert_eq!(a, b);
    // with the data shards intact, the parity damage does not matter here
    let mut t = encode_shards(&data, 3, 2).unwrap();
    t[4][0] ^= 0x55;
    assert_eq!(decode_shards(&t, 3, 2).unwrap(), data);
}

#[test]
fn data_shards_unframe_to_their_blob() {
    let data = b"framed".to_vec();
    let s = encode_shards(&data, 2, 1).unwrap();
    let full: Vec<Option<Vec<u8>>> = s.into_iter().map(Some).collect();
    assert_eq!(unframe_data_shards(&full, 2).unwrap(), data);
    let bad = vec![Some(vec![0xFFu8; 9])];
    assert!(matches!(unframe_data_shards(&bad, 1), Err(Error::Invalid(_))));
}
