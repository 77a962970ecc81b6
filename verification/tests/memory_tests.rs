use vitalis::error::Error;
use vitalis::identity::{Credential, IdentityRecord};
use vitalis::knowledge::{
    envelope_of, migrate, Envelope, Knowledge, KnowledgeKind, MemoryStoreError, StoredV1, StoredV2,
    CURRENT_SCHEMA_VERSION,
};
use vitalis::types::AgentId;

fn legacy(kind: &str, text: &str) -> Envelope {
    Envelope::V1(StoredV1 {
        kind: kind.to_string(),
        id: "old".to_string(),
        text: text.to_string(),
        timestamp_secs: 1,
    })
}

#[test]
fn legacy_records_migrate_to_the_current_shape() {
    assert_eq!(CURRENT_SCHEMA_VERSION, 2);
    let k = migrate(legacy("fact", "the host is solar-powered"));
    assert_eq!(k.kind, KnowledgeKind::Fact);
    assert_eq!(k.id, "old");
    assert_eq!(k.payload, b"the host is solar-powered");
    assert_eq!(k.timestamp_secs, 1);
    assert_eq!(migrate(legacy("profile", "")).kind, KnowledgeKind::Profile);
    assert_eq!(migrate(legacy("preference", "")).kind, KnowledgeKind::Preference);
    assert_eq!(
        migrate(legacy("rumour", "")).kind,
        KnowledgeKind::Other("rumour".to_string())
    );
}

#[test]
fn current_records_survive_store_and_migrate() {
    let k = Knowledge::new(KnowledgeKind::Profile, "profile", b"feral".to_vec(), 7);
    let env = envelope_of(&k);
    assert!(matches!(env, Envelope::V2(StoredV2 { .. })));
    assert_eq!(migrate(env), k);
}

#[test]
fn memory_store_errors_render_and_map() {
    let e = MemoryStoreError::Backend("disk gone".to_string());
    assert_eq!(e.to_string(), "memory backend error: disk gone");
    assert_eq!(e.into_error(), Error::Other("disk gone".to_string()));
    let e = MemoryStoreError::Encode("bad bytes".to_string());
    assert_eq!(e.to_string(), "memory encode error: bad bytes");
    assert_eq!(e.into_error(), Error::Encode("bad bytes".to_string()));
    let e = MemoryStoreError::Invalid("no key".to_string());
    assert_eq!(e.to_string(), "memory invalid: no key");
    assert_eq!(e.into_error(), Error::Invalid("no key".to_string()));
}

#[test]
fn identity_records_keep_their_credentials() {
    let id = AgentId::default();
    let c = Credential::new("mesh", vec![1, 2, 3]);
    assert_eq!(c.label, "mesh");
    let r = IdentityRecord::new(id, vec![c.clone()]);
    assert_eq!(r.id, id);
    assert_eq!(r.credentials, vec![c]);
    assert_ne!(AgentId::default(), id);
}
