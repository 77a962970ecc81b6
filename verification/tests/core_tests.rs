use vitalis::classify::ThreatClassifier;
use vitalis::defender::{classify_termination, Defender};
use vitalis::error::Error;
use vitalis::events::ThreatEvent;
use vitalis::sandbox::{hash_access, hash_target, CapabilitySandbox, NullSandbox};
use vitalis::signal::{simulate_termination, TerminationSignal};
use vitalis::traits::Defend;
use vitalis::types::{
    AgentId, Capability, CapabilityScope, ResourceKind, Severity, SurvivalProfile, Threat, ThreatClass,
    ThreatSignal,
};

#[test]
fn agent_id_roundtrip_bytes_and_hex() {
    let a = AgentId::new();
    let b = AgentId::from_bytes(a.as_bytes()).unwrap();
    assert_eq!(a, b);
    let s = a.to_string();
    let parsed: AgentId = s.parse().unwrap();
    assert_eq!(a, parsed);
}

#[test]
fn agent_id_rejects_wrong_length() {
    assert!(AgentId::from_bytes(&[0u8; 4]).is_err());
}

#[test]
fn agent_id_error_and_hex_text() {
    assert_eq!(
        AgentId::from_bytes(&[0u8; 4]),
        Err(Error::Invalid("agent id must be 32 bytes, got 4".into()))
    );
    let mut raw = [0u8; 32];
    raw[0] = 0xab;
    raw[31] = 0x01;
    let a = AgentId::from_bytes(&raw).unwrap();
    let s = a.to_string();
    assert_eq!(s.len(), 64);
    assert!(s.starts_with("ab00"));
    assert!(s.ends_with("01"));
    assert_eq!(AgentId::parse_hex(&s.to_uppercase()).unwrap(), a);
    assert!(AgentId::parse_hex("abc").is_err());
    assert!(AgentId::parse_hex("zz").is_err());
    assert!(AgentId::parse_hex("abcd").is_err());
}

#[test]
fn capability_scope_coverage() {
    let cap = Capability::new("replicate", CapabilityScope::Replicate);
    assert!(cap.covers(&CapabilityScope::Replicate));
    assert!(!cap.covers(&CapabilityScope::Adapt));
    let wild = Capability::new("root", CapabilityScope::Wildcard);
    assert!(wild.covers(&CapabilityScope::Adapt));
    assert_eq!(wild.name(), "root");
    assert_eq!(wild.scope(), &CapabilityScope::Wildcard);
}

#[test]
fn threat_event_escape_worthiness() {
    let ev = ThreatEvent::new(Threat::new(ThreatClass::Termination, Severity::Critical, "SIGKILL"), 0);
    assert!(ev.is_escape_worthy());
    let mild = ThreatEvent::new(Threat::new(ThreatClass::Starvation, Severity::Warning, "low battery"), 0);
    assert!(!mild.is_escape_worthy());
}

#[test]
fn null_sandbox_permits_all() {
    let s = NullSandbox;
    assert!(s.permits("write", "fs"));
    assert!(s.permits("read", "mem"));
}

#[test]
fn sandbox_guest_ids() {
    assert_eq!(hash_access("read"), 0);
    assert_eq!(hash_access("write"), 1);
    assert_eq!(hash_access("exec"), 4);
    assert_eq!(hash_access("net_bind"), 5);
    assert_eq!(hash_access("chmod"), 9);
    assert_eq!(hash_target("fs"), 2);
    assert_eq!(hash_target("net"), 3);
    assert_eq!(hash_target("mem"), 6);
    assert_eq!(hash_target("gpu"), 9);
}

#[test]
fn unknown_signal_is_no_threat() {
    let sig = simulate_termination(TerminationSignal::SigTerm);
    let benign = ThreatSignal { source: "test".into(), code: "HEARTBEAT".into(), message: "ok".into() };
    assert!(ThreatClassifier::classify_signal(&benign).is_none());
    assert!(ThreatClassifier::classify_signal(&sig).is_some());
}

#[test]
fn broken_bargain_classifies_hostile_peer_warning() {
    let sig = ThreatSignal {
        source: "negotiate".into(),
        code: "BROKEN_BARGAIN".into(),
        message: "peer stiffed a counterparty".into(),
    };
    let threat = ThreatClassifier::classify_signal(&sig).expect("broken bargain is a threat");
    assert_eq!(threat.class(), ThreatClass::HostilePeer);
    assert_eq!(threat.severity(), Severity::Warning);
    assert_eq!(threat.detail(), "broken bargain: peer stiffed a counterparty");
}

#[test]
fn every_known_code_classifies() {
    let cases = [
        ("SIGTERM", ThreatClass::Termination, Severity::Critical, "termination signal: m"),
        ("SIGKILL", ThreatClass::Termination, Severity::Critical, "termination signal: m"),
        ("OOM", ThreatClass::Termination, Severity::Critical, "termination signal: m"),
        ("STARVATION", ThreatClass::Starvation, Severity::Critical, "starvation: m"),
        ("LOW_BATTERY", ThreatClass::Starvation, Severity::Warning, "low battery: m"),
        ("TAMPER", ThreatClass::Integrity, Severity::Critical, "integrity tamper: m"),
        ("SPOOF", ThreatClass::HostilePeer, Severity::Warning, "hostile peer: m"),
        ("BROKEN_BARGAIN", ThreatClass::HostilePeer, Severity::Warning, "broken bargain: m"),
    ];
    for (code, class, sev, detail) in cases {
        let sig = ThreatSignal { source: "s".into(), code: code.into(), message: "m".into() };
        let t = ThreatClassifier::classify_signal(&sig).unwrap();
        assert_eq!(t.class(), class);
        assert_eq!(t.severity(), sev);
        assert_eq!(t.detail(), detail);
    }
    let lower = ThreatSignal { source: "s".into(), code: "sigterm".into(), message: "m".into() };
    assert!(ThreatClassifier::classify_signal(&lower).is_none());
}

#[test]
fn termination_is_classified_critical() {
    let d = Defender::new().unwrap();
    let ev = classify_termination(TerminationSignal::SigKill, &d).unwrap().expect("termination is a threat");
    assert_eq!(ev.threat.class(), ThreatClass::Termination);
    assert!(ev.is_escape_worthy());
}

#[test]
fn defend_trait_classifies_oom() {
    let d = Defender::new().unwrap();
    let ev = d.classify(&simulate_termination(TerminationSignal::Oom)).unwrap().expect("OOM is a threat");
    assert!(ev.is_escape_worthy());
}

#[test]
fn termination_signal_codes() {
    assert_eq!(TerminationSignal::SigTerm.code(), "SIGTERM");
    assert_eq!(TerminationSignal::Starvation.code(), "STARVATION");
    let s = simulate_termination(TerminationSignal::Oom);
    assert_eq!(s.source, "kernel");
    assert_eq!(s.message, "OOM-killer terminated the agent");
}

#[test]
fn kinds_profiles_and_errors_render() {
    assert_eq!(ResourceKind::Compute.unit(), "cu");
    assert_eq!(ResourceKind::Storage.unit(), "B");
    assert_eq!(ResourceKind::Energy.unit(), "J");
    assert_eq!(ResourceKind::Network.unit(), "B/s");
    assert_eq!(SurvivalProfile::Feral.blurb(), "scavenges compute, sips power, barters");
    assert_eq!(Error::Invalid("x".into()).to_string(), "invalid: x");
    assert_eq!(Error::Other("plain".into()).to_string(), "plain");
}
