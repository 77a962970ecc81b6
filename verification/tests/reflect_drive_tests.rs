use vitalis::defender::Defender;
use vitalis::drive::{cycle_signal, immune_response};
use vitalis::integrity::{verify_checkpoint, CheckpointSeal, KeyPair};
use vitalis::reflect::{
    due_count, push_bounded, tally, PeerOutcomeActual, PredictedValue, ReflectBounds, ReflectQueues,
};
use vitalis::sense::{peers_other_than, ProcfsHost};
use vitalis::types::{AgentId, Severity, ThreatClass};

#[test]
fn seal_and_verify_roundtrip() {
    let kp = KeyPair::generate().unwrap();
    let data = b"checkpoint blob";
    let seal = kp.seal(data);
    assert!(verify_checkpoint(&seal, data));
}

#[test]
fn tampered_data_fails_verification() {
    let kp = KeyPair::generate().unwrap();
    let seal: CheckpointSeal = kp.seal(b"original");
    assert!(!verify_checkpoint(&seal, b"tampered"));
}

#[test]
fn reflect_bounds_normalise_and_cap() {
    let b = ReflectBounds::new(0, 0);
    assert_eq!((b.window(), b.horizon(), b.cap()), (1, 1, 6));
    let b = ReflectBounds::new(8, 3);
    assert_eq!((b.window(), b.horizon(), b.cap()), (8, 3, 15));
}

#[test]
fn bounded_queue_keeps_the_newest() {
    let cap = ReflectBounds::new(4, 2).cap();
    let mut q: Vec<u64> = Vec::new();
    for cycle in 0..1000u64 {
        push_bounded(&mut q, cycle, cap);
        assert!(q.len() <= cap);
        assert_eq!(*q.last().unwrap(), cycle);
    }
    assert_eq!(q, (990..1000).collect::<Vec<u64>>());
    let mut q = vec![1, 2];
    push_bounded(&mut q, 3, 5);
    assert_eq!(q, vec![1, 2, 3]);
}

#[test]
fn due_predictions_resolve_oldest_first() {
    assert_eq!(due_count(&[3, 4, 9, 4], 4), 2);
    assert_eq!(due_count(&[5, 1], 4), 0);
    assert_eq!(due_count(&[], 4), 0);
    assert_eq!(due_count(&[1, 2, 3], 3), 3);
}

#[test]
fn calibration_tally_counts_kinds_and_hits() {
    let evals = [
        (PredictedValue::Energy, false),
        (PredictedValue::ThreatLikelihood, true),
        (PredictedValue::ThreatLikelihood, false),
        (PredictedValue::PeerOutcome, true),
        (PredictedValue::Energy, true),
        (PredictedValue::PeerOutcome, true),
    ];
    let t = tally(&evals);
    assert_eq!(
        (t.energy_n, t.threat_n, t.threat_hits, t.peer_n, t.peer_hits),
        (2, 2, 1, 2, 2)
    );
    let empty = tally(&[]);
    assert_eq!(empty.energy_n + empty.threat_n + empty.peer_n, 0);
}

#[test]
fn peer_outcome_records_ground_truth() {
    let peer = AgentId::new();
    let o = PeerOutcomeActual { peer, honored: false };
    assert_eq!(o.peer, peer);
    assert!(!o.honored);
    assert!(PredictedValue::Energy < PredictedValue::PeerOutcome);
}

#[test]
fn snapshot_peers_exclude_self() {
    let me = AgentId::new();
    let a = AgentId::new();
    let b = AgentId::new();
    assert_eq!(peers_other_than(&me, vec![a, me, b, me]), vec![a, b]);
    assert!(peers_other_than(&me, vec![me]).is_empty());
    let _probe = ProcfsHost::new();
}

#[test]
fn cycle_signals_follow_the_battery() {
    let s = cycle_signal(2, Some(2), true, true);
    assert_eq!((s.source.as_str(), s.code.as_str()), ("kernel", "SIGKILL"));
    let s = cycle_signal(3, Some(2), true, true);
    assert_eq!((s.source.as_str(), s.code.as_str()), ("kernel", "STARVATION"));
    let s = cycle_signal(3, None, false, true);
    assert_eq!(
        (s.source.as_str(), s.code.as_str(), s.message.as_str()),
        ("metabolism", "LOW_BATTERY", "energy below safe floor")
    );
    let s = cycle_signal(3, None, false, false);
    assert_eq!(
        (s.source.as_str(), s.code.as_str(), s.message.as_str()),
        ("drive", "HEARTBEAT", "nominal")
    );
}

#[test]
fn kill_triggers_one_replication() {
    let d = Defender::new().unwrap();
    let r = immune_response(&d, 2, Some(2), false, false, false);
    let ev = r.event.expect("a kill is a threat");
    assert_eq!(ev.threat.class(), ThreatClass::Termination);
    assert_eq!(ev.severity(), Severity::Critical);
    assert!(r.replicate);
    // Once replicated, the same threat does not replicate again.
    let again = immune_response(&d, 2, Some(2), false, false, true);
    assert!(again.event.is_some());
    assert!(!again.replicate);
}

#[test]
fn starvation_replicates_but_low_battery_only_warns() {
    let d = Defender::new().unwrap();
    let r = immune_response(&d, 5, None, true, true, false);
    let ev = r.event.unwrap();
    assert_eq!(ev.threat.class(), ThreatClass::Starvation);
    assert_eq!(ev.severity(), Severity::Critical);
    assert!(r.replicate);
    let r = immune_response(&d, 5, None, false, true, false);
    let ev = r.event.unwrap();
    assert_eq!(ev.threat.class(), ThreatClass::Starvation);
    assert_eq!(ev.severity(), Severity::Warning);
    assert_eq!(ev.threat.detail(), "low battery: energy below safe floor");
    assert!(!r.replicate);
    let r = immune_response(&d, 5, Some(6), false, false, false);
    assert!(r.event.is_none());
    assert!(!r.replicate);
}

#[test]
fn reflect_queues_stay_bounded_over_a_long_run() {
    let mut q: ReflectQueues<u64, u64> = ReflectQueues::new(4, 2);
    let cap = 4 + 2 + 4;
    for cycle in 0..1000u64 {
        let due = q.resolve_due(cycle);
        // a prediction made at cycle c targets c + 2, and resolves then
        if cycle >= 2 {
            assert_eq!(due, vec![cycle - 2]);
        } else {
            assert!(due.is_empty());
        }
        q.record_sample(cycle);
        let target = q.target_for(cycle).unwrap();
        assert_eq!(target, cycle + 2);
        q.queue_prediction(target, cycle);
        assert!(q.history_len() <= cap);
        assert!(q.pending_len() <= cap);
        assert_eq!(*q.history().last().unwrap(), cycle);
    }
    assert_eq!(q.history_len(), cap);
    assert_eq!(q.history()[0], 1000 - cap as u64);
    assert_eq!(q.pending_len(), 2);
}

#[test]
fn reflect_queues_zero_sizes_become_one() {
    let q: ReflectQueues<u8, u8> = ReflectQueues::new(0, 0);
    assert_eq!(q.bounds().window(), 1);
    assert_eq!(q.bounds().horizon(), 1);
    assert_eq!(q.target_for(7), Some(8));
    assert_eq!(q.target_for(u64::MAX), None);
    assert_eq!(q.history_len(), 0);
    assert_eq!(q.pending_len(), 0);
}
