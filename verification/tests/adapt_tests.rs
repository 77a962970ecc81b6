use std::sync::Mutex;

use vitalis::adapt::{AdaptEngine, AdaptationResult, BoundsSandbox, ChangeKind, ProposedChange, Sandbox};
use vitalis::error::Error;

fn change(id: u64, size: usize) -> ProposedChange {
    ProposedChange::new(id, ChangeKind::Code, vec![0u8; size], "tweak")
}

#[test]
fn in_bounds_change_is_applied_and_audited() {
    let mut engine = AdaptEngine::new(1024, 10);
    let r = engine.propose(&change(1, 64)).unwrap();
    assert_eq!(r, AdaptationResult::Applied);
    let a = engine.audit();
    assert_eq!(a.len(), 1);
    assert!(a[0].applied);
}

#[test]
fn out_of_bounds_change_is_rejected() {
    let mut engine = AdaptEngine::new(32, 10);
    let r = engine.propose(&change(1, 64));
    assert!(r.is_err());
    let a = engine.audit();
    assert_eq!(a.len(), 1);
    assert!(!a[0].applied);
}

#[test]
fn kill_switch_blocks_application() {
    let mut engine = AdaptEngine::new(1024, 10);
    engine.trip_kill_switch();
    assert!(engine.propose(&change(1, 8)).is_err());
    assert!(engine.audit().iter().all(|e| !e.applied));
}

#[test]
fn rate_limit_is_enforced() {
    let mut engine = AdaptEngine::new(1024, 1);
    assert!(engine.propose(&change(1, 8)).is_ok());
    assert!(engine.propose(&change(2, 8)).is_err());
    assert_eq!(engine.proposals_made(), 1);
}

#[test]
fn verify_rejects_out_of_bounds_without_applying() {
    let mut engine = AdaptEngine::new(32, 10);
    assert_eq!(engine.verify(&change(1, 64)).unwrap(), false);
    // verify does not consume the rate-limit budget.
    assert_eq!(engine.proposals_made(), 0);
}

#[test]
fn apply_with_failing_hook_rolls_back_and_errors() {
    let mut engine = AdaptEngine::new(1024, 10);
    let applied = Mutex::new(0usize);
    let r = engine.apply(
        &change(1, 8),
        |_| {
            *applied.lock().unwrap() += 1;
            Err(Error::Invalid("boom".into()))
        },
        |_| {
            *applied.lock().unwrap() -= 1;
            Ok(())
        },
    );
    assert!(r.is_err());
    // rollback undid the apply hook's effect.
    assert_eq!(*applied.lock().unwrap(), 0);
    assert!(engine.audit().iter().all(|e| !e.applied));
}

#[test]
fn rollback_hook_is_invoked() {
    let mut engine = AdaptEngine::new(1024, 10);
    let rolled = Mutex::new(false);
    engine
        .rollback(&change(1, 8), |_| {
            *rolled.lock().unwrap() = true;
            Ok(())
        })
        .unwrap();
    assert!(*rolled.lock().unwrap());
}

#[test]
fn apply_with_successful_hook_applies_and_audits() {
    let mut engine = AdaptEngine::new(1024, 10);
    let counter = Mutex::new(0usize);
    let r = engine
        .apply(
            &change(1, 8),
            |_| {
                *counter.lock().unwrap() += 1;
                Ok(())
            },
            |_| {
                *counter.lock().unwrap() -= 1;
                Ok(())
            },
        )
        .unwrap();
    assert_eq!(r, AdaptationResult::Applied);
    assert_eq!(*counter.lock().unwrap(), 1);
    let a = engine.audit();
    assert_eq!(a.len(), 1);
    assert!(a[0].applied);
}

#[test]
fn rollback_undoes_applied_change() {
    let mut engine = AdaptEngine::new(1024, 10);
    let counter = Mutex::new(0usize);
    let change = change(1, 8);
    engine
        .apply(
            &change,
            |_| {
                *counter.lock().unwrap() += 1;
                Ok(())
            },
            |_| {
                *counter.lock().unwrap() -= 1;
                Ok(())
            },
        )
        .unwrap();
    assert_eq!(*counter.lock().unwrap(), 1);
    // A deliberate rollback via the engine restores the prior state.
    engine
        .rollback(&change, |_| {
            *counter.lock().unwrap() -= 1;
            Ok(())
        })
        .unwrap();
    assert_eq!(*counter.lock().unwrap(), 0);
}

#[test]
fn verify_accepts_in_bounds_and_rate_limit_rejects_extra() {
    let mut engine = AdaptEngine::new(1024, 1);
    assert!(engine.verify(&change(1, 8)).unwrap());
    // Consume the single allowed proposal via apply.
    engine.apply(&change(1, 8), |_| Ok(()), |_| Ok(())).unwrap();
    // One more: rate limit reached, verify returns false (not an error).
    assert!(!engine.verify(&change(2, 8)).unwrap());
}

#[test]
fn bounds_sandbox_respects_cap() {
    let s = BoundsSandbox::new(32);
    assert!(s.permits(&change(1, 16)));
    assert!(!s.permits(&change(1, 64)));
}

#[test]
fn audit_reasons_name_each_gate() {
    let mut engine = AdaptEngine::new(32, 1);
    assert!(engine.propose(&change(1, 64)).is_err());
    assert!(engine.propose(&change(2, 8)).is_ok());
    assert!(engine.propose(&change(3, 8)).is_err());
    engine.trip_kill_switch();
    match engine.propose(&change(4, 8)) {
        Err(Error::Invalid(m)) => assert_eq!(m, "adapt kill-switch engaged; change refused"),
        other => panic!("unexpected {:?}", other),
    }
    let a = engine.audit();
    let reasons: Vec<&str> = a.iter().map(|e| e.reason.as_str()).collect();
    assert_eq!(
        reasons,
        vec!["diff 64B exceeds sandbox cap", "verified and applied", "rate limit reached", "kill-switch engaged"]
    );
    assert_eq!(a[1].change_id, 2);
    assert_eq!(engine.proposals_made(), 1);
}

#[test]
fn failing_hook_reason_carries_error_text() {
    let mut engine = AdaptEngine::new(1024, 10);
    let r = engine.apply(&change(7, 8), |_| Err(Error::Resource("no power".into())), |_| Ok(()));
    assert_eq!(r, Err(Error::Resource("no power".into())));
    assert_eq!(engine.audit()[0].reason, "apply failed; rolled back: resource error: no power");
    // a failed and rolled-back change is not an applied one
    assert_eq!(engine.proposals_made(), 0);
}
