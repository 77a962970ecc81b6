use vitalis::limiter::{LimiterMode, LimiterOutcome, LinuxResourceLimiter, SimulatedLimiter};

#[test]
fn simulated_limiter_reports_advisory() {
    let l = SimulatedLimiter;
    let o = l.apply(0.5, 0.5);
    assert!(!o.enforced);
    assert_eq!(o.mode, LimiterMode::Simulated);
}

#[test]
fn linux_limiter_outcomes() {
    let lim = LinuxResourceLimiter;
    assert_eq!(lim.mode(), LimiterMode::Os);
    let unread = lim.outcome(0, 0, true);
    assert!(!unread.enforced);
    assert_eq!(unread.detail, "could not read MemTotal; limit is advisory only");
    let ok = lim.outcome(1000, 500, true);
    assert!(ok.enforced);
    assert_eq!(ok.mode, LimiterMode::Os);
    assert_eq!(ok.detail, "setrlimit(RLIMIT_AS)=500 bytes");
    let denied = lim.outcome(1000, 500, false);
    assert!(!denied.enforced);
    assert_eq!(denied.mode, LimiterMode::Simulated);
    assert_eq!(SimulatedLimiter.mode(), LimiterMode::Simulated);
    let forced = LimiterOutcome::enforced("x");
    assert!(forced.enforced);
    assert_eq!(forced.mode, LimiterMode::Os);
    assert_eq!(forced.detail, "x");
}
