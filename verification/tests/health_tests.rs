use localref::health::{RuntimeHealthState, RuntimeHealthTracker};

#[test]
fn fatal_health_is_sticky() {
    let mut tracker = RuntimeHealthTracker::default();
    tracker.degraded("hooks", "panic", 1);
    tracker.fatal("server", "stopped", 2);
    tracker.degraded("cron", "panic", 3);

    let health = tracker.snapshot();
    assert_eq!(health.state, RuntimeHealthState::Fatal);
    assert_eq!(health.component, "server");
    assert_eq!(health.occurrence_count, 2);
    assert_eq!(health.generation, 2);
}

#[test]
fn default_tracker_is_healthy() {
    let tracker = RuntimeHealthTracker::default();
    let health = tracker.snapshot();
    assert_eq!(health.state, RuntimeHealthState::Healthy);
    assert_eq!(health.component, "runtime");
    assert_eq!(health.generation, 0);
}

#[test]
fn degraded_reports_replace_each_other() {
    let mut tracker = RuntimeHealthTracker::default();
    tracker.degraded("hooks", "panic", 1);
    tracker.degraded("cron", "slow", 4);
    let health = tracker.snapshot();
    assert_eq!(health.state, RuntimeHealthState::Degraded);
    assert_eq!(health.component, "cron");
    assert_eq!(health.message, "slow");
    assert_eq!(health.occurrence_count, 4);
    assert_eq!(health.generation, 2);
}
