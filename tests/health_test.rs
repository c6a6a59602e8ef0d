use livesync_proxy::health::{backoff_interval, HealthState, HealthStatus, ProbeOutcome};

fn failed(m: &str) -> ProbeOutcome {
    ProbeOutcome::Failed(m.to_string())
}

#[test]
fn new_monitor_is_healthy_but_not_available() {
    let h = HealthState::new(30, 1000);
    assert_eq!(h.get_status(), HealthStatus::Healthy);
    assert!(!h.couchdb_status.available);
    assert_eq!(h.get_couchdb_errors(), 0);
    assert_eq!(h.current_interval(), 30);
    assert_eq!(h.time_since_last_couchdb_check(2000), None);
}

#[test]
fn backoff_doubles_from_the_base_and_stops_at_the_cap() {
    assert_eq!(backoff_interval(30, 0, 300), 30);
    assert_eq!(backoff_interval(30, 1, 300), 60);
    assert_eq!(backoff_interval(30, 2, 300), 120);
    assert_eq!(backoff_interval(30, 3, 300), 240);
    assert_eq!(backoff_interval(30, 4, 300), 300);
    assert_eq!(backoff_interval(30, 40, 300), 300);
    assert_eq!(backoff_interval(1, u32::MAX, u64::MAX), u64::MAX);
    assert_eq!(backoff_interval(500, 2, 300), 300);
}

#[test]
fn failed_probes_back_off_and_one_success_resets() {
    let mut h = HealthState::new(30, 0);
    let mut waits = Vec::new();
    for i in 0..6u64 {
        waits.push(h.apply_probe(failed("refused"), 10 + i));
    }
    assert_eq!(waits, vec![60, 120, 240, 300, 300, 300]);
    for pair in waits.windows(2) {
        assert!(pair[0] <= pair[1]);
    }
    assert_eq!(h.get_couchdb_errors(), 6);

    let wait = h.apply_probe(ProbeOutcome::Succeeded, 100);
    assert_eq!(wait, 30);
    assert_eq!(h.current_interval(), 30);
    assert_eq!(h.get_couchdb_errors(), 0);
    assert!(h.couchdb_status.available);
    assert_eq!(h.couchdb_status.error_message, None);
    assert_eq!(h.time_since_last_couchdb_check(130), Some(30));
}

#[test]
fn status_thresholds_at_three_and_ten_failures() {
    let mut h = HealthState::new(30, 0);
    h.apply_probe(ProbeOutcome::TimedOut, 1);
    h.apply_probe(ProbeOutcome::TimedOut, 2);
    assert_eq!(h.get_status(), HealthStatus::Healthy);
    h.apply_probe(ProbeOutcome::TimedOut, 3);
    assert_eq!(h.get_status(), HealthStatus::Degraded);
    for t in 4..10u64 {
        h.apply_probe(failed("down"), t);
        assert_eq!(h.get_status(), HealthStatus::Degraded);
    }
    h.apply_probe(failed("down"), 10);
    assert_eq!(h.get_couchdb_errors(), 10);
    assert_eq!(h.get_status(), HealthStatus::Unhealthy);
    h.apply_probe(ProbeOutcome::Succeeded, 11);
    assert_eq!(h.get_status(), HealthStatus::Healthy);
}

#[test]
fn failure_messages_are_recorded() {
    let mut h = HealthState::new(30, 0);
    h.apply_probe(failed("connection refused"), 5);
    assert_eq!(
        h.couchdb_status.error_message.as_deref(),
        Some("Backend connection error: connection refused")
    );
    assert_eq!(h.couchdb_status.last_checked, 5);
    h.apply_probe(ProbeOutcome::TimedOut, 6);
    assert_eq!(h.couchdb_status.error_message.as_deref(), Some("Backend connection timed out"));
}

#[test]
fn record_error_and_success_drive_the_status() {
    let mut h = HealthState::new(30, 0);
    for _ in 0..3 {
        h.record_couchdb_error();
    }
    assert_eq!(h.get_status(), HealthStatus::Degraded);
    h.record_couchdb_success(50);
    assert_eq!(h.get_status(), HealthStatus::Healthy);
    assert_eq!(h.get_couchdb_errors(), 0);
    assert_eq!(h.time_since_last_couchdb_check(45), Some(0));
    h.set_status(HealthStatus::Unhealthy);
    assert_eq!(h.get_status(), HealthStatus::Unhealthy);
}

#[test]
fn health_response_labels_and_uptime() {
    let mut h = HealthState::new(30, 100);
    let r = h.health_response(160, "0.1.0");
    assert_eq!(r.status, "healthy");
    assert_eq!(r.uptime_seconds, 60);
    assert_eq!(r.version, "0.1.0");
    assert!(!r.services.couchdb.available);

    h.update_couchdb_status(true, None, 170);
    assert_eq!(h.health_response(170, "0.1.0").status, "healthy");
    for t in 0..3u64 {
        h.apply_probe(ProbeOutcome::TimedOut, 180 + t);
    }
    assert_eq!(h.health_response(190, "0.1.0").status, "degraded");

    for t in 0..10u64 {
        h.apply_probe(ProbeOutcome::TimedOut, 200 + t);
    }
    let r = h.health_response(300, "0.1.0");
    assert_eq!(r.status, "unhealthy");
    assert_eq!(r.services.couchdb.error_message.as_deref(), Some("Backend connection timed out"));
    assert_eq!(h.health_response(50, "0.1.0").uptime_seconds, 0);
}

#[test]
fn below_the_first_threshold_the_status_is_kept() {
    let mut h = HealthState::new(30, 0);
    h.set_status(HealthStatus::Degraded);
    h.record_couchdb_error();
    assert_eq!(h.get_couchdb_errors(), 1);
    assert_eq!(h.get_status(), HealthStatus::Degraded);
    h.apply_probe(ProbeOutcome::TimedOut, 1);
    assert_eq!(h.get_status(), HealthStatus::Degraded);
    h.apply_probe(ProbeOutcome::Succeeded, 2);
    assert_eq!(h.get_status(), HealthStatus::Healthy);
}
