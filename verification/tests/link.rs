use curtain_relay::link::{
    ensure_decision, forward_spec, heartbeat_url, probe_url, remote_target, supervise_delay_ms,
    EnsureAction, SuperviseEvent,
};

#[test]
fn ensure_leaves_a_live_link_alone() {
    assert!(matches!(ensure_decision(true), EnsureAction::AlreadyUp));
}

#[test]
fn ensure_spawns_and_settles_when_probe_fails() {
    match ensure_decision(false) {
        EnsureAction::SpawnAndSettle { settle_ms } => assert_eq!(settle_ms, 400),
        EnsureAction::AlreadyUp => panic!("a failed probe must spawn"),
    }
}

#[test]
fn supervise_delays() {
    assert_eq!(supervise_delay_ms(&SuperviseEvent::EnsureFailed), 5_000);
    assert_eq!(supervise_delay_ms(&SuperviseEvent::HeartbeatOk), 10_000);
    assert_eq!(supervise_delay_ms(&SuperviseEvent::HeartbeatFailed), 2_000);
}

#[test]
fn link_urls() {
    assert_eq!(probe_url(18080), "http://127.0.0.1:18080/");
    assert_eq!(heartbeat_url(18080), "http://127.0.0.1:18080/json");
}

#[test]
fn forward_spec_names_local_and_device_ends() {
    assert_eq!(
        forward_spec(18080, "127.0.0.1", 80),
        "127.0.0.1:18080:127.0.0.1:80"
    );
    assert_eq!(
        forward_spec(1, "curtain.lan", 8080),
        "127.0.0.1:1:curtain.lan:8080"
    );
}

#[test]
fn remote_target_with_and_without_user() {
    assert_eq!(remote_target(Some("pi"), "relay.example"), "pi@relay.example");
    assert_eq!(remote_target(None, "relay.example"), "relay.example");
}
