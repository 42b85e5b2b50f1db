use portus::clock::Timestamp;
use portus::model::{Lease, LeaseState, Protocol};

fn lease(duration: i64) -> Lease {
    Lease::new("/tmp/project".into(), "web".into(), 3000, Protocol::Tcp, None, duration)
}

#[test]
fn new_lease_is_pending() {
    let lease = Lease::new(
        "/tmp/project".into(),
        "web".into(),
        3000,
        Protocol::Tcp,
        Some(1234),
        60,
    );
    assert_eq!(lease.state, LeaseState::Pending);
    assert!(!lease.is_expired());
    assert!(lease.confirmed_at.is_none());
}

#[test]
fn confirm_transitions_to_active() {
    let mut lease = lease(60);
    lease.confirm();
    assert_eq!(lease.state, LeaseState::Active);
    assert!(lease.confirmed_at.is_some());
}

#[test]
fn release_transitions_state() {
    let mut lease = lease(60);
    lease.confirm();
    lease.release();
    assert_eq!(lease.state, LeaseState::Released);
}

#[test]
fn heartbeat_extends_expiry() {
    let mut lease = lease(1);
    let old_expiry = lease.expires_at;
    lease.heartbeat(300);
    assert!(lease.expires_at > old_expiry);
}

#[test]
fn new_lease_holds_what_was_asked_for() {
    let lease = Lease::new("/p".into(), "db".into(), 5432, Protocol::Udp, Some(7), 60);
    assert_eq!(lease.project_path, "/p");
    assert_eq!(lease.service_name, "db");
    assert_eq!(lease.port, 5432);
    assert_eq!(lease.protocol, Protocol::Udp);
    assert_eq!(lease.client_pid, Some(7));
    assert_eq!(lease.expires_at.secs, lease.granted_at.secs + 60);
    assert_eq!(lease.expires_at.nanos, lease.granted_at.nanos);
    assert!(lease.last_heartbeat_at.is_none());
}

#[test]
fn lease_ids_and_tokens_are_version_4_uuids() {
    let lease = lease(60);
    for text in [&lease.lease_id, &lease.session_token] {
        let id = uuid::Uuid::parse_str(text).unwrap();
        assert_eq!(id.get_version_num(), 4);
        assert_eq!(id.to_string(), *text);
        assert_eq!(text.len(), 36);
        assert!("89ab".contains(text.chars().nth(19).unwrap()));
    }
    assert_ne!(lease.lease_id, lease.session_token);
}

#[test]
fn granted_now() {
    let before = chrono::Utc::now().timestamp();
    let lease = lease(60);
    let after = chrono::Utc::now().timestamp();
    assert!(before <= lease.granted_at.secs && lease.granted_at.secs <= after);
}

#[test]
fn confirming_at_an_instant_sets_every_time() {
    let mut lease = lease(60);
    let now = Timestamp { secs: 1_700_000_000, nanos: 5 };
    lease.confirm_at(now);
    assert_eq!(lease.confirmed_at, Some(now));
    assert_eq!(lease.last_heartbeat_at, Some(now));
    assert_eq!(lease.expires_at, Timestamp { secs: 1_700_000_300, nanos: 5 });
}

#[test]
fn heartbeat_at_an_instant_keeps_the_confirmation() {
    let mut lease = lease(60);
    lease.confirm_at(Timestamp { secs: 100, nanos: 0 });
    lease.heartbeat_at(Timestamp { secs: 200, nanos: 9 }, 10);
    assert_eq!(lease.confirmed_at, Some(Timestamp { secs: 100, nanos: 0 }));
    assert_eq!(lease.last_heartbeat_at, Some(Timestamp { secs: 200, nanos: 9 }));
    assert_eq!(lease.expires_at, Timestamp { secs: 210, nanos: 9 });
    assert_eq!(lease.state, LeaseState::Active);
}

#[test]
fn a_lease_expires_after_its_expiry_not_at_it() {
    let mut lease = lease(60);
    lease.expires_at = Timestamp { secs: 100, nanos: 50 };
    assert!(!lease.is_expired_at(Timestamp { secs: 100, nanos: 49 }));
    assert!(!lease.is_expired_at(Timestamp { secs: 100, nanos: 50 }));
    assert!(lease.is_expired_at(Timestamp { secs: 100, nanos: 51 }));
    assert!(lease.is_expired_at(Timestamp { secs: 101, nanos: 0 }));
    lease.expire();
    assert_eq!(lease.state, LeaseState::Expired);
}

#[test]
fn names_and_labels() {
    assert_eq!(LeaseState::Pending.name(), "Pending");
    assert_eq!(LeaseState::Active.name(), "Active");
    assert_eq!(LeaseState::Released.name(), "Released");
    assert_eq!(LeaseState::Expired.name(), "Expired");
    assert_eq!(LeaseState::Pending.label(), "pending");
    assert_eq!(LeaseState::Active.label(), "active");
    assert_eq!(LeaseState::Released.label(), "released");
    assert_eq!(LeaseState::Expired.label(), "expired");
    assert_eq!(Protocol::Tcp.name(), "Tcp");
    assert_eq!(Protocol::Udp.label(), "udp");
    assert_eq!(Protocol::default(), Protocol::Tcp);
    assert_eq!(format!("{:?}", LeaseState::Active), LeaseState::Active.name());
}
