use std::cell::RefCell;
use std::collections::HashSet;
use std::path::PathBuf;

use portus::clock::Timestamp;
use portus::leases::LeaseEntry;
use portus::model::{Lease, LeaseState, Protocol};
use portus::registry::{Registry, RegistryError};

fn free(_: u16, _: Protocol) -> bool {
    true
}

fn none_used() -> HashSet<u16> {
    HashSet::new()
}

fn no_disk(_: &Registry, _: &PathBuf) -> Result<(), String> {
    Ok(())
}

fn test_registry() -> Registry {
    Registry::in_memory()
}

fn allocate(
    reg: &mut Registry,
    project: &str,
    service: &str,
    port: Option<u16>,
    auto_reassign: bool,
) -> Result<Lease, RegistryError> {
    reg.allocate(
        project.into(),
        service.into(),
        port,
        Protocol::Tcp,
        auto_reassign,
        None,
        &free,
        &none_used,
        &no_disk,
    )
}

fn copy(entries: &[LeaseEntry]) -> Vec<LeaseEntry> {
    entries
        .iter()
        .map(|e| LeaseEntry { id: e.id.clone(), lease: e.lease.clone() })
        .collect()
}

/// A disk that keeps what was written last.
struct Disk {
    entries: RefCell<Vec<LeaseEntry>>,
    writes: RefCell<Vec<PathBuf>>,
}

impl Disk {
    fn new() -> Self {
        Disk { entries: RefCell::new(vec![]), writes: RefCell::new(vec![]) }
    }

    fn write(&self, registry: &Registry, path: &PathBuf) -> Result<(), String> {
        *self.entries.borrow_mut() = copy(registry.entries());
        self.writes.borrow_mut().push(path.clone());
        Ok(())
    }

    fn read(&self) -> Vec<LeaseEntry> {
        copy(&self.entries.borrow())
    }
}

#[test]
fn allocate_and_find() {
    let mut reg = test_registry();
    let lease = reg
        .allocate(
            "/tmp/myapp".into(),
            "web".into(),
            Some(9876),
            Protocol::Tcp,
            false,
            Some(1234),
            &free,
            &none_used,
            &no_disk,
        )
        .unwrap();
    assert_eq!(lease.port, 9876);
    assert_eq!(lease.state, LeaseState::Pending);

    let found = reg.find_active_by_port(9876, Protocol::Tcp);
    assert!(found.is_some());
    assert_eq!(found.unwrap().lease_id, lease.lease_id);
}

#[test]
fn duplicate_service_rejected() {
    let mut reg = test_registry();
    allocate(&mut reg, "/tmp/myapp", "web", Some(9877), false).unwrap();
    let result = allocate(&mut reg, "/tmp/myapp", "web", Some(9878), false);
    assert!(result.is_err());
}

#[test]
fn duplicate_port_rejected() {
    let mut reg = test_registry();
    allocate(&mut reg, "/tmp/app1", "web", Some(9879), false).unwrap();
    let result = allocate(&mut reg, "/tmp/app2", "api", Some(9879), false);
    assert!(result.is_err());
}

#[test]
fn confirm_and_release_lifecycle() {
    let mut reg = test_registry();
    let lease = allocate(&mut reg, "/tmp/myapp", "web", Some(9880), false).unwrap();
    let token = lease.session_token.clone();
    let id = lease.lease_id.clone();

    reg.confirm(&id, &token, &no_disk).unwrap();
    assert_eq!(reg.get(&id).unwrap().state, LeaseState::Active);

    reg.release(&id, &token, &no_disk).unwrap();
    assert_eq!(reg.get(&id).unwrap().state, LeaseState::Released);
}

#[test]
fn wrong_token_rejected() {
    let mut reg = test_registry();
    let lease = allocate(&mut reg, "/tmp/myapp", "web", Some(9881), false).unwrap();
    let result = reg.confirm(&lease.lease_id, "wrong-token", &no_disk);
    assert!(result.is_err());
}

#[test]
fn auto_assign_port() {
    let mut reg = test_registry();
    let lease = allocate(&mut reg, "/tmp/myapp", "web", None, false).unwrap();
    assert!(lease.port >= 10000 && lease.port <= 19999);
}

#[test]
fn gc_removes_released() {
    let mut reg = test_registry();
    let lease = allocate(&mut reg, "/tmp/myapp", "web", Some(9882), false).unwrap();
    reg.release(&lease.lease_id, &lease.session_token, &no_disk).unwrap();
    let removed = reg.gc(&no_disk).unwrap();
    assert_eq!(removed, 1);
    assert_eq!(reg.len(), 0);
}

#[test]
fn list_with_filter() {
    let mut reg = test_registry();
    allocate(&mut reg, "/home/user/app1", "web", Some(9883), false).unwrap();
    allocate(&mut reg, "/home/user/app2", "api", Some(9884), false).unwrap();
    allocate(&mut reg, "/other/path", "db", Some(9885), false).unwrap();

    let all = reg.list(None);
    assert_eq!(all.len(), 3);

    let filtered = reg.list(Some("/home/user"));
    assert_eq!(filtered.len(), 2);
}

#[test]
fn persistence_roundtrip() {
    let disk = Disk::new();
    let write = |r: &Registry, p: &PathBuf| disk.write(r, p);
    let path = PathBuf::from("test-registry.toml");

    // Create and populate
    let lease_id;
    let token;
    {
        let mut reg = Registry::load(path.clone(), disk.read(), &write).unwrap();
        let lease = reg
            .allocate(
                "/test/project".into(),
                "api".into(),
                Some(7777),
                Protocol::Tcp,
                false,
                None,
                &free,
                &none_used,
                &write,
            )
            .unwrap();
        lease_id = lease.lease_id.clone();
        token = lease.session_token.clone();
    }

    // Reload and verify
    {
        let reg = Registry::load(path, disk.read(), &write).unwrap();
        assert_eq!(reg.active_count(), 1);
        let lease = reg.find_active_by_port(7777, Protocol::Tcp).unwrap();
        assert_eq!(lease.lease_id, lease_id);
        assert_eq!(lease.session_token, token);
        assert_eq!(lease.service_name, "api");
    }
}

#[test]
fn auto_reassign_on_registry_conflict() {
    let mut reg = test_registry();
    // Allocate port 9886 for service A with auto_reassign: false
    let lease_a = allocate(&mut reg, "/tmp/app_a", "svc_a", Some(9886), false).unwrap();
    assert_eq!(lease_a.port, 9886);

    // Try to allocate port 9886 for service B with auto_reassign: true
    // Should succeed with a port from the auto range (>= 10000)
    let lease_b = allocate(&mut reg, "/tmp/app_b", "svc_b", Some(9886), true).unwrap();
    assert!(lease_b.port >= 10000 && lease_b.port <= 19999);
    assert_ne!(lease_b.port, 9886);
}

#[test]
fn auto_reassign_false_rejects_conflict() {
    let mut reg = test_registry();
    // Allocate port 9887 for service A with auto_reassign: false
    let _lease_a = allocate(&mut reg, "/tmp/app_a", "svc_a", Some(9887), false).unwrap();

    // Try to allocate port 9887 for service B with auto_reassign: false
    // Should fail with "already allocated" error
    let result = allocate(&mut reg, "/tmp/app_b", "svc_b", Some(9887), false);
    assert!(result.is_err());
    let err_msg = result.unwrap_err().message();
    assert!(err_msg.contains("already allocated"));
}

/// A lease that was confirmed and has been past its expiry for so many seconds.
fn lapsed_since(seconds: i64, service: &str, port: u16) -> (Disk, String) {
    let disk = Disk::new();
    let write = |r: &Registry, p: &PathBuf| disk.write(r, p);
    let path = PathBuf::from("test-registry.toml");
    let mut reg = Registry::load(path, vec![], &write).unwrap();
    let lease = reg
        .allocate(
            "/test/project".into(),
            service.into(),
            Some(port),
            Protocol::Tcp,
            false,
            None,
            &free,
            &none_used,
            &write,
        )
        .unwrap();
    reg.confirm(&lease.lease_id, &lease.session_token, &write).unwrap();
    let mut entries = copy(reg.entries());
    entries[0].lease.expires_at.secs = chrono::Utc::now().timestamp() - seconds;
    *disk.entries.borrow_mut() = entries;
    (disk, lease.lease_id)
}

#[test]
fn recovery_grace_period() {
    let (disk, lease_id) = lapsed_since(30, "web", 8080);
    let reg = Registry::load(
        PathBuf::from("test-registry.toml"),
        disk.read(),
        &|r: &Registry, p: &PathBuf| disk.write(r, p),
    )
    .unwrap();
    let lease = reg.get(&lease_id).unwrap();
    assert_eq!(lease.state, LeaseState::Pending);
    assert_eq!(disk.read()[0].lease.state, LeaseState::Pending);
}

#[test]
fn recovery_beyond_grace() {
    let (disk, lease_id) = lapsed_since(120, "api", 9090);
    let reg = Registry::load(
        PathBuf::from("test-registry.toml"),
        disk.read(),
        &|r: &Registry, p: &PathBuf| disk.write(r, p),
    )
    .unwrap();
    let lease = reg.get(&lease_id).unwrap();
    assert_eq!(lease.state, LeaseState::Expired);
    assert_eq!(disk.read()[0].lease.state, LeaseState::Expired);
}

// ── Errors ──────────────────────────────────────────────────────

#[test]
fn every_error_has_its_message() {
    let mut reg = test_registry();
    let first = allocate(&mut reg, "/p", "web", Some(3000), false).unwrap();
    let id = first.lease_id.as_str();

    let error = allocate(&mut reg, "/p", "web", None, true).unwrap_err();
    assert_eq!(
        error.message(),
        format!(
            "service 'web' in project '/p' already has an active lease on port 3000 (lease: {id})"
        )
    );

    let error = allocate(&mut reg, "/q", "api", Some(3000), false).unwrap_err();
    assert_eq!(
        error.message(),
        format!("port 3000 is already allocated to service 'web' in '/p' (lease: {id})")
    );

    let busy = |_: u16, _: Protocol| false;
    let mut ask = |port| {
        reg.allocate(
            "/q".into(),
            "api".into(),
            port,
            Protocol::Tcp,
            false,
            None,
            &busy,
            &none_used,
            &no_disk,
        )
    };
    assert_eq!(
        ask(Some(80)).unwrap_err().message(),
        "port 80 is in use by another process (not managed by portus)"
    );
    assert_eq!(
        ask(None).unwrap_err().message(),
        "no available ports in auto-assignment range"
    );

    assert_eq!(reg.confirm("nope", "x", &no_disk).unwrap_err().message(), "lease not found");
    assert_eq!(reg.release("nope", "x", &no_disk).unwrap_err().message(), "lease not found");
    assert_eq!(reg.heartbeat("nope", "x", &no_disk).unwrap_err().message(), "lease not found");
    assert_eq!(reg.release(id, "x", &no_disk).unwrap_err().message(), "invalid session token");
    assert_eq!(reg.heartbeat(id, "x", &no_disk).unwrap_err().message(), "invalid session token");
    assert_eq!(
        reg.heartbeat(id, &first.session_token, &no_disk).unwrap_err().message(),
        "lease is not active (current: Pending)"
    );
    reg.confirm(id, &first.session_token, &no_disk).unwrap();
    assert_eq!(
        reg.confirm(id, &first.session_token, &no_disk).unwrap_err().message(),
        "lease is not in pending state (current: Active)"
    );
    reg.release(id, &first.session_token, &no_disk).unwrap();
    assert_eq!(
        reg.heartbeat(id, &first.session_token, &no_disk).unwrap_err().message(),
        "lease is not active (current: Released)"
    );
}

#[test]
fn a_failed_write_is_reported_and_the_lease_kept() {
    let full = |_: &Registry, _: &PathBuf| Err("disk full".to_string());
    let mut reg = Registry::load(PathBuf::from("r"), vec![], &full).unwrap();
    let error = reg
        .allocate(
            "/p".into(),
            "web".into(),
            Some(3000),
            Protocol::Tcp,
            false,
            None,
            &free,
            &none_used,
            &full,
        )
        .unwrap_err();
    assert!(matches!(error, RegistryError::Save { .. }));
    assert_eq!(error.message(), "disk full");
    assert_eq!(reg.active_count(), 1);
    assert!(reg.save(&full).is_err());
    assert!(test_registry().save(&full).is_ok());
}

#[test]
fn a_heartbeat_past_the_end_of_the_calendar_is_refused() {
    let mut reg = test_registry();
    let lease = allocate(&mut reg, "/p", "web", Some(3000), false).unwrap();
    reg.confirm(&lease.lease_id, &lease.session_token, &no_disk).unwrap();
    let before = reg.get(&lease.lease_id).unwrap().expires_at;
    let late = Timestamp { secs: portus::clock::MAX_SECS - 299, nanos: 0 };
    let error =
        reg.heartbeat_at(&lease.lease_id, &lease.session_token, late, &no_disk).unwrap_err();
    assert!(matches!(error, RegistryError::ExpiryOutOfRange));
    assert_eq!(error.message(), "lease expiry is out of range");
    assert_eq!(reg.get(&lease.lease_id).unwrap().expires_at, before);
    let last = Timestamp { secs: portus::clock::MAX_SECS - 300, nanos: 0 };
    assert!(reg.heartbeat_at(&lease.lease_id, &lease.session_token, last, &no_disk).is_ok());
}

#[test]
fn a_confirmation_past_the_end_of_the_calendar_is_refused() {
    let mut reg = test_registry();
    let lease = allocate(&mut reg, "/p", "web", Some(3000), false).unwrap();
    let before = reg.get(&lease.lease_id).unwrap().expires_at;
    let late = Timestamp { secs: portus::clock::MAX_SECS - 299, nanos: 0 };
    let error = reg.confirm_at(&lease.lease_id, &lease.session_token, late, &no_disk).unwrap_err();
    assert!(matches!(error, RegistryError::ExpiryOutOfRange));
    assert_eq!(reg.get(&lease.lease_id).unwrap().state, LeaseState::Pending);
    assert_eq!(reg.get(&lease.lease_id).unwrap().expires_at, before);
    let last = Timestamp { secs: portus::clock::MAX_SECS - 300, nanos: 0 };
    assert!(reg.confirm_at(&lease.lease_id, &lease.session_token, last, &no_disk).is_ok());
}

// ── What holds of every registry, on examples ───────────────────

#[test]
fn automatic_choices_pass_over_held_and_used_ports() {
    let mut reg = test_registry();
    for n in 0..5 {
        let lease = allocate(&mut reg, "/p", &format!("s{n}"), None, false).unwrap();
        assert_eq!(lease.port, 10000 + n);
    }
    let used = || HashSet::from([10005, 10006]);
    let lease = reg
        .allocate(
            "/p".into(),
            "next".into(),
            None,
            Protocol::Tcp,
            false,
            None,
            &free,
            &used,
            &no_disk,
        )
        .unwrap();
    assert_eq!(lease.port, 10007);
    let mut ports: Vec<u16> = reg.active_leases().iter().map(|l| l.port).collect();
    ports.sort();
    ports.dedup();
    assert_eq!(ports.len(), 6);
}

#[test]
fn an_automatic_choice_falls_back_to_any_bindable_port() {
    let mut reg = test_registry();
    let all_used = || (10000..=19999).collect::<HashSet<u16>>();
    let lease = reg
        .allocate(
            "/p".into(),
            "web".into(),
            None,
            Protocol::Tcp,
            false,
            None,
            &|port: u16, _: Protocol| port == 12345,
            &all_used,
            &no_disk,
        )
        .unwrap();
    assert_eq!(lease.port, 12345);
}

#[test]
fn an_automatic_choice_never_falls_back_to_a_held_port() {
    let mut reg = test_registry();
    let held = allocate(&mut reg, "/p", "web", Some(12345), false).unwrap();
    let all_used = || (10000..=19999).collect::<HashSet<u16>>();
    for (used, bindable) in [(true, 12345), (false, 12345), (true, 12346)] {
        let mut copy = Registry::load_at(
            PathBuf::from("r"),
            vec![LeaseEntry { id: held.lease_id.clone(), lease: held.clone() }],
            held.granted_at,
            &no_disk,
        )
        .unwrap();
        let outcome = copy.allocate(
            "/p".into(),
            "api".into(),
            None,
            Protocol::Tcp,
            false,
            None,
            &|port: u16, _: Protocol| port == bindable,
            &|| if used { all_used() } else { HashSet::new() },
            &no_disk,
        );
        if bindable == 12345 {
            assert!(matches!(outcome, Err(RegistryError::NoAvailablePort)));
            assert_eq!(copy.active_count(), 1);
        } else {
            assert_eq!(outcome.unwrap().port, 12346);
        }
    }
}

#[test]
fn the_same_port_can_be_held_for_both_protocols() {
    let mut reg = test_registry();
    for (service, protocol) in [("t", Protocol::Tcp), ("u", Protocol::Udp)] {
        let lease = reg
            .allocate(
                "/p".into(),
                service.into(),
                Some(53),
                protocol,
                false,
                None,
                &free,
                &none_used,
                &no_disk,
            )
            .unwrap();
        assert_eq!(lease.port, 53);
    }
    assert_eq!(reg.find_active_by_port(53, Protocol::Udp).unwrap().service_name, "u");
    assert_eq!(reg.find_active_by_service("/p", "t").unwrap().protocol, Protocol::Tcp);
    assert!(reg.find_active_by_service("/p", "x").is_none());
    assert!(reg.find_active_by_port(54, Protocol::Tcp).is_none());
}

#[test]
fn a_wrong_token_changes_nothing() {
    let mut reg = test_registry();
    let lease = allocate(&mut reg, "/p", "web", Some(3000), false).unwrap();
    assert!(reg.release(&lease.lease_id, "guess", &no_disk).is_err());
    assert!(reg.heartbeat(&lease.lease_id, "guess", &no_disk).is_err());
    assert!(reg.confirm(&lease.lease_id, "guess", &no_disk).is_err());
    let kept = reg.get(&lease.lease_id).unwrap();
    assert_eq!(kept.state, LeaseState::Pending);
    assert_eq!(kept.expires_at, lease.expires_at);
}

#[test]
fn a_released_port_can_be_had_again() {
    let mut reg = test_registry();
    let lease = allocate(&mut reg, "/p", "web", Some(3000), false).unwrap();
    reg.release(&lease.lease_id, &lease.session_token, &no_disk).unwrap();
    assert!(reg.find_active_by_port(3000, Protocol::Tcp).is_none());
    let again = allocate(&mut reg, "/p", "web", Some(3000), false).unwrap();
    assert_eq!(again.port, 3000);
    assert_ne!(again.lease_id, lease.lease_id);
    assert_eq!(reg.len(), 2);
    assert_eq!(reg.active_count(), 1);
}

#[test]
fn renewals_start_from_the_call() {
    let mut reg = test_registry();
    let lease = allocate(&mut reg, "/p", "web", Some(3000), false).unwrap();
    let (id, token) = (lease.lease_id.as_str(), lease.session_token.as_str());
    let now = Timestamp { secs: 1_700_000_000, nanos: 0 };
    reg.confirm_at(id, token, now, &no_disk).unwrap();
    assert_eq!(reg.get(id).unwrap().expires_at.secs, 1_700_000_300);
    let later = Timestamp { secs: 1_700_000_100, nanos: 0 };
    let expires = reg.heartbeat_at(id, token, later, &no_disk).unwrap();
    assert_eq!(expires, "2023-11-14T22:20:00+00:00");
    assert_eq!(reg.get(id).unwrap().expires_at.secs, 1_700_000_400);
    assert_eq!(reg.get(id).unwrap().confirmed_at, Some(now));
}

#[test]
fn a_sweep_expires_exactly_the_stale_leases() {
    let mut reg = test_registry();
    let now = Timestamp { secs: 1_700_000_000, nanos: 0 };
    let pending = allocate(&mut reg, "/p", "pending", Some(1), false).unwrap();
    let active = allocate(&mut reg, "/p", "active", Some(2), false).unwrap();
    let fresh = allocate(&mut reg, "/p", "fresh", Some(3), false).unwrap();
    let gone = allocate(&mut reg, "/p", "gone", Some(4), false).unwrap();
    reg.confirm_at(&active.lease_id, &active.session_token, now, &no_disk).unwrap();
    reg.release(&gone.lease_id, &gone.session_token, &no_disk).unwrap();
    let at_expiry = Timestamp { secs: 1_700_000_300, nanos: 0 };
    assert_eq!(reg.expire_stale_at(at_expiry, &no_disk).unwrap(), 0);
    let past = Timestamp { secs: 1_700_000_300, nanos: 1 };
    assert_eq!(reg.expire_stale_at(past, &no_disk).unwrap(), 1);
    assert_eq!(reg.get(&active.lease_id).unwrap().state, LeaseState::Expired);
    assert_eq!(reg.expire_stale_at(past, &no_disk).unwrap(), 0);
    let end = Timestamp { secs: fresh.expires_at.secs + 1, nanos: 0 };
    assert_eq!(reg.expire_stale_at(end, &no_disk).unwrap(), 2);
    assert_eq!(reg.get(&pending.lease_id).unwrap().state, LeaseState::Expired);
    assert_eq!(reg.get(&gone.lease_id).unwrap().state, LeaseState::Released);
    assert_eq!(reg.expire_stale(&no_disk).unwrap(), 0);
}

#[test]
fn dead_clients_lose_their_leases() {
    let mut reg = test_registry();
    for (service, pid) in [("a", Some(1)), ("b", Some(2)), ("c", None)] {
        reg.allocate(
            "/p".into(),
            service.into(),
            None,
            Protocol::Tcp,
            false,
            pid,
            &free,
            &none_used,
            &no_disk,
        )
        .unwrap();
    }
    assert_eq!(reg.expire_dead_clients(|pid| pid == 1, &no_disk).unwrap(), 1);
    assert!(reg.find_active_by_service("/p", "a").is_some());
    assert!(reg.find_active_by_service("/p", "b").is_none());
    assert!(reg.find_active_by_service("/p", "c").is_some());
    assert_eq!(reg.expire_dead_clients(|pid| pid == 1, &no_disk).unwrap(), 0);
    assert_eq!(reg.expire_dead_clients(|_| false, &no_disk).unwrap(), 1);
}

#[test]
fn collecting_twice_removes_nothing_more() {
    let mut reg = test_registry();
    let keep = allocate(&mut reg, "/p", "keep", Some(1), false).unwrap();
    let mut removed = vec![];
    for n in 2..5 {
        let lease = allocate(&mut reg, "/p", &format!("s{n}"), Some(n), false).unwrap();
        reg.release(&lease.lease_id, &lease.session_token, &no_disk).unwrap();
        removed.push(lease.lease_id);
    }
    assert_eq!(reg.gc(&no_disk).unwrap(), 3);
    assert_eq!(reg.gc(&no_disk).unwrap(), 0);
    assert_eq!(reg.len(), 1);
    assert!(reg.get(&keep.lease_id).is_some());
    assert!(removed.iter().all(|id| reg.get(id).is_none()));
}

#[test]
fn every_change_is_written_to_the_file() {
    let disk = Disk::new();
    let write = |r: &Registry, p: &PathBuf| disk.write(r, p);
    let path = PathBuf::from("/tmp/r.toml");
    let mut reg = Registry::load(path.clone(), vec![], &write).unwrap();
    assert_eq!(reg.path(), Some(&path));
    assert_eq!(test_registry().path(), None);
    assert_eq!(disk.writes.borrow().len(), 0);

    let lease = reg
        .allocate(
            "/p".into(),
            "svc".into(),
            Some(9886),
            Protocol::Tcp,
            false,
            Some(4242),
            &free,
            &none_used,
            &write,
        )
        .unwrap();
    assert_eq!(disk.read()[0].lease.state, LeaseState::Pending);
    reg.confirm(&lease.lease_id, &lease.session_token, &write).unwrap();
    assert_eq!(disk.read()[0].lease.state, LeaseState::Active);
    assert!(disk.read()[0].lease.confirmed_at.is_some());
    reg.heartbeat(&lease.lease_id, &lease.session_token, &write).unwrap();
    assert!(disk.read()[0].lease.last_heartbeat_at.is_some());
    reg.release(&lease.lease_id, &lease.session_token, &write).unwrap();
    assert_eq!(disk.read()[0].lease.state, LeaseState::Released);
    assert_eq!(disk.writes.borrow().len(), 4);
    assert!(disk.writes.borrow().iter().all(|p| *p == path));
    assert_eq!(reg.expire_stale(&write).unwrap(), 0);
    assert_eq!(disk.writes.borrow().len(), 4);
    assert_eq!(reg.gc(&write).unwrap(), 1);
    assert_eq!(disk.writes.borrow().len(), 5);
    assert!(disk.read().is_empty());
}

#[test]
fn recovery_is_written_only_where_it_changes_something() {
    let disk = Disk::new();
    let write = |r: &Registry, p: &PathBuf| disk.write(r, p);
    let now = Timestamp { secs: 1_700_000_000, nanos: 0 };
    let mut lease = Lease::new("/p".into(), "s".into(), 1, Protocol::Tcp, None, 60);
    lease.state = LeaseState::Active;
    lease.expires_at = Timestamp { secs: 1_699_999_940, nanos: 0 };
    let entries = |lease: &Lease| {
        vec![LeaseEntry { id: lease.lease_id.clone(), lease: lease.clone() }]
    };
    // Sixty seconds are within the grace period, a nanosecond more is not.
    let reg = Registry::load_at(PathBuf::from("r"), entries(&lease), now, &write).unwrap();
    assert_eq!(reg.get(&lease.lease_id).unwrap().state, LeaseState::Pending);
    let late = Timestamp { secs: 1_700_000_000, nanos: 1 };
    let reg = Registry::load_at(PathBuf::from("r"), entries(&lease), late, &write).unwrap();
    assert_eq!(reg.get(&lease.lease_id).unwrap().state, LeaseState::Expired);
    assert_eq!(disk.writes.borrow().len(), 2);
    // Not yet expired: nothing changes and nothing is written.
    let early = Timestamp { secs: 1_699_999_940, nanos: 0 };
    let reg = Registry::load_at(PathBuf::from("r"), entries(&lease), early, &write).unwrap();
    assert_eq!(reg.get(&lease.lease_id).unwrap().state, LeaseState::Active);
    assert_eq!(disk.writes.borrow().len(), 2);
    // Leases that are not active are left alone.
    lease.state = LeaseState::Pending;
    let reg = Registry::load_at(PathBuf::from("r"), entries(&lease), late, &write).unwrap();
    assert_eq!(reg.get(&lease.lease_id).unwrap().state, LeaseState::Pending);
    assert_eq!(disk.writes.borrow().len(), 2);
    // A failed write fails the load.
    lease.state = LeaseState::Active;
    let full = |_: &Registry, _: &PathBuf| Err("disk full".to_string());
    let error = Registry::load_at(PathBuf::from("r"), entries(&lease), late, &full).unwrap_err();
    assert_eq!(error.message(), "disk full");
}

#[test]
fn granting_under_a_known_id_replaces_the_lease() {
    let mut reg = test_registry();
    let lease = allocate(&mut reg, "/p", "web", Some(3000), false).unwrap();
    let mut changed = lease.clone();
    changed.port = 3001;
    let returned = reg.grant(changed, &no_disk).unwrap();
    assert_eq!(returned.port, 3001);
    assert_eq!(reg.len(), 1);
    assert_eq!(reg.get(&lease.lease_id).unwrap().port, 3001);
}

#[test]
fn choosing_a_port_takes_nothing() {
    let mut reg = test_registry();
    allocate(&mut reg, "/p", "web", Some(3000), false).unwrap();
    assert_eq!(reg.choose_port(Some(3001), Protocol::Tcp, false, &free, &none_used).unwrap(), 3001);
    assert_eq!(reg.choose_port(Some(3000), Protocol::Tcp, true, &free, &none_used).unwrap(), 10000);
    assert!(matches!(
        reg.choose_port(Some(3000), Protocol::Tcp, false, &free, &none_used),
        Err(RegistryError::PortAllocated { port: 3000, .. })
    ));
    assert_eq!(reg.len(), 1);
}

#[test]
fn a_port_leased_for_the_other_protocol_is_found_in_the_second_search() {
    let mut reg = test_registry();
    reg.allocate(
        "/p".into(),
        "dns".into(),
        Some(12345),
        Protocol::Udp,
        false,
        None,
        &free,
        &none_used,
        &no_disk,
    )
    .unwrap();
    let asked = RefCell::new(vec![]);
    let only = |port: u16, _: Protocol| {
        asked.borrow_mut().push(port);
        port == 12345
    };
    let lease = reg
        .allocate(
            "/p".into(),
            "web".into(),
            None,
            Protocol::Tcp,
            false,
            None,
            &only,
            &none_used,
            &no_disk,
        )
        .unwrap();
    assert_eq!(lease.port, 12345);
    assert_eq!(asked.borrow().iter().filter(|port| **port == 12345).count(), 1);
}

#[test]
fn only_the_clients_of_live_leases_are_asked_about() {
    let mut reg = test_registry();
    let mut leases = vec![];
    for (service, pid) in [("a", Some(1)), ("b", None), ("c", Some(3)), ("d", Some(1)), ("e", Some(5))]
    {
        let lease = reg
            .allocate(
                "/p".into(),
                service.into(),
                None,
                Protocol::Tcp,
                false,
                pid,
                &free,
                &none_used,
                &no_disk,
            )
            .unwrap();
        leases.push(lease);
    }
    reg.release(&leases[2].lease_id, &leases[2].session_token, &no_disk).unwrap();
    assert_eq!(reg.client_pids(), [1, 1, 5]);
    let asked = RefCell::new(vec![]);
    let expired = reg.expire_dead_clients(
        |pid| {
            asked.borrow_mut().push(pid);
            pid != 5
        },
        &no_disk,
    );
    assert_eq!(expired.unwrap(), 1);
    assert_eq!(*asked.borrow(), [1, 1, 5]);
    assert_eq!(reg.get(&leases[4].lease_id).unwrap().state, LeaseState::Expired);
    assert_eq!(reg.expire_clients(&[true, false], &no_disk).unwrap(), 1);
    assert_eq!(reg.get(&leases[0].lease_id).unwrap().state, LeaseState::Pending);
    assert_eq!(reg.get(&leases[1].lease_id).unwrap().state, LeaseState::Pending);
    assert_eq!(reg.get(&leases[3].lease_id).unwrap().state, LeaseState::Expired);
}

#[test]
fn nothing_is_written_where_nothing_changes() {
    let disk = Disk::new();
    let write = |registry: &Registry, path: &PathBuf| disk.write(registry, path);
    let mut reg = Registry::load(PathBuf::from("r"), vec![], &write).unwrap();
    assert_eq!(reg.expire_stale(&write).unwrap(), 0);
    assert_eq!(reg.expire_dead_clients(|_| false, &write).unwrap(), 0);
    assert_eq!(reg.gc(&write).unwrap(), 0);
    assert!(reg.confirm("x", "y", &write).is_err());
    assert!(reg.release("x", "y", &write).is_err());
    assert!(reg.heartbeat("x", "y", &write).is_err());
    assert!(disk.writes.borrow().is_empty());
}
