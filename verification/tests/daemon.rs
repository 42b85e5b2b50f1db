use std::collections::HashSet;
use std::path::PathBuf;

use portus::clock::Timestamp;
use portus::daemon::{
    closes_connection, idle_check, process_request, sweep, sweep_at, DaemonState, IdleStep,
    ProcessInfo, SweepOutcome,
};
use portus::leases::LeaseEntry;
use portus::model::{Lease, LeaseState, Protocol};
use portus::protocol::{Request, Response};
use portus::registry::Registry;

fn free(_: u16, _: Protocol) -> bool {
    true
}

fn none_used() -> HashSet<u16> {
    HashSet::new()
}

fn no_disk(_: &Registry, _: &PathBuf) -> Result<(), String> {
    Ok(())
}

fn start() -> DaemonState {
    DaemonState::new(Registry::in_memory())
}

fn send_request(daemon: &mut DaemonState, request: Request) -> Response {
    let info = ProcessInfo { pid: 4711, uptime_secs: 12, socket_path: "/s/portus.sock".into() };
    process_request(request, daemon, info, &free, &none_used, &no_disk)
}

fn allocate(daemon: &mut DaemonState, project: &str, service: &str, port: Option<u16>, auto_reassign: bool) -> Response {
    send_request(
        daemon,
        Request::Allocate {
            project: project.into(),
            service: service.into(),
            preferred_port: port,
            protocol: Protocol::Tcp,
            auto_reassign,
            pid: Some(4242),
        },
    )
}

fn allocated(response: Response) -> Lease {
    match response {
        Response::Allocated { lease } => lease,
        other => panic!("expected allocated response, got {other:?}"),
    }
}

#[test]
fn full_lifecycle() {
    let mut daemon = start();

    let lease = allocated(allocate(&mut daemon, "/tmp/portus/full_lifecycle", "web", None, false));
    assert_eq!(lease.state, LeaseState::Pending);

    let confirmed = send_request(
        &mut daemon,
        Request::Confirm {
            lease_id: lease.lease_id.clone(),
            session_token: lease.session_token.clone(),
        },
    );
    assert!(matches!(
        confirmed,
        Response::Confirmed { ref lease_id } if lease_id == &lease.lease_id
    ));

    let heartbeat = send_request(
        &mut daemon,
        Request::Heartbeat {
            lease_id: lease.lease_id.clone(),
            session_token: lease.session_token.clone(),
        },
    );
    match heartbeat {
        Response::HeartbeatAck { lease_id, expires_at } => {
            assert_eq!(lease_id, lease.lease_id);
            assert!(!expires_at.is_empty());
        }
        other => panic!("expected heartbeat ack, got {other:?}"),
    }

    let listed = send_request(&mut daemon, Request::List { project_filter: None });
    match listed {
        Response::LeaseList { leases } => {
            assert_eq!(leases.len(), 1);
            assert_eq!(leases[0].lease_id, lease.lease_id);
            assert_eq!(leases[0].state, LeaseState::Active);
        }
        other => panic!("expected lease list, got {other:?}"),
    }

    let released = send_request(
        &mut daemon,
        Request::Release {
            lease_id: lease.lease_id.clone(),
            session_token: lease.session_token.clone(),
        },
    );
    assert!(matches!(
        released,
        Response::Released { ref lease_id } if lease_id == &lease.lease_id
    ));

    let listed = send_request(&mut daemon, Request::List { project_filter: None });
    match listed {
        Response::LeaseList { leases } => assert!(leases.is_empty()),
        other => panic!("expected empty lease list, got {other:?}"),
    }

    let status = send_request(&mut daemon, Request::Status);
    match status {
        Response::DaemonStatus { pid, active_leases, socket_path, uptime_secs } => {
            assert_eq!(pid, 4711);
            assert_eq!(active_leases, 0);
            assert_eq!(socket_path, "/s/portus.sock");
            assert_eq!(uptime_secs, 12);
        }
        other => panic!("expected daemon status, got {other:?}"),
    }

    assert!(!daemon.shutdown_requested);
    let shutdown = send_request(&mut daemon, Request::Shutdown);
    assert!(matches!(shutdown, Response::ShuttingDown));
    assert!(closes_connection(&shutdown));
    assert!(daemon.shutdown_requested);
}

#[test]
fn auto_reassign_integration() {
    let mut daemon = start();
    let project = "/tmp/portus/auto_reassign";

    // Service A: allocate port 9900 with auto_reassign=false → expect exactly 9900
    let lease_a = allocated(allocate(&mut daemon, project, "service-a", Some(9900), false));
    assert_eq!(lease_a.port, 9900, "service A should get exactly port 9900");

    // Service B: allocate port 9900 with auto_reassign=true → expect port ≥ 10000
    let lease_b = allocated(allocate(&mut daemon, project, "service-b", Some(9900), true));
    assert!(
        lease_b.port >= 10000,
        "service B should be reassigned to auto range (≥10000), got {}",
        lease_b.port
    );

    // Service C: allocate port 9900 with auto_reassign=false → expect Error
    match allocate(&mut daemon, project, "service-c", Some(9900), false) {
        Response::Error { code, message } => {
            assert_eq!(code, "allocation_failed");
            assert!(
                message.to_lowercase().contains("in use")
                    || message.to_lowercase().contains("already")
                    || message.to_lowercase().contains("conflict"),
                "error message should indicate port conflict, got: {message}"
            );
        }
        other => panic!("expected error for service C, got {other:?}"),
    }

    for lease in [lease_a, lease_b] {
        let released = send_request(
            &mut daemon,
            Request::Release { lease_id: lease.lease_id, session_token: lease.session_token },
        );
        assert!(matches!(released, Response::Released { .. }));
    }

    let shutdown = send_request(&mut daemon, Request::Shutdown);
    assert!(matches!(shutdown, Response::ShuttingDown));
}

#[test]
fn error_handling() {
    let mut daemon = start();
    let project = "/tmp/portus/error_handling";
    let lease = allocated(allocate(&mut daemon, project, "api", None, false));

    let wrong_token = send_request(
        &mut daemon,
        Request::Confirm {
            lease_id: lease.lease_id.clone(),
            session_token: "wrong-token".into(),
        },
    );
    match wrong_token {
        Response::Error { code, message } => {
            assert_eq!(code, "confirm_failed");
            assert!(message.contains("invalid session token"));
        }
        other => panic!("expected token error, got {other:?}"),
    }

    match allocate(&mut daemon, project, "api", None, false) {
        Response::Error { code, message } => {
            assert_eq!(code, "allocation_failed");
            assert!(message.contains("already has an active lease"));
        }
        other => panic!("expected duplicate service error, got {other:?}"),
    }

    let released = send_request(
        &mut daemon,
        Request::Release {
            lease_id: lease.lease_id.clone(),
            session_token: lease.session_token.clone(),
        },
    );
    assert!(matches!(
        released,
        Response::Released { ref lease_id } if lease_id == &lease.lease_id
    ));

    let shutdown = send_request(&mut daemon, Request::Shutdown);
    assert!(matches!(shutdown, Response::ShuttingDown));
}

#[test]
fn error_codes_of_requests() {
    let mut daemon = start();
    let (lease_id, session_token) = ("nope".to_string(), "x".to_string());
    let release =
        Request::Release { lease_id: lease_id.clone(), session_token: session_token.clone() };
    let heartbeat = Request::Heartbeat { lease_id, session_token };
    for (request, expected) in [(release, "release_failed"), (heartbeat, "heartbeat_failed")] {
        match send_request(&mut daemon, request) {
            Response::Error { code, message } => {
                assert_eq!(code, expected);
                assert_eq!(message, "lease not found");
            }
            other => panic!("expected an error, got {other:?}"),
        }
    }
    let error = Response::error("port_in_use", "Port 3000 is already allocated");
    assert!(matches!(
        &error,
        Response::Error { code, message }
            if code == "port_in_use" && message == "Port 3000 is already allocated"
    ));
    assert!(!closes_connection(&error));
}

#[test]
fn lists_are_filtered_by_project() {
    let mut daemon = start();
    allocated(allocate(&mut daemon, "/a/x", "web", None, false));
    allocated(allocate(&mut daemon, "/b/y", "web", None, false));
    let list = Request::List { project_filter: Some("/a".into()) };
    match send_request(&mut daemon, list) {
        Response::LeaseList { leases } => {
            assert_eq!(leases.len(), 1);
            assert_eq!(leases[0].project_path, "/a/x");
        }
        other => panic!("expected lease list, got {other:?}"),
    }
}

fn swept(outcome: SweepOutcome) -> (usize, usize) {
    match outcome {
        SweepOutcome::Swept(report) => (report.stale.unwrap(), report.dead.unwrap()),
        other => panic!("expected a sweep, got {other:?}"),
    }
}

#[test]
fn sweeps_spare_all_leases_during_the_startup_grace() {
    let mut daemon = start();
    let lease = allocated(allocate(&mut daemon, "/a", "web", None, false));
    let past = Timestamp { secs: lease.expires_at.secs + 1, nanos: 0 };
    let outcome = sweep_at(&mut daemon, 29, past, |_| false, &no_disk);
    assert!(matches!(outcome, SweepOutcome::Grace));
    assert_eq!(daemon.registry.active_count(), 1);

    assert_eq!(swept(sweep(&mut daemon, 30, |pid| pid == 4242, &no_disk)), (0, 0));
    assert_eq!(swept(sweep(&mut daemon, 30, |_| false, &no_disk)), (0, 1));
    assert_eq!(daemon.registry.get(&lease.lease_id).unwrap().state, LeaseState::Expired);
}

#[test]
fn sweeps_expire_stale_leases() {
    let mut daemon = start();
    let lease = allocated(allocate(&mut daemon, "/a", "web", None, false));
    let past = Timestamp { secs: lease.expires_at.secs + 1, nanos: 0 };
    assert_eq!(swept(sweep_at(&mut daemon, 30, past, |_| true, &no_disk)), (1, 0));
    assert_eq!(daemon.registry.active_count(), 0);
}

#[test]
fn a_recovered_lease_can_be_confirmed_within_the_startup_grace() {
    let now = Timestamp { secs: 1_700_000_000, nanos: 0 };
    let mut lease = Lease::new("/a".into(), "web".into(), 3000, Protocol::Tcp, None, 300);
    lease.state = LeaseState::Active;
    lease.expires_at = Timestamp { secs: 1_699_999_990, nanos: 0 };
    let entries = vec![LeaseEntry { id: lease.lease_id.clone(), lease: lease.clone() }];
    let registry = Registry::load_at(PathBuf::from("r"), entries, now, &no_disk).unwrap();
    let mut daemon = DaemonState::new(registry);
    sweep_at(&mut daemon, 0, now, |_| false, &no_disk);
    assert_eq!(daemon.registry.get(&lease.lease_id).unwrap().state, LeaseState::Pending);
    daemon.registry.confirm_at(&lease.lease_id, &lease.session_token, now, &no_disk).unwrap();
    assert_eq!(swept(sweep_at(&mut daemon, 30, now, |_| false, &no_disk)), (0, 0));
    assert_eq!(daemon.registry.get(&lease.lease_id).unwrap().state, LeaseState::Active);
}

#[test]
fn sweeps_end_with_the_daemon() {
    let mut daemon = start();
    send_request(&mut daemon, Request::Shutdown);
    let outcome = sweep(&mut daemon, 100, |_| true, &no_disk);
    assert!(matches!(outcome, SweepOutcome::Stopped));
}

#[test]
fn the_daemon_shuts_down_when_idle() {
    let mut daemon = start();
    assert_eq!(idle_check(&mut daemon, 600), IdleStep::Waiting);
    assert!(!daemon.shutdown_requested);
    allocated(allocate(&mut daemon, "/a", "web", None, false));
    assert_eq!(idle_check(&mut daemon, 10_000), IdleStep::Busy);
    assert!(!daemon.shutdown_requested);
    sweep(&mut daemon, 30, |_| false, &no_disk);
    assert_eq!(idle_check(&mut daemon, 601), IdleStep::Shutdown);
    assert!(daemon.shutdown_requested);
}
