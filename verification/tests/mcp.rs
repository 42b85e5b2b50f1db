use portus::client::ClientError;
use portus::clock::Timestamp;
use portus::mcp::{
    allocate_port_request, allocate_port_result, check_port_result, daemon_status_result,
    list_ports_result, release_port_result, LeaseInfo, LeaseTimes,
};
use portus::model::{Lease, LeaseState, Protocol};
use portus::protocol::{Request, Response};

fn lease(port: u16) -> Lease {
    let mut lease = Lease::new("/p".into(), "web".into(), port, Protocol::Tcp, Some(9), 300);
    lease.granted_at = Timestamp { secs: 1_700_000_000, nanos: 0 };
    lease.expires_at = Timestamp { secs: 1_700_000_300, nanos: 0 };
    lease
}

#[test]
fn allocation_requests() {
    let auto = |wanted| {
        match allocate_port_request("/p".into(), "web".into(), Some(80), wanted, 3) {
            Request::Allocate { project, service, preferred_port, protocol, auto_reassign, pid } => {
                assert_eq!((project.as_str(), service.as_str()), ("/p", "web"));
                assert_eq!((preferred_port, protocol, pid), (Some(80), Protocol::Tcp, Some(3)));
                auto_reassign
            }
            other => panic!("expected an allocation, got {other:?}"),
        }
    };
    assert!(!auto(None));
    assert!(!auto(Some(false)));
    assert!(auto(Some(true)));
}

#[test]
fn allocation_results() {
    let granted = lease(3000);
    let result = allocate_port_result(Response::Allocated { lease: granted.clone() }).unwrap();
    assert_eq!(result.port, 3000);
    assert_eq!(result.lease_id, granted.lease_id);
    assert_eq!(result.token, granted.session_token);
    assert_eq!(result.expires_at, "2023-11-14T22:18:20+00:00");
}

#[test]
fn release_results() {
    let result = release_port_result(Response::Released { lease_id: "i".into() }).unwrap();
    assert!(result.released);
    assert_eq!(result.lease_id, "i");
}

#[test]
fn lease_information() {
    let mut active = lease(3000);
    active.state = LeaseState::Active;
    active.confirmed_at = Some(Timestamp { secs: 1_700_000_001, nanos: 0 });
    let info = LeaseInfo::of(&active);
    assert_eq!(info.lease_id, active.lease_id);
    assert_eq!(info.project_path, "/p");
    assert_eq!(info.service_name, "web");
    assert_eq!(info.port, 3000);
    assert_eq!(info.protocol, "tcp");
    assert_eq!(info.state, "active");
    assert_eq!(info.client_pid, Some(9));
    assert_eq!(info.token, active.session_token);
    assert_eq!(info.granted_at, "2023-11-14T22:13:20+00:00");
    assert_eq!(info.confirmed_at.as_deref(), Some("2023-11-14T22:13:21+00:00"));
    assert_eq!(info.last_heartbeat_at, None);
    assert_eq!(info.expires_at, "2023-11-14T22:18:20+00:00");

    let times = LeaseTimes {
        granted_at: "g".into(),
        confirmed_at: None,
        last_heartbeat_at: Some("h".into()),
        expires_at: "e".into(),
    };
    let info = LeaseInfo::with_times(&active, times);
    assert_eq!(info.granted_at, "g");
    assert_eq!(info.confirmed_at, None);
    assert_eq!(info.last_heartbeat_at.as_deref(), Some("h"));
    assert_eq!(info.expires_at, "e");
}

#[test]
fn list_results() {
    let leases = vec![lease(1), lease(2)];
    let result = list_ports_result(Response::LeaseList { leases }).unwrap();
    let ports: Vec<u16> = result.leases.iter().map(|info| info.port).collect();
    assert_eq!(ports, [1, 2]);
}

#[test]
fn check_results() {
    let list = || Response::LeaseList { leases: vec![lease(1), lease(2)] };
    let free = check_port_result(3, list(), true).unwrap();
    assert!(free.available && free.holder.is_none() && free.reason.is_none());
    let used = check_port_result(3, list(), false).unwrap();
    assert!(!used.available && used.holder.is_none());
    assert_eq!(used.reason.as_deref(), Some("port is in use by another process"));
    let held = check_port_result(2, list(), true).unwrap();
    assert!(!held.available);
    assert_eq!(held.holder.unwrap().port, 2);
    assert!(held.reason.unwrap().ends_with(") but not yet bound"));
}

#[test]
fn status_results() {
    let status = Response::DaemonStatus {
        pid: 1,
        uptime_secs: 2,
        active_leases: 3,
        socket_path: "s".into(),
    };
    let result = daemon_status_result(status).unwrap();
    assert_eq!((result.pid, result.uptime, result.active_leases), (1, 2, 3));
}

#[test]
fn tools_report_errors() {
    let error = || Response::error("release_failed", "lease not found");
    let text = "Lease not found\n  Try: portus list to see active leases";
    let message = |error: ClientError| match error {
        ClientError::Daemon { message } => message,
        other => panic!("expected the daemon's error, got {other:?}"),
    };
    assert_eq!(message(allocate_port_result(error()).unwrap_err()), text);
    assert_eq!(message(release_port_result(error()).unwrap_err()), text);
    assert_eq!(message(list_ports_result(error()).unwrap_err()), text);
    assert_eq!(message(check_port_result(1, error(), true).unwrap_err()), text);
    assert_eq!(message(daemon_status_result(error()).unwrap_err()), text);
    assert!(matches!(
        list_ports_result(Response::ShuttingDown),
        Err(ClientError::Unexpected { response: Response::ShuttingDown })
    ));
}
