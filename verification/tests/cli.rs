use std::path::PathBuf;

use portus::cli::{
    build_scan_rows, child_bind_step, child_exit_code, connect_step, dry_run,
    extract_port_from_message, format_daemon_error, is_child_listening, load_active_leases,
    parse_signal, port_availability, replace_first, require_listener, resolve_project,
    shorten_project, suggest, unique_pid_count, uppercase_first, CliError, ConnectAction,
    ConnectEvent, ConnectState, STARTUP_ATTEMPTS,
};
use portus::client::{
    allocate_request, expect_allocated, expect_confirmed, expect_leases, expect_released,
    expect_shutdown, expect_status, running_status, ClientError,
};
use portus::leases::LeaseEntry;
use portus::model::{Lease, LeaseState, Protocol};
use portus::protocol::{Message, Request, Response};
use portus::registry::{Registry, RegistryError};
use portus::scan::{PortProcess, ScanError};

fn lease(port: u16, service: &str) -> Lease {
    Lease::new("/home/user/app".into(), service.into(), port, Protocol::Tcp, None, 300)
}

fn process(port: u16, pid: u32) -> PortProcess {
    PortProcess { port, pid, command: "node".into(), protocol: Protocol::Tcp }
}

fn no_disk(_: &Registry, _: &PathBuf) -> Result<(), String> {
    Ok(())
}

#[test]
fn the_project_defaults_to_the_current_directory() {
    let here = || Some("/here".to_string());
    let nowhere = || None;
    assert_eq!(resolve_project(Some("/p".into()), &nowhere).unwrap(), "/p");
    assert_eq!(resolve_project(None, &here).unwrap(), "/here");
    assert_eq!(
        resolve_project(None, &nowhere).unwrap_err().message(),
        "cannot get current directory"
    );
}

#[test]
fn signals_by_name() {
    for name in ["term", "TERM", "SigTerm"] {
        assert_eq!(parse_signal(name).unwrap(), "TERM");
    }
    for name in ["kill", "SIGKILL"] {
        assert_eq!(parse_signal(name).unwrap(), "KILL");
    }
    assert_eq!(
        parse_signal("HUP").unwrap_err().message(),
        "unknown signal: 'hup' (use 'term' or 'kill')"
    );
}

#[test]
fn scan_rows_show_the_lease_on_the_port() {
    let mut held = lease(3000, "web");
    held.state = LeaseState::Active;
    let rows = build_scan_rows(&[process(3000, 5), process(4000, 6)], &[lease(1, "x"), held]);
    assert_eq!(rows.len(), 2);
    assert!(rows[0].managed);
    assert_eq!(rows[0].pid, 5);
    assert_eq!(rows[0].command, "node");
    assert_eq!(rows[0].service.as_deref(), Some("web"));
    assert_eq!(rows[0].project.as_deref(), Some("/home/user/app"));
    assert_eq!(rows[0].lease_state.as_deref(), Some("active"));
    assert!(!rows[1].managed);
    assert_eq!(rows[1].port, 4000);
    assert!(rows[1].service.is_none() && rows[1].project.is_none() && rows[1].lease_state.is_none());
    assert!(require_listener(&rows, 3000).is_ok());
    assert_eq!(
        require_listener(&[], 3000).unwrap_err().message(),
        "no listening process found on port 3000"
    );
}

#[test]
fn active_leases_are_loaded_in_order() {
    let mut entries = vec![];
    for (id, port, service, state) in [
        ("1", 3000, "web", LeaseState::Pending),
        ("2", 80, "z", LeaseState::Active),
        ("3", 90, "gone", LeaseState::Released),
        ("4", 80, "a", LeaseState::Pending),
    ] {
        let mut lease = lease(port, service);
        lease.state = state;
        entries.push(LeaseEntry { id: id.into(), lease });
    }
    let found = load_active_leases(PathBuf::from("r"), Some(entries), &no_disk).unwrap();
    let shown: Vec<(u16, &str)> = found.iter().map(|l| (l.port, l.service_name.as_str())).collect();
    assert_eq!(shown, [(80, "a"), (80, "z"), (3000, "web")]);
    assert!(load_active_leases(PathBuf::from("r"), None, &no_disk).unwrap().is_empty());

    let mut lapsed = lease(1, "x");
    lapsed.state = LeaseState::Active;
    lapsed.expires_at.secs -= 1000;
    let entries = vec![LeaseEntry { id: "1".into(), lease: lapsed }];
    let full = |_: &Registry, _: &PathBuf| Err("disk full".to_string());
    let error = load_active_leases(PathBuf::from("r"), Some(entries), &full).unwrap_err();
    assert!(matches!(error, RegistryError::Save { .. }));
}

#[test]
fn processes_are_counted_once() {
    assert_eq!(unique_pid_count(&[process(1, 5), process(2, 5), process(3, 6)]), 2);
    assert_eq!(unique_pid_count(&[]), 0);
}

#[test]
fn a_child_is_bound_once_it_listens() {
    let scan = |port: Option<u16>| {
        assert_eq!(port, Some(3000));
        Ok(vec![process(3000, 5), process(3000, 6)])
    };
    assert!(is_child_listening(3000, 6, Protocol::Tcp, &scan).unwrap());
    assert!(!is_child_listening(3000, 7, Protocol::Tcp, &scan).unwrap());
    assert!(!is_child_listening(3000, 6, Protocol::Udp, &scan).unwrap());
    assert!(child_bind_step(3000, 6, Protocol::Tcp, None, &scan).unwrap());
    assert!(!child_bind_step(3000, 7, Protocol::Tcp, None, &scan).unwrap());
    let error = child_bind_step(3000, 6, Protocol::Tcp, Some(Some(-2)), &scan).unwrap_err();
    assert_eq!(error.message(), "child exited before binding port 3000 (exit: Some(-2))");
    let error = child_bind_step(3000, 6, Protocol::Tcp, Some(None), &scan).unwrap_err();
    assert_eq!(error.message(), "child exited before binding port 3000 (exit: None)");
    let broken = |_: Option<u16>| Err(ScanError::LsofNotRun);
    let error = child_bind_step(3000, 6, Protocol::Tcp, None, &broken).unwrap_err();
    assert_eq!(error.message(), "failed to execute lsof");
    assert!(is_child_listening(3000, 6, Protocol::Tcp, &broken).is_err());
}

#[test]
fn a_running_daemon_is_sent_the_request_at_once() {
    let (next, action) = connect_step(ConnectState::FirstAttempt, ConnectEvent::Connected);
    assert!(next.is_none());
    assert!(matches!(action, ConnectAction::Send));
}

#[test]
fn a_daemon_that_cannot_be_started_ends_the_attempt() {
    let (next, action) = connect_step(ConnectState::FirstAttempt, ConnectEvent::Refused);
    assert_eq!(next, Some(ConnectState::Starting));
    assert!(matches!(action, ConnectAction::StartDaemon));
    let (next, action) = connect_step(ConnectState::Starting, ConnectEvent::StartFailed);
    assert!(next.is_none());
    assert!(matches!(action, ConnectAction::PassOnStartError));
}

#[test]
fn a_started_daemon_is_tried_twenty_times() {
    assert_eq!(STARTUP_ATTEMPTS, 20);
    let (next, mut action) = connect_step(ConnectState::Starting, ConnectEvent::Started);
    let mut state = next.unwrap();
    let mut attempts = 0;
    let error = loop {
        match action {
            ConnectAction::WaitAndConnect => attempts += 1,
            ConnectAction::GiveUp { error } => break error,
            other => panic!("expected another attempt, got {:?}", other),
        }
        let step = connect_step(state, ConnectEvent::Refused);
        state = step.0.unwrap_or(state);
        action = step.1;
    };
    assert_eq!(attempts, 20);
    assert!(matches!(error, CliError::DaemonNotStarted));
    assert_eq!(error.message(), "daemon did not start in time");
}

#[test]
fn a_daemon_that_answers_late_is_sent_the_request() {
    for failed_attempts in [0, 7, 19] {
        let state = ConnectState::Retrying { failed_attempts };
        let (next, action) = connect_step(state, ConnectEvent::Connected);
        assert!(next.is_none());
        assert!(matches!(action, ConnectAction::Send));
    }
}

#[test]
fn a_run_ends_with_the_exit_of_its_child() {
    assert_eq!(child_exit_code(Some(3)), 3);
    assert_eq!(child_exit_code(None), 1);
}

#[test]
fn a_port_can_be_had_where_it_is_free() {
    let held = lease(3000, "web");
    let id = &held.lease_id;
    let free = port_availability(true, None);
    assert!(free.available && free.reason.is_none());
    let used = port_availability(false, None);
    assert!(!used.available);
    assert_eq!(used.reason.unwrap(), "port is in use by another process");
    let bound = port_availability(false, Some(&held));
    assert!(!bound.available);
    assert_eq!(bound.reason.unwrap(), format!("allocated to service 'web' (lease {id})"));
    let unbound = port_availability(true, Some(&held));
    assert!(!unbound.available);
    assert_eq!(
        unbound.reason.unwrap(),
        format!("allocated to service 'web' (lease {id}) but not yet bound")
    );
    assert_eq!(dry_run(None, true, &[]).unwrap_err().message(), "--dry-run requires --port");
    assert!(dry_run(Some(80), true, &[lease(3000, "web")]).unwrap().available);
    assert!(!dry_run(Some(3000), true, &[lease(3000, "web")]).unwrap().available);
}

#[test]
fn ports_in_messages() {
    assert_eq!(extract_port_from_message("port 3000 is already allocated"), Some(3000));
    assert_eq!(extract_port_from_message("no port here"), None);
    assert_eq!(extract_port_from_message("port "), None);
    assert_eq!(extract_port_from_message("support 80 port 90"), Some(80));
    assert_eq!(extract_port_from_message("port 99999"), None);
    assert_eq!(extract_port_from_message("port +80"), None);
    assert_eq!(extract_port_from_message("on port 8080"), Some(8080));
    assert_eq!(extract_port_from_message(""), None);
}

#[test]
fn capitals() {
    assert_eq!(uppercase_first("port 80"), "Port 80");
    assert_eq!(uppercase_first(""), "");
    assert_eq!(uppercase_first("ß"), "SS");
    assert_eq!(uppercase_first("éa"), "Éa");
    assert_eq!(uppercase_first("1a"), "1a");
    assert_eq!(replace_first("XY", "abc"), "XYbc");
}

#[test]
fn errors_of_the_daemon_come_with_suggestions() {
    let allocated = RegistryError::PortAllocated {
        port: 3000,
        service: "web".into(),
        project: "/p".into(),
        lease_id: "id".into(),
    };
    assert_eq!(
        format_daemon_error("allocation_failed", &allocated.message()),
        "Port 3000 is already allocated to service 'web' in '/p' (lease: id)\n  Try: portus release --lease-id <id> --token <token>\n       portus list --port 3000 to find the existing lease\n       or use --auto-reassign to pick another port"
    );
    let used = RegistryError::PortInUse { port: 80 };
    assert_eq!(
        format_daemon_error("allocation_failed", &used.message()),
        "Port 80 is in use by another process (not managed by portus)\n  Try: portus kill --port 80 to terminate the blocking process\n       or use --auto-reassign to pick another port"
    );
    assert_eq!(
        suggest("confirm_failed", &RegistryError::InvalidToken.message()),
        "\n  Try: portus list --json to find the correct lease-id and token"
    );
    for code in ["confirm_failed", "release_failed", "heartbeat_failed"] {
        assert_eq!(
            format_daemon_error(code, &RegistryError::LeaseNotFound.message()),
            "Lease not found\n  Try: portus list to see active leases"
        );
    }
    assert_eq!(suggest("allocation_failed", "lease not found"), "");
    assert_eq!(suggest("x", "already allocated"), "\n  Try: portus release --lease-id <id> --token <token>\n       portus list to find the existing lease\n       or use --auto-reassign to pick another port");
    assert_eq!(format_daemon_error("x", "something else"), "Something else");
}

#[test]
fn projects_are_shortened_in_tables() {
    assert_eq!(shorten_project("/tmp/project12"), "/tmp/project12");
    assert_eq!(shorten_project("/tmp/project123"), ".../project123");
}

#[test]
fn responses_that_were_asked_for() {
    let request = allocate_request("/p".into(), "web".into(), Some(1), true, 7);
    assert!(matches!(
        request,
        Request::Allocate {
            preferred_port: Some(1),
            protocol: Protocol::Tcp,
            auto_reassign: true,
            pid: Some(7),
            ..
        }
    ));
    let message = Message { id: "req-001".to_string(), payload: request };
    assert_eq!(message.id, "req-001");
    assert_eq!(expect_allocated(Response::Allocated { lease: lease(1, "a") }).unwrap().port, 1);
    assert_eq!(expect_confirmed(Response::Confirmed { lease_id: "i".into() }).unwrap(), "i");
    assert_eq!(expect_released(Response::Released { lease_id: "i".into() }).unwrap(), "i");
    let leases = vec![lease(1, "a"), lease(2, "b")];
    assert_eq!(expect_leases(Response::LeaseList { leases }).unwrap().len(), 2);
    let status = || Response::DaemonStatus {
        pid: 1,
        uptime_secs: 2,
        active_leases: 3,
        socket_path: "s".into(),
    };
    let found = expect_status(status()).unwrap();
    assert_eq!((found.pid, found.uptime_secs, found.active_leases), (1, 2, 3));
    assert_eq!(found.socket_path, "s");
    assert!(running_status(Some(status())).is_some());
    assert!(running_status(Some(Response::ShuttingDown)).is_none());
    assert!(running_status(None).is_none());
    assert!(expect_shutdown(Response::ShuttingDown).is_ok());
}

#[test]
fn responses_that_were_not_asked_for() {
    let error = || Response::error("release_failed", "lease not found");
    match expect_released(error()).unwrap_err() {
        ClientError::Daemon { message } => {
            assert_eq!(message, "Lease not found\n  Try: portus list to see active leases")
        }
        other => panic!("expected the daemon's error, got {other:?}"),
    }
    assert!(matches!(expect_allocated(error()), Err(ClientError::Daemon { .. })));
    assert!(matches!(expect_confirmed(error()), Err(ClientError::Daemon { .. })));
    assert!(matches!(expect_leases(error()), Err(ClientError::Daemon { .. })));
    assert!(matches!(expect_status(error()), Err(ClientError::Daemon { .. })));
    assert!(matches!(
        expect_status(Response::ShuttingDown),
        Err(ClientError::Unexpected { response: Response::ShuttingDown })
    ));
    assert!(matches!(
        expect_shutdown(error()),
        Err(ClientError::Unexpected { response: Response::Error { .. } })
    ));
}

#[test]
fn scan_errors_are_passed_on() {
    let error = CliError::Scan { error: ScanError::NoListener { port: 5 } };
    assert_eq!(error.message(), "no listening process found on port 5");
}
