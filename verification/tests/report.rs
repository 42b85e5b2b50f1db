use portus::cli::{build_scan_rows, port_availability, ScanRow};
use portus::client::DaemonStatus;
use portus::clock::Timestamp;
use portus::model::{Lease, LeaseState, Protocol};
use portus::report::{
    allocation_lines, allocation_lines_with, availability_line, confirmed_line, kill_preview_lines,
    killed_lines, list_lines, released_line, run_confirmed_line, run_released_line,
    run_started_lines, running_line, scan_lines, status_lines,
};
use portus::scan::PortProcess;

fn lease(port: u16, service: &str, project: &str) -> Lease {
    let mut lease = Lease::new(project.into(), service.into(), port, Protocol::Tcp, None, 300);
    lease.lease_id = "the-id".into();
    lease.session_token = "the-token".into();
    lease.expires_at = Timestamp { secs: 1_700_000_000, nanos: 0 };
    lease
}

fn process(port: u16, pid: u32, command: &str) -> PortProcess {
    PortProcess { port, pid, command: command.into(), protocol: Protocol::Tcp }
}

#[test]
fn lists_are_tables() {
    assert_eq!(list_lines(&[]), ["No active port allocations."]);
    let mut active = lease(8080, "api", "/home/user/some/project");
    active.state = LeaseState::Active;
    let lines = list_lines(&[lease(3000, "web", "/short"), active]);
    assert_eq!(
        lines,
        [
            format!(
                "{:<8} {:<12} {:<20} {:<10} {:<10}",
                "PORT", "SERVICE", "PROJECT", "STATE", "PROTOCOL"
            ),
            "-".repeat(60),
            format!("{:<8} {:<12} {:<20} {:<10} {:?}", 3000, "web", "/short", "pending", Protocol::Tcp),
            format!(
                "{:<8} {:<12} {:<20} {:<10} {:?}",
                8080, "api", "...er/some/project", "active", Protocol::Tcp
            ),
            String::new(),
            "2 allocation(s)".to_string(),
        ]
    );
}

#[test]
fn allocations_are_reported() {
    let granted = lease(3000, "web", "/p");
    assert_eq!(
        allocation_lines(&granted, Some(80)),
        [
            "✓ Allocated port 3000 for service 'web'",
            "  Lease ID: the-id",
            "  Token:    the-token",
            "  Expires:  2023-11-14 22:13:20 UTC",
            "  Reassigned from requested port 80",
            "",
            "  Confirm after binding:  portus confirm --lease-id the-id --token the-token",
        ]
    );
    assert_eq!(allocation_lines_with(&granted, Some(3000), "soon").len(), 6);
    assert_eq!(allocation_lines_with(&granted, None, "soon")[3], "  Expires:  soon");
    assert_eq!(confirmed_line("i"), "✓ Lease i confirmed");
    assert_eq!(released_line("i"), "✓ Lease i released");
}

#[test]
fn availability_is_reported() {
    assert_eq!(availability_line(80, &port_availability(true, None)), "Port 80 is available");
    assert_eq!(
        availability_line(80, &port_availability(false, None)),
        "Port 80 is not available: port is in use by another process"
    );
}

#[test]
fn runs_are_reported() {
    assert_eq!(
        run_started_lines(10000, Some(80), "web"),
        ["✓ Allocated port 10000 for service 'web'", "✓ Reassigned requested port 80 to 10000"]
    );
    assert_eq!(run_started_lines(80, Some(80), "web"), ["✓ Allocated port 80 for service 'web'"]);
    assert_eq!(run_started_lines(80, None, "web").len(), 1);
    assert_eq!(run_confirmed_line(80, "web"), "✓ Confirmed port 80 for service 'web'");
    assert_eq!(run_released_line(80, "web"), "✓ Released port 80 for service 'web'");
}

#[test]
fn the_daemon_is_reported() {
    let status = DaemonStatus {
        pid: 1,
        uptime_secs: 22,
        active_leases: 3,
        socket_path: "/s".into(),
    };
    assert_eq!(
        status_lines(&status),
        [
            "Portus Daemon",
            "  PID:           1",
            "  Uptime:        22s",
            "  Active leases: 3",
            "  Socket:        /s",
        ]
    );
    assert_eq!(
        running_line(&Some(status)),
        "✓ Daemon running (PID 1, uptime 22s, 3 active leases)"
    );
    assert_eq!(running_line(&None), "✗ Daemon is not running");
}

fn rows() -> Vec<ScanRow> {
    build_scan_rows(
        &[process(3000, 5, "node"), process(9, 66, "x")],
        &[lease(3000, "web", "/home/user/project")],
    )
}

#[test]
fn scans_are_tables() {
    assert_eq!(scan_lines(&[], Some(80)), ["No listeners found on port 80."]);
    assert_eq!(scan_lines(&[], None), ["No listeners found."]);
    assert_eq!(
        scan_lines(&rows(), None),
        [
            format!(
                "{:<8} {:<8} {:<8} {:<14} {:<12} {}",
                "PORT", "PID", "PROTO", "MANAGED", "SERVICE", "COMMAND"
            ),
            "-".repeat(72),
            format!(
                "{:<8} {:<8} {:<8} {:<14} {:<12} {}",
                3000, 5, "tcp", "...ser/project", "web", "node"
            ),
            format!("{:<8} {:<8} {:<8} {:<14} {:<12} {}", 9, 66, "tcp", "no", "-", "x"),
        ]
    );
    let mut odd = rows();
    odd[0].project = None;
    assert!(scan_lines(&odd, None)[2].contains("yes"));
}

#[test]
fn kills_are_reported() {
    assert_eq!(
        kill_preview_lines(3000, "TERM", &rows()),
        [
            "Would kill 2 process(es) on port 3000 with TERM:",
            "  Would kill: pid=5 proto=Tcp cmd=node (managed by /home/user/project:web)",
            "  Would kill: pid=66 proto=Tcp cmd=x (unmanaged)",
        ]
    );
    let killed = [process(3000, 5, "a"), process(3000, 5, "b")];
    let mut odd = rows();
    odd[0].project = None;
    odd[0].service = None;
    assert_eq!(
        killed_lines(3000, "KILL", &killed, &odd),
        [
            "✓ Sent KILL to 1 process(es) on port 3000",
            "  pid=5 proto=Tcp cmd=node (managed by unknown-project:unknown-service)",
            "  pid=66 proto=Tcp cmd=x (unmanaged)",
        ]
    );
}
