use portus::dashboard::{
    dashboard_step, lease_pane, lease_rows, listener_pane, listener_rows, status_lines,
    DaemonHealth, DaemonProbe, DashboardSnapshot, DashboardStep, LeaseDisplay, LeasePane,
    ListenerOwnership, ListenerPane, TerminalEvent, Tone,
};
use portus::model::{Lease, LeaseState, Protocol};
use portus::scan::PortProcess;

// ── DaemonHealth ────────────────────────────────────────────────

#[test]
fn health_running_when_both_files_exist() {
    let probe = Ok(DaemonProbe {
        pid_exists: true,
        socket_exists: true,
        pid_value: Some("1234".into()),
    });
    assert_eq!(DaemonHealth::classify(&probe), DaemonHealth::Running);
}

#[test]
fn health_offline_when_pid_missing() {
    let probe = Ok(DaemonProbe {
        pid_exists: false,
        socket_exists: true,
        pid_value: None,
    });
    assert_eq!(DaemonHealth::classify(&probe), DaemonHealth::Offline);
}

#[test]
fn health_offline_when_socket_missing() {
    let probe = Ok(DaemonProbe {
        pid_exists: true,
        socket_exists: false,
        pid_value: Some("99".into()),
    });
    assert_eq!(DaemonHealth::classify(&probe), DaemonHealth::Offline);
}

#[test]
fn health_unavailable_on_error() {
    let probe: Result<DaemonProbe, String> = Err("path resolution failed".into());
    assert_eq!(DaemonHealth::classify(&probe), DaemonHealth::Unavailable);
}

#[test]
fn health_label_running_includes_pid() {
    let probe = DaemonProbe {
        pid_exists: true,
        socket_exists: true,
        pid_value: Some("42".into()),
    };
    let label = DaemonHealth::Running.label(Some(&probe));
    assert!(label.contains("42"));
    assert!(label.contains("running"));
}

#[test]
fn health_label_offline_no_pid() {
    let label = DaemonHealth::Offline.label(None);
    assert!(label.contains("offline"));
}

#[test]
fn health_label_unavailable() {
    let label = DaemonHealth::Unavailable.label(None);
    assert!(label.contains("unavailable"));
}

#[test]
fn health_labels_and_colours_in_full() {
    assert_eq!(DaemonHealth::Running.label(None), "● running (pid ?)");
    assert_eq!(DaemonHealth::Offline.label(None), "○ offline");
    assert_eq!(DaemonHealth::Unavailable.label(None), "⚠ unavailable");
    assert_eq!(DaemonHealth::Running.style(), Tone::Green);
    assert_eq!(DaemonHealth::Offline.style(), Tone::DarkGray);
    assert_eq!(DaemonHealth::Unavailable.style(), Tone::Yellow);
}

#[test]
fn probe_trims_the_pid() {
    let probe = DaemonProbe::new(true, true, Some(" 77\n".into()));
    assert_eq!(probe.pid_value, Some("77".into()));
    let probe = DaemonProbe::new(false, true, Some("77".into()));
    assert_eq!(probe.pid_value, None);
    let probe = DaemonProbe::new(true, true, None);
    assert_eq!(DaemonHealth::Running.label(Some(&probe)), "● running (pid ?)");
}

// ── LeaseDisplay ────────────────────────────────────────────────

#[test]
fn lease_display_pending() {
    let display = LeaseDisplay::from_state(&LeaseState::Pending);
    assert_eq!(display, LeaseDisplay::Pending);
    assert!(display.label().contains("pending"));
}

#[test]
fn lease_display_active() {
    let display = LeaseDisplay::from_state(&LeaseState::Active);
    assert_eq!(display, LeaseDisplay::Active);
    assert!(display.label().contains("active"));
}

#[test]
fn lease_display_released_maps_to_pending() {
    // Released/Expired shouldn't appear (filtered out), but if they
    // do the fallback is Pending display.
    let display = LeaseDisplay::from_state(&LeaseState::Released);
    assert_eq!(display, LeaseDisplay::Pending);
}

#[test]
fn lease_display_colours() {
    assert_eq!(LeaseDisplay::Pending.style(), Tone::Yellow);
    assert_eq!(LeaseDisplay::Active.style(), Tone::Green);
}

// ── ListenerOwnership ───────────────────────────────────────────

fn make_lease(port: u16, protocol: Protocol) -> Lease {
    Lease::new(
        "/tmp/test".into(),
        "test-svc".into(),
        port,
        protocol,
        Some(100),
        60,
    )
}

fn make_listener(port: u16, protocol: Protocol) -> PortProcess {
    PortProcess {
        port,
        pid: 200,
        command: "node".into(),
        protocol,
    }
}

#[test]
fn listener_managed_when_port_and_protocol_match() {
    let leases = vec![make_lease(3000, Protocol::Tcp)];
    let listener = make_listener(3000, Protocol::Tcp);
    assert_eq!(
        ListenerOwnership::classify(&listener, &leases),
        ListenerOwnership::Managed
    );
}

#[test]
fn listener_unmanaged_when_port_differs() {
    let leases = vec![make_lease(3000, Protocol::Tcp)];
    let listener = make_listener(4000, Protocol::Tcp);
    assert_eq!(
        ListenerOwnership::classify(&listener, &leases),
        ListenerOwnership::Unmanaged
    );
}

#[test]
fn listener_unmanaged_when_protocol_differs() {
    let leases = vec![make_lease(3000, Protocol::Tcp)];
    let listener = make_listener(3000, Protocol::Udp);
    assert_eq!(
        ListenerOwnership::classify(&listener, &leases),
        ListenerOwnership::Unmanaged
    );
}

#[test]
fn listener_unmanaged_when_no_leases() {
    let listener = make_listener(3000, Protocol::Tcp);
    assert_eq!(
        ListenerOwnership::classify(&listener, &[]),
        ListenerOwnership::Unmanaged
    );
}

#[test]
fn listener_managed_among_many_leases() {
    let leases = vec![
        make_lease(8080, Protocol::Tcp),
        make_lease(5432, Protocol::Tcp),
        make_lease(3000, Protocol::Tcp),
    ];
    let listener = make_listener(5432, Protocol::Tcp);
    assert_eq!(
        ListenerOwnership::classify(&listener, &leases),
        ListenerOwnership::Managed
    );
}

#[test]
fn ownership_tag_text() {
    assert_eq!(ListenerOwnership::Managed.tag(), "[managed]");
    assert_eq!(ListenerOwnership::Unmanaged.tag(), "[unmanaged]");
}

#[test]
fn ownership_colours() {
    assert_eq!(ListenerOwnership::Managed.style(), Tone::Cyan);
    assert_eq!(ListenerOwnership::Unmanaged.style(), Tone::DarkGray);
}

// ── Snapshot, panes and keys ────────────────────────────────────

#[test]
fn snapshot_joins_its_errors() {
    let both = DashboardSnapshot::assemble(
        Err("no home".into()),
        Err("no probe".into()),
        Err("bad file".into()),
        Err("no lsof".into()),
    );
    assert_eq!(both.registry_path, "unavailable (no home)");
    assert_eq!(both.error.as_deref(), Some("registry: bad file | scan: no lsof"));
    assert!(both.leases.is_empty() && both.listeners.is_empty());

    let registry = DashboardSnapshot::assemble(
        Ok("/r".into()),
        Err("x".into()),
        Err("bad file".into()),
        Ok(vec![make_listener(1, Protocol::Tcp)]),
    );
    assert_eq!(registry.registry_path, "/r");
    assert_eq!(registry.error.as_deref(), Some("registry: bad file"));
    assert_eq!(registry.listeners.len(), 1);

    let scan = DashboardSnapshot::assemble(
        Ok("/r".into()),
        Err("x".into()),
        Ok(vec![make_lease(1, Protocol::Tcp)]),
        Err("no lsof".into()),
    );
    assert_eq!(scan.error.as_deref(), Some("scan: no lsof"));
    assert_eq!(scan.leases.len(), 1);

    let fine = DashboardSnapshot::assemble(Ok("/r".into()), Err("x".into()), Ok(vec![]), Ok(vec![]));
    assert_eq!(fine.error, None);
}

#[test]
fn status_pane_lines() {
    let snapshot = DashboardSnapshot::assemble(
        Ok("/home/u/.config/portus/registry.toml".into()),
        Ok(DaemonProbe::new(true, true, Some("42".into()))),
        Ok(vec![make_lease(1, Protocol::Tcp), make_lease(2, Protocol::Tcp)]),
        Err("no lsof".into()),
    );
    let lines: Vec<String> = status_lines(&snapshot)
        .iter()
        .map(|line| line.iter().map(|piece| piece.text.as_str()).collect())
        .collect();
    assert_eq!(
        lines,
        [
            "Portus Dashboard  q: quit  r: refresh",
            "Daemon: ● running (pid 42)",
            "Leases: 2  Listeners: 0",
            "Registry: /home/u/.config/portus/registry.toml",
            "⚠ scan: no lsof",
        ]
    );
    let styled = status_lines(&snapshot);
    assert!(styled[0][0].bold && styled[0][0].tone.is_none());
    assert_eq!(styled[0][1].tone, Some(Tone::DarkGray));
    assert_eq!(styled[1][1].tone, Some(Tone::Green));
    assert!(styled[2][1].bold && styled[2][3].bold);
    assert_eq!(styled[4][1].tone, Some(Tone::Yellow));
}

#[test]
fn lease_pane_rows() {
    let mut lease = make_lease(3000, Protocol::Tcp);
    lease.project_path = "/home/user/work/a/very/long/path/to/the/project".into();
    let mut other = make_lease(3001, Protocol::Tcp);
    other.state = LeaseState::Active;
    other.client_pid = None;
    let rows = lease_rows(&[lease, other]);
    assert_eq!(rows[0].port, "3000");
    assert_eq!(rows[0].state, "◌ pending");
    assert_eq!(rows[0].tone, Tone::Yellow);
    assert_eq!(rows[0].service, "test-svc");
    assert_eq!(rows[0].pid, "100");
    assert_eq!(rows[0].project, "...k/a/very/long/path/to/the/project");
    assert_eq!(rows[0].project.len(), 36);
    assert_eq!(rows[1].state, "● active");
    assert_eq!(rows[1].pid, "-");
    assert_eq!(rows[1].project, "/tmp/test");
}

#[test]
fn listener_pane_shows_twelve() {
    let listeners: Vec<PortProcess> =
        (0..15).map(|n| make_listener(3000 + n, Protocol::Tcp)).collect();
    let rows = listener_rows(&listeners, &[make_lease(3001, Protocol::Tcp)]);
    assert_eq!(rows.len(), 12);
    assert_eq!(rows[0].owner, "[unmanaged]");
    assert_eq!(rows[1].owner, "[managed]");
    assert_eq!(rows[1].tone, Tone::Cyan);
    assert_eq!(rows[11].port, "3011");
    assert_eq!(rows[11].pid, "200");
    assert_eq!(rows[11].protocol, "tcp");
    assert_eq!(rows[11].command, "node");
    assert_eq!(listener_rows(&listeners[..3], &[]).len(), 3);
}

#[test]
fn empty_panes_say_so() {
    assert!(matches!(lease_pane(&[]), LeasePane::Empty("No active leases")));
    assert!(matches!(listener_pane(&[], &[]), ListenerPane::Empty("No listeners detected")));
    let leases = [make_lease(1, Protocol::Tcp)];
    assert!(matches!(lease_pane(&leases), LeasePane::Rows(rows) if rows.len() == 1));
    let listeners = [make_listener(1, Protocol::Tcp)];
    assert!(matches!(
        listener_pane(&listeners, &leases),
        ListenerPane::Rows(rows) if rows[0].owner == "[managed]"
    ));
}

#[test]
fn keys_of_the_dashboard() {
    assert_eq!(dashboard_step(TerminalEvent::Typed('q')), DashboardStep::Quit);
    assert_eq!(dashboard_step(TerminalEvent::Escape), DashboardStep::Quit);
    assert_eq!(dashboard_step(TerminalEvent::Typed('r')), DashboardStep::Reload);
    assert_eq!(dashboard_step(TerminalEvent::Nothing), DashboardStep::Reload);
    assert_eq!(dashboard_step(TerminalEvent::Typed('Q')), DashboardStep::Redraw);
    assert_eq!(dashboard_step(TerminalEvent::Other), DashboardStep::Redraw);
}
