//! What the dashboard shows.
use vstd::prelude::*;
use crate::dashboard;
use crate::dashboard::{
    DaemonHealth, DaemonProbe, DashboardSnapshot, DashboardStep, LeaseDisplay, LeasePane,
    LeaseRow, ListenerOwnership, ListenerPane, ListenerRow, StyledText, TerminalEvent, Tone,
};
use crate::decimal;
use crate::model::{Lease, LeaseState};
use crate::promises::printing;
use crate::scan::PortProcess;
use crate::text;

verus! {

// ── The daemon ──────────────────────────────────────────────────────────

/// A probe keeps what was found. The number in the PID file counts only where
/// there is such a file.
pub proof fn probe_keeps_what_was_found(
    pid_exists: bool,
    socket_exists: bool,
    pid_text: Option<String>,
    probe: DaemonProbe,
    chars: &[char],
    trimmed: Vec<char>,
)
    requires
        call_ensures(DaemonProbe::new, (pid_exists, socket_exists, pid_text), probe),
        pid_text matches Some(pid_text) ==> chars@ == pid_text@,
        call_ensures(text::trim, (chars,), trimmed),
    ensures
        probe.pid_exists == pid_exists,
        probe.socket_exists == socket_exists,
        probe.pid_value is Some <==> pid_exists && pid_text is Some,
        probe.pid_value matches Some(value) ==> value@ == trimmed@,
{
}

/// The daemon runs where there are both its PID file and its socket. Where one
/// is missing it is offline, and where the probe failed nothing is known.
pub proof fn daemon_runs_with_both_files(
    result: &Result<DaemonProbe, String>,
    health: DaemonHealth,
)
    requires
        call_ensures(DaemonHealth::classify, (result,), health),
    ensures
        health is Running <==> (result matches Ok(probe) && probe.pid_exists
            && probe.socket_exists),
        health is Unavailable <==> result is Err,
{
}

/// A running daemon is shown with its process; the health shows in the words
/// and in the colour.
pub proof fn health_is_shown(
    health: DaemonHealth,
    probe: Option<&DaemonProbe>,
    label: String,
    tone: Tone,
)
    requires
        call_ensures(DaemonHealth::label, (health, probe), label),
        call_ensures(DaemonHealth::style, (health,), tone),
    ensures
        health is Running ==> label@ == "● running (pid "@ + (if probe is Some
            && probe->0.pid_value is Some {
            probe->0.pid_value->0@
        } else {
            "?"@
        }) + ")"@,
        health is Offline ==> label@ == "○ offline"@,
        health is Unavailable ==> label@ == "⚠ unavailable"@,
        tone is Green <==> health is Running,
        tone is DarkGray <==> health is Offline,
        tone is Yellow <==> health is Unavailable,
{
}

// ── Leases ──────────────────────────────────────────────────────────────

/// An active lease is shown as active, in green, and any other as pending, in
/// yellow.
pub proof fn active_leases_are_shown_as_active(
    state: &LeaseState,
    display: LeaseDisplay,
    label: &'static str,
    tone: Tone,
)
    requires
        call_ensures(LeaseDisplay::from_state, (state,), display),
        call_ensures(LeaseDisplay::label, (display,), label),
        call_ensures(LeaseDisplay::style, (display,), tone),
    ensures
        *state is Active ==> label@ == "● active"@ && tone is Green,
        !(*state is Active) ==> label@ == "◌ pending"@ && tone is Yellow,
{
}

/// Whether the row shows the lease, with its project cut to the given text.
pub open spec fn is_row_of(row: LeaseRow, lease: Lease, project: Seq<char>) -> bool {
    &&& row.port@ == decimal::decimal(lease.port as nat)
    &&& lease.state is Active ==> row.state@ == "● active"@ && row.tone is Green
    &&& !(lease.state is Active) ==> row.state@ == "◌ pending"@ && row.tone is Yellow
    &&& row.service == lease.service_name
    &&& lease.client_pid matches Some(pid) ==> row.pid@ == decimal::decimal(pid as nat)
    &&& lease.client_pid is None ==> row.pid@ == "-"@
    &&& row.project@ == project
}

/// Every lease has its row, in the order of the leases. The project is cut to
/// thirty-six bytes.
pub proof fn every_lease_has_its_row(
    leases: &[Lease],
    rows: Vec<LeaseRow>,
    i: int,
    path: &str,
    short: String,
)
    requires
        call_ensures(dashboard::lease_rows, (leases,), rows),
        0 <= i < leases@.len(),
        path@ == leases@[i].project_path@,
        call_ensures(text::shorten, (path, 36usize), short),
    ensures
        rows@.len() == leases@.len(),
        is_row_of(rows@[i], leases@[i], short@),
{
    assert(dashboard::shows_lease(rows@[i], leases@[i]));
}

/// The pane of the leases shows every lease, and says where there is none.
pub proof fn lease_pane_shows_every_lease(
    leases: &[Lease],
    pane: LeasePane,
    i: int,
    path: &str,
    short: String,
)
    requires
        call_ensures(dashboard::lease_pane, (leases,), pane),
        0 <= i < leases@.len() ==> path@ == leases@[i].project_path@,
        call_ensures(text::shorten, (path, 36usize), short),
    ensures
        leases@.len() == 0 ==> (pane matches LeasePane::Empty(text) && text@
            == "No active leases"@),
        0 <= i < leases@.len() ==> (pane matches LeasePane::Rows(rows) && rows@.len()
            == leases@.len() && is_row_of(rows@[i], leases@[i], short@)),
{
    if 0 <= i < leases@.len() {
        assert(dashboard::shows_lease(pane->Rows_0@[i], leases@[i]));
    }
}

// ── Listeners ───────────────────────────────────────────────────────────

/// A listener is managed exactly where a lease is on its port, for its
/// protocol.
pub proof fn listener_belongs_to_its_lease(
    listener: &PortProcess,
    leases: &[Lease],
    ownership: ListenerOwnership,
    tag: &'static str,
    tone: Tone,
)
    requires
        call_ensures(ListenerOwnership::classify, (listener, leases), ownership),
        call_ensures(ListenerOwnership::tag, (ownership,), tag),
        call_ensures(ListenerOwnership::style, (ownership,), tone),
    ensures
        ownership is Managed <==> exists|i: int|
            0 <= i < leases@.len() && (#[trigger] leases@[i]).port == listener.port
                && leases@[i].protocol == listener.protocol,
        ownership is Managed ==> tag@ == "[managed]"@ && tone is Cyan,
        ownership is Unmanaged ==> tag@ == "[unmanaged]"@ && tone is DarkGray,
{
}

/// Whether the row shows the listener, with its command cut to the given text.
pub open spec fn is_listener_row_of(
    row: ListenerRow,
    listener: PortProcess,
    leases: Seq<Lease>,
    command: Seq<char>,
) -> bool {
    let managed = exists|i: int|
        0 <= i < leases.len() && (#[trigger] leases[i]).port == listener.port && leases[i].protocol
            == listener.protocol;
    &&& row.port@ == decimal::decimal(listener.port as nat)
    &&& row.pid@ == decimal::decimal(listener.pid as nat)
    &&& row.protocol@ == printing::small_protocol(listener.protocol)
    &&& managed ==> row.owner@ == "[managed]"@ && row.tone is Cyan
    &&& !managed ==> row.owner@ == "[unmanaged]"@ && row.tone is DarkGray
    &&& row.command@ == command
}

/// Every one of the first twelve listeners has its row. The command is cut to
/// forty bytes.
pub proof fn first_listeners_have_their_rows(
    listeners: &[PortProcess],
    leases: &[Lease],
    rows: Vec<ListenerRow>,
    i: int,
    command: &str,
    short: String,
)
    requires
        call_ensures(dashboard::listener_rows, (listeners, leases), rows),
        0 <= i < listeners@.len(),
        i < 12,
        command@ == listeners@[i].command@,
        call_ensures(text::shorten, (command, 40usize), short),
    ensures
        rows@.len() <= 12,
        rows@.len() <= listeners@.len(),
        i < rows@.len(),
        is_listener_row_of(rows@[i], listeners@[i], leases@, short@),
{
    assert(dashboard::shows_listener(rows@[i], listeners@[i], leases@));
    printing::lemma_protocols(listeners@[i].protocol);
}

/// The pane of the listeners shows the first twelve of them, and says where
/// there is none.
pub proof fn listener_pane_shows_the_first_listeners(
    listeners: &[PortProcess],
    leases: &[Lease],
    pane: ListenerPane,
    i: int,
    command: &str,
    short: String,
)
    requires
        call_ensures(dashboard::listener_pane, (listeners, leases), pane),
        0 <= i < listeners@.len() ==> command@ == listeners@[i].command@,
        call_ensures(text::shorten, (command, 40usize), short),
    ensures
        listeners@.len() == 0 ==> (pane matches ListenerPane::Empty(text) && text@
            == "No listeners detected"@),
        0 <= i < listeners@.len() && i < 12 ==> (pane matches ListenerPane::Rows(rows) && i
            < rows@.len() && rows@.len() <= 12 && is_listener_row_of(
            rows@[i],
            listeners@[i],
            leases@,
            short@,
        )),
{
    if 0 <= i < listeners@.len() && i < 12 {
        assert(dashboard::shows_listener(pane->Rows_0@[i], listeners@[i], leases@));
        printing::lemma_protocols(listeners@[i].protocol);
    }
}

// ── The whole ───────────────────────────────────────────────────────────

/// A snapshot holds what could be loaded. What could not is empty, and the
/// error is kept, behind the name of what failed; there is no error where
/// nothing failed.
pub proof fn snapshot_holds_what_was_loaded(
    registry_path: Result<String, String>,
    daemon_probe: Result<DaemonProbe, String>,
    leases: Result<Vec<Lease>, String>,
    listeners: Result<Vec<PortProcess>, String>,
    snapshot: DashboardSnapshot,
)
    requires
        call_ensures(
            DashboardSnapshot::assemble,
            (registry_path, daemon_probe, leases, listeners),
            snapshot,
        ),
    ensures
        snapshot.daemon_probe == daemon_probe,
        leases matches Ok(found) ==> snapshot.leases == found,
        leases is Err ==> snapshot.leases@.len() == 0,
        listeners matches Ok(found) ==> snapshot.listeners == found,
        listeners is Err ==> snapshot.listeners@.len() == 0,
        registry_path matches Ok(path) ==> snapshot.registry_path@ == path@,
        registry_path matches Err(error) ==> snapshot.registry_path@ == "unavailable ("@ + error@
            + ")"@,
        snapshot.error is None <==> leases is Ok && listeners is Ok,
        leases is Err && listeners is Ok ==> snapshot.error is Some && snapshot.error->0@
            == "registry: "@ + leases->Err_0@,
        leases is Ok && listeners is Err ==> snapshot.error is Some && snapshot.error->0@
            == "scan: "@ + listeners->Err_0@,
        leases is Err && listeners is Err ==> snapshot.error is Some && snapshot.error->0@
            == "registry: "@ + leases->Err_0@ + " | "@ + "scan: "@ + listeners->Err_0@,
{
}

/// The status pane shows the daemon's health in its words and its colour, the
/// numbers of leases and of listeners, the registry's path and the error where
/// there is one.
pub proof fn status_pane_shows_the_snapshot(
    snapshot: &DashboardSnapshot,
    lines: Vec<Vec<StyledText>>,
    health: DaemonHealth,
    probe: Option<&DaemonProbe>,
    label: String,
    tone: Tone,
)
    requires
        call_ensures(dashboard::status_lines, (snapshot,), lines),
        call_ensures(DaemonHealth::classify, (&snapshot.daemon_probe,), health),
        snapshot.daemon_probe matches Ok(found) ==> probe == Some(&found),
        snapshot.daemon_probe is Err ==> probe is None,
        call_ensures(DaemonHealth::label, (health, probe), label),
        call_ensures(DaemonHealth::style, (health,), tone),
    ensures
        lines@.len() == if snapshot.error is Some {
            5int
        } else {
            4int
        },
        lines@[0]@.len() == 2,
        lines@[0]@[0].text@ == "Portus Dashboard"@,
        lines@[1]@.len() == 2,
        lines@[1]@[0].text@ == "Daemon: "@,
        lines@[1]@[1].text@ == label@,
        lines@[1]@[1].tone == Some(tone),
        lines@[2]@.len() == 4,
        lines@[2]@[0].text@ == "Leases: "@,
        lines@[2]@[1].text@ == decimal::decimal(snapshot.leases@.len()),
        lines@[2]@[2].text@ == "  Listeners: "@,
        lines@[2]@[3].text@ == decimal::decimal(snapshot.listeners@.len()),
        lines@[3]@.len() == 2,
        lines@[3]@[0].text@ == "Registry: "@,
        lines@[3]@[1].text@ == snapshot.registry_path@,
        snapshot.error matches Some(error) ==> lines@[4]@.len() == 2 && lines@[4]@[1].text@
            == error@ && lines@[4]@[1].tone == Some(Tone::Yellow),
{
    let shown = lines@.map_values(|line: Vec<StyledText>| dashboard::line_view(line@));
    assert(shown.len() == lines@.len());
    lemma_line(lines@, 0);
    lemma_line(lines@, 1);
    lemma_line(lines@, 2);
    lemma_line(lines@, 3);
    if snapshot.error is Some {
        lemma_line(lines@, 4);
    }
}

proof fn lemma_line(lines: Seq<Vec<StyledText>>, i: int)
    requires
        0 <= i < lines.len(),
    ensures
        ({
            let shown = lines.map_values(|line: Vec<StyledText>| dashboard::line_view(line@));
            &&& shown[i].len() == lines[i]@.len()
            &&& forall|j: int|
                0 <= j < lines[i]@.len() ==> (#[trigger] lines[i]@[j]).text@ == shown[i][j].text
                    && lines[i]@[j].tone == shown[i][j].tone && lines[i]@[j].bold
                    == shown[i][j].bold
        }),
{
    let line = dashboard::line_view(lines[i]@);
    assert forall|j: int| 0 <= j < lines[i]@.len() implies (#[trigger] lines[i]@[j]).text@
        == line[j].text && lines[i]@[j].tone == line[j].tone && lines[i]@[j].bold
        == line[j].bold by {
        assert(line[j] == lines[i]@[j]@);
    }
}

/// The dashboard ends with `q` or escape, and only then. It loads anew with `r`
/// or after a second without an event, and only then.
pub proof fn keys_do_what_they_are_for(event: TerminalEvent, step: DashboardStep)
    requires
        call_ensures(dashboard::dashboard_step, (event,), step),
    ensures
        step is Quit <==> event == TerminalEvent::Typed('q') || event is Escape,
        step is Reload <==> event == TerminalEvent::Typed('r') || event is Nothing,
{
}

} // verus!
