//! What the command line client prints.
use vstd::prelude::*;
use vstd::string::StringExecFns;
use crate::cli;
use crate::cli::{Availability, ScanRow};
use crate::client::DaemonStatus;
use crate::clock;
use crate::decimal;
use crate::model;
use crate::model::Lease;
use crate::scan;
use crate::scan::PortProcess;
use crate::text;

verus! {

// ── Tables ──────────────────────────────────────────────────────────────

/// A row of a table: the cells, each filled up to its width, with a space
/// between them.
pub open spec fn row_text(cells: Seq<Seq<char>>, widths: Seq<nat>) -> Seq<char>
    decreases cells.len(),
{
    if cells.len() == 0 {
        seq![]
    } else if cells.len() == 1 {
        text::padded(cells[0], widths[0])
    } else {
        row_text(cells.drop_last(), widths) + " "@ + text::padded(
            cells.last(),
            widths[cells.len() - 1],
        )
    }
}

/// Writes a row of a table.
fn table_row(cells: Vec<String>, widths: &[usize]) -> (row: String)
    requires
        cells@.len() == widths@.len(),
    ensures
        row@ == row_text(
            text::strings(cells@),
            widths@.map_values(|width: usize| width as nat),
        ),
{
    let ghost all = text::strings(cells@);
    let ghost sizes = widths@.map_values(|width: usize| width as nat);
    let mut row = String::new();
    let mut i: usize = 0;
    assert(all.take(0) =~= seq![]);
    assert(row@ =~= row_text(all.take(0), sizes));
    while i < cells.len()
        invariant
            i <= cells.len(),
            cells@.len() == widths@.len(),
            all == text::strings(cells@),
            sizes == widths@.map_values(|width: usize| width as nat),
            row@ == row_text(all.take(i as int), sizes),
        decreases cells.len() - i,
    {
        let ghost before = row@;
        assert(all.take(i + 1).drop_last() =~= all.take(i as int));
        assert(all.take(i + 1).last() == cells@[i as int]@);
        if i > 0 {
            row.append(" ");
        }
        row.append(text::pad(cells[i].as_str(), widths[i]).as_str());
        assert(row@ =~= row_text(all.take(i + 1), sizes));
        i += 1;
    }
    assert(all.take(all.len() as int) =~= all);
    row
}

/// Writes a number.
fn number(n: u64) -> (text: String)
    ensures
        text@ == decimal::decimal(n as nat),
{
    decimal::decimal_text(n)
}

/// One of the tables that the client prints.
#[derive(Debug, Clone, Copy, PartialEq, Eq, Structural)]
pub enum Table {
    Leases,
    Scan,
}

/// The widths of the columns of a table.
pub open spec fn widths_of(table: Table) -> Seq<nat> {
    match table {
        Table::Leases => seq![8, 12, 20, 10, 0],
        Table::Scan => seq![8, 8, 8, 14, 12, 0],
    }
}

fn widths(table: Table) -> (widths: Vec<usize>)
    ensures
        widths@.map_values(|width: usize| width as nat) == widths_of(table),
{
    let widths: Vec<usize> = match table {
        Table::Leases => vec![8, 12, 20, 10, 0],
        Table::Scan => vec![8, 8, 8, 14, 12, 0],
    };
    assert(widths@.map_values(|width: usize| width as nat) =~= widths_of(table));
    widths
}

// ── Leases ──────────────────────────────────────────────────────────────

/// How many bytes of a project path the lease table shows.
pub const PROJECT_WIDTH: usize = 18;

/// The row of a lease.
pub open spec fn lease_cells(lease: Lease) -> Seq<Seq<char>> {
    seq![
        decimal::decimal(lease.port as nat),
        lease.service_name@,
        text::shortened(lease.project_path@, PROJECT_WIDTH as int),
        model::state_label(lease.state),
        model::protocol_name(lease.protocol),
    ]
}

/// The heading of the lease table.
pub open spec fn lease_heading() -> Seq<char> {
    row_text(
        seq!["PORT"@, "SERVICE"@, "PROJECT"@, "STATE"@, "PROTOCOL"@],
        seq![8, 12, 20, 10, 10],
    )
}

/// What is printed for a list of leases.
pub open spec fn list_text(leases: Seq<Lease>) -> Seq<Seq<char>> {
    if leases.len() == 0 {
        seq!["No active port allocations."@]
    } else {
        seq![lease_heading(), text::repeated('-', 60)] + leases.map_values(
            |lease: Lease| row_text(lease_cells(lease), widths_of(Table::Leases)),
        ) + seq![seq![], decimal::decimal(leases.len()) + " allocation(s)"@]
    }
}

fn lease_row(lease: &Lease) -> (row: String)
    requires
        text::can_be_shortened(lease.project_path@, PROJECT_WIDTH as int),
    ensures
        row@ == row_text(lease_cells(*lease), widths_of(Table::Leases)),
{
    let mut cells: Vec<String> = Vec::new();
    cells.push(number(lease.port as u64));
    cells.push(lease.service_name.clone());
    cells.push(text::shorten(lease.project_path.as_str(), PROJECT_WIDTH));
    cells.push(lease.state.label().to_owned());
    cells.push(lease.protocol.name().to_owned());
    assert(text::strings(cells@) =~= lease_cells(*lease));
    let widths = widths(Table::Leases);
    assert(widths@.map_values(|width: usize| width as nat).len() == 5);
    table_row(cells, &widths)
}

fn lease_table_heading() -> (row: String)
    ensures
        row@ == lease_heading(),
{
    let mut cells: Vec<String> = Vec::new();
    cells.push("PORT".to_owned());
    cells.push("SERVICE".to_owned());
    cells.push("PROJECT".to_owned());
    cells.push("STATE".to_owned());
    cells.push("PROTOCOL".to_owned());
    assert(text::strings(cells@) =~= seq![
        "PORT"@,
        "SERVICE"@,
        "PROJECT"@,
        "STATE"@,
        "PROTOCOL"@,
    ]);
    let widths: Vec<usize> = vec![8, 12, 20, 10, 10];
    assert(widths@.map_values(|width: usize| width as nat) =~= seq![8, 12, 20, 10, 10]);
    table_row(cells, &widths)
}

/// What is printed for a list of leases.
pub fn list_lines(leases: &[Lease]) -> (lines: Vec<String>)
    requires
        forall|i: int|
            0 <= i < leases@.len() ==> text::can_be_shortened(
                (#[trigger] leases@[i]).project_path@,
                PROJECT_WIDTH as int,
            ),
    ensures
        text::strings(lines@) == list_text(leases@),
{
    let mut lines: Vec<String> = Vec::new();
    if leases.len() == 0 {
        lines.push("No active port allocations.".to_owned());
        assert(text::strings(lines@) =~= list_text(leases@));
        return lines;
    }
    let ghost row = |lease: Lease| row_text(lease_cells(lease), widths_of(Table::Leases));
    let ghost top = seq![lease_heading(), text::repeated('-', 60)];
    lines.push(lease_table_heading());
    lines.push(text::repeat_char('-', 60));
    let mut i: usize = 0;
    assert(text::strings(lines@) =~= top + leases@.take(0).map_values(row));
    while i < leases.len()
        invariant
            i <= leases.len(),
            row == |lease: Lease| row_text(lease_cells(lease), widths_of(Table::Leases)),
            forall|k: int|
                0 <= k < leases@.len() ==> text::can_be_shortened(
                    (#[trigger] leases@[k]).project_path@,
                    PROJECT_WIDTH as int,
                ),
            text::strings(lines@) == top + leases@.take(i as int).map_values(row),
        decreases leases.len() - i,
    {
        let ghost before = text::strings(lines@);
        let line = lease_row(&leases[i]);
        lines.push(line);
        assert(text::strings(lines@) =~= before.push(line@));
        assert(leases@.take(i + 1).map_values(row) =~= leases@.take(i as int).map_values(row).push(
            row(leases@[i as int]),
        ));
        i += 1;
    }
    assert(leases@.take(leases@.len() as int) =~= leases@);
    let ghost table = text::strings(lines@);
    let mut total = number(leases.len() as u64);
    total.append(" allocation(s)");
    lines.push(String::new());
    lines.push(total);
    assert(text::strings(lines@) =~= list_text(leases@)) by {
        assert(text::strings(lines@) =~= table.push(lines@[lines@.len() - 2]@).push(total@));
        assert(lines@[lines@.len() - 2]@ =~= seq![]);
    }
    lines
}

/// What is printed for a port that was allocated.
pub open spec fn allocation_text(
    lease: Lease,
    requested_port: Option<u16>,
    expires: Seq<char>,
) -> Seq<Seq<char>> {
    seq![
        allocated_text(lease.port, lease.service_name@),
        "  Lease ID: "@ + lease.lease_id@,
        "  Token:    "@ + lease.session_token@,
        "  Expires:  "@ + expires,
    ] + (if requested_port is Some && requested_port != Some(lease.port) {
        seq!["  Reassigned from requested port "@ + decimal::decimal(requested_port->0 as nat)]
    } else {
        seq![]
    }) + seq![
        seq![],
        "  Confirm after binding:  portus confirm --lease-id "@ + lease.lease_id@ + " --token "@
            + lease.session_token@,
    ]
}

/// The line for a port that was allocated.
pub open spec fn allocated_text(port: u16, service: Seq<char>) -> Seq<char> {
    "✓ Allocated port "@ + decimal::decimal(port as nat) + " for service '"@ + service + "'"@
}

fn labelled(label: &str, value: &str) -> (line: String)
    ensures
        line@ == label@ + value@,
{
    let mut line = label.to_owned();
    line.append(value);
    line
}

fn port_line(start: &str, port: u16, service: &str) -> (line: String)
    ensures
        line@ == start@ + decimal::decimal(port as nat) + " for service '"@ + service@ + "'"@,
{
    let mut line = labelled(start, number(port as u64).as_str());
    line.append(" for service '");
    line.append(service);
    line.append("'");
    line
}

/// What is printed for a port that was allocated, with the expiry written out.
pub fn allocation_lines_with(lease: &Lease, requested_port: Option<u16>, expires: &str) -> (lines:
    Vec<String>)
    ensures
        text::strings(lines@) == allocation_text(*lease, requested_port, expires@),
{
    let mut lines: Vec<String> = Vec::new();
    lines.push(port_line("✓ Allocated port ", lease.port, lease.service_name.as_str()));
    lines.push(labelled("  Lease ID: ", lease.lease_id.as_str()));
    lines.push(labelled("  Token:    ", lease.session_token.as_str()));
    lines.push(labelled("  Expires:  ", expires));
    if let Some(requested) = requested_port {
        if requested != lease.port {
            lines.push(
                labelled("  Reassigned from requested port ", number(requested as u64).as_str()),
            );
        }
    }
    lines.push(String::new());
    let mut hint = labelled(
        "  Confirm after binding:  portus confirm --lease-id ",
        lease.lease_id.as_str(),
    );
    hint.append(" --token ");
    hint.append(lease.session_token.as_str());
    lines.push(hint);
    assert(text::strings(lines@) =~~= allocation_text(*lease, requested_port, expires@));
    lines
}

/// What is printed for a port that was allocated.
pub fn allocation_lines(lease: &Lease, requested_port: Option<u16>) -> (lines: Vec<String>)
    requires
        clock::representable(lease.expires_at),
    ensures
        text::strings(lines@) == allocation_text(
            *lease,
            requested_port,
            clock::display_text(lease.expires_at.secs, lease.expires_at.nanos),
        ),
{
    let expires = lease.expires_at.display().unwrap();
    allocation_lines_with(lease, requested_port, expires.as_str())
}

/// What is printed for a lease that was confirmed.
pub fn confirmed_line(lease_id: &str) -> (line: String)
    ensures
        line@ == "✓ Lease "@ + lease_id@ + " confirmed"@,
{
    let mut line = labelled("✓ Lease ", lease_id);
    line.append(" confirmed");
    line
}

/// What is printed for a lease that was released.
pub fn released_line(lease_id: &str) -> (line: String)
    ensures
        line@ == "✓ Lease "@ + lease_id@ + " released"@,
{
    let mut line = labelled("✓ Lease ", lease_id);
    line.append(" released");
    line
}

/// What is printed of the availability of a port.
pub fn availability_line(port: u16, answer: &Availability) -> (line: String)
    requires
        !answer.available ==> answer.reason is Some,
    ensures
        line@ == if answer.available {
            "Port "@ + decimal::decimal(port as nat) + " is available"@
        } else {
            "Port "@ + decimal::decimal(port as nat) + " is not available: "@
                + answer.reason->Some_0@
        },
{
    let mut line = labelled("Port ", number(port as u64).as_str());
    if answer.available {
        line.append(" is available");
    } else {
        line.append(" is not available: ");
        if let Some(reason) = &answer.reason {
            line.append(reason.as_str());
        }
    }
    line
}

// ── Running a command ───────────────────────────────────────────────────

/// What `run` prints once it has a port.
pub fn run_started_lines(port: u16, requested_port: Option<u16>, service: &str) -> (lines: Vec<
    String,
>)
    ensures
        text::strings(lines@) == if requested_port is Some && requested_port != Some(port) {
            seq![
                allocated_text(port, service@),
                "✓ Reassigned requested port "@ + decimal::decimal(requested_port->0 as nat)
                    + " to "@ + decimal::decimal(port as nat),
            ]
        } else {
            seq![allocated_text(port, service@)]
        },
{
    let mut lines: Vec<String> = Vec::new();
    lines.push(port_line("✓ Allocated port ", port, service));
    if let Some(requested) = requested_port {
        if requested != port {
            let mut line = labelled(
                "✓ Reassigned requested port ",
                number(requested as u64).as_str(),
            );
            line.append(" to ");
            line.append(number(port as u64).as_str());
            lines.push(line);
            assert(text::strings(lines@) =~= seq![lines@[0]@, lines@[1]@]);
            return lines;
        }
    }
    assert(text::strings(lines@) =~= seq![lines@[0]@]);
    lines
}

/// What `run` prints once its child has bound the port.
pub fn run_confirmed_line(port: u16, service: &str) -> (line: String)
    ensures
        line@ == "✓ Confirmed port "@ + decimal::decimal(port as nat) + " for service '"@ + service@
            + "'"@,
{
    port_line("✓ Confirmed port ", port, service)
}

/// What `run` prints at its end.
pub fn run_released_line(port: u16, service: &str) -> (line: String)
    ensures
        line@ == "✓ Released port "@ + decimal::decimal(port as nat) + " for service '"@ + service@
            + "'"@,
{
    port_line("✓ Released port ", port, service)
}

// ── The daemon ──────────────────────────────────────────────────────────

/// What is printed of the daemon's status.
pub fn status_lines(status: &DaemonStatus) -> (lines: Vec<String>)
    ensures
        text::strings(lines@) == seq![
            "Portus Daemon"@,
            "  PID:           "@ + decimal::decimal(status.pid as nat),
            "  Uptime:        "@ + decimal::decimal(status.uptime_secs as nat) + "s"@,
            "  Active leases: "@ + decimal::decimal(status.active_leases as nat),
            "  Socket:        "@ + status.socket_path@,
        ],
{
    let mut lines: Vec<String> = Vec::new();
    lines.push("Portus Daemon".to_owned());
    lines.push(labelled("  PID:           ", number(status.pid as u64).as_str()));
    let mut uptime = labelled("  Uptime:        ", number(status.uptime_secs).as_str());
    uptime.append("s");
    lines.push(uptime);
    lines.push(labelled("  Active leases: ", number(status.active_leases as u64).as_str()));
    lines.push(labelled("  Socket:        ", status.socket_path.as_str()));
    assert(text::strings(lines@) =~= seq![
        lines@[0]@,
        lines@[1]@,
        lines@[2]@,
        lines@[3]@,
        lines@[4]@,
    ]);
    lines
}

/// What is printed of whether the daemon runs.
pub fn running_line(status: &Option<DaemonStatus>) -> (line: String)
    ensures
        line@ == match status {
            Some(status) => "✓ Daemon running (PID "@ + decimal::decimal(status.pid as nat)
                + ", uptime "@ + decimal::decimal(status.uptime_secs as nat) + "s, "@
                + decimal::decimal(status.active_leases as nat) + " active leases)"@,
            None => "✗ Daemon is not running"@,
        },
{
    match status {
        Some(status) => {
            let mut line = labelled("✓ Daemon running (PID ", number(status.pid as u64).as_str());
            line.append(", uptime ");
            line.append(number(status.uptime_secs).as_str());
            line.append("s, ");
            line.append(number(status.active_leases as u64).as_str());
            line.append(" active leases)");
            line
        },
        None => "✗ Daemon is not running".to_owned(),
    }
}

// ── Listeners ───────────────────────────────────────────────────────────

/// Whether the project path of the row can be shown in the scan table.
pub open spec fn row_fits(row: ScanRow) -> bool {
    row.managed ==> (row.project matches Some(project) ==> text::can_be_shortened(
        project@,
        cli::PROJECT_WIDTH as int,
    ))
}

/// The row of a listener.
pub open spec fn scan_cells(row: ScanRow) -> Seq<Seq<char>> {
    seq![
        decimal::decimal(row.port as nat),
        decimal::decimal(row.pid as nat),
        model::protocol_label(row.protocol),
        if row.managed {
            match row.project {
                Some(project) => text::shortened(project@, cli::PROJECT_WIDTH as int),
                None => "yes"@,
            }
        } else {
            "no"@
        },
        match row.service {
            Some(service) => service@,
            None => "-"@,
        },
        row.command@,
    ]
}

/// The heading of the scan table.
pub open spec fn scan_heading() -> Seq<char> {
    row_text(
        seq!["PORT"@, "PID"@, "PROTO"@, "MANAGED"@, "SERVICE"@, "COMMAND"@],
        widths_of(Table::Scan),
    )
}

/// What is printed for a scan, of one port or of all.
pub open spec fn scan_text(rows: Seq<ScanRow>, port: Option<u16>) -> Seq<Seq<char>> {
    if rows.len() == 0 {
        match port {
            Some(port) => seq![
                "No listeners found on port "@ + decimal::decimal(port as nat) + "."@,
            ],
            None => seq!["No listeners found."@],
        }
    } else {
        seq![scan_heading(), text::repeated('-', 72)] + rows.map_values(
            |row: ScanRow| row_text(scan_cells(row), widths_of(Table::Scan)),
        )
    }
}

fn scan_row(row: &ScanRow) -> (line: String)
    requires
        row_fits(*row),
    ensures
        line@ == row_text(scan_cells(*row), widths_of(Table::Scan)),
{
    let mut cells: Vec<String> = Vec::new();
    cells.push(number(row.port as u64));
    cells.push(number(row.pid as u64));
    cells.push(row.protocol.label().to_owned());
    cells.push(
        if row.managed {
            match &row.project {
                Some(project) => cli::shorten_project(project.as_str()),
                None => "yes".to_owned(),
            }
        } else {
            "no".to_owned()
        },
    );
    cells.push(
        match &row.service {
            Some(service) => service.clone(),
            None => "-".to_owned(),
        },
    );
    cells.push(row.command.clone());
    assert(text::strings(cells@) =~= scan_cells(*row));
    let widths = widths(Table::Scan);
    assert(widths@.map_values(|width: usize| width as nat).len() == 6);
    table_row(cells, &widths)
}

fn scan_table_heading() -> (row: String)
    ensures
        row@ == scan_heading(),
{
    let mut cells: Vec<String> = Vec::new();
    cells.push("PORT".to_owned());
    cells.push("PID".to_owned());
    cells.push("PROTO".to_owned());
    cells.push("MANAGED".to_owned());
    cells.push("SERVICE".to_owned());
    cells.push("COMMAND".to_owned());
    assert(text::strings(cells@) =~= seq![
        "PORT"@,
        "PID"@,
        "PROTO"@,
        "MANAGED"@,
        "SERVICE"@,
        "COMMAND"@,
    ]);
    let widths = widths(Table::Scan);
    assert(widths@.map_values(|width: usize| width as nat).len() == 6);
    table_row(cells, &widths)
}

/// What is printed for a scan, of one port or of all.
pub fn scan_lines(rows: &[ScanRow], port: Option<u16>) -> (lines: Vec<String>)
    requires
        forall|i: int| 0 <= i < rows@.len() ==> row_fits(#[trigger] rows@[i]),
    ensures
        text::strings(lines@) == scan_text(rows@, port),
{
    let mut lines: Vec<String> = Vec::new();
    if rows.len() == 0 {
        match port {
            Some(port) => {
                let mut line = labelled(
                    "No listeners found on port ",
                    number(port as u64).as_str(),
                );
                line.append(".");
                lines.push(line);
            },
            None => {
                lines.push("No listeners found.".to_owned());
            },
        }
        assert(text::strings(lines@) =~= scan_text(rows@, port));
        return lines;
    }
    let ghost row = |row: ScanRow| row_text(scan_cells(row), widths_of(Table::Scan));
    let ghost top = seq![scan_heading(), text::repeated('-', 72)];
    lines.push(scan_table_heading());
    lines.push(text::repeat_char('-', 72));
    let mut i: usize = 0;
    assert(text::strings(lines@) =~= top + rows@.take(0).map_values(row));
    while i < rows.len()
        invariant
            i <= rows.len(),
            row == |row: ScanRow| row_text(scan_cells(row), widths_of(Table::Scan)),
            forall|k: int| 0 <= k < rows@.len() ==> row_fits(#[trigger] rows@[k]),
            text::strings(lines@) == top + rows@.take(i as int).map_values(row),
        decreases rows.len() - i,
    {
        let ghost before = text::strings(lines@);
        let line = scan_row(&rows[i]);
        lines.push(line);
        assert(text::strings(lines@) =~= before.push(line@));
        assert(rows@.take(i + 1).map_values(row) =~= rows@.take(i as int).map_values(row).push(
            row(rows@[i as int]),
        ));
        i += 1;
    }
    assert(rows@.take(rows@.len() as int) =~= rows@);
    lines
}

/// Whose a listener is, in words.
pub open spec fn owner_text(row: ScanRow) -> Seq<char> {
    if row.managed {
        "managed by "@ + match row.project {
            Some(project) => project@,
            None => "unknown-project"@,
        } + ":"@ + match row.service {
            Some(service) => service@,
            None => "unknown-service"@,
        }
    } else {
        "unmanaged"@
    }
}

/// The line for a process that is ended, or would be.
pub open spec fn process_text(start: Seq<char>, row: ScanRow) -> Seq<char> {
    start + "pid="@ + decimal::decimal(row.pid as nat) + " proto="@ + model::protocol_name(
        row.protocol,
    ) + " cmd="@ + row.command@ + " ("@ + owner_text(row) + ")"@
}

/// What `kill` prints: what it would do on a dry run, and what it did.
pub open spec fn kill_text(first: Seq<char>, start: Seq<char>, rows: Seq<ScanRow>) -> Seq<
    Seq<char>,
> {
    seq![first] + rows.map_values(|row: ScanRow| process_text(start, row))
}

fn process_line(start: &str, row: &ScanRow) -> (line: String)
    ensures
        line@ == process_text(start@, *row),
{
    let mut line = labelled(start, "pid=");
    line.append(number(row.pid as u64).as_str());
    line.append(" proto=");
    line.append(row.protocol.name());
    line.append(" cmd=");
    line.append(row.command.as_str());
    line.append(" (");
    let ghost before = line@;
    if row.managed {
        line.append("managed by ");
        match &row.project {
            Some(project) => line.append(project.as_str()),
            None => line.append("unknown-project"),
        }
        line.append(":");
        match &row.service {
            Some(service) => line.append(service.as_str()),
            None => line.append("unknown-service"),
        }
    } else {
        line.append("unmanaged");
    }
    assert(line@ =~= before + owner_text(*row));
    line.append(")");
    line
}

fn process_lines(first: String, start: &str, rows: &[ScanRow]) -> (lines: Vec<String>)
    ensures
        text::strings(lines@) == kill_text(first@, start@, rows@),
{
    let ghost text_of_row = |row: ScanRow| process_text(start@, row);
    let mut lines: Vec<String> = Vec::new();
    lines.push(first);
    let mut i: usize = 0;
    assert(text::strings(lines@) =~= seq![first@] + rows@.take(0).map_values(text_of_row));
    while i < rows.len()
        invariant
            i <= rows.len(),
            text_of_row == |row: ScanRow| process_text(start@, row),
            text::strings(lines@) == seq![first@] + rows@.take(i as int).map_values(text_of_row),
        decreases rows.len() - i,
    {
        let ghost before = text::strings(lines@);
        let line = process_line(start, &rows[i]);
        lines.push(line);
        assert(text::strings(lines@) =~= before.push(line@));
        assert(rows@.take(i + 1).map_values(text_of_row) =~= rows@.take(i as int).map_values(
            text_of_row,
        ).push(text_of_row(rows@[i as int])));
        i += 1;
    }
    assert(rows@.take(rows@.len() as int) =~= rows@);
    lines
}

/// What `kill` prints on a dry run.
pub fn kill_preview_lines(port: u16, signal: &str, rows: &[ScanRow]) -> (lines: Vec<String>)
    ensures
        text::strings(lines@) == kill_text(
            "Would kill "@ + decimal::decimal(rows@.len()) + " process(es) on port "@
                + decimal::decimal(port as nat) + " with "@ + signal@ + ":"@,
            "  Would kill: "@,
            rows@,
        ),
{
    let mut first = labelled("Would kill ", number(rows.len() as u64).as_str());
    first.append(" process(es) on port ");
    first.append(number(port as u64).as_str());
    first.append(" with ");
    first.append(signal);
    first.append(":");
    process_lines(first, "  Would kill: ", rows)
}

/// What `kill` prints once the processes are told to end.
pub fn killed_lines(port: u16, signal: &str, killed: &[PortProcess], rows: &[ScanRow]) -> (lines:
    Vec<String>)
    ensures
        text::strings(lines@) == kill_text(
            "✓ Sent "@ + signal@ + " to "@ + decimal::decimal(scan::distinct_pids(killed@).len())
                + " process(es) on port "@ + decimal::decimal(port as nat),
            "  "@,
            rows@,
        ),
{
    let mut first = labelled("✓ Sent ", signal);
    first.append(" to ");
    first.append(number(cli::unique_pid_count(killed) as u64).as_str());
    first.append(" process(es) on port ");
    first.append(number(port as u64).as_str());
    process_lines(first, "  ", rows)
}

} // verus!
