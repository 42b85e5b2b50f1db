//! What the command line client prints.
use vstd::prelude::*;
use crate::cli;
use crate::cli::{Availability, ScanRow};
use crate::client::DaemonStatus;
use crate::clock;
use crate::clock::Timestamp;
use crate::decimal;
use crate::model::{Lease, Protocol};
use crate::promises::deciding;
use crate::report;
use crate::report::Table;
use crate::scan;
use crate::scan::PortProcess;
use crate::text;

verus! {

// ── Tables ──────────────────────────────────────────────────────────────

/// The text, with as many spaces behind it as the width of its column has left.
pub open spec fn column(text: Seq<char>, width: int) -> Seq<char> {
    text + Seq::new(
        if text.len() < width {
            (width - text.len()) as nat
        } else {
            0
        },
        |i: int| ' ',
    )
}

proof fn lemma_column(text: Seq<char>, width: nat)
    ensures
        text::padded(text, width) == column(text, width as int),
{
    assert(text::padded(text, width) =~= column(text, width as int));
}

/// The text with one cell more, behind a space.
pub open spec fn then_column(before: Seq<char>, text: Seq<char>, width: int) -> Seq<char> {
    before.push(' ') + column(text, width)
}

proof fn lemma_next(cells: Seq<Seq<char>>, widths: Seq<nat>)
    requires
        cells.len() > 1,
    ensures
        report::row_text(cells, widths) == then_column(
            report::row_text(cells.drop_last(), widths),
            cells.last(),
            widths[cells.len() - 1] as int,
        ),
{
    reveal_strlit(" ");
    let before = report::row_text(cells.drop_last(), widths);
    lemma_column(cells.last(), widths[cells.len() - 1]);
    assert(before + " "@ =~= before.push(' '));
}

proof fn lemma_five(a: Seq<char>, b: Seq<char>, c: Seq<char>, d: Seq<char>, e: Seq<char>)
    ensures
        report::row_text(seq![a, b, c, d, e], report::widths_of(Table::Leases)) == then_column(
            then_column(then_column(then_column(column(a, 8), b, 12), c, 20), d, 10),
            e,
            0,
        ),
{
    let widths = report::widths_of(Table::Leases);
    lemma_column(a, 8);
    lemma_next(seq![a, b, c, d, e], widths);
    assert(seq![a, b, c, d, e].drop_last() =~= seq![a, b, c, d]);
    lemma_next(seq![a, b, c, d], widths);
    assert(seq![a, b, c, d].drop_last() =~= seq![a, b, c]);
    lemma_next(seq![a, b, c], widths);
    assert(seq![a, b, c].drop_last() =~= seq![a, b]);
    lemma_next(seq![a, b], widths);
    assert(seq![a, b].drop_last() =~= seq![a]);
}

proof fn lemma_six(
    a: Seq<char>,
    b: Seq<char>,
    c: Seq<char>,
    d: Seq<char>,
    e: Seq<char>,
    f: Seq<char>,
)
    ensures
        report::row_text(seq![a, b, c, d, e, f], report::widths_of(Table::Scan)) == then_column(
            then_column(
                then_column(then_column(then_column(column(a, 8), b, 8), c, 8), d, 14),
                e,
                12,
            ),
            f,
            0,
        ),
{
    let widths = report::widths_of(Table::Scan);
    lemma_column(a, 8);
    lemma_next(seq![a, b, c, d, e, f], widths);
    assert(seq![a, b, c, d, e, f].drop_last() =~= seq![a, b, c, d, e]);
    lemma_next(seq![a, b, c, d, e], widths);
    assert(seq![a, b, c, d, e].drop_last() =~= seq![a, b, c, d]);
    lemma_next(seq![a, b, c, d], widths);
    assert(seq![a, b, c, d].drop_last() =~= seq![a, b, c]);
    lemma_next(seq![a, b, c], widths);
    assert(seq![a, b, c].drop_last() =~= seq![a, b]);
    lemma_next(seq![a, b], widths);
    assert(seq![a, b].drop_last() =~= seq![a]);
}

/// The name of a protocol with a capital.
pub open spec fn capital_protocol(protocol: Protocol) -> Seq<char> {
    match protocol {
        Protocol::Tcp => seq!['T', 'c', 'p'],
        Protocol::Udp => seq!['U', 'd', 'p'],
    }
}

/// The name of a protocol in small letters.
pub open spec fn small_protocol(protocol: Protocol) -> Seq<char> {
    match protocol {
        Protocol::Tcp => seq!['t', 'c', 'p'],
        Protocol::Udp => seq!['u', 'd', 'p'],
    }
}

/// The names of the protocols are these.
pub proof fn lemma_protocols(protocol: Protocol)
    ensures
        crate::model::protocol_name(protocol) == capital_protocol(protocol),
        crate::model::protocol_label(protocol) == small_protocol(protocol),
{
    reveal_strlit("Tcp");
    reveal_strlit("Udp");
    reveal_strlit("tcp");
    reveal_strlit("udp");
    assert("Tcp"@ =~= seq!['T', 'c', 'p']);
    assert("Udp"@ =~= seq!['U', 'd', 'p']);
    assert("tcp"@ =~= seq!['t', 'c', 'p']);
    assert("udp"@ =~= seq!['u', 'd', 'p']);
}

// ── Leases ──────────────────────────────────────────────────────────────

/// Every lease has its line in the list, in the order of the leases, with its
/// port, its service, its project, its state and its protocol in their columns.
/// The project is cut to eighteen bytes.
pub proof fn every_lease_has_its_line(
    leases: &[Lease],
    lines: Vec<String>,
    i: int,
    path: &str,
    short: String,
)
    requires
        call_ensures(report::list_lines, (leases,), lines),
        0 <= i < leases@.len(),
        path@ == leases@[i].project_path@,
        call_ensures(text::shorten, (path, 18usize), short),
    ensures
        lines@.len() == leases@.len() + 4,
        lines@[i + 2]@ == then_column(
            then_column(
                then_column(
                    then_column(
                        column(decimal::decimal(leases@[i].port as nat), 8),
                        leases@[i].service_name@,
                        12,
                    ),
                    short@,
                    20,
                ),
                deciding::word_for(leases@[i].state),
                10,
            ),
            capital_protocol(leases@[i].protocol),
            0,
        ),
{
    assert(text::strings(lines@).len() == lines@.len());
    assert(text::strings(lines@)[i + 2] == lines@[i + 2]@);
    let row = |lease: Lease| report::row_text(
        report::lease_cells(lease),
        report::widths_of(Table::Leases),
    );
    assert(report::list_text(leases@)[i + 2] == leases@.map_values(row)[i]);
    let lease = leases@[i];
    deciding::lemma_labels(lease.state);
    lemma_protocols(lease.protocol);
    lemma_five(
        decimal::decimal(lease.port as nat),
        lease.service_name@,
        short@,
        deciding::word_for(lease.state),
        capital_protocol(lease.protocol),
    );
    assert(report::lease_cells(lease) =~= seq![
        decimal::decimal(lease.port as nat),
        lease.service_name@,
        short@,
        deciding::word_for(lease.state),
        capital_protocol(lease.protocol),
    ]);
}

/// A list ends with the number of its leases; an empty one is a single line
/// that says so.
pub proof fn list_tells_its_length(leases: &[Lease], lines: Vec<String>)
    requires
        call_ensures(report::list_lines, (leases,), lines),
    ensures
        leases@.len() == 0 ==> lines@.len() == 1 && lines@[0]@ == "No active port allocations."@,
        leases@.len() > 0 ==> lines@[lines@.len() - 1]@ == decimal::decimal(leases@.len())
            + " allocation(s)"@,
        leases@.len() > 0 ==> lines@[1]@.len() == 60 && forall|j: int|
            0 <= j < 60 ==> #[trigger] lines@[1]@[j] == '-',
{
    assert(text::strings(lines@).len() == lines@.len());
    assert(text::strings(lines@)[0] == lines@[0]@);
    if leases@.len() > 0 {
        assert(text::strings(lines@)[1] == lines@[1]@);
        assert(text::strings(lines@)[lines@.len() - 1] == lines@[lines@.len() - 1]@);
    }
}

/// A port that was allocated is reported with its service, with the id and the
/// token of the lease and the command that confirms it, and with the requested
/// port where that is another one.
pub proof fn allocation_is_reported(
    lease: &Lease,
    requested_port: Option<u16>,
    expires: &str,
    lines: Vec<String>,
)
    requires
        call_ensures(report::allocation_lines_with, (lease, requested_port, expires), lines),
    ensures
        ({
            let reassigned = requested_port is Some && requested_port->0 != lease.port;
            let last = lines@.len() - 1;
            &&& lines@.len() == if reassigned {
                7int
            } else {
                6int
            }
            &&& lines@[0]@ == "✓ Allocated port "@ + decimal::decimal(lease.port as nat)
                + " for service '"@ + lease.service_name@ + "'"@
            &&& lines@[1]@ == "  Lease ID: "@ + lease.lease_id@
            &&& lines@[2]@ == "  Token:    "@ + lease.session_token@
            &&& lines@[3]@ == "  Expires:  "@ + expires@
            &&& reassigned ==> lines@[4]@ == "  Reassigned from requested port "@
                + decimal::decimal(requested_port->0 as nat)
            &&& lines@[last - 1]@.len() == 0
            &&& lines@[last]@ == "  Confirm after binding:  portus confirm --lease-id "@
                + lease.lease_id@ + " --token "@ + lease.session_token@
        }),
{
    let all = text::strings(lines@);
    assert(all.len() == lines@.len());
    assert(forall|i: int| 0 <= i < lines@.len() ==> #[trigger] all[i] == lines@[i]@);
    let last = lines@.len() - 1;
    assert(all[0] == lines@[0]@ && all[1] == lines@[1]@ && all[2] == lines@[2]@ && all[3]
        == lines@[3]@ && all[4] == lines@[4]@ && all[last] == lines@[last]@ && all[last - 1]
        == lines@[last - 1]@);
}

/// The expiry that is printed is that of the lease.
pub proof fn allocation_is_reported_with_its_expiry(
    lease: &Lease,
    requested_port: Option<u16>,
    lines: Vec<String>,
    expires: Option<String>,
)
    requires
        clock::representable(lease.expires_at),
        call_ensures(report::allocation_lines, (lease, requested_port), lines),
        call_ensures(Timestamp::display, (lease.expires_at,), expires),
    ensures
        expires is Some,
        lines@.len() >= 6,
        lines@[0]@ == "✓ Allocated port "@ + decimal::decimal(lease.port as nat)
            + " for service '"@ + lease.service_name@ + "'"@,
        lines@[1]@ == "  Lease ID: "@ + lease.lease_id@,
        lines@[2]@ == "  Token:    "@ + lease.session_token@,
        lines@[3]@ == "  Expires:  "@ + expires->0@,
        lines@[lines@.len() - 1]@ == "  Confirm after binding:  portus confirm --lease-id "@
            + lease.lease_id@ + " --token "@ + lease.session_token@,
{
    let all = text::strings(lines@);
    assert(all.len() == lines@.len());
    let last = lines@.len() - 1;
    assert(all[0] == lines@[0]@ && all[1] == lines@[1]@ && all[2] == lines@[2]@ && all[3]
        == lines@[3]@ && all[last] == lines@[last]@);
}

/// Confirming and releasing name the lease and tell which of the two happened.
pub proof fn lease_is_named_in_its_lines(lease_id: &str, confirmed: String, released: String)
    requires
        call_ensures(report::confirmed_line, (lease_id,), confirmed),
        call_ensures(report::released_line, (lease_id,), released),
    ensures
        confirmed@ == "✓ Lease "@ + lease_id@ + " confirmed"@,
        released@ == "✓ Lease "@ + lease_id@ + " released"@,
{
}

/// A port is called available exactly where it is; otherwise the reason is
/// given.
pub proof fn availability_is_told(port: u16, answer: &Availability, line: String)
    requires
        call_ensures(report::availability_line, (port, answer), line),
    ensures
        answer.available ==> line@ == "Port "@ + decimal::decimal(port as nat) + " is available"@,
        !answer.available ==> (answer.reason matches Some(reason) ==> line@ == "Port "@
            + decimal::decimal(port as nat) + " is not available: "@ + reason@),
{
}

// ── Running a command ───────────────────────────────────────────────────

/// A run tells its port and its service, when it starts, when its child has
/// bound the port and when it ends; and it tells where its port is not the
/// requested one.
pub proof fn run_tells_its_port(
    port: u16,
    requested_port: Option<u16>,
    service: &str,
    started: Vec<String>,
    confirmed: String,
    released: String,
)
    requires
        call_ensures(report::run_started_lines, (port, requested_port, service), started),
        call_ensures(report::run_confirmed_line, (port, service), confirmed),
        call_ensures(report::run_released_line, (port, service), released),
    ensures
        ({
            let subject = decimal::decimal(port as nat) + " for service '"@ + service@ + "'"@;
            &&& started@.len() >= 1
            &&& started@[0]@ == "✓ Allocated port "@ + subject
            &&& started@.len() == 2 <==> requested_port is Some && requested_port->0 != port
            &&& started@.len() == 1 <==> !(requested_port is Some && requested_port->0 != port)
            &&& started@.len() == 2 ==> started@[1]@ == "✓ Reassigned requested port "@
                + decimal::decimal(requested_port->0 as nat) + " to "@ + decimal::decimal(
                port as nat,
            )
            &&& confirmed@ == "✓ Confirmed port "@ + subject
            &&& released@ == "✓ Released port "@ + subject
        }),
{
    let all = text::strings(started@);
    assert(all.len() == started@.len());
    assert(all[0] == started@[0]@);
    assert(started@.len() == 2 ==> all[1] == started@[1]@);
    let subject = decimal::decimal(port as nat) + " for service '"@ + service@ + "'"@;
    assert(started@[0]@ =~= "✓ Allocated port "@ + subject);
    assert(confirmed@ =~= "✓ Confirmed port "@ + subject);
    assert(released@ =~= "✓ Released port "@ + subject);
}

// ── The daemon ──────────────────────────────────────────────────────────

/// The status shows the daemon's own numbers, each behind its name.
pub proof fn status_shows_the_daemon(status: &DaemonStatus, lines: Vec<String>)
    requires
        call_ensures(report::status_lines, (status,), lines),
    ensures
        lines@.len() == 5,
        lines@[1]@ == "  PID:           "@ + decimal::decimal(status.pid as nat),
        lines@[2]@ == "  Uptime:        "@ + decimal::decimal(status.uptime_secs as nat) + "s"@,
        lines@[3]@ == "  Active leases: "@ + decimal::decimal(status.active_leases as nat),
        lines@[4]@ == "  Socket:        "@ + status.socket_path@,
{
    let all = text::strings(lines@);
    assert(all.len() == lines@.len());
    assert(all[1] == lines@[1]@ && all[2] == lines@[2]@ && all[3] == lines@[3]@ && all[4]
        == lines@[4]@);
}

/// The line on a running daemon holds its process, its uptime and the number of
/// its leases; without a status the daemon is said not to run.
pub proof fn running_daemon_is_told(status: &Option<DaemonStatus>, line: String)
    requires
        call_ensures(report::running_line, (status,), line),
    ensures
        status matches Some(status) ==> {
            &&& deciding::holds(line@, "PID "@ + decimal::decimal(status.pid as nat) + ","@)
            &&& deciding::holds(
                line@,
                "uptime "@ + decimal::decimal(status.uptime_secs as nat) + "s"@,
            )
            &&& deciding::holds(
                line@,
                decimal::decimal(status.active_leases as nat) + " active leases"@,
            )
        },
        status is None ==> line@ == "✗ Daemon is not running"@,
{
    if let Some(status) = status {
        let pid = decimal::decimal(status.pid as nat);
        let uptime = decimal::decimal(status.uptime_secs as nat);
        let leases = decimal::decimal(status.active_leases as nat);
        lemma_running(line@, pid, uptime, leases);
    }
}

proof fn lemma_running(line: Seq<char>, pid: Seq<char>, uptime: Seq<char>, leases: Seq<char>)
    requires
        line == "✓ Daemon running (PID "@ + pid + ", uptime "@ + uptime + "s, "@ + leases
            + " active leases)"@,
    ensures
        deciding::holds(line, "PID "@ + pid + ","@),
        deciding::holds(line, "uptime "@ + uptime + "s"@),
        deciding::holds(line, leases + " active leases"@),
{
    reveal_strlit("✓ Daemon running (PID ");
    reveal_strlit("PID ");
    reveal_strlit(", uptime ");
    reveal_strlit("uptime ");
    reveal_strlit(",");
    reveal_strlit("s, ");
    reveal_strlit("s");
    reveal_strlit(" active leases)");
    reveal_strlit(" active leases");
    let open = "✓ Daemon running (PID "@;
    assert(open =~= open.take(18) + "PID "@);
    assert(", uptime "@ =~= ","@ + " "@.take(0).push(' ') + "uptime "@);
    assert("s, "@ =~= "s"@ + seq![',', ' ']);
    assert(" active leases)"@ =~= " active leases"@ + seq![')']);
    let first = "PID "@ + pid + ","@;
    let behind = seq![' '] + "uptime "@ + uptime + "s, "@ + leases + " active leases)"@;
    assert(line =~= open.take(18) + first + behind);
    deciding::lemma_holds(open.take(18), first, behind);
    let second = "uptime "@ + uptime + "s"@;
    let before = open + pid + seq![',', ' '];
    let rest = seq![',', ' '] + leases + " active leases)"@;
    assert(line =~= before + second + rest);
    deciding::lemma_holds(before, second, rest);
    let third = leases + " active leases"@;
    let start = open + pid + ", uptime "@ + uptime + "s, "@;
    assert(line =~= start + third + seq![')']);
    deciding::lemma_holds(start, third, seq![')']);
}

// ── Listeners ───────────────────────────────────────────────────────────

/// Every listener has its line in the table, in the order of the scan, with its
/// port, its process and its protocol, with the project and the service where
/// Portus manages it, and with its command.
pub proof fn every_listener_has_its_line(
    rows: &[ScanRow],
    port: Option<u16>,
    lines: Vec<String>,
    i: int,
    path: &str,
    short: String,
)
    requires
        call_ensures(report::scan_lines, (rows, port), lines),
        0 <= i < rows@.len(),
        rows@[i].project matches Some(project) ==> path@ == project@,
        call_ensures(cli::shorten_project, (path,), short),
    ensures
        lines@.len() == rows@.len() + 2,
        lines@[i + 2]@ == then_column(
            then_column(
                then_column(
                    then_column(
                        then_column(
                            column(decimal::decimal(rows@[i].port as nat), 8),
                            decimal::decimal(rows@[i].pid as nat),
                            8,
                        ),
                        small_protocol(rows@[i].protocol),
                        8,
                    ),
                    if !rows@[i].managed {
                        "no"@
                    } else if rows@[i].project is Some {
                        short@
                    } else {
                        "yes"@
                    },
                    14,
                ),
                if rows@[i].service is Some {
                    rows@[i].service->0@
                } else {
                    "-"@
                },
                12,
            ),
            rows@[i].command@,
            0,
        ),
{
    assert(text::strings(lines@).len() == lines@.len());
    assert(text::strings(lines@)[i + 2] == lines@[i + 2]@);
    let row = |row: ScanRow| report::row_text(
        report::scan_cells(row),
        report::widths_of(Table::Scan),
    );
    assert(report::scan_text(rows@, port)[i + 2] == rows@.map_values(row)[i]);
    let listener = rows@[i];
    lemma_protocols(listener.protocol);
    let owner = if !listener.managed {
        "no"@
    } else if listener.project is Some {
        short@
    } else {
        "yes"@
    };
    let service = if listener.service is Some {
        listener.service->0@
    } else {
        "-"@
    };
    let a = decimal::decimal(listener.port as nat);
    let b = decimal::decimal(listener.pid as nat);
    let c = small_protocol(listener.protocol);
    lemma_six(a, b, c, owner, service, listener.command@);
    assert(report::scan_cells(listener) =~= seq![a, b, c, owner, service, listener.command@]);
}

/// A scan that found nothing says so, and of which port where it was of one.
pub proof fn empty_scan_is_told(rows: &[ScanRow], port: Option<u16>, lines: Vec<String>)
    requires
        call_ensures(report::scan_lines, (rows, port), lines),
        rows@.len() == 0,
    ensures
        lines@.len() == 1,
        port matches Some(port) ==> lines@[0]@ == "No listeners found on port "@
            + decimal::decimal(port as nat) + "."@,
        port is None ==> lines@[0]@ == "No listeners found."@,
{
    assert(text::strings(lines@).len() == lines@.len());
    assert(text::strings(lines@)[0] == lines@[0]@);
}

/// A project is cut to fourteen bytes in the scan table.
pub proof fn scan_table_cuts_projects(path: &str, short: String, cut: String)
    requires
        text::can_be_shortened(path@, cli::PROJECT_WIDTH as int),
        call_ensures(cli::shorten_project, (path,), short),
        call_ensures(text::shorten, (path, 14usize), cut),
    ensures
        short@ == cut@,
{
}

/// Whose a listener is, in words.
pub open spec fn owner_words(row: ScanRow) -> Seq<char> {
    if !row.managed {
        "unmanaged"@
    } else {
        "managed by "@ + (if row.project is Some {
            row.project->0@
        } else {
            "unknown-project"@
        }) + ":"@ + (if row.service is Some {
            row.service->0@
        } else {
            "unknown-service"@
        })
    }
}

proof fn lemma_process(start: Seq<char>, row: ScanRow)
    ensures
        report::process_text(start, row) == start + "pid="@ + decimal::decimal(row.pid as nat)
            + " proto="@ + capital_protocol(row.protocol) + " cmd="@ + row.command@ + " ("@
            + owner_words(row) + ")"@,
{
    lemma_protocols(row.protocol);
    assert(report::owner_text(row) =~= owner_words(row));
}

/// A preview names every process that would be ended, by its number, its
/// protocol, its command and whose it is, behind a line with the number of the
/// processes, the port and the signal.
pub proof fn preview_names_every_process(
    port: u16,
    signal: &str,
    rows: &[ScanRow],
    lines: Vec<String>,
    i: int,
)
    requires
        call_ensures(report::kill_preview_lines, (port, signal, rows), lines),
        0 <= i < rows@.len(),
    ensures
        lines@.len() == rows@.len() + 1,
        lines@[0]@ == "Would kill "@ + decimal::decimal(rows@.len()) + " process(es) on port "@
            + decimal::decimal(port as nat) + " with "@ + signal@ + ":"@,
        lines@[i + 1]@ == "  Would kill: "@ + "pid="@ + decimal::decimal(rows@[i].pid as nat)
            + " proto="@ + capital_protocol(rows@[i].protocol) + " cmd="@ + rows@[i].command@
            + " ("@ + owner_words(rows@[i]) + ")"@,
{
    assert(text::strings(lines@).len() == lines@.len());
    assert(text::strings(lines@)[0] == lines@[0]@);
    assert(text::strings(lines@)[i + 1] == lines@[i + 1]@);
    lemma_process("  Would kill: "@, rows@[i]);
}

/// The report names every process that was told to end, behind a line with the
/// signal, the number of different processes and the port.
pub proof fn report_names_every_process(
    port: u16,
    signal: &str,
    killed: &[PortProcess],
    rows: &[ScanRow],
    lines: Vec<String>,
    pids: Vec<u32>,
    i: int,
)
    requires
        call_ensures(report::killed_lines, (port, signal, killed, rows), lines),
        call_ensures(scan::unique_pids, (killed,), pids),
        0 <= i < rows@.len(),
    ensures
        lines@.len() == rows@.len() + 1,
        lines@[0]@ == "✓ Sent "@ + signal@ + " to "@ + decimal::decimal(pids@.len())
            + " process(es) on port "@ + decimal::decimal(port as nat),
        lines@[i + 1]@ == "  "@ + "pid="@ + decimal::decimal(rows@[i].pid as nat) + " proto="@
            + capital_protocol(rows@[i].protocol) + " cmd="@ + rows@[i].command@ + " ("@
            + owner_words(rows@[i]) + ")"@,
{
    assert(text::strings(lines@).len() == lines@.len());
    assert(text::strings(lines@)[0] == lines@[0]@);
    assert(text::strings(lines@)[i + 1] == lines@[i + 1]@);
    lemma_process("  "@, rows@[i]);
}

} // verus!
