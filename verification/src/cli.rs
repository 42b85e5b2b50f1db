//! What the command line client decides between its calls to the daemon.
use std::path::PathBuf;
use vstd::prelude::*;
use vstd::string::StringExecFns;
use crate::clock;
use crate::clock::Timestamp;
use crate::decimal;
use crate::leases;
use crate::leases::LeaseEntry;
use crate::model;
use crate::model::{Lease, Protocol};
use crate::registry;
use crate::registry::{Registry, RegistryError};
use crate::scan;
use crate::scan::{PortProcess, ScanError};
use crate::sort;
use crate::sort::InOrder;
use crate::text;

verus! {

// ── Arguments ───────────────────────────────────────────────────────────

/// Why the client gives up.
#[derive(Debug)]
pub enum CliError {
    /// The current directory is not known.
    NoCurrentDirectory,
    /// There is no such signal.
    UnknownSignal { name: String },
    /// A dry run needs a port.
    DryRunWithoutPort,
    /// The daemon was started but cannot be reached.
    DaemonNotStarted,
    /// The child exited before it bound its port.
    ChildExited { port: u16, code: Option<i32> },
    /// The listeners could not be scanned.
    Scan { error: ScanError },
}

/// The text of an exit code that may be missing.
pub open spec fn exit_text(code: Option<i32>) -> Seq<char> {
    match code {
        Some(code) => "Some("@ + decimal::signed_decimal(code as int) + ")"@,
        None => "None"@,
    }
}

/// The text of an error.
pub open spec fn error_text(error: CliError) -> Seq<char> {
    match error {
        CliError::NoCurrentDirectory => "cannot get current directory"@,
        CliError::UnknownSignal { name } => "unknown signal: '"@ + name@
            + "' (use 'term' or 'kill')"@,
        CliError::DryRunWithoutPort => "--dry-run requires --port"@,
        CliError::DaemonNotStarted => "daemon did not start in time"@,
        CliError::ChildExited { port, code } => "child exited before binding port "@
            + decimal::decimal(port as nat) + " (exit: "@ + exit_text(code) + ")"@,
        CliError::Scan { error } => scan::error_text(error),
    }
}

impl CliError {
    /// The text of the error.
    pub fn message(&self) -> (message: String)
        ensures
            message@ == error_text(*self),
    {
        match self {
            CliError::NoCurrentDirectory => "cannot get current directory".to_owned(),
            CliError::UnknownSignal { name } => {
                let mut out = "unknown signal: '".to_owned();
                out.append(name.as_str());
                out.append("' (use 'term' or 'kill')");
                out
            },
            CliError::DryRunWithoutPort => "--dry-run requires --port".to_owned(),
            CliError::DaemonNotStarted => "daemon did not start in time".to_owned(),
            CliError::ChildExited { port, code } => {
                let mut out = "child exited before binding port ".to_owned();
                out.append(decimal::decimal_text(*port as u64).as_str());
                out.append(" (exit: ");
                match code {
                    Some(code) => {
                        out.append("Some(");
                        out.append(decimal::signed_decimal_text(*code).as_str());
                        out.append(")");
                    },
                    None => {
                        out.append("None");
                    },
                }
                out.append(")");
                assert(out@ =~= error_text(*self));
                out
            },
            CliError::Scan { error } => error.message(),
        }
    }
}

/// The project of a request: the given one, or else the current directory,
/// which is asked for only where it is needed.
pub fn resolve_project<C: Fn() -> Option<String>>(project: Option<String>, current_dir: &C) -> (
resolved: Result<String, CliError>)
    requires
        project is None ==> call_requires(*current_dir, ()),
    ensures
        match project {
            Some(project) => resolved == Ok::<String, CliError>(project),
            None => exists|answer: Option<String>| #[trigger]
                call_ensures(*current_dir, (), answer) && match answer {
                    Some(dir) => resolved == Ok::<String, CliError>(dir),
                    None => resolved == Err::<String, CliError>(CliError::NoCurrentDirectory),
                },
        },
{
    match project {
        Some(project) => Ok(project),
        None => {
            match current_dir() {
                Some(dir) => Ok(dir),
                None => Err(CliError::NoCurrentDirectory),
            }
        },
    }
}

/// The signal that a name in small letters stands for.
pub open spec fn signal_of(name: Seq<char>) -> Option<Seq<char>> {
    if name == "term"@ || name == "sigterm"@ {
        Some("TERM"@)
    } else if name == "kill"@ || name == "sigkill"@ {
        Some("KILL"@)
    } else {
        None
    }
}

/// The signal of the given name, whatever its capitals.
pub fn parse_signal(signal: &str) -> (parsed: Result<&'static str, CliError>)
    ensures
        match signal_of(text::ascii_lowered(signal@)) {
            Some(known) => parsed matches Ok(found) && found@ == known,
            None => parsed matches Err(error) && error matches CliError::UnknownSignal { name }
                && name@ == text::ascii_lowered(signal@),
        },
{
    let name = text::to_ascii_lowercase(signal);
    if text::same_text(name.as_str(), "term") || text::same_text(name.as_str(), "sigterm") {
        Ok("TERM")
    } else if text::same_text(name.as_str(), "kill") || text::same_text(name.as_str(), "sigkill") {
        Ok("KILL")
    } else {
        Err(CliError::UnknownSignal { name })
    }
}

// ── Leases and listeners ────────────────────────────────────────────────

/// The first of the leases on the port.
pub open spec fn first_on(leases: Seq<Lease>, port: u16, protocol: Protocol) -> Option<Lease>
    decreases leases.len(),
{
    if leases.len() == 0 {
        None
    } else if leases[0].port == port && leases[0].protocol == protocol {
        Some(leases[0])
    } else {
        first_on(leases.drop_first(), port, protocol)
    }
}

/// The first of the leases on the port.
pub fn find_on_port(leases: &[Lease], port: u16, protocol: Protocol) -> (found: Option<&Lease>)
    ensures
        match found {
            Some(lease) => first_on(leases@, port, protocol) == Some(*lease),
            None => first_on(leases@, port, protocol) is None,
        },
{
    let mut i: usize = 0;
    assert(leases@.skip(0) =~= leases@);
    while i < leases.len()
        invariant
            i <= leases.len(),
            first_on(leases@, port, protocol) == first_on(
                leases@.skip(i as int),
                port,
                protocol,
            ),
        decreases leases.len() - i,
    {
        assert(leases@.skip(i as int).drop_first() =~= leases@.skip(i + 1));
        if leases[i].port == port && leases[i].protocol == protocol {
            return Some(&leases[i]);
        }
        i += 1;
    }
    None
}

/// A listener, and the lease on its port where there is one.
#[derive(Debug)]
pub struct ScanRow {
    pub port: u16,
    pub pid: u32,
    pub protocol: Protocol,
    pub command: String,
    pub managed: bool,
    pub service: Option<String>,
    pub project: Option<String>,
    pub lease_state: Option<String>,
}

/// Whether `row` shows the listener with the lease on its port.
pub open spec fn shows(row: ScanRow, listener: PortProcess, leases: Seq<Lease>) -> bool {
    &&& row.port == listener.port
    &&& row.pid == listener.pid
    &&& row.protocol == listener.protocol
    &&& row.command == listener.command
    &&& match first_on(leases, listener.port, listener.protocol) {
        Some(lease) => {
            &&& row.managed
            &&& row.service == Some(lease.service_name)
            &&& row.project == Some(lease.project_path)
            &&& text::optional_string(row.lease_state) == Some(model::state_label(lease.state))
        },
        None => {
            &&& !row.managed
            &&& row.service is None
            &&& row.project is None
            &&& row.lease_state is None
        },
    }
}

/// Shows each listener with the lease on its port.
pub fn build_scan_rows(listeners: &[PortProcess], leases: &[Lease]) -> (rows: Vec<ScanRow>)
    ensures
        rows@.len() == listeners@.len(),
        forall|i: int|
            0 <= i < rows@.len() ==> shows(#[trigger] rows@[i], listeners@[i], leases@),
{
    let mut rows: Vec<ScanRow> = Vec::new();
    let mut i: usize = 0;
    while i < listeners.len()
        invariant
            i <= listeners.len(),
            rows@.len() == i,
            forall|k: int| 0 <= k < i ==> shows(#[trigger] rows@[k], listeners@[k], leases@),
        decreases listeners.len() - i,
    {
        let listener = listeners[i].clone();
        let row = match find_on_port(leases, listener.port, listener.protocol) {
            Some(lease) => ScanRow {
                port: listener.port,
                pid: listener.pid,
                protocol: listener.protocol,
                command: listener.command,
                managed: true,
                service: Some(lease.service_name.clone()),
                project: Some(lease.project_path.clone()),
                lease_state: Some(lease.state.label().to_owned()),
            },
            None => ScanRow {
                port: listener.port,
                pid: listener.pid,
                protocol: listener.protocol,
                command: listener.command,
                managed: false,
                service: None,
                project: None,
                lease_state: None,
            },
        };
        rows.push(row);
        i += 1;
    }
    rows
}

/// Leases are ordered by port and service name.
impl InOrder for Lease {
    open spec fn comes_by(self, other: Self) -> bool {
        self.port < other.port || (self.port == other.port && text::text_le(
            self.service_name@,
            other.service_name@,
        ))
    }

    proof fn order_is_total(a: Self, b: Self) {
        text::lemma_text_le_total(a.service_name@, b.service_name@, 0);
    }

    proof fn order_is_transitive(a: Self, b: Self, c: Self) {
        if a.port == b.port && b.port == c.port {
            text::lemma_text_le_transitive(
                a.service_name@,
                b.service_name@,
                c.service_name@,
                0,
            );
        }
    }

    fn not_after(&self, other: &Self) -> (answer: bool) {
        self.port < other.port || (self.port == other.port && text::text_at_most(
            self.service_name.as_str(),
            other.service_name.as_str(),
        ))
    }
}

/// Whether `shown` are the live leases of the registry in order.
pub open spec fn active_in_order(registry: Registry, shown: Seq<Lease>) -> bool {
    exists|found: Seq<Lease>|
        #![trigger sort::stably_sorted(found, shown)]
        registry::lists(registry@, leases::live(), found) && sort::stably_sorted(found, shown)
}

/// The live leases of a registry, ordered by port and service name.
pub fn sorted_active_leases(registry: &Registry) -> (shown: Vec<Lease>)
    requires
        registry.wf(),
    ensures
        active_in_order(*registry, shown@),
{
    let found = registry.active_leases();
    sort::sort(leases::cloned(&found))
}

/// All live leases of the registry file, from the entries that the file held;
/// none where there is no file.
pub fn load_active_leases<W: Fn(&Registry, &PathBuf) -> Result<(), String>>(
    path: PathBuf,
    entries: Option<Vec<LeaseEntry>>,
    write: &W,
) -> (outcome: Result<Vec<Lease>, RegistryError>)
    requires
        entries matches Some(entries) ==> leases::entry_ids(entries@).no_duplicates(),
        entries matches Some(entries) ==> forall|now: Timestamp| #[trigger]
            clock::is_clock_reading(now) ==> registry::loading_writes(path, entries@, now, *write),
    ensures
        match entries {
            None => outcome matches Ok(shown) && shown@.len() == 0,
            Some(entries) => exists|now: Timestamp, result: Result<Registry, RegistryError>|
                clock::is_clock_reading(now) && #[trigger] registry::loaded(
                    path,
                    entries@,
                    now,
                    *write,
                    result,
                ) && match result {
                    Ok(registry) => outcome matches Ok(shown) && active_in_order(
                        registry,
                        shown@,
                    ),
                    Err(error) => outcome == Err::<Vec<Lease>, RegistryError>(error),
                },
        },
{
    match entries {
        None => Ok(Vec::new()),
        Some(entries) => {
            match Registry::load(path, entries, write) {
                Ok(registry) => Ok(sorted_active_leases(&registry)),
                Err(error) => Err(error),
            }
        },
    }
}

/// Whether there is a listener to be ended on the port.
pub fn require_listener(rows: &[ScanRow], port: u16) -> (outcome: Result<(), ScanError>)
    ensures
        match outcome {
            Ok(_) => rows@.len() > 0,
            Err(error) => rows@.len() == 0 && error == (ScanError::NoListener { port }),
        },
{
    if rows.len() == 0 {
        Err(ScanError::NoListener { port })
    } else {
        Ok(())
    }
}

/// The number of different processes.
pub fn unique_pid_count(processes: &[PortProcess]) -> (count: usize)
    ensures
        count == scan::distinct_pids(processes@).len(),
{
    scan::unique_pids(processes).len()
}

/// How many bytes of a project path the scan table shows.
pub const PROJECT_WIDTH: usize = 14;

/// The project path as the scan table shows it.
pub fn shorten_project(project: &str) -> (short: String)
    requires
        text::can_be_shortened(project@, PROJECT_WIDTH as int),
    ensures
        short@ == text::shortened(project@, PROJECT_WIDTH as int),
{
    text::shorten(project, PROJECT_WIDTH)
}

// ── Waiting ─────────────────────────────────────────────────────────────

/// Whether one of the processes is the given one.
pub open spec fn has_listener(listeners: Seq<PortProcess>, pid: u32, protocol: Protocol) -> bool {
    exists|i: int|
        0 <= i < listeners.len() && (#[trigger] listeners[i]).pid == pid && listeners[i].protocol
            == protocol
}

/// Whether a scan of the port shows that the process listens on it.
pub open spec fn child_listening(
    found: Result<Vec<PortProcess>, ScanError>,
    pid: u32,
    protocol: Protocol,
    outcome: Result<bool, ScanError>,
) -> bool {
    match found {
        Ok(listeners) => outcome == Ok::<bool, ScanError>(
            has_listener(listeners@, pid, protocol),
        ),
        Err(error) => outcome == Err::<bool, ScanError>(error),
    }
}

/// Whether the process listens on the port.
pub fn is_child_listening<S: Fn(Option<u16>) -> Result<Vec<PortProcess>, ScanError>>(
    port: u16,
    pid: u32,
    protocol: Protocol,
    scan: &S,
) -> (outcome: Result<bool, ScanError>)
    requires
        call_requires(*scan, (Some(port),)),
    ensures
        exists|found: Result<Vec<PortProcess>, ScanError>| #[trigger]
            call_ensures(*scan, (Some(port),), found) && child_listening(
                found,
                pid,
                protocol,
                outcome,
            ),
{
    let found = scan(Some(port));
    match found {
        Ok(listeners) => Ok(listens(&listeners, pid, protocol)),
        Err(error) => Err(error),
    }
}

/// Whether one of the processes is the given one.
pub fn listens(listeners: &[PortProcess], pid: u32, protocol: Protocol) -> (found: bool)
    ensures
        found == has_listener(listeners@, pid, protocol),
{
    let mut i: usize = 0;
    while i < listeners.len()
        invariant
            i <= listeners.len(),
            forall|k: int|
                0 <= k < i ==> !((#[trigger] listeners@[k]).pid == pid && listeners@[k].protocol
                    == protocol),
        decreases listeners.len() - i,
    {
        if listeners[i].pid == pid && listeners[i].protocol == protocol {
            assert(listeners@[i as int].pid == pid);
            return true;
        }
        i += 1;
    }
    false
}

/// What to do about a child that is to bind the port of a lease. `exited` is
/// its exit, if it has exited: the code, unless a signal ended it.
/// `Ok(true)` where the port is bound, `Ok(false)` where the client waits on.
pub fn child_bind_step<S: Fn(Option<u16>) -> Result<Vec<PortProcess>, ScanError>>(
    port: u16,
    child_pid: u32,
    protocol: Protocol,
    exited: Option<Option<i32>>,
    scan: &S,
) -> (step: Result<bool, CliError>)
    requires
        exited is None ==> call_requires(*scan, (Some(port),)),
    ensures
        match exited {
            Some(code) => step == Err::<bool, CliError>(CliError::ChildExited { port, code }),
            None => exists|found: Result<Vec<PortProcess>, ScanError>| #[trigger]
                call_ensures(*scan, (Some(port),), found) && match found {
                    Ok(listeners) => step == Ok::<bool, CliError>(
                        has_listener(listeners@, child_pid, protocol),
                    ),
                    Err(error) => step == Err::<bool, CliError>(CliError::Scan { error }),
                },
        },
{
    match exited {
        Some(code) => Err(CliError::ChildExited { port, code }),
        None => {
            match is_child_listening(port, child_pid, protocol, scan) {
                Ok(listening) => Ok(listening),
                Err(error) => Err(CliError::Scan { error }),
            }
        },
    }
}

// ── The way to the daemon ───────────────────────────────────────────────

/// How often the client tries to reach a daemon that it started.
pub const STARTUP_ATTEMPTS: u32 = 20;

/// How far a client is on its way to the daemon.
#[derive(Debug, Clone, Copy, PartialEq, Eq, Structural)]
pub enum ConnectState {
    /// It tries to reach a daemon that may be running.
    FirstAttempt,
    /// It starts a daemon.
    Starting,
    /// It tries to reach the daemon that it started, after so many attempts
    /// that failed.
    Retrying { failed_attempts: u32 },
}

/// What came of what the client did last.
#[derive(Debug, Clone, Copy, PartialEq, Eq, Structural)]
pub enum ConnectEvent {
    /// The daemon was reached.
    Connected,
    /// The daemon could not be reached.
    Refused,
    /// A daemon was started.
    Started,
    /// No daemon could be started.
    StartFailed,
}

/// What the client does next.
#[derive(Debug)]
pub enum ConnectAction {
    /// Send the request on the connection that was just made.
    Send,
    /// Start a daemon.
    StartDaemon,
    /// Wait a moment and try to reach the daemon.
    WaitAndConnect,
    /// Fail as the start of the daemon failed.
    PassOnStartError,
    /// Fail with the error.
    GiveUp { error: CliError },
}

/// Whether the event can come in the state: a start comes of starting, a
/// connection of trying to connect.
pub open spec fn connect_event_fits(state: ConnectState, event: ConnectEvent) -> bool {
    match state {
        ConnectState::Starting => event is Started || event is StartFailed,
        _ => event is Connected || event is Refused,
    }
}

/// The state that follows on an event, unless the way ends there, and what the
/// client does.
pub open spec fn connect_next(state: ConnectState, event: ConnectEvent) -> (
    Option<ConnectState>,
    ConnectAction,
) {
    match state {
        ConnectState::FirstAttempt => if event is Connected {
            (None, ConnectAction::Send)
        } else {
            (Some(ConnectState::Starting), ConnectAction::StartDaemon)
        },
        ConnectState::Starting => if event is Started {
            (
                Some(ConnectState::Retrying { failed_attempts: 0 }),
                ConnectAction::WaitAndConnect,
            )
        } else {
            (None, ConnectAction::PassOnStartError)
        },
        ConnectState::Retrying { failed_attempts } => if event is Connected {
            (None, ConnectAction::Send)
        } else if failed_attempts + 1 < STARTUP_ATTEMPTS {
            (
                Some(ConnectState::Retrying { failed_attempts: (failed_attempts + 1) as u32 }),
                ConnectAction::WaitAndConnect,
            )
        } else {
            (None, ConnectAction::GiveUp { error: CliError::DaemonNotStarted })
        },
    }
}

/// What a client does on its way to the daemon: it starts one where none runs,
/// and tries to reach that one a number of times.
pub fn connect_step(state: ConnectState, event: ConnectEvent) -> (next: (
    Option<ConnectState>,
    ConnectAction,
))
    requires
        connect_event_fits(state, event),
    ensures
        next == connect_next(state, event),
{
    match state {
        ConnectState::FirstAttempt => {
            if event == ConnectEvent::Connected {
                (None, ConnectAction::Send)
            } else {
                (Some(ConnectState::Starting), ConnectAction::StartDaemon)
            }
        },
        ConnectState::Starting => {
            if event == ConnectEvent::Started {
                (
                    Some(ConnectState::Retrying { failed_attempts: 0 }),
                    ConnectAction::WaitAndConnect,
                )
            } else {
                (None, ConnectAction::PassOnStartError)
            }
        },
        ConnectState::Retrying { failed_attempts } => {
            if event == ConnectEvent::Connected {
                (None, ConnectAction::Send)
            } else if failed_attempts < STARTUP_ATTEMPTS - 1 {
                (
                    Some(ConnectState::Retrying { failed_attempts: failed_attempts + 1 }),
                    ConnectAction::WaitAndConnect,
                )
            } else {
                (None, ConnectAction::GiveUp { error: CliError::DaemonNotStarted })
            }
        },
    }
}

/// The state after the first `n` events of a history, unless the way ended
/// there.
pub open spec fn connect_state_at(events: Seq<ConnectEvent>, n: nat) -> Option<ConnectState>
    decreases n,
{
    if n == 0 {
        Some(ConnectState::FirstAttempt)
    } else {
        match connect_state_at(events, (n - 1) as nat) {
            Some(state) => connect_next(state, events[n - 1]).0,
            None => None,
        }
    }
}

/// Whether the events can come one after the other on one way to the daemon.
pub open spec fn connect_history(events: Seq<ConnectEvent>) -> bool {
    forall|i: nat|
        i < events.len() ==> (#[trigger] connect_state_at(events, i) matches Some(state)
            && connect_event_fits(state, events[i as int]))
}

/// What the client does on the event at place `i` of a history.
pub open spec fn connect_action_at(events: Seq<ConnectEvent>, i: int) -> ConnectAction {
    connect_next(connect_state_at(events, i as nat)->0, events[i]).1
}

/// Whether the daemon was first not reached, then started, and then not
/// reached again up to the first `n` events.
pub open spec fn never_reached(events: Seq<ConnectEvent>, n: int) -> bool {
    &&& 0 < n ==> events[0] is Refused
    &&& 1 < n ==> events[1] is Started
    &&& forall|i: int| 2 <= i < n ==> (#[trigger] events[i]) is Refused
}

/// The state after `n` events tells how many there were, and what they were.
proof fn lemma_connect_state(events: Seq<ConnectEvent>, n: nat)
    requires
        connect_history(events),
        n <= events.len(),
    ensures
        match connect_state_at(events, n) {
            Some(state) => {
                &&& never_reached(events, n as int)
                &&& match state {
                    ConnectState::FirstAttempt => n == 0,
                    ConnectState::Starting => n == 1,
                    ConnectState::Retrying { failed_attempts } => {
                        &&& n == failed_attempts + 2
                        &&& failed_attempts < STARTUP_ATTEMPTS
                    },
                }
            },
            None => {
                &&& n == events.len()
                &&& 0 < n <= STARTUP_ATTEMPTS + 2
            },
        },
    decreases n,
{
    if n > 0 {
        lemma_connect_state(events, (n - 1) as nat);
    }
}

/// On its way to the daemon a client starts one at most once, and only where
/// the first attempt to reach one has failed. It sends the request at most
/// once: on the first connection that it gets, and then it is done. It fails
/// exactly where the daemon cannot be started, and where the daemon that was
/// started has not been reached in all attempts.
pub proof fn daemon_is_started_once_and_only_if_absent(events: Seq<ConnectEvent>, i: int)
    requires
        connect_history(events),
        0 <= i < events.len(),
    ensures
        events.len() <= STARTUP_ATTEMPTS + 2,
        connect_action_at(events, i) is StartDaemon <==> i == 0 && events[0] is Refused,
        connect_action_at(events, i) is Send <==> events[i] is Connected,
        connect_action_at(events, i) is Send ==> i == events.len() - 1 && never_reached(events, i),
        connect_action_at(events, i) is PassOnStartError <==> i == 1 && events[1] is StartFailed,
        connect_action_at(events, i) is PassOnStartError ==> i == events.len() - 1,
        connect_action_at(events, i) is GiveUp <==> i == STARTUP_ATTEMPTS + 1 && never_reached(
            events,
            i + 1,
        ),
        connect_action_at(events, i) is GiveUp ==> i == events.len() - 1,
        connect_action_at(events, i) matches ConnectAction::GiveUp { error }
            ==> error is DaemonNotStarted,
{
    lemma_connect_state(events, i as nat);
    lemma_connect_state(events, (i + 1) as nat);
    lemma_connect_state(events, events.len());
}

// ── The end of a run ────────────────────────────────────────────────────

/// The exit code of `run` once its child is over: that of the child, or 1 where
/// a signal ended it.
pub fn child_exit_code(code: Option<i32>) -> (exit: i32)
    ensures
        exit == match code {
            Some(code) => code,
            None => 1,
        },
{
    match code {
        Some(code) => code,
        None => 1,
    }
}

/// The exit code of `run` once it was interrupted.
pub const INTERRUPTED_EXIT: i32 = 130;

/// The exit code of `run` once it was terminated.
pub const TERMINATED_EXIT: i32 = 143;

// ── Availability of a port ──────────────────────────────────────────────

/// Whether a port can be had, and why not.
#[derive(Debug)]
pub struct Availability {
    pub available: bool,
    pub reason: Option<String>,
}

/// Why a port cannot be had. There is no reason where it can.
pub open spec fn unavailable_reason(bindable: bool, holder: Option<Lease>) -> Option<Seq<char>> {
    match (bindable, holder) {
        (true, None) => None,
        (false, Some(lease)) => Some(
            "allocated to service '"@ + lease.service_name@ + "' (lease "@ + lease.lease_id@ + ")"@,
        ),
        (false, None) => Some("port is in use by another process"@),
        (true, Some(lease)) => Some(
            "allocated to service '"@ + lease.service_name@ + "' (lease "@ + lease.lease_id@
                + ") but not yet bound"@,
        ),
    }
}

/// Whether a port can be had: it can be bound, and no lease holds it.
pub fn port_availability(bindable: bool, holder: Option<&Lease>) -> (answer: Availability)
    ensures
        answer.available == (bindable && holder is None),
        text::optional_string(answer.reason) == unavailable_reason(
            bindable,
            match holder {
                Some(lease) => Some(*lease),
                None => None,
            },
        ),
{
    match holder {
        None => {
            if bindable {
                Availability { available: true, reason: None }
            } else {
                Availability {
                    available: false,
                    reason: Some("port is in use by another process".to_owned()),
                }
            }
        },
        Some(lease) => {
            let mut reason = "allocated to service '".to_owned();
            reason.append(lease.service_name.as_str());
            reason.append("' (lease ");
            reason.append(lease.lease_id.as_str());
            if bindable {
                reason.append(") but not yet bound");
            } else {
                reason.append(")");
            }
            Availability { available: false, reason: Some(reason) }
        },
    }
}

/// What a dry run of a request says about the port.
pub fn dry_run(port: Option<u16>, bindable: bool, leases: &[Lease]) -> (answer: Result<
    Availability,
    CliError,
>)
    ensures
        match port {
            None => answer == Err::<Availability, CliError>(CliError::DryRunWithoutPort),
            Some(port) => answer matches Ok(answer) && answer.available == (bindable && first_on(
                leases@,
                port,
                Protocol::Tcp,
            ) is None) && text::optional_string(answer.reason) == unavailable_reason(
                bindable,
                first_on(leases@, port, Protocol::Tcp),
            ),
        },
{
    match port {
        None => Err(CliError::DryRunWithoutPort),
        Some(port) => Ok(port_availability(bindable, find_on_port(leases, port, Protocol::Tcp))),
    }
}

// ── Errors of the daemon ────────────────────────────────────────────────

/// The digits at the start of the text.
pub open spec fn leading_digits(text: Seq<char>) -> Seq<char>
    decreases text.len(),
{
    if text.len() > 0 && text::is_digit(text.first()) {
        seq![text.first()] + leading_digits(text.drop_first())
    } else {
        seq![]
    }
}

/// The port that a message names first, behind the word `port`.
pub open spec fn port_in_message(message: Seq<char>) -> Option<u16> {
    match text::find_text(message, "port "@, 0) {
        Some(at) => match decimal::parse_unsigned(
            leading_digits(message.skip(at + 5)),
            u16::MAX as nat,
        ) {
            Some(port) => Some(port as u16),
            None => None,
        },
        None => None,
    }
}

/// The port that a message names.
pub fn extract_port_from_message(message: &str) -> (port: Option<u16>)
    ensures
        port == port_in_message(message@),
{
    let chars = text::chars_of(message);
    let word = text::chars_of("port ");
    proof {
        reveal_strlit("port ");
    }
    match text::find(&chars, &word) {
        None => None,
        Some(at) => {
            let start: usize = at + 5;
            let mut end: usize = start;
            assert(message@.skip(start as int) =~= seq![] + message@.skip(start as int));
            assert(message@.subrange(start as int, start as int) =~= seq![]);
            assert(leading_digits(message@.skip(start as int)) =~= message@.subrange(
                start as int,
                end as int,
            ) + leading_digits(message@.skip(end as int)));
            while end < chars.len() && text::char_is_digit(chars[end])
                invariant
                    start <= end <= chars.len(),
                    chars@ == message@,
                    leading_digits(message@.skip(start as int)) == message@.subrange(
                        start as int,
                        end as int,
                    ) + leading_digits(message@.skip(end as int)),
                decreases chars.len() - end,
            {
                assert(message@.skip(end as int).drop_first() =~= message@.skip(end + 1));
                assert(message@.subrange(start as int, end as int) + (seq![message@[end as int]]
                    + leading_digits(message@.skip(end + 1))) =~= message@.subrange(
                    start as int,
                    end + 1,
                ) + leading_digits(message@.skip(end + 1)));
                end += 1;
            }
            let digits = text::chars_between(&chars, start, end);
            assert(digits@ =~= leading_digits(message@.skip(start as int)));
            decimal::parse_u16(&digits)
        },
    }
}

/// The capital of a character, as `char::to_uppercase` spells it.
pub uninterp spec fn uppercased(c: char) -> Seq<char>;

/// `char::to_uppercase`, collected: the capital of a character, one character
/// or more, which is a function of the character alone.
#[verifier::external_body]
fn to_uppercase(c: char) -> (capital: String)
    ensures
        capital@ == uppercased(c),
        capital@.len() >= 1,
{
    c.to_uppercase().to_string()
}

/// The text with its first character made a capital.
pub open spec fn with_capital(text: Seq<char>) -> Seq<char> {
    if text.len() == 0 {
        text
    } else {
        uppercased(text[0]) + text.drop_first()
    }
}

/// The text with something else in the place of its first character.
pub fn replace_first(capital: &str, s: &str) -> (out: String)
    requires
        s@.len() > 0,
    ensures
        out@ == capital@ + s@.drop_first(),
{
    let chars = text::chars_of(s);
    let rest = text::chars_between(&chars, 1, chars.len());
    let mut out = capital.to_owned();
    out.append(text::text_of(&rest).as_str());
    assert(rest@ =~= s@.drop_first());
    out
}

/// Makes the first character of a text a capital.
pub fn uppercase_first(s: &str) -> (out: String)
    ensures
        out@ == with_capital(s@),
{
    let chars = text::chars_of(s);
    if chars.len() == 0 {
        return String::new();
    }
    replace_first(to_uppercase(chars[0]).as_str(), s)
}

/// The option that names the port of a message, where it names one.
pub open spec fn port_hint(message: Seq<char>) -> Seq<char> {
    match port_in_message(message) {
        Some(port) => " --port "@ + decimal::decimal(port as nat),
        None => seq![],
    }
}

/// What to try after an error of the daemon.
pub open spec fn suggestion(code: Seq<char>, message: Seq<char>) -> Seq<char> {
    if text::contains_text(message, "already allocated"@) {
        "\n  Try: portus release --lease-id <id> --token <token>\n       portus list"@ + port_hint(
            message,
        )
            + " to find the existing lease\n       or use --auto-reassign to pick another port"@
    } else if text::contains_text(message, "in use by another process"@) {
        "\n  Try: portus kill"@ + port_hint(message)
            + " to terminate the blocking process\n       or use --auto-reassign to pick another port"@
    } else if text::contains_text(message, "invalid"@) && text::contains_text(message, "token"@) {
        "\n  Try: portus list --json to find the correct lease-id and token"@
    } else if text::contains_text(message, "not found"@) && (code == "confirm_failed"@ || code
        == "release_failed"@ || code == "heartbeat_failed"@) {
        "\n  Try: portus list to see active leases"@
    } else {
        seq![]
    }
}

fn port_option(message: &str) -> (hint: String)
    ensures
        hint@ == port_hint(message@),
{
    match extract_port_from_message(message) {
        Some(port) => {
            let mut hint = " --port ".to_owned();
            hint.append(decimal::decimal_text(port as u64).as_str());
            hint
        },
        None => String::new(),
    }
}

/// What to try after an error of the daemon.
pub fn suggest(code: &str, message: &str) -> (out: String)
    ensures
        out@ == suggestion(code@, message@),
{
    if text::contains(message, "already allocated") {
        let mut out = "\n  Try: portus release --lease-id <id> --token <token>\n       portus list".to_owned();
        out.append(port_option(message).as_str());
        out.append(" to find the existing lease\n       or use --auto-reassign to pick another port");
        out
    } else if text::contains(message, "in use by another process") {
        let mut out = "\n  Try: portus kill".to_owned();
        out.append(port_option(message).as_str());
        out.append(
            " to terminate the blocking process\n       or use --auto-reassign to pick another port",
        );
        out
    } else if text::contains(message, "invalid") && text::contains(message, "token") {
        "\n  Try: portus list --json to find the correct lease-id and token".to_owned()
    } else if text::contains(message, "not found") && (text::same_text(code, "confirm_failed")
        || text::same_text(code, "release_failed") || text::same_text(code, "heartbeat_failed")) {
        "\n  Try: portus list to see active leases".to_owned()
    } else {
        String::new()
    }
}

/// Strips the `[code]` prefix and appends actionable suggestions based on error content.
pub fn format_daemon_error(code: &str, message: &str) -> (out: String)
    ensures
        out@ == with_capital(message@) + suggestion(code@, message@),
{
    let mut out = uppercase_first(message);
    out.append(suggest(code, message).as_str());
    out
}

/// Digits in front of something that is none are the leading digits.
proof fn lemma_leading_digits(digits: Seq<char>, rest: Seq<char>)
    requires
        decimal::all_digits(digits),
        rest.len() > 0,
        !text::is_digit(rest[0]),
    ensures
        leading_digits(digits + rest) == digits,
    decreases digits.len(),
{
    if digits.len() == 0 {
        assert(digits + rest =~= rest);
    } else {
        assert((digits + rest).first() == digits[0]);
        assert((digits + rest).drop_first() =~= digits.drop_first() + rest);
        lemma_leading_digits(digits.drop_first(), rest);
        assert(seq![digits[0]] + digits.drop_first() =~= digits);
    }
}

/// A message that starts with a port is found to name that port.
proof fn lemma_port_in_message(port: u16, rest: Seq<char>)
    requires
        rest.len() > 0,
        !text::is_digit(rest[0]),
    ensures
        port_in_message("port "@ + decimal::decimal(port as nat) + rest) == Some(port),
{
    reveal_strlit("port ");
    let digits = decimal::decimal(port as nat);
    let message = "port "@ + digits + rest;
    assert(message.subrange(0, 5) =~= "port "@);
    assert(text::occurs_at(message, "port "@, 0));
    assert(message.skip(5) =~= digits + rest);
    decimal::decimal_reads_back(port as nat);
    lemma_leading_digits(digits, rest);
    assert(text::is_digit(digits[0]));
}

/// A text contains what it contains a part of the way in.
proof fn lemma_contains(message: Seq<char>, pattern: Seq<char>, at: int)
    requires
        text::occurs_at(message, pattern, at),
    ensures
        text::contains_text(message, pattern),
{
    text::lemma_find_text(message, pattern, 0);
}

/// Where a port is turned down because a lease holds it, the client is told how
/// to find that lease by its port.
pub proof fn allocated_port_is_suggested(
    code: Seq<char>,
    port: u16,
    service: String,
    project: String,
    lease_id: String,
)
    ensures
        ({
            let message = registry::error_text(
                RegistryError::PortAllocated { port, service, project, lease_id },
            );
            &&& port_in_message(message) == Some(port)
            &&& suggestion(code, message)
                == "\n  Try: portus release --lease-id <id> --token <token>\n       portus list"@
                + (" --port "@ + decimal::decimal(port as nat))
                + " to find the existing lease\n       or use --auto-reassign to pick another port"@
        }),
{
    let message = registry::error_text(
        RegistryError::PortAllocated { port, service, project, lease_id },
    );
    let digits = decimal::decimal(port as nat);
    let tail = service@ + "' in '"@ + project@ + "' (lease: "@ + lease_id@ + ")"@;
    let rest = " is already allocated to service '"@ + tail;
    reveal_strlit(" is already allocated to service '");
    reveal_strlit("already allocated");
    reveal_strlit("port ");
    assert(message =~= "port "@ + digits + rest);
    lemma_port_in_message(port, rest);
    let at = 5 + digits.len() as int + 4;
    assert(message.subrange(at, at + 17) =~= "already allocated"@);
    lemma_contains(message, "already allocated"@, at);
}

/// Where a port is turned down because another process uses it, the client is
/// told how to end that process by its port.
pub proof fn used_port_is_suggested(code: Seq<char>, port: u16)
    ensures
        ({
            let message = registry::error_text(RegistryError::PortInUse { port });
            &&& port_in_message(message) == Some(port)
            &&& suggestion(code, message) == "\n  Try: portus kill"@ + (" --port "@
                + decimal::decimal(port as nat))
                + " to terminate the blocking process\n       or use --auto-reassign to pick another port"@
        }),
{
    let message = registry::error_text(RegistryError::PortInUse { port });
    let digits = decimal::decimal(port as nat);
    let rest = " is in use by another process (not managed by portus)"@;
    reveal_strlit(" is in use by another process (not managed by portus)");
    reveal_strlit("in use by another process");
    reveal_strlit("already allocated");
    reveal_strlit("port ");
    assert(message =~= "port "@ + digits + rest);
    lemma_port_in_message(port, rest);
    let at = 5 + digits.len() as int + 4;
    assert(message.subrange(at, at + 25) =~= "in use by another process"@);
    lemma_contains(message, "in use by another process"@, at);
    text::lemma_find_text(message, "already allocated"@, 0);
    decimal::decimal_reads_back(port as nat);
    assert forall|k: int| 0 <= k implies !text::occurs_at(message, "already allocated"@, k) by {
        if text::occurs_at(message, "already allocated"@, k) {
            let part = message.subrange(k, k + 17);
            assert(part[0] == 'a' && part[1] == 'l' && part[2] == 'r');
            assert(message[k] == 'a' && message[k + 1] == 'l' && message[k + 2] == 'r');
            if 5 <= k < 5 + digits.len() {
                assert(text::is_digit(digits[k - 5]));
            }
        }
    }
}

} // verus!
