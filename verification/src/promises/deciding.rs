//! What the command line client decides.
use std::path::PathBuf;
use vstd::prelude::*;
use crate::cli;
use crate::cli::{
    Availability, CliError, ConnectAction, ConnectEvent, ConnectState, ScanRow,
};
use crate::clock;
use crate::clock::Timestamp;
use crate::decimal;
use crate::leases;
use crate::leases::LeaseEntry;
use crate::model::{Lease, LeaseState, Protocol};
use crate::promises::lists;
use crate::promises::words;
use crate::registry;
use crate::registry::{Registry, RegistryError};
use crate::scan::{PortProcess, ScanError};
use crate::sort;
use crate::text;

verus! {

// ── Arguments ───────────────────────────────────────────────────────────

/// The project is the given one, and the current directory only where none is
/// given.
pub proof fn given_project_comes_first<C: Fn() -> Option<String>>(
    project: Option<String>,
    current_dir: &C,
    resolved: Result<String, CliError>,
)
    requires
        call_ensures(cli::resolve_project::<C>, (project, current_dir), resolved),
    ensures
        project matches Some(given) ==> resolved == Ok::<String, CliError>(given),
        project is None ==> match resolved {
            Ok(dir) => call_ensures(*current_dir, (), Some(dir)),
            Err(error) => error is NoCurrentDirectory && call_ensures(*current_dir, (), None),
        },
{
}

/// The signals to terminate and to kill are known under their names, in
/// whatever letters, and no other is.
pub proof fn two_signals_are_known(signal: &str, parsed: Result<&'static str, CliError>)
    requires
        call_ensures(cli::parse_signal, (signal,), parsed),
    ensures
        ({
            let small = signal@.map_values(
                |c: char|
                    if 'A' <= c <= 'Z' {
                        ((c as u8) + 32u8) as char
                    } else {
                        c
                    },
            );
            &&& small == seq!['t', 'e', 'r', 'm'] || small == seq!['s', 'i', 'g', 't', 'e', 'r', 'm']
                ==> (parsed matches Ok(found) && found@ == seq!['T', 'E', 'R', 'M'])
            &&& small == seq!['k', 'i', 'l', 'l'] || small == seq!['s', 'i', 'g', 'k', 'i', 'l', 'l']
                ==> (parsed matches Ok(found) && found@ == seq!['K', 'I', 'L', 'L'])
            &&& parsed is Ok ==> small == seq!['t', 'e', 'r', 'm'] || small == seq![
                's',
                'i',
                'g',
                't',
                'e',
                'r',
                'm',
            ] || small == seq!['k', 'i', 'l', 'l'] || small == seq!['s', 'i', 'g', 'k', 'i', 'l', 'l']
        }),
{
    reveal_strlit("term");
    reveal_strlit("sigterm");
    reveal_strlit("kill");
    reveal_strlit("sigkill");
    reveal_strlit("TERM");
    reveal_strlit("KILL");
    assert("term"@ =~= seq!['t', 'e', 'r', 'm']);
    assert("sigterm"@ =~= seq!['s', 'i', 'g', 't', 'e', 'r', 'm']);
    assert("kill"@ =~= seq!['k', 'i', 'l', 'l']);
    assert("sigkill"@ =~= seq!['s', 'i', 'g', 'k', 'i', 'l', 'l']);
    assert("TERM"@ =~= seq!['T', 'E', 'R', 'M']);
    assert("KILL"@ =~= seq!['K', 'I', 'L', 'L']);
    let small = signal@.map_values(
        |c: char|
            if 'A' <= c <= 'Z' {
                ((c as u8) + 32u8) as char
            } else {
                c
            },
    );
    assert(small =~= text::ascii_lowered(signal@));
    assert('t' != 'k');
    assert(seq!['t', 'e', 'r', 'm'][0] == 't');
    assert(seq!['k', 'i', 'l', 'l'][0] == 'k');
    assert(seq!['s', 'i', 'g', 't', 'e', 'r', 'm'][3] == 't');
    assert(seq!['s', 'i', 'g', 'k', 'i', 'l', 'l'][3] == 'k');
}

// ── Leases and listeners ────────────────────────────────────────────────

pub(crate) proof fn lemma_first_on(leases: Seq<Lease>, port: u16, protocol: Protocol)
    ensures
        match cli::first_on(leases, port, protocol) {
            Some(lease) => exists|i: int|
                {
                    &&& 0 <= i < leases.len()
                    &&& #[trigger] leases[i] == lease
                    &&& lease.port == port
                    &&& lease.protocol == protocol
                    &&& forall|j: int|
                        0 <= j < i ==> (#[trigger] leases[j]).port != port || leases[j].protocol
                            != protocol
                },
            None => forall|j: int|
                0 <= j < leases.len() ==> (#[trigger] leases[j]).port != port || leases[j].protocol
                    != protocol,
        },
    decreases leases.len(),
{
    if leases.len() > 0 {
        if leases[0].port == port && leases[0].protocol == protocol {
            assert(leases[0] == leases[0]);
        } else {
            let rest = leases.drop_first();
            lemma_first_on(rest, port, protocol);
            assert(forall|j: int| 1 <= j < leases.len() ==> #[trigger] leases[j] == rest[j - 1]);
            if let Some(lease) = cli::first_on(rest, port, protocol) {
                let i = choose|i: int|
                    {
                        &&& 0 <= i < rest.len()
                        &&& #[trigger] rest[i] == lease
                        &&& lease.port == port
                        &&& lease.protocol == protocol
                        &&& forall|j: int|
                            0 <= j < i ==> (#[trigger] rest[j]).port != port || rest[j].protocol
                                != protocol
                    };
                assert(leases[i + 1] == lease);
                assert forall|j: int| 0 <= j < i + 1 implies (#[trigger] leases[j]).port != port
                    || leases[j].protocol != protocol by {
                    if j > 0 {
                        assert(rest[j - 1].port != port || rest[j - 1].protocol != protocol);
                    }
                }
            } else {
                assert forall|j: int| 0 <= j < leases.len() implies (#[trigger] leases[j]).port
                    != port || leases[j].protocol != protocol by {
                    if j > 0 {
                        assert(rest[j - 1].port != port || rest[j - 1].protocol != protocol);
                    }
                }
            }
        }
    }
}

/// A lease is found on a port exactly where one of the leases is on it, for the
/// same protocol; it is the first of them.
pub proof fn lease_is_found_on_its_port(
    leases: &[Lease],
    port: u16,
    protocol: Protocol,
    found: Option<&Lease>,
)
    requires
        call_ensures(cli::find_on_port, (leases, port, protocol), found),
    ensures
        match found {
            Some(lease) => exists|i: int|
                {
                    &&& 0 <= i < leases@.len()
                    &&& #[trigger] leases@[i] == *lease
                    &&& lease.port == port
                    &&& lease.protocol == protocol
                    &&& forall|j: int|
                        0 <= j < i ==> (#[trigger] leases@[j]).port != port || leases@[j].protocol
                            != protocol
                },
            None => forall|j: int|
                0 <= j < leases@.len() ==> (#[trigger] leases@[j]).port != port
                    || leases@[j].protocol != protocol,
        },
{
    lemma_first_on(leases@, port, protocol);
}

/// Every listener that a scan found has its row, with its own port, process,
/// protocol and command. It is managed exactly where a lease is on its port for
/// its protocol, and then the row names the service, the project and the state
/// of such a lease.
pub proof fn every_listener_has_its_row(
    listeners: &[PortProcess],
    leases: &[Lease],
    rows: Vec<ScanRow>,
    i: int,
)
    requires
        call_ensures(cli::build_scan_rows, (listeners, leases), rows),
        0 <= i < listeners@.len(),
    ensures
        rows@.len() == listeners@.len(),
        rows@[i].port == listeners@[i].port,
        rows@[i].pid == listeners@[i].pid,
        rows@[i].protocol == listeners@[i].protocol,
        rows@[i].command == listeners@[i].command,
        rows@[i].managed <==> exists|j: int|
            0 <= j < leases@.len() && (#[trigger] leases@[j]).port == listeners@[i].port
                && leases@[j].protocol == listeners@[i].protocol,
        rows@[i].managed ==> exists|j: int|
            {
                &&& 0 <= j < leases@.len()
                &&& (#[trigger] leases@[j]).port == listeners@[i].port
                &&& leases@[j].protocol == listeners@[i].protocol
                &&& rows@[i].service == Some(leases@[j].service_name)
                &&& rows@[i].project == Some(leases@[j].project_path)
                &&& rows@[i].lease_state matches Some(label) && is_label_of(
                    label@,
                    leases@[j].state,
                )
            },
        !rows@[i].managed ==> rows@[i].service is None && rows@[i].project is None
            && rows@[i].lease_state is None,
{
    assert(cli::shows(rows@[i], listeners@[i], leases@));
    lemma_first_on(leases@, listeners@[i].port, listeners@[i].protocol);
    if let Some(lease) = cli::first_on(leases@, listeners@[i].port, listeners@[i].protocol) {
        let j = choose|j: int|
            {
                &&& 0 <= j < leases@.len()
                &&& #[trigger] leases@[j] == lease
                &&& lease.port == listeners@[i].port
                &&& lease.protocol == listeners@[i].protocol
                &&& forall|k: int|
                    0 <= k < j ==> (#[trigger] leases@[k]).port != listeners@[i].port
                        || leases@[k].protocol != listeners@[i].protocol
            };
        lemma_labels(lease.state);
        assert(leases@[j].port == listeners@[i].port);
    }
}

/// The name of a state in small letters.
pub open spec fn word_for(state: LeaseState) -> Seq<char> {
    match state {
        LeaseState::Pending => seq!['p', 'e', 'n', 'd', 'i', 'n', 'g'],
        LeaseState::Active => seq!['a', 'c', 't', 'i', 'v', 'e'],
        LeaseState::Released => seq!['r', 'e', 'l', 'e', 'a', 's', 'e', 'd'],
        LeaseState::Expired => seq!['e', 'x', 'p', 'i', 'r', 'e', 'd'],
    }
}

/// Whether the text is the name of the state in small letters.
pub open spec fn is_label_of(label: Seq<char>, state: LeaseState) -> bool {
    label == word_for(state)
}

/// The label of a state is its name in small letters.
pub proof fn lemma_labels(state: LeaseState)
    ensures
        is_label_of(crate::model::state_label(state), state),
{
    reveal_strlit("pending");
    reveal_strlit("active");
    reveal_strlit("released");
    reveal_strlit("expired");
    match state {
        LeaseState::Pending => {
            assert("pending"@ =~= seq!['p', 'e', 'n', 'd', 'i', 'n', 'g']);
        },
        LeaseState::Active => {
            assert("active"@ =~= seq!['a', 'c', 't', 'i', 'v', 'e']);
        },
        LeaseState::Released => {
            assert("released"@ =~= seq!['r', 'e', 'l', 'e', 'a', 's', 'e', 'd']);
        },
        LeaseState::Expired => {
            assert("expired"@ =~= seq!['e', 'x', 'p', 'i', 'r', 'e', 'd']);
        },
    }
}

/// States and protocols go by their names.
pub proof fn states_and_protocols_have_their_names(
    state: LeaseState,
    label: &'static str,
    name: &'static str,
    protocol: Protocol,
    small: &'static str,
    large: &'static str,
)
    requires
        call_ensures(LeaseState::label, (state,), label),
        call_ensures(LeaseState::name, (state,), name),
        call_ensures(Protocol::label, (protocol,), small),
        call_ensures(Protocol::name, (protocol,), large),
    ensures
        is_label_of(label@, state),
        name@.len() == label@.len(),
        name@.skip(1) == label@.skip(1),
        name@[0] as int == label@[0] as int - 32,
        small@ == if protocol is Tcp {
            seq!['t', 'c', 'p']
        } else {
            seq!['u', 'd', 'p']
        },
        large@.len() == 3,
        protocol is Tcp ==> large@[0] == 'T',
        protocol is Udp ==> large@[0] == 'U',
{
    lemma_labels(state);
    reveal_strlit("Pending");
    reveal_strlit("Active");
    reveal_strlit("Released");
    reveal_strlit("Expired");
    reveal_strlit("tcp");
    reveal_strlit("udp");
    reveal_strlit("Tcp");
    reveal_strlit("Udp");
    reveal_strlit("TCP");
    reveal_strlit("UDP");
    assert(name@.skip(1) =~= label@.skip(1));
    assert("tcp"@ =~= seq!['t', 'c', 'p']);
    assert("udp"@ =~= seq!['u', 'd', 'p']);
}

/// The active leases are shown in full, ordered by port: every pending or
/// active lease of the registry and nothing else.
pub proof fn active_leases_are_shown_by_port(registry: &Registry, shown: Vec<Lease>)
    requires
        call_ensures(cli::sorted_active_leases, (registry,), shown),
    ensures
        shows_live_leases(registry@, shown@),
{
    lemma_shown(*registry, shown@);
}

/// Whether the leases are the pending and active ones, ordered by port.
pub open spec fn shows_live_leases(leases: Map<Seq<char>, Lease>, shown: Seq<Lease>) -> bool {
    &&& forall|i: int, j: int|
        0 <= i < j < shown.len() ==> (#[trigger] shown[i]).port <= (#[trigger] shown[j]).port
    &&& forall|i: int|
        0 <= i < shown.len() ==> ((#[trigger] shown[i]).state is Pending || shown[i].state
            is Active) && exists|id: Seq<char>| #[trigger]
            leases.contains_key(id) && leases[id] == shown[i]
    &&& forall|id: Seq<char>| #[trigger]
        leases.contains_key(id) && (leases[id].state is Pending || leases[id].state is Active)
            ==> shown.contains(leases[id])
}

proof fn lemma_shown(registry: Registry, shown: Seq<Lease>)
    requires
        cli::active_in_order(registry, shown),
    ensures
        shows_live_leases(registry@, shown),
{
    broadcast use vstd::seq_lib::group_to_multiset_ensures;

    let found = choose|found: Seq<Lease>|
        #![trigger sort::stably_sorted(found, shown)]
        registry::lists(registry@, leases::live(), found) && sort::stably_sorted(found, shown);
    let ids = lists::lemma_listed_ids(registry@, leases::live(), found);
    assert forall|i: int, j: int| 0 <= i < j < shown.len() implies (#[trigger] shown[i]).port <= (
    #[trigger] shown[j]).port by {
        assert(sort::InOrder::comes_by(shown[i], shown[j]));
    }
    assert forall|i: int| 0 <= i < shown.len() implies ((#[trigger] shown[i]).state is Pending
        || shown[i].state is Active) && exists|id: Seq<char>| #[trigger]
        registry@.contains_key(id) && registry@[id] == shown[i] by {
        assert(shown.contains(shown[i]));
        assert(shown.to_multiset().count(shown[i]) > 0);
        assert(found.contains(shown[i]));
        let k = choose|k: int| 0 <= k < found.len() && found[k] == shown[i];
        assert(ids.contains(ids[k]));
        assert(registry@.contains_key(ids[k]));
    }
    assert forall|id: Seq<char>| #[trigger]
        registry@.contains_key(id) && (registry@[id].state is Pending || registry@[id].state
            is Active) implies shown.contains(registry@[id]) by {
        assert(ids.contains(id));
        let k = choose|k: int| 0 <= k < ids.len() && ids[k] == id;
        assert(found[k] == registry@[id]);
        assert(found.contains(registry@[id]));
        assert(found.to_multiset().count(registry@[id]) > 0);
    }
}

/// The leases of the registry file are shown ordered by port. Every pending one
/// is among them, and so is every active one that has not run out; none is
/// released or expired. Without a file there are none.
pub proof fn leases_of_the_file_are_shown<W: Fn(&Registry, &PathBuf) -> Result<(), String>>(
    path: PathBuf,
    entries: Option<Vec<LeaseEntry>>,
    write: &W,
    shown: Vec<Lease>,
)
    requires
        entries matches Some(entries) ==> leases::entry_ids(entries@).no_duplicates(),
        call_ensures(cli::load_active_leases::<W>, (path, entries, write), Ok(shown)),
    ensures
        entries is None ==> shown@.len() == 0,
        forall|i: int, j: int|
            0 <= i < j < shown@.len() ==> (#[trigger] shown@[i]).port <= (#[trigger] shown@[j]).port,
        forall|i: int|
            0 <= i < shown@.len() ==> (#[trigger] shown@[i]).state is Pending || shown@[i].state
                is Active,
        entries matches Some(entries) ==> forall|i: int|
            0 <= i < entries@.len() && (#[trigger] entries@[i]).lease.state is Pending
                ==> shown@.contains(entries@[i].lease),
        entries matches Some(entries) ==> exists|now: Timestamp| #[trigger]
            clock::is_clock_reading(now) && forall|i: int|
                0 <= i < entries@.len() && (#[trigger] entries@[i]).lease.state is Active
                    && now.secs < entries@[i].lease.expires_at.secs ==> shown@.contains(
                    entries@[i].lease,
                ),
{
    if let Some(entries) = entries {
        let (now, result) = choose|now: Timestamp, result: Result<Registry, RegistryError>|
            clock::is_clock_reading(now) && #[trigger] registry::loaded(
                path,
                entries@,
                now,
                *write,
                result,
            ) && match result {
                Ok(registry) => cli::active_in_order(registry, shown@),
                Err(error) => false,
            };
        let registry = result->Ok_0;
        lemma_shown(registry, shown@);
        leases::lemma_by_id(entries@);
        assert forall|i: int|
            0 <= i < entries@.len() && ((#[trigger] entries@[i]).lease.state is Pending || (
            entries@[i].lease.state is Active && now.secs
                < entries@[i].lease.expires_at.secs)) implies shown@.contains(
            entries@[i].lease,
        ) by {
            let id = entries@[i].id@;
            assert(leases::by_id(entries@).contains_key(id));
            assert(registry@.contains_key(id));
            assert(registry@[id] == entries@[i].lease);
        }
        assert(clock::is_clock_reading(now));
    }
}

/// There is something to end exactly where something listens, and as many
/// processes are counted as there are different ones.
pub proof fn processes_are_counted_once(
    rows: &[ScanRow],
    port: u16,
    outcome: Result<(), ScanError>,
    processes: &[PortProcess],
    count: usize,
    pids: Vec<u32>,
)
    requires
        call_ensures(cli::require_listener, (rows, port), outcome),
        call_ensures(cli::unique_pid_count, (processes,), count),
        call_ensures(crate::scan::unique_pids, (processes,), pids),
    ensures
        outcome is Ok <==> rows@.len() > 0,
        outcome matches Err(error) ==> error == (ScanError::NoListener { port }),
        count == pids@.len(),
{
}

// ── Waiting for a child ─────────────────────────────────────────────────

/// A child listens where one of the listeners on the port is its process, for
/// the protocol.
pub proof fn child_listens_with_its_own_process(
    listeners: &[PortProcess],
    pid: u32,
    protocol: Protocol,
    found: bool,
)
    requires
        call_ensures(cli::listens, (listeners, pid, protocol), found),
    ensures
        found <==> exists|i: int|
            0 <= i < listeners@.len() && (#[trigger] listeners@[i]).pid == pid
                && listeners@[i].protocol == protocol,
{
}

/// A child that has exited will bind nothing. As long as it runs, its port is
/// bound once a scan of that port shows its process; a scan that fails is
/// passed on.
pub proof fn child_is_waited_for_until_it_listens<
    S: Fn(Option<u16>) -> Result<Vec<PortProcess>, ScanError>,
>(
    port: u16,
    child_pid: u32,
    protocol: Protocol,
    exited: Option<Option<i32>>,
    scan: &S,
    step: Result<bool, CliError>,
)
    requires
        call_ensures(cli::child_bind_step::<S>, (port, child_pid, protocol, exited, scan), step),
    ensures
        exited matches Some(code) ==> step == Err::<bool, CliError>(
            CliError::ChildExited { port, code },
        ),
        exited is None ==> exists|found: Result<Vec<PortProcess>, ScanError>| #[trigger]
            call_ensures(*scan, (Some(port),), found) && match found {
                Ok(listeners) => step matches Ok(bound) && (bound <==> exists|i: int|
                    0 <= i < listeners@.len() && (#[trigger] listeners@[i]).pid == child_pid
                        && listeners@[i].protocol == protocol),
                Err(error) => step == Err::<bool, CliError>(CliError::Scan { error }),
            },
{
}

/// The process of a child is looked for on the port by a scan.
pub proof fn child_is_looked_for_by_a_scan<
    S: Fn(Option<u16>) -> Result<Vec<PortProcess>, ScanError>,
>(port: u16, pid: u32, protocol: Protocol, scan: &S, outcome: Result<bool, ScanError>)
    requires
        call_ensures(cli::is_child_listening::<S>, (port, pid, protocol, scan), outcome),
    ensures
        exists|found: Result<Vec<PortProcess>, ScanError>| #[trigger]
            call_ensures(*scan, (Some(port),), found) && match found {
                Ok(listeners) => outcome matches Ok(bound) && (bound <==> exists|i: int|
                    0 <= i < listeners@.len() && (#[trigger] listeners@[i]).pid == pid
                        && listeners@[i].protocol == protocol),
                Err(error) => outcome == Err::<bool, ScanError>(error),
            },
{
    let found = choose|found: Result<Vec<PortProcess>, ScanError>| #[trigger]
        call_ensures(*scan, (Some(port),), found) && cli::child_listening(
            found,
            pid,
            protocol,
            outcome,
        );
    assert(call_ensures(*scan, (Some(port),), found));
}

/// A run ends with the code of its child, and with 1 where a signal ended it. An
/// interrupted run ends with 130 and a terminated one with 143.
pub proof fn run_ends_with_the_code_of_its_child(code: Option<i32>, exit: i32)
    requires
        call_ensures(cli::child_exit_code, (code,), exit),
    ensures
        code matches Some(given) ==> exit == given,
        code is None ==> exit == 1,
        cli::INTERRUPTED_EXIT == 130,
        cli::TERMINATED_EXIT == 143,
{
}

// ── The way to the daemon ───────────────────────────────────────────────

/// A connection is used at once. A daemon is started where the first attempt
/// fails, and then tried twenty times; where it does not start, or is not
/// reached, the client gives up.
pub proof fn client_finds_its_way_to_the_daemon(
    state: ConnectState,
    event: ConnectEvent,
    next: (Option<ConnectState>, ConnectAction),
)
    requires
        call_ensures(cli::connect_step, (state, event), next),
        state is Starting <==> event is Started || event is StartFailed,
    ensures
        event is Connected ==> next.0 is None && next.1 is Send,
        state is FirstAttempt && event is Refused ==> next.0 == Some(ConnectState::Starting)
            && next.1 is StartDaemon,
        event is StartFailed ==> next.0 is None && next.1 is PassOnStartError,
        event is Started ==> next.0 == Some(ConnectState::Retrying { failed_attempts: 0 })
            && next.1 is WaitAndConnect,
        state matches ConnectState::Retrying { failed_attempts } ==> (event is Refused ==> {
            &&& failed_attempts < 19 ==> next.1 is WaitAndConnect && (
            next.0 matches Some(ConnectState::Retrying { failed_attempts: more }) && more
                == failed_attempts + 1)
            &&& failed_attempts >= 19 ==> next.0 is None && (
            next.1 matches ConnectAction::GiveUp { error } && error is DaemonNotStarted)
        }),
{
}

// ── Availability of a port ──────────────────────────────────────────────

/// Whether the part stands somewhere in the text.
pub open spec fn holds(text: Seq<char>, part: Seq<char>) -> bool {
    exists|at: int|
        0 <= at && at + part.len() <= text.len() && #[trigger] text.subrange(at, at + part.len())
            == part
}

/// A text holds what it was put together from.
pub proof fn lemma_holds(before: Seq<char>, part: Seq<char>, behind: Seq<char>)
    ensures
        holds(before + part + behind, part),
{
    let text = before + part + behind;
    let at = before.len() as int;
    assert(text.subrange(at, at + part.len()) =~= part);
}

/// A port can be had where it can be bound and no lease is on it. Where it
/// cannot, there is a reason, and where a lease is on it, the reason names the
/// service and the lease.
pub proof fn port_can_be_had_where_it_is_free(
    bindable: bool,
    holder: Option<&Lease>,
    answer: Availability,
)
    requires
        call_ensures(cli::port_availability, (bindable, holder), answer),
    ensures
        answer.available <==> bindable && holder is None,
        answer.reason is None <==> answer.available,
        !bindable && holder is None ==> (answer.reason matches Some(reason) && reason@
            == "port is in use by another process"@),
        holder matches Some(lease) ==> (answer.reason matches Some(reason) && reason@
            == "allocated to service '"@ + lease.service_name@ + "' (lease "@ + lease.lease_id@ + (
        if bindable {
            ") but not yet bound"@
        } else {
            ")"@
        })),
{
}

/// A dry run says whether the port could be had for TCP, and needs a port.
pub proof fn dry_run_says_whether_the_port_is_free(
    port: Option<u16>,
    bindable: bool,
    leases: &[Lease],
    answer: Result<Availability, CliError>,
)
    requires
        call_ensures(cli::dry_run, (port, bindable, leases), answer),
    ensures
        port is None ==> (answer matches Err(error) && error is DryRunWithoutPort),
        port matches Some(port) ==> (answer matches Ok(answer) && (answer.available <==> bindable
            && forall|i: int|
                0 <= i < leases@.len() ==> (#[trigger] leases@[i]).port != port
                    || leases@[i].protocol != Protocol::Tcp)),
        answer matches Ok(answer) ==> (answer.reason is None <==> answer.available),
        port is Some && answer is Ok && !answer->Ok_0.available ==> {
            ||| !bindable && answer->Ok_0.reason->0@ == "port is in use by another process"@
            ||| exists|i: int|
                0 <= i < leases@.len() && (#[trigger] leases@[i]).port == port->0
                    && leases@[i].protocol is Tcp && holds(
                    answer->Ok_0.reason->0@,
                    leases@[i].service_name@,
                )
        },
{
    if let Some(port) = port {
        lemma_first_on(leases@, port, Protocol::Tcp);
        if let Some(lease) = cli::first_on(leases@, port, Protocol::Tcp) {
            let i = choose|i: int|
                {
                    &&& 0 <= i < leases@.len()
                    &&& #[trigger] leases@[i] == lease
                    &&& lease.port == port
                    &&& lease.protocol == Protocol::Tcp
                    &&& forall|j: int|
                        0 <= j < i ==> (#[trigger] leases@[j]).port != port || leases@[j].protocol
                            != Protocol::Tcp
                };
            let reason = answer->Ok_0.reason->0;
            let behind = "' (lease "@ + lease.lease_id@ + (if bindable {
                ") but not yet bound"@
            } else {
                ")"@
            });
            assert(reason@ =~= "allocated to service '"@ + lease.service_name@ + behind);
            lemma_holds("allocated to service '"@, lease.service_name@, behind);
            assert(leases@[i].port == port);
        }
    }
}

// ── Errors of the daemon ────────────────────────────────────────────────

/// The port that a message names is the number behind the word for it.
pub proof fn port_of_a_message_stands_behind_the_word(
    message: &str,
    before: Seq<char>,
    port: u16,
    behind: Seq<char>,
    found: Option<u16>,
)
    requires
        call_ensures(cli::extract_port_from_message, (message,), found),
        message@ == before + "port "@ + decimal::decimal(port as nat) + behind,
        forall|i: int| 0 <= i < before.len() ==> #[trigger] before[i] != 'p',
        behind.len() > 0 ==> !('0' <= behind[0] <= '9'),
    ensures
        found == Some(port),
{
    reveal_strlit("port ");
    let digits = decimal::decimal(port as nat);
    let n = before.len() as int;
    let m = message@;
    assert(m.subrange(n, n + 5) =~= "port "@);
    assert(text::occurs_at(m, "port "@, n));
    text::lemma_find_text(m, "port "@, 0);
    let at = text::find_text(m, "port "@, 0)->0;
    if at < n {
        assert(m.subrange(at, at + 5)[0] == m[at]);
        assert(m[at] == before[at]);
        assert("port "@[0] == 'p');
    }
    assert(m.skip(n + 5) =~= digits + behind);
    decimal::decimal_reads_back(port as nat);
    lemma_digits_first(digits, behind);
    words::lemma_parses(port as nat, u16::MAX as nat);
}

proof fn lemma_digits_first(digits: Seq<char>, behind: Seq<char>)
    requires
        decimal::all_digits(digits),
        behind.len() > 0 ==> !('0' <= behind[0] <= '9'),
    ensures
        cli::leading_digits(digits + behind) == digits,
    decreases digits.len(),
{
    let whole = digits + behind;
    if digits.len() == 0 {
        assert(whole =~= behind);
        assert(cli::leading_digits(whole) =~= digits);
    } else {
        assert(whole.first() == digits[0]);
        assert(text::is_digit(digits[0]));
        assert(whole.drop_first() =~= digits.drop_first() + behind);
        assert(decimal::all_digits(digits.drop_first())) by {
            assert forall|i: int| 0 <= i < digits.drop_first().len() implies text::is_digit(
                #[trigger] digits.drop_first()[i],
            ) by {
                assert(text::is_digit(digits[i + 1]));
            }
        }
        lemma_digits_first(digits.drop_first(), behind);
        assert(seq![digits[0]] + digits.drop_first() =~= digits);
    }
}

/// A message without the word names no port.
pub proof fn message_without_the_word_names_no_port(message: &str, found: Option<u16>)
    requires
        call_ensures(cli::extract_port_from_message, (message,), found),
        !holds(message@, "port "@),
    ensures
        found is None,
{
    text::lemma_find_text(message@, "port "@, 0);
    if text::find_text(message@, "port "@, 0) is Some {
        let at = text::find_text(message@, "port "@, 0)->0;
        assert(message@.subrange(at, at + "port "@.len()) == "port "@);
    }
}

/// A capital changes nothing but the first character.
pub proof fn capital_changes_the_first_character(
    s: &str,
    out: String,
    capital: &str,
    replaced: String,
)
    requires
        call_ensures(cli::uppercase_first, (s,), out),
        call_ensures(cli::replace_first, (capital, s), replaced),
    ensures
        s@.len() == 0 ==> out@.len() == 0,
        s@.len() > 0 ==> out@ == cli::uppercased(s@[0]) + s@.skip(1),
        s@.len() > 0 ==> replaced@ == capital@ + s@.skip(1),
{
    if s@.len() > 0 {
        assert(s@.drop_first() =~= s@.skip(1));
    }
}

/// Where a port is turned down, the client is told what to do about it, with
/// the number of the port: to look for the lease where one holds it, and to end
/// the process where one uses it.
pub proof fn refused_port_comes_with_advice(
    error: &RegistryError,
    message: String,
    code: &str,
    given: &str,
    advice: String,
    port: u16,
)
    requires
        call_ensures(RegistryError::message, (error,), message),
        given@ == message@,
        call_ensures(cli::suggest, (code, given), advice),
        match *error {
            RegistryError::PortAllocated { port: p, service, project, lease_id } => p == port,
            RegistryError::PortInUse { port: p } => p == port,
            _ => false,
        },
    ensures
        holds(advice@, " --port "@ + decimal::decimal(port as nat)),
        *error is PortAllocated ==> holds(advice@, "portus list"@),
        *error is PortInUse ==> holds(advice@, "portus kill"@),
        holds(advice@, "--auto-reassign"@),
{
    let option = " --port "@ + decimal::decimal(port as nat);
    match *error {
        RegistryError::PortAllocated { port: p, service, project, lease_id } => {
            cli::allocated_port_is_suggested(code@, port, service, project, lease_id);
            let a = "\n  Try: portus release --lease-id <id> --token <token>\n       portus list"@;
            let c = " to find the existing lease\n       or use --auto-reassign to pick another port"@;
            lemma_holds(a, option, c);
            reveal_strlit(
                "\n  Try: portus release --lease-id <id> --token <token>\n       portus list",
            );
            reveal_strlit("portus list");
            reveal_strlit(
                " to find the existing lease\n       or use --auto-reassign to pick another port",
            );
            reveal_strlit("--auto-reassign");
            let n = a.len() - 11;
            assert(advice@.subrange(n, n + "portus list"@.len()) =~= "portus list"@);
            let k = (a.len() + option.len()) as int + 42;
            assert(advice@.subrange(k, k + "--auto-reassign"@.len() as int) =~= "--auto-reassign"@);
        },
        RegistryError::PortInUse { port: p } => {
            cli::used_port_is_suggested(code@, port);
            let a = "\n  Try: portus kill"@;
            let c = " to terminate the blocking process\n       or use --auto-reassign to pick another port"@;
            lemma_holds(a, option, c);
            reveal_strlit("\n  Try: portus kill");
            reveal_strlit("portus kill");
            reveal_strlit(
                " to terminate the blocking process\n       or use --auto-reassign to pick another port",
            );
            reveal_strlit("--auto-reassign");
            let n = a.len() - 11;
            assert(advice@.subrange(n, n + "portus kill"@.len()) =~= "portus kill"@);
            let k = (a.len() + option.len()) as int + 49;
            assert(advice@.subrange(k, k + "--auto-reassign"@.len() as int) =~= "--auto-reassign"@);
        },
        _ => {},
    }
}

proof fn lemma_contained(text: Seq<char>, part: Seq<char>)
    ensures
        text::contains_text(text, part) <==> holds(text, part),
{
    if holds(text, part) {
        let at = choose|at: int|
            0 <= at && at + part.len() <= text.len() && #[trigger] text.subrange(
                at,
                at + part.len(),
            ) == part;
        assert(text::occurs_at(text, part, at));
    }
    text::lemma_find_text(text, part, 0);
    if text::contains_text(text, part) {
        let at = text::find_text(text, part, 0)->0;
        assert(text.subrange(at, at + part.len()) == part);
    }
}

/// The advice goes by what the message says: to release the lease of a port
/// that is allocated, to end the process on a port that is in use, to look the
/// token or the lease up where one of them is wrong. The port is named where
/// the message names it. There is no other advice.
pub proof fn advice_goes_by_the_message(
    code: &str,
    message: &str,
    advice: String,
    port: Option<u16>,
)
    requires
        call_ensures(cli::suggest, (code, message), advice),
        call_ensures(cli::extract_port_from_message, (message,), port),
    ensures
        ({
            let option = if port is Some {
                " --port "@ + decimal::decimal(port->0 as nat)
            } else {
                seq![]
            };
            let allocated = holds(message@, "already allocated"@);
            let used = holds(message@, "in use by another process"@);
            let invalid = holds(message@, "invalid"@) && holds(message@, "token"@);
            let unknown = holds(message@, "not found"@) && (code@ == "confirm_failed"@ || code@
                == "release_failed"@ || code@ == "heartbeat_failed"@);
            &&& allocated ==> advice@
                == "\n  Try: portus release --lease-id <id> --token <token>\n       portus list"@
                + option
                + " to find the existing lease\n       or use --auto-reassign to pick another port"@
            &&& !allocated && used ==> advice@ == "\n  Try: portus kill"@ + option
                + " to terminate the blocking process\n       or use --auto-reassign to pick another port"@
            &&& !allocated && !used && invalid ==> advice@
                == "\n  Try: portus list --json to find the correct lease-id and token"@
            &&& !allocated && !used && !invalid && unknown ==> advice@
                == "\n  Try: portus list to see active leases"@
            &&& !allocated && !used && !invalid && !unknown ==> advice@.len() == 0
        }),
{
    lemma_contained(message@, "already allocated"@);
    lemma_contained(message@, "in use by another process"@);
    lemma_contained(message@, "invalid"@);
    lemma_contained(message@, "token"@);
    lemma_contained(message@, "not found"@);
}

/// What the daemon says about an error is passed on with a capital, and advice
/// behind it.
pub proof fn error_is_passed_on_with_advice(code: &str, message: &str, out: String, advice: String)
    requires
        call_ensures(cli::format_daemon_error, (code, message), out),
        call_ensures(cli::suggest, (code, message), advice),
    ensures
        out@.len() >= advice@.len(),
        out@.skip(out@.len() - advice@.len()) == advice@,
        message@.len() > 0 ==> holds(out@, message@.skip(1)),
{
    let start = cli::with_capital(message@);
    assert(out@ == start + advice@);
    assert(out@.skip(out@.len() - advice@.len()) =~= advice@);
    if message@.len() > 0 {
        assert(message@.drop_first() =~= message@.skip(1));
        assert(out@ =~= cli::uppercased(message@[0]) + message@.skip(1) + advice@);
        lemma_holds(cli::uppercased(message@[0]), message@.skip(1), advice@);
    }
}

/// The registry's errors name what they are about: the port, the service, the
/// project and the lease.
pub proof fn errors_of_the_registry_name_their_subject(error: &RegistryError, message: String)
    requires
        call_ensures(RegistryError::message, (error,), message),
    ensures
        match *error {
            RegistryError::ServiceLeased { service, project, port, lease_id } => holds(
                message@,
                service@,
            ) && holds(message@, project@) && holds(message@, decimal::decimal(port as nat))
                && holds(message@, lease_id@),
            RegistryError::PortAllocated { port, service, project, lease_id } => holds(
                message@,
                service@,
            ) && holds(message@, project@) && holds(message@, decimal::decimal(port as nat))
                && holds(message@, lease_id@),
            RegistryError::PortInUse { port } => holds(message@, decimal::decimal(port as nat)),
            RegistryError::Save { message: cause } => message@ == cause@,
            _ => true,
        },
{
    match *error {
        RegistryError::ServiceLeased { service, project, port, lease_id } => {
            let m = message@;
            let d = decimal::decimal(port as nat);
            let (a, b, c, e, f) = (
                "service '"@,
                "' in project '"@,
                "' already has an active lease on port "@,
                " (lease: "@,
                ")"@,
            );
            assert(m =~= a + service@ + (b + project@ + c + d + e + lease_id@ + f));
            lemma_holds(a, service@, b + project@ + c + d + e + lease_id@ + f);
            assert(m =~= (a + service@ + b) + project@ + (c + d + e + lease_id@ + f));
            lemma_holds(a + service@ + b, project@, c + d + e + lease_id@ + f);
            assert(m =~= (a + service@ + b + project@ + c) + d + (e + lease_id@ + f));
            lemma_holds(a + service@ + b + project@ + c, d, e + lease_id@ + f);
            assert(m =~= (a + service@ + b + project@ + c + d + e) + lease_id@ + f);
            lemma_holds(a + service@ + b + project@ + c + d + e, lease_id@, f);
        },
        RegistryError::PortAllocated { port, service, project, lease_id } => {
            let m = message@;
            let d = decimal::decimal(port as nat);
            let (a, b, c, e, f) = (
                "port "@,
                " is already allocated to service '"@,
                "' in '"@,
                "' (lease: "@,
                ")"@,
            );
            assert(m =~= a + d + (b + service@ + c + project@ + e + lease_id@ + f));
            lemma_holds(a, d, b + service@ + c + project@ + e + lease_id@ + f);
            assert(m =~= (a + d + b) + service@ + (c + project@ + e + lease_id@ + f));
            lemma_holds(a + d + b, service@, c + project@ + e + lease_id@ + f);
            assert(m =~= (a + d + b + service@ + c) + project@ + (e + lease_id@ + f));
            lemma_holds(a + d + b + service@ + c, project@, e + lease_id@ + f);
            assert(m =~= (a + d + b + service@ + c + project@ + e) + lease_id@ + f);
            lemma_holds(a + d + b + service@ + c + project@ + e, lease_id@, f);
        },
        RegistryError::PortInUse { port } => {
            let d = decimal::decimal(port as nat);
            lemma_holds("port "@, d, " is in use by another process (not managed by portus)"@);
        },
        _ => {},
    }
}

} // verus!
