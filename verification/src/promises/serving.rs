//! What the daemon answers and what it does by itself.
use std::collections::HashSet;
use std::path::PathBuf;
use vstd::prelude::*;
use crate::clock;
use crate::clock::Timestamp;
use crate::daemon;
use crate::daemon::{DaemonState, IdleStep, ProcessInfo, SweepOutcome};
use crate::guarantees;
use crate::leases;
use crate::model::{Lease, LeaseState, Protocol};
use crate::promises::allocation;
use crate::promises::housekeeping;
use crate::promises::lists;
use crate::protocol::{Request, Response};
use crate::registry;
use crate::registry::{Registry, RegistryError};
use crate::text;

verus! {

/// A request for a port is answered with a lease that was added to the leases:
/// a pending one, for the service that asked, on a port that the host said can
/// be bound and that no pending or active lease held; or with an error, which
/// says that the service has a lease, why no port can be had, or what the writer
/// said.
pub proof fn request_for_a_port_is_answered_with_a_lease<
    P: Fn(u16, Protocol) -> bool,
    U: Fn() -> HashSet<u16>,
    W: Fn(&Registry, &PathBuf) -> Result<(), String>,
>(
    project: String,
    service: String,
    preferred_port: Option<u16>,
    protocol: Protocol,
    auto_reassign: bool,
    pid: Option<u32>,
    state: &mut DaemonState,
    info: ProcessInfo,
    is_port_available: &P,
    used_ports: &U,
    write: &W,
    response: Response,
)
    requires
        call_ensures(
            daemon::process_request::<P, U, W>,
            (Request::Allocate { project, service, preferred_port, protocol, auto_reassign, pid }, state, info, is_port_available, used_ports, write),
            response,
        ),
    ensures
        final(state).shutdown_requested == old(state).shutdown_requested,
        match response {
            Response::Allocated { lease } => {
                &&& lease.state is Pending
                &&& lease.project_path == project
                &&& lease.service_name == service
                &&& lease.protocol == protocol
                &&& lease.client_pid == pid
                &&& lease.expires_at.secs == lease.granted_at.secs + 300
                &&& preferred_port == Some(lease.port) || (10000 <= lease.port <= 19999 && (
                preferred_port is None || auto_reassign))
                &&& call_ensures(*is_port_available, (lease.port, protocol), true)
                &&& forall|id: Seq<char>| #[trigger]
                    old(state).registry@.contains_key(id) && (old(state).registry@[id].state
                        is Pending || old(state).registry@[id].state is Active) && old(
                        state,
                    ).registry@[id].protocol == protocol ==> old(state).registry@[id].port
                        != lease.port
                &&& final(state).registry@ == old(state).registry@.insert(lease.lease_id@, lease)
            },
            Response::Error { code, message } => {
                &&& code@ == "allocation_failed"@
                &&& exists|error: RegistryError|
                    message@ == #[trigger] registry::error_text(error) && match error {
                        RegistryError::ServiceLeased { .. } => final(state).registry == old(
                            state,
                        ).registry && allocation::service_is_leased(
                            old(state).registry@,
                            project@,
                            service@,
                            error,
                        ),
                        RegistryError::Save { message: cause } => old(
                            state,
                        ).registry.file() matches Some(path) && call_ensures(
                            *write,
                            (&final(state).registry, &path),
                            Err(cause),
                        ),
                        _ => final(state).registry == old(state).registry
                            && allocation::refused_for_cause(
                            old(state).registry@,
                            preferred_port,
                            protocol,
                            auto_reassign,
                            *is_port_available,
                            error,
                        ),
                    }
            },
            _ => false,
        },
{
    let outcome = choose|outcome: Result<Lease, RegistryError>|
        {
            &&& #[trigger] registry::allocated(
                old(state).registry,
                final(state).registry,
                project,
                service,
                preferred_port,
                protocol,
                auto_reassign,
                pid,
                *is_port_available,
                *used_ports,
                *write,
                outcome,
            )
            &&& match outcome {
                Ok(lease) => response == Response::Allocated { lease },
                Err(error) => crate::protocol::is_error(
                    response,
                    "allocation_failed"@,
                    registry::error_text(error),
                ),
            }
        };
    if let Ok(lease) = outcome {
        let granted = guarantees::lemma_allocated(
            old(state).registry,
            final(state).registry,
            project,
            service,
            preferred_port,
            protocol,
            auto_reassign,
            pid,
            *is_port_available,
            *used_ports,
            *write,
            outcome,
        );
        allocation::lemma_chosen_port(
            old(state).registry@,
            preferred_port,
            protocol,
            auto_reassign,
            *is_port_available,
            *used_ports,
            lease.port,
        );
    } else if let Err(error) = outcome {
        allocation::lemma_refused_allocation(
            old(state).registry,
            final(state).registry,
            project,
            service,
            preferred_port,
            protocol,
            auto_reassign,
            pid,
            *is_port_available,
            *used_ports,
            *write,
            error,
        );
        assert(response->Error_message@ == registry::error_text(error));
    }
}

/// Whether the holder of a lease may be turned down in these words, whatever
/// the lease's state: the lease is unknown, the token is not its own, or the
/// registry could not be written. But for the last nothing has changed.
pub open spec fn is_turned_down<W: Fn(&Registry, &PathBuf) -> Result<(), String>>(
    before: Registry,
    after: Registry,
    lease_id: Seq<char>,
    session_token: Seq<char>,
    write: W,
    message: Seq<char>,
) -> bool {
    ||| message == "lease not found"@ && !before@.contains_key(lease_id) && after == before
    ||| message == "invalid session token"@ && before@.contains_key(lease_id)
        && before@[lease_id].session_token@ != session_token && after == before
    ||| before@.contains_key(lease_id) && before@[lease_id].session_token@ == session_token
        && exists|path: PathBuf, cause: String|
        before.file() == Some(path) && cause@ == message && #[trigger] call_ensures(
            write,
            (&after, &path),
            Err::<(), String>(cause),
        )
}

/// Whether the lease is not in the state that is asked for, as the message
/// says.
pub open spec fn is_in_wrong_state(
    before: Registry,
    after: Registry,
    lease_id: Seq<char>,
    session_token: Seq<char>,
    wanted: LeaseState,
    message: Seq<char>,
) -> bool {
    &&& after == before
    &&& before@.contains_key(lease_id)
    &&& before@[lease_id].session_token@ == session_token
    &&& before@[lease_id].state != wanted
    &&& message == if wanted is Pending {
        "lease is not in pending state (current: "@ + crate::model::state_name(
            before@[lease_id].state,
        ) + ")"@
    } else {
        "lease is not active (current: "@ + crate::model::state_name(before@[lease_id].state)
            + ")"@
    }
}

/// Whether the lease could be renewed but for the calendar, which ends before
/// the new expiry, as the message says.
pub open spec fn is_past_the_calendar(
    before: Registry,
    after: Registry,
    lease_id: Seq<char>,
    session_token: Seq<char>,
    wanted: LeaseState,
    message: Seq<char>,
) -> bool {
    &&& after == before
    &&& before@.contains_key(lease_id)
    &&& before@[lease_id].session_token@ == session_token
    &&& before@[lease_id].state == wanted
    &&& message == "lease expiry is out of range"@
}

/// A confirmation is acknowledged for the lease that it names where the lease
/// was pending and the token is its own; the lease is active from then on, for
/// five minutes. Anything else is answered with an error.
pub proof fn confirmation_is_acknowledged<
    P: Fn(u16, Protocol) -> bool,
    U: Fn() -> HashSet<u16>,
    W: Fn(&Registry, &PathBuf) -> Result<(), String>,
>(
    lease_id: String,
    session_token: String,
    state: &mut DaemonState,
    info: ProcessInfo,
    is_port_available: &P,
    used_ports: &U,
    write: &W,
    response: Response,
)
    requires
        call_ensures(
            daemon::process_request::<P, U, W>,
            (Request::Confirm { lease_id, session_token }, state, info, is_port_available, used_ports, write),
            response,
        ),
    ensures
        final(state).shutdown_requested == old(state).shutdown_requested,
        match response {
            Response::Confirmed { lease_id: named } => {
                &&& named == lease_id
                &&& old(state).registry@.contains_key(lease_id@)
                &&& old(state).registry@[lease_id@].session_token@ == session_token@
                &&& old(state).registry@[lease_id@].state is Pending
                &&& final(state).registry@.contains_key(lease_id@)
                &&& final(state).registry@[lease_id@].state is Active
                &&& final(state).registry@[lease_id@].port == old(state).registry@[lease_id@].port
                &&& final(state).registry@[lease_id@].confirmed_at matches Some(at) && final(
                    state).registry@[lease_id@].expires_at.secs == at.secs + 300
            },
            Response::Error { code, message } => {
                &&& code@ == "confirm_failed"@
                &&& is_turned_down(
                    old(state).registry,
                    final(state).registry,
                    lease_id@,
                    session_token@,
                    *write,
                    message@,
                ) || is_in_wrong_state(
                    old(state).registry,
                    final(state).registry,
                    lease_id@,
                    session_token@,
                    LeaseState::Pending,
                    message@,
                ) || is_past_the_calendar(
                    old(state).registry,
                    final(state).registry,
                    lease_id@,
                    session_token@,
                    LeaseState::Pending,
                    message@,
                )
            },
            _ => false,
        },
        forall|id: Seq<char>|
            id != lease_id@ ==> (#[trigger] final(state).registry@.contains_key(id) <==> old(
                state,
            ).registry@.contains_key(id)) && (old(state).registry@.contains_key(id) ==> final(
                state).registry@[id] == old(state).registry@[id]),
{
}

/// A release is acknowledged for the lease that it names where the token is its
/// own; the lease is released from then on. Anything else is answered with an
/// error.
pub proof fn release_is_acknowledged<
    P: Fn(u16, Protocol) -> bool,
    U: Fn() -> HashSet<u16>,
    W: Fn(&Registry, &PathBuf) -> Result<(), String>,
>(
    lease_id: String,
    session_token: String,
    state: &mut DaemonState,
    info: ProcessInfo,
    is_port_available: &P,
    used_ports: &U,
    write: &W,
    response: Response,
)
    requires
        call_ensures(
            daemon::process_request::<P, U, W>,
            (Request::Release { lease_id, session_token }, state, info, is_port_available, used_ports, write),
            response,
        ),
    ensures
        final(state).shutdown_requested == old(state).shutdown_requested,
        match response {
            Response::Released { lease_id: named } => {
                &&& named == lease_id
                &&& old(state).registry@.contains_key(lease_id@)
                &&& old(state).registry@[lease_id@].session_token@ == session_token@
                &&& final(state).registry@.contains_key(lease_id@)
                &&& final(state).registry@[lease_id@].state is Released
                &&& final(state).registry@[lease_id@].port == old(state).registry@[lease_id@].port
            },
            Response::Error { code, message } => {
                &&& code@ == "release_failed"@
                &&& is_turned_down(
                    old(state).registry,
                    final(state).registry,
                    lease_id@,
                    session_token@,
                    *write,
                    message@,
                )
            },
            _ => false,
        },
        forall|id: Seq<char>|
            id != lease_id@ ==> (#[trigger] final(state).registry@.contains_key(id) <==> old(
                state,
            ).registry@.contains_key(id)) && (old(state).registry@.contains_key(id) ==> final(
                state).registry@[id] == old(state).registry@[id]),
{
}

/// A heartbeat is acknowledged for the lease that it names where the lease is
/// active and the token is its own; the lease is good for five more minutes,
/// and that is what the answer says. Anything else is answered with an error.
pub proof fn heartbeat_is_acknowledged<
    P: Fn(u16, Protocol) -> bool,
    U: Fn() -> HashSet<u16>,
    W: Fn(&Registry, &PathBuf) -> Result<(), String>,
>(
    lease_id: String,
    session_token: String,
    state: &mut DaemonState,
    info: ProcessInfo,
    is_port_available: &P,
    used_ports: &U,
    write: &W,
    response: Response,
)
    requires
        call_ensures(
            daemon::process_request::<P, U, W>,
            (Request::Heartbeat { lease_id, session_token }, state, info, is_port_available, used_ports, write),
            response,
        ),
    ensures
        final(state).shutdown_requested == old(state).shutdown_requested,
        match response {
            Response::HeartbeatAck { lease_id: named, expires_at } => {
                &&& named == lease_id
                &&& old(state).registry@.contains_key(lease_id@)
                &&& old(state).registry@[lease_id@].session_token@ == session_token@
                &&& old(state).registry@[lease_id@].state is Active
                &&& final(state).registry@.contains_key(lease_id@)
                &&& final(state).registry@[lease_id@].state is Active
                &&& final(state).registry@[lease_id@].last_heartbeat_at matches Some(at) && final(
                    state).registry@[lease_id@].expires_at.secs == at.secs + 300
                &&& expires_at@ == clock::rfc3339_text(
                    final(state).registry@[lease_id@].expires_at.secs,
                    final(state).registry@[lease_id@].expires_at.nanos,
                )
            },
            Response::Error { code, message } => {
                &&& code@ == "heartbeat_failed"@
                &&& is_turned_down(
                    old(state).registry,
                    final(state).registry,
                    lease_id@,
                    session_token@,
                    *write,
                    message@,
                ) || is_in_wrong_state(
                    old(state).registry,
                    final(state).registry,
                    lease_id@,
                    session_token@,
                    LeaseState::Active,
                    message@,
                ) || is_past_the_calendar(
                    old(state).registry,
                    final(state).registry,
                    lease_id@,
                    session_token@,
                    LeaseState::Active,
                    message@,
                )
            },
            _ => false,
        },
        forall|id: Seq<char>|
            id != lease_id@ ==> (#[trigger] final(state).registry@.contains_key(id) <==> old(
                state,
            ).registry@.contains_key(id)) && (old(state).registry@.contains_key(id) ==> final(
                state).registry@[id] == old(state).registry@[id]),
{
}

/// A request for a list is answered with every pending or active lease whose
/// project path starts with the filter, each once, and no other; nothing
/// changes.
pub proof fn request_for_a_list_is_answered_in_full<
    P: Fn(u16, Protocol) -> bool,
    U: Fn() -> HashSet<u16>,
    W: Fn(&Registry, &PathBuf) -> Result<(), String>,
>(
    project_filter: Option<String>,
    state: &mut DaemonState,
    info: ProcessInfo,
    is_port_available: &P,
    used_ports: &U,
    write: &W,
    response: Response,
)
    requires
        call_ensures(
            daemon::process_request::<P, U, W>,
            (Request::List { project_filter }, state, info, is_port_available, used_ports, write),
            response,
        ),
    ensures
        *final(state) == *old(state),
        response matches Response::LeaseList { leases: found } && exists|ids: Seq<Seq<char>>|
            #![trigger ids.no_duplicates()]
            {
                &&& ids.no_duplicates()
                &&& ids.len() == found@.len()
                &&& forall|i: int|
                    0 <= i < found@.len() ==> old(state).registry@.contains_key(#[trigger] ids[i])
                        && found@[i] == old(state).registry@[ids[i]]
                &&& forall|id: Seq<char>| #[trigger]
                    ids.contains(id) <==> {
                        &&& old(state).registry@.contains_key(id)
                        &&& old(state).registry@[id].state is Pending || old(
                            state,
                        ).registry@[id].state is Active
                        &&& project_filter matches Some(prefix) ==> prefix@.is_prefix_of(
                            old(state).registry@[id].project_path@,
                        )
                    }
            },
{
    let found = response->leases;
    let property = leases::listed(text::optional_string(project_filter));
    let ids = lists::lemma_listed_ids(old(state).registry@, property, found@);
    assert(ids.no_duplicates());
}

/// A request for the status is answered with the daemon's own number, uptime
/// and socket, and with the number of pending and active leases; nothing
/// changes.
pub proof fn request_for_the_status_is_answered<
    P: Fn(u16, Protocol) -> bool,
    U: Fn() -> HashSet<u16>,
    W: Fn(&Registry, &PathBuf) -> Result<(), String>,
>(
    state: &mut DaemonState,
    info: ProcessInfo,
    is_port_available: &P,
    used_ports: &U,
    write: &W,
    response: Response,
    registry: &Registry,
    active: Vec<&Lease>,
)
    requires
        call_ensures(
            daemon::process_request::<P, U, W>,
            (Request::Status, state, info, is_port_available, used_ports, write),
            response,
        ),
        *registry == old(state).registry,
        call_ensures(Registry::active_leases, (registry,), active),
    ensures
        *final(state) == *old(state),
        response matches Response::DaemonStatus { pid, uptime_secs, active_leases, socket_path }
            && pid == info.pid && uptime_secs == info.uptime_secs && active_leases == active@.len()
            && socket_path == info.socket_path,
{
    registry::lemma_lists_len(registry@, leases::live(), active@.unref());
}

/// A request to shut down is agreed to, and only the shutdown is noted.
pub proof fn shutdown_is_agreed_to<
    P: Fn(u16, Protocol) -> bool,
    U: Fn() -> HashSet<u16>,
    W: Fn(&Registry, &PathBuf) -> Result<(), String>,
>(
    state: &mut DaemonState,
    info: ProcessInfo,
    is_port_available: &P,
    used_ports: &U,
    write: &W,
    response: Response,
)
    requires
        call_ensures(
            daemon::process_request::<P, U, W>,
            (Request::Shutdown, state, info, is_port_available, used_ports, write),
            response,
        ),
    ensures
        response is ShuttingDown,
        final(state).shutdown_requested,
        final(state).registry == old(state).registry,
{
}

/// A connection is closed once a shutdown was agreed to, and not before.
pub proof fn connection_closes_with_the_shutdown(response: &Response, done: bool)
    requires
        call_ensures(daemon::closes_connection, (response,), done),
    ensures
        done <==> response is ShuttingDown,
{
}

/// A daemon starts with the registry that it is given and goes on until it is
/// told to stop.
pub proof fn daemon_starts_with_its_registry(registry: Registry, state: DaemonState)
    requires
        call_ensures(DaemonState::new, (registry,), state),
    ensures
        state.registry == registry,
        !state.shutdown_requested,
{
}

/// Once the daemon has run for half a minute, a sweep expires every pending or
/// active lease that is past its expiry or whose client has died, and leaves
/// every other. Before that, and once a shutdown is requested, it leaves all.
pub proof fn sweep_expires_what_is_over<
    F: Fn(u32) -> bool,
    W: Fn(&Registry, &PathBuf) -> Result<(), String>,
>(
    state: &mut DaemonState,
    uptime_secs: u64,
    now: Timestamp,
    pid_is_alive: F,
    write: &W,
    outcome: SweepOutcome,
    id: Seq<char>,
)
    requires
        call_ensures(
            daemon::sweep_at::<F, W>,
            (state, uptime_secs, now, pid_is_alive, write),
            outcome,
        ),
    ensures
        old(state).shutdown_requested ==> outcome is Stopped && *final(state) == *old(state),
        !old(state).shutdown_requested && uptime_secs < 30 ==> outcome is Grace && *final(state)
            == *old(state),
        !old(state).shutdown_requested && uptime_secs >= 30 ==> outcome is Swept,
        final(state).shutdown_requested == old(state).shutdown_requested,
        final(state).registry@.contains_key(id) <==> old(state).registry@.contains_key(id),
        outcome is Swept && old(state).registry@.contains_key(id) ==> {
            let was = old(state).registry@[id];
            let left = final(state).registry@[id];
            let live = was.state is Pending || was.state is Active;
            let past = now.secs > was.expires_at.secs || (now.secs == was.expires_at.secs
                && now.nanos > was.expires_at.nanos);
            &&& left == was || (left.state is Expired && housekeeping::same_but_state(was, left))
            &&& live && past ==> left.state is Expired
            &&& live && (was.client_pid matches Some(pid) && !call_ensures(
                pid_is_alive,
                (pid,),
                true,
            )) ==> left.state is Expired
            &&& !live ==> left == was
            &&& !past && (was.client_pid matches Some(pid) ==> !call_ensures(
                pid_is_alive,
                (pid,),
                false,
            )) ==> left == was
        },
{
}

/// A sweep by the clock does nothing in the first half minute and after a
/// shutdown was requested; otherwise it sweeps.
pub proof fn sweep_by_the_clock_waits_for_its_time<
    F: Fn(u32) -> bool,
    W: Fn(&Registry, &PathBuf) -> Result<(), String>,
>(
    state: &mut DaemonState,
    uptime_secs: u64,
    pid_is_alive: F,
    write: &W,
    outcome: SweepOutcome,
    id: Seq<char>,
)
    requires
        call_ensures(daemon::sweep::<F, W>, (state, uptime_secs, pid_is_alive, write), outcome),
    ensures
        old(state).shutdown_requested ==> outcome is Stopped && *final(state) == *old(state),
        !old(state).shutdown_requested && uptime_secs < 30 ==> outcome is Grace && *final(state)
            == *old(state),
        !old(state).shutdown_requested && uptime_secs >= 30 ==> outcome is Swept,
        outcome is Swept && old(state).registry@.contains_key(id) ==> {
            let was = old(state).registry@[id];
            let left = final(state).registry@[id];
            &&& left == was || (left.state is Expired && housekeeping::same_but_state(was, left))
            &&& (was.state is Pending || was.state is Active) && (was.client_pid matches Some(pid)
                && !call_ensures(pid_is_alive, (pid,), true)) ==> left.state is Expired
            &&& !(was.state is Pending || was.state is Active) ==> left == was
        },
{
    let now = choose|now: Timestamp| #[trigger]
        clock::is_clock_reading(now) && daemon::swept(
            *old(state),
            *final(state),
            uptime_secs,
            now,
            pid_is_alive,
            *write,
            outcome,
        );
    assert(daemon::swept(
        *old(state),
        *final(state),
        uptime_secs,
        now,
        pid_is_alive,
        *write,
        outcome,
    ));
}

/// The daemon shuts down once it has had no pending or active lease for more
/// than ten minutes, and at no other time. It sweeps every half minute.
pub proof fn idle_daemon_shuts_down(
    state: &mut DaemonState,
    idle_secs: u64,
    step: IdleStep,
    registry: &Registry,
    active: Vec<&Lease>,
)
    requires
        call_ensures(daemon::idle_check, (state, idle_secs), step),
        *registry == old(state).registry,
        call_ensures(Registry::active_leases, (registry,), active),
    ensures
        step is Busy <==> active@.len() > 0,
        step is Shutdown <==> active@.len() == 0 && idle_secs > 600,
        step is Waiting <==> active@.len() == 0 && idle_secs <= 600,
        daemon::SWEEP_INTERVAL_SECS == 30,
        final(state).registry == old(state).registry,
        final(state).shutdown_requested <==> old(state).shutdown_requested || step is Shutdown,
{
    registry::lemma_lists_len(registry@, leases::live(), active@.unref());
}

} // verus!
