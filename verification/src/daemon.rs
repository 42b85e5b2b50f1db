//! What the daemon does with a request, and what it does by itself.
//!
//! The daemon's loop waits for connections and for its timer. What it decides
//! in between stands here: the answer to a request, the regular sweep over the
//! leases, and when to shut down.
use std::collections::HashSet;
use std::path::PathBuf;
use vstd::prelude::*;
use crate::clock;
use crate::clock::Timestamp;
use crate::guarantees;
use crate::leases;
use crate::model::{Lease, Protocol};
use crate::protocol;
use crate::protocol::{Request, Response};
use crate::registry;
use crate::registry::{Registry, RegistryError};
use crate::text;

verus! {

/// Heartbeat sweep interval (seconds).
pub const SWEEP_INTERVAL_SECS: u64 = 30;

/// Idle shutdown timeout: daemon exits if no active leases for this long.
pub const IDLE_TIMEOUT_SECS: u64 = 600;

/// How long after its start the daemon leaves all leases alone.
pub const STARTUP_GRACE_SECS: u64 = 30;

/// What the daemon keeps.
#[derive(Debug)]
pub struct DaemonState {
    pub registry: Registry,
    pub shutdown_requested: bool,
}

/// What the daemon's process knows of itself.
#[derive(Debug)]
pub struct ProcessInfo {
    pub pid: u32,
    pub uptime_secs: u64,
    pub socket_path: String,
}

impl DaemonState {
    /// The state that the daemon starts with.
    pub fn new(registry: Registry) -> (state: Self)
        ensures
            state.registry == registry,
            !state.shutdown_requested,
    {
        DaemonState { registry, shutdown_requested: false }
    }
}

// ── Requests ────────────────────────────────────────────────────────────

/// Whether the request may be answered in this way, with the state that it
/// leaves behind.
pub open spec fn answered<
    P: Fn(u16, Protocol) -> bool,
    U: Fn() -> HashSet<u16>,
    W: Fn(&Registry, &PathBuf) -> Result<(), String>,
>(
    request: Request,
    before: DaemonState,
    after: DaemonState,
    info: ProcessInfo,
    is_port_available: P,
    used_ports: U,
    write: W,
    response: Response,
) -> bool {
    match request {
        Request::Allocate { project, service, preferred_port, protocol, auto_reassign, pid } => {
            &&& after.shutdown_requested == before.shutdown_requested
            &&& exists|outcome: Result<Lease, RegistryError>|
                {
                    &&& #[trigger] registry::allocated(
                        before.registry,
                        after.registry,
                        project,
                        service,
                        preferred_port,
                        protocol,
                        auto_reassign,
                        pid,
                        is_port_available,
                        used_ports,
                        write,
                        outcome,
                    )
                    &&& match outcome {
                        Ok(lease) => response == Response::Allocated { lease },
                        Err(error) => protocol::is_error(
                            response,
                            "allocation_failed"@,
                            registry::error_text(error),
                        ),
                    }
                }
        },
        Request::Confirm { lease_id, session_token } => {
            &&& after.shutdown_requested == before.shutdown_requested
            &&& exists|now: Timestamp, outcome: Result<(), RegistryError>|
                {
                    &&& clock::is_clock_reading(now)
                    &&& #[trigger] registry::confirmed(
                        before.registry,
                        after.registry,
                        lease_id@,
                        session_token@,
                        now,
                        write,
                        outcome,
                    )
                    &&& match outcome {
                        Ok(_) => response == Response::Confirmed { lease_id },
                        Err(error) => protocol::is_error(
                            response,
                            "confirm_failed"@,
                            registry::error_text(error),
                        ),
                    }
                }
        },
        Request::Release { lease_id, session_token } => {
            &&& after.shutdown_requested == before.shutdown_requested
            &&& exists|outcome: Result<(), RegistryError>|
                {
                    &&& #[trigger] registry::released(
                        before.registry,
                        after.registry,
                        lease_id@,
                        session_token@,
                        write,
                        outcome,
                    )
                    &&& match outcome {
                        Ok(_) => response == Response::Released { lease_id },
                        Err(error) => protocol::is_error(
                            response,
                            "release_failed"@,
                            registry::error_text(error),
                        ),
                    }
                }
        },
        Request::Heartbeat { lease_id, session_token } => {
            &&& after.shutdown_requested == before.shutdown_requested
            &&& exists|now: Timestamp, outcome: Result<String, RegistryError>|
                {
                    &&& clock::is_clock_reading(now)
                    &&& #[trigger] registry::renewed(
                        before.registry,
                        after.registry,
                        lease_id@,
                        session_token@,
                        now,
                        write,
                        outcome,
                    )
                    &&& match outcome {
                        Ok(expires_at) => response == Response::HeartbeatAck {
                            lease_id,
                            expires_at,
                        },
                        Err(error) => protocol::is_error(
                            response,
                            "heartbeat_failed"@,
                            registry::error_text(error),
                        ),
                    }
                }
        },
        Request::List { project_filter } => {
            &&& after == before
            &&& response matches Response::LeaseList { leases } && registry::lists(
                before.registry@,
                leases::listed(text::optional_string(project_filter)),
                leases@,
            )
        },
        Request::Status => {
            &&& after == before
            &&& response matches Response::DaemonStatus {
                pid,
                uptime_secs,
                active_leases,
                socket_path,
            } && pid == info.pid && uptime_secs == info.uptime_secs && active_leases
                == leases::ids_where(before.registry@, leases::live()).len() && socket_path
                == info.socket_path
        },
        Request::Shutdown => {
            &&& after.registry == before.registry
            &&& after.shutdown_requested
            &&& response is ShuttingDown
        },
    }
}

/// Whether the host can be asked what answering the request asks, and the
/// writer for what it writes. A request that changes no lease asks for nothing.
pub open spec fn request_answers<
    P: Fn(u16, Protocol) -> bool,
    U: Fn() -> HashSet<u16>,
    W: Fn(&Registry, &PathBuf) -> Result<(), String>,
>(
    request: Request,
    before: Registry,
    is_port_available: P,
    used_ports: U,
    write: W,
) -> bool {
    match request {
        Request::Allocate { project, service, preferred_port, protocol, auto_reassign, pid } => {
            registry::allocation_answers(
                before,
                project,
                service,
                preferred_port,
                protocol,
                auto_reassign,
                pid,
                is_port_available,
                used_ports,
                write,
            )
        },
        Request::Confirm { lease_id, session_token } => forall|now: Timestamp| #[trigger]
            clock::is_clock_reading(now) ==> registry::confirmation_writes(
                before,
                lease_id@,
                session_token@,
                now,
                write,
            ),
        Request::Release { lease_id, session_token } => registry::release_writes(
            before,
            lease_id@,
            session_token@,
            write,
        ),
        Request::Heartbeat { lease_id, session_token } => forall|now: Timestamp| #[trigger]
            clock::is_clock_reading(now) ==> registry::heartbeat_writes(
                before,
                lease_id@,
                session_token@,
                now,
                write,
            ),
        _ => true,
    }
}

/// Answers a request.
pub fn process_request<
    P: Fn(u16, Protocol) -> bool,
    U: Fn() -> HashSet<u16>,
    W: Fn(&Registry, &PathBuf) -> Result<(), String>,
>(
    request: Request,
    state: &mut DaemonState,
    info: ProcessInfo,
    is_port_available: &P,
    used_ports: &U,
    write: &W,
) -> (response: Response)
    requires
        old(state).registry.wf(),
        request_answers(request, old(state).registry, *is_port_available, *used_ports, *write),
    ensures
        final(state).registry.wf(),
        answered(
            request,
            *old(state),
            *final(state),
            info,
            *is_port_available,
            *used_ports,
            *write,
            response,
        ),
{
    match request {
        Request::Allocate { project, service, preferred_port, protocol, auto_reassign, pid } => {
            let outcome = state.registry.allocate(
                project,
                service,
                preferred_port,
                protocol,
                auto_reassign,
                pid,
                is_port_available,
                used_ports,
                write,
            );
            match outcome {
                Ok(lease) => Response::Allocated { lease },
                Err(error) => Response::error("allocation_failed", error.message().as_str()),
            }
        },
        Request::Confirm { lease_id, session_token } => {
            let outcome = state.registry.confirm(lease_id.as_str(), session_token.as_str(), write);
            proof {
                let now = choose|now: Timestamp| #[trigger]
                    clock::is_clock_reading(now) && registry::confirmed(
                        old(state).registry,
                        state.registry,
                        lease_id@,
                        session_token@,
                        now,
                        *write,
                        outcome,
                    );
                assert(registry::confirmed(
                    old(state).registry,
                    state.registry,
                    lease_id@,
                    session_token@,
                    now,
                    *write,
                    outcome,
                ));
            }
            match outcome {
                Ok(_) => Response::Confirmed { lease_id },
                Err(error) => Response::error("confirm_failed", error.message().as_str()),
            }
        },
        Request::Release { lease_id, session_token } => {
            let outcome = state.registry.release(lease_id.as_str(), session_token.as_str(), write);
            assert(registry::released(
                old(state).registry,
                state.registry,
                lease_id@,
                session_token@,
                *write,
                outcome,
            ));
            match outcome {
                Ok(_) => Response::Released { lease_id },
                Err(error) => Response::error("release_failed", error.message().as_str()),
            }
        },
        Request::Heartbeat { lease_id, session_token } => {
            let outcome = state.registry.heartbeat(lease_id.as_str(), session_token.as_str(), write);
            proof {
                let now = choose|now: Timestamp| #[trigger]
                    clock::is_clock_reading(now) && registry::renewed(
                        old(state).registry,
                        state.registry,
                        lease_id@,
                        session_token@,
                        now,
                        *write,
                        outcome,
                    );
                assert(registry::renewed(
                    old(state).registry,
                    state.registry,
                    lease_id@,
                    session_token@,
                    now,
                    *write,
                    outcome,
                ));
            }
            match outcome {
                Ok(expires_at) => Response::HeartbeatAck { lease_id, expires_at },
                Err(error) => Response::error("heartbeat_failed", error.message().as_str()),
            }
        },
        Request::List { project_filter } => {
            let found = match &project_filter {
                Some(prefix) => state.registry.list(Some(prefix.as_str())),
                None => state.registry.list(None),
            };
            Response::LeaseList { leases: leases::cloned(&found) }
        },
        Request::Status => Response::DaemonStatus {
            pid: info.pid,
            uptime_secs: info.uptime_secs,
            active_leases: state.registry.active_count(),
            socket_path: info.socket_path,
        },
        Request::Shutdown => {
            state.shutdown_requested = true;
            Response::ShuttingDown
        },
    }
}

/// Whether the connection is done with once the response is sent.
pub fn closes_connection(response: &Response) -> (done: bool)
    ensures
        done == (response is ShuttingDown),
{
    match response {
        Response::ShuttingDown => true,
        _ => false,
    }
}

// ── The sweep ───────────────────────────────────────────────────────────

/// What a sweep did: how many stale leases it expired, and how many leases of
/// dead clients.
#[derive(Debug)]
pub struct SweepReport {
    pub stale: Result<usize, RegistryError>,
    pub dead: Result<usize, RegistryError>,
}

/// What comes of a sweep.
#[derive(Debug)]
pub enum SweepOutcome {
    /// A shutdown is requested, and the sweeping ends.
    Stopped,
    /// The startup grace is not over: all leases are left alone.
    Grace,
    /// The leases were swept.
    Swept(SweepReport),
}

/// What a sweep at `now` makes of the state. Once a shutdown is requested it
/// does nothing, and neither does it until the startup grace is over, so that
/// the clients of a daemon that was restarted have time to come back.
pub open spec fn swept<
    F: Fn(u32) -> bool,
    W: Fn(&Registry, &PathBuf) -> Result<(), String>,
>(
    before: DaemonState,
    after: DaemonState,
    uptime_secs: u64,
    now: Timestamp,
    pid_is_alive: F,
    write: W,
    outcome: SweepOutcome,
) -> bool {
    if before.shutdown_requested {
        outcome is Stopped && after == before
    } else if uptime_secs < STARTUP_GRACE_SECS {
        outcome is Grace && after == before
    } else {
        outcome matches SweepOutcome::Swept(report) && {
            &&& !after.shutdown_requested
            &&& exists|middle: Registry|
                {
                    &&& #[trigger] registry::stale_expired(
                        before.registry,
                        middle,
                        now,
                        write,
                        report.stale,
                    )
                    &&& registry::dead_expired(
                        middle,
                        after.registry,
                        pid_is_alive,
                        write,
                        report.dead,
                    )
                }
        }
    }
}

/// Whether the host can be asked what a sweep at `now` asks, and the writer for
/// what it writes. Neither is asked for anything once a shutdown is requested
/// or before the startup grace is over.
pub open spec fn sweep_answers<
    F: Fn(u32) -> bool,
    W: Fn(&Registry, &PathBuf) -> Result<(), String>,
>(
    before: DaemonState,
    uptime_secs: u64,
    now: Timestamp,
    pid_is_alive: F,
    write: W,
) -> bool {
    !before.shutdown_requested && uptime_secs >= STARTUP_GRACE_SECS ==> {
        let file = before.registry.file();
        let leases = before.registry@;
        let left = leases::with_expired(leases, leases::ids_where(leases, leases::stale(now)));
        &&& registry::stale_expiry_writes(file, leases, now, write)
        &&& registry::clients_known(left, pid_is_alive)
        &&& registry::dead_expiry_writes(file, left, pid_is_alive, write)
    }
}

/// Expires stale leases and those of dead clients, once the startup grace is over.
pub fn sweep<F: Fn(u32) -> bool, W: Fn(&Registry, &PathBuf) -> Result<(), String>>(
    state: &mut DaemonState,
    uptime_secs: u64,
    pid_is_alive: F,
    write: &W,
) -> (outcome: SweepOutcome)
    requires
        old(state).registry.wf(),
        forall|now: Timestamp| #[trigger]
            clock::is_clock_reading(now) ==> sweep_answers(
                *old(state),
                uptime_secs,
                now,
                pid_is_alive,
                *write,
            ),
    ensures
        final(state).registry.wf(),
        exists|now: Timestamp| #[trigger]
            clock::is_clock_reading(now) && swept(
                *old(state),
                *final(state),
                uptime_secs,
                now,
                pid_is_alive,
                *write,
                outcome,
            ),
{
    let now = clock::utc_now();
    sweep_at(state, uptime_secs, now, pid_is_alive, write)
}

/// Expires the leases that are stale at the given instant and those of dead
/// clients, once the startup grace is over.
pub fn sweep_at<F: Fn(u32) -> bool, W: Fn(&Registry, &PathBuf) -> Result<(), String>>(
    state: &mut DaemonState,
    uptime_secs: u64,
    now: Timestamp,
    pid_is_alive: F,
    write: &W,
) -> (outcome: SweepOutcome)
    requires
        old(state).registry.wf(),
        sweep_answers(*old(state), uptime_secs, now, pid_is_alive, *write),
    ensures
        final(state).registry.wf(),
        swept(
            *old(state),
            *final(state),
            uptime_secs,
            now,
            pid_is_alive,
            *write,
            outcome,
        ),
{
    if state.shutdown_requested {
        return SweepOutcome::Stopped;
    }
    if uptime_secs < STARTUP_GRACE_SECS {
        return SweepOutcome::Grace;
    }
    let stale = state.registry.expire_stale_at(now, write);
    let ghost middle = state.registry;
    assert(registry::stale_expired(old(state).registry, middle, now, *write, stale));
    let dead = state.registry.expire_dead_clients(pid_is_alive, write);
    assert(registry::dead_expired(middle, state.registry, pid_is_alive, *write, dead));
    SweepOutcome::Swept(SweepReport { stale, dead })
}

/// What the daemon does after a sweep.
#[derive(Debug, Clone, Copy, PartialEq, Eq, Structural)]
pub enum IdleStep {
    /// There are live leases: the idle time starts anew.
    Busy,
    /// There are none, but the daemon has not been idle for long enough.
    Waiting,
    /// The daemon has been idle for too long and shuts down.
    Shutdown,
}

/// Idle shutdown check: requests a shutdown where the daemon has had no live
/// leases for longer than the idle timeout.
pub fn idle_check(state: &mut DaemonState, idle_secs: u64) -> (step: IdleStep)
    requires
        old(state).registry.wf(),
    ensures
        final(state).registry == old(state).registry,
        step == if leases::ids_where(old(state).registry@, leases::live()).len() > 0 {
            IdleStep::Busy
        } else if idle_secs > IDLE_TIMEOUT_SECS {
            IdleStep::Shutdown
        } else {
            IdleStep::Waiting
        },
        final(state).shutdown_requested == (old(state).shutdown_requested || step
            == IdleStep::Shutdown),
{
    if state.registry.active_count() > 0 {
        IdleStep::Busy
    } else if idle_secs > IDLE_TIMEOUT_SECS {
        state.shutdown_requested = true;
        IdleStep::Shutdown
    } else {
        IdleStep::Waiting
    }
}

// ── What holds of every request ─────────────────────────────────────────

/// Requests of clients keep the promise that no two live leases share a port
/// and no service holds two, whatever the request.
pub proof fn requests_keep_leases_unique<
    P: Fn(u16, Protocol) -> bool,
    U: Fn() -> HashSet<u16>,
    W: Fn(&Registry, &PathBuf) -> Result<(), String>,
>(
    request: Request,
    before: DaemonState,
    after: DaemonState,
    info: ProcessInfo,
    is_port_available: P,
    used_ports: U,
    write: W,
    response: Response,
)
    requires
        guarantees::ports_unique(before.registry@),
        guarantees::services_unique(before.registry@),
        guarantees::ids_match(before.registry@),
        answered(
            request,
            before,
            after,
            info,
            is_port_available,
            used_ports,
            write,
            response,
        ),
    ensures
        guarantees::ports_unique(after.registry@),
        guarantees::services_unique(after.registry@),
        guarantees::ids_match(after.registry@),
{
    match request {
        Request::Allocate { project, service, preferred_port, protocol, auto_reassign, pid } => {
            let outcome = choose|outcome: Result<Lease, RegistryError>| #[trigger]
                registry::allocated(
                    before.registry,
                    after.registry,
                    project,
                    service,
                    preferred_port,
                    protocol,
                    auto_reassign,
                    pid,
                    is_port_available,
                    used_ports,
                    write,
                    outcome,
                );
            guarantees::allocation_keeps_ports_unique(
                before.registry,
                after.registry,
                project,
                service,
                preferred_port,
                protocol,
                auto_reassign,
                pid,
                is_port_available,
                used_ports,
                write,
                outcome,
            );
            guarantees::allocation_keeps_services_unique(
                before.registry,
                after.registry,
                project,
                service,
                preferred_port,
                protocol,
                auto_reassign,
                pid,
                is_port_available,
                used_ports,
                write,
                outcome,
            );
            guarantees::allocation_keeps_ids(
                before.registry,
                after.registry,
                project,
                service,
                preferred_port,
                protocol,
                auto_reassign,
                pid,
                is_port_available,
                used_ports,
                write,
                outcome,
            );
        },
        _ => {
            assert(guarantees::no_new_holder(before.registry@, after.registry@));
            guarantees::no_new_holder_keeps_unique(before.registry@, after.registry@);
        },
    }
}

/// Sweeps keep the promise as well.
pub proof fn sweeps_keep_leases_unique<
    F: Fn(u32) -> bool,
    W: Fn(&Registry, &PathBuf) -> Result<(), String>,
>(
    before: DaemonState,
    after: DaemonState,
    uptime_secs: u64,
    now: Timestamp,
    pid_is_alive: F,
    write: W,
    outcome: SweepOutcome,
)
    requires
        guarantees::ports_unique(before.registry@),
        guarantees::services_unique(before.registry@),
        guarantees::ids_match(before.registry@),
        swept(before, after, uptime_secs, now, pid_is_alive, write, outcome),
    ensures
        guarantees::ports_unique(after.registry@),
        guarantees::services_unique(after.registry@),
        guarantees::ids_match(after.registry@),
{
    if let SweepOutcome::Swept(report) = outcome {
        let middle = choose|middle: Registry|
            {
                &&& #[trigger] registry::stale_expired(
                    before.registry,
                    middle,
                    now,
                    write,
                    report.stale,
                )
                &&& registry::dead_expired(
                    middle,
                    after.registry,
                    pid_is_alive,
                    write,
                    report.dead,
                )
            };
        guarantees::stale_expiry_adds_no_holder(before.registry, middle, now, write, report.stale);
        guarantees::no_new_holder_keeps_unique(before.registry@, middle@);
        guarantees::dead_client_expiry_adds_no_holder(
            middle,
            after.registry,
            pid_is_alive,
            write,
            report.dead,
        );
        guarantees::no_new_holder_keeps_unique(middle@, after.registry@);
    }
}

/// Within the startup grace a sweep expires no lease, whatever its expiry and
/// whatever became of its client.
pub proof fn startup_grace_spares_all_leases<
    F: Fn(u32) -> bool,
    W: Fn(&Registry, &PathBuf) -> Result<(), String>,
>(
    before: DaemonState,
    after: DaemonState,
    uptime_secs: u64,
    now: Timestamp,
    pid_is_alive: F,
    write: W,
    outcome: SweepOutcome,
)
    requires
        swept(before, after, uptime_secs, now, pid_is_alive, write, outcome),
        uptime_secs < STARTUP_GRACE_SECS,
    ensures
        after == before,
{
}

/// Of all requests only `Shutdown` ends the daemon, and it alone is answered
/// with the end of the connection.
pub proof fn only_shutdown_ends_the_daemon<
    P: Fn(u16, Protocol) -> bool,
    U: Fn() -> HashSet<u16>,
    W: Fn(&Registry, &PathBuf) -> Result<(), String>,
>(
    request: Request,
    before: DaemonState,
    after: DaemonState,
    info: ProcessInfo,
    is_port_available: P,
    used_ports: U,
    write: W,
    response: Response,
)
    requires
        answered(
            request,
            before,
            after,
            info,
            is_port_available,
            used_ports,
            write,
            response,
        ),
    ensures
        after.shutdown_requested == (before.shutdown_requested || request is Shutdown),
        response is ShuttingDown <==> request is Shutdown,
{
}

/// Asking for the leases or for the status changes nothing.
pub proof fn questions_change_nothing<
    P: Fn(u16, Protocol) -> bool,
    U: Fn() -> HashSet<u16>,
    W: Fn(&Registry, &PathBuf) -> Result<(), String>,
>(
    request: Request,
    before: DaemonState,
    after: DaemonState,
    info: ProcessInfo,
    is_port_available: P,
    used_ports: U,
    write: W,
    response: Response,
)
    requires
        answered(
            request,
            before,
            after,
            info,
            is_port_available,
            used_ports,
            write,
            response,
        ),
        request is List || request is Status,
    ensures
        after == before,
        !(response is Error),
{
}

/// The lease and the token that a request names, where it acts on a lease.
pub open spec fn named_lease(request: Request) -> Option<(Seq<char>, Seq<char>)> {
    match request {
        Request::Confirm { lease_id, session_token } => Some((lease_id@, session_token@)),
        Request::Release { lease_id, session_token } => Some((lease_id@, session_token@)),
        Request::Heartbeat { lease_id, session_token } => Some((lease_id@, session_token@)),
        _ => None,
    }
}

/// Only the holder of a lease can act on it: a request with another token is
/// answered with an error and changes nothing.
pub proof fn wrong_token_is_refused<
    P: Fn(u16, Protocol) -> bool,
    U: Fn() -> HashSet<u16>,
    W: Fn(&Registry, &PathBuf) -> Result<(), String>,
>(
    request: Request,
    before: DaemonState,
    after: DaemonState,
    info: ProcessInfo,
    is_port_available: P,
    used_ports: U,
    write: W,
    response: Response,
)
    requires
        answered(
            request,
            before,
            after,
            info,
            is_port_available,
            used_ports,
            write,
            response,
        ),
        named_lease(request) matches Some((lease_id, session_token))
            && before.registry@.contains_key(lease_id)
            && before.registry@[lease_id].session_token@ != session_token,
    ensures
        after == before,
        response matches Response::Error { message, .. } && message@ == "invalid session token"@,
{
}

/// A request for a lease that is not known is answered with an error and
/// changes nothing.
pub proof fn unknown_lease_is_refused<
    P: Fn(u16, Protocol) -> bool,
    U: Fn() -> HashSet<u16>,
    W: Fn(&Registry, &PathBuf) -> Result<(), String>,
>(
    request: Request,
    before: DaemonState,
    after: DaemonState,
    info: ProcessInfo,
    is_port_available: P,
    used_ports: U,
    write: W,
    response: Response,
)
    requires
        answered(
            request,
            before,
            after,
            info,
            is_port_available,
            used_ports,
            write,
            response,
        ),
        named_lease(request) matches Some((lease_id, session_token))
            && !before.registry@.contains_key(lease_id),
    ensures
        after == before,
        response matches Response::Error { message, .. } && message@ == "lease not found"@,
{
}

/// A service that has a live lease is refused another, and nothing changes.
pub proof fn second_lease_is_refused<
    P: Fn(u16, Protocol) -> bool,
    U: Fn() -> HashSet<u16>,
    W: Fn(&Registry, &PathBuf) -> Result<(), String>,
>(
    request: Request,
    before: DaemonState,
    after: DaemonState,
    info: ProcessInfo,
    is_port_available: P,
    used_ports: U,
    write: W,
    response: Response,
)
    requires
        answered(
            request,
            before,
            after,
            info,
            is_port_available,
            used_ports,
            write,
            response,
        ),
        request matches Request::Allocate { project, service, .. } && leases::service_held(
            before.registry@,
            project@,
            service@,
        ),
    ensures
        after == before,
        response matches Response::Error { code, .. } && code@ == "allocation_failed"@,
{
}

// ── What holds at all times ─────────────────────────────────────────────

/// Whether the daemon may get from one state to the next: by a request, by a
/// sweep or by the idle check.
pub open spec fn next_state<
    P: Fn(u16, Protocol) -> bool,
    U: Fn() -> HashSet<u16>,
    W: Fn(&Registry, &PathBuf) -> Result<(), String>,
    F: Fn(u32) -> bool,
>(
    before: DaemonState,
    after: DaemonState,
    is_port_available: P,
    used_ports: U,
    write: W,
    pid_is_alive: F,
) -> bool {
    ||| exists|request: Request, info: ProcessInfo, response: Response| #[trigger]
        answered(
            request,
            before,
            after,
            info,
            is_port_available,
            used_ports,
            write,
            response,
        )
    ||| exists|uptime_secs: u64, now: Timestamp, outcome: SweepOutcome| #[trigger]
        swept(before, after, uptime_secs, now, pid_is_alive, write, outcome)
    ||| after.registry == before.registry
}

/// Whether the leases keep the promises of the registry: no two live ones on
/// one port, none twice for one service, each under its own id.
pub open spec fn keeps_promises(state: DaemonState) -> bool {
    &&& guarantees::ports_unique(state.registry@)
    &&& guarantees::services_unique(state.registry@)
    &&& guarantees::ids_match(state.registry@)
}

/// Whatever happens, in whatever order, no two live leases ever share a port
/// and no service ever holds two.
pub proof fn every_history_keeps_the_promises<
    P: Fn(u16, Protocol) -> bool,
    U: Fn() -> HashSet<u16>,
    W: Fn(&Registry, &PathBuf) -> Result<(), String>,
    F: Fn(u32) -> bool,
>(
    history: Seq<DaemonState>,
    is_port_available: P,
    used_ports: U,
    write: W,
    pid_is_alive: F,
    n: int,
)
    requires
        0 <= n < history.len(),
        keeps_promises(history[0]),
        forall|i: int|
            0 < i < history.len() ==> next_state(
                history[i - 1],
                #[trigger] history[i],
                is_port_available,
                used_ports,
                write,
                pid_is_alive,
            ),
    ensures
        keeps_promises(history[n]),
    decreases n,
{
    if n > 0 {
        every_history_keeps_the_promises(
            history,
            is_port_available,
            used_ports,
            write,
            pid_is_alive,
            n - 1,
        );
        let before = history[n - 1];
        let after = history[n];
        assert(next_state(before, after, is_port_available, used_ports, write, pid_is_alive));
        if exists|request: Request, info: ProcessInfo, response: Response| #[trigger]
            answered(
                request,
                before,
                after,
                info,
                is_port_available,
                used_ports,
                write,
                response,
            ) {
            let (request, info, response) = choose|
                request: Request,
                info: ProcessInfo,
                response: Response,
            | #[trigger]
                answered(
                    request,
                    before,
                    after,
                    info,
                    is_port_available,
                    used_ports,
                    write,
                    response,
                );
            requests_keep_leases_unique(
                request,
                before,
                after,
                info,
                is_port_available,
                used_ports,
                write,
                response,
            );
        } else if exists|uptime_secs: u64, now: Timestamp, outcome: SweepOutcome| #[trigger]
            swept(before, after, uptime_secs, now, pid_is_alive, write, outcome) {
            let (uptime_secs, now, outcome) = choose|
                uptime_secs: u64,
                now: Timestamp,
                outcome: SweepOutcome,
            | #[trigger]
                swept(before, after, uptime_secs, now, pid_is_alive, write, outcome);
            sweeps_keep_leases_unique(
                before,
                after,
                uptime_secs,
                now,
                pid_is_alive,
                write,
                outcome,
            );
        }
    }
}

} // verus!
