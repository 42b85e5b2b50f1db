//! What the registry as a whole guarantees, whatever the order of the calls.
//!
//! The contracts of the registry's methods say what one call does. Here stands
//! what follows for every registry: no two live leases share a port, no service
//! holds two, only the holder of a token acts on its lease, only an allocation
//! makes a port held, what is acknowledged is on disk.
use std::collections::HashSet;
use std::path::PathBuf;
use vstd::prelude::*;
use crate::clock;
use crate::clock::Timestamp;
use crate::leases;
use crate::leases::LeaseEntry;
use crate::model;
use crate::model::{Lease, LeaseState, Protocol};
use crate::port_check;
use crate::registry;
use crate::registry::{Registry, RegistryError};

verus! {

// ── Invariants ──────────────────────────────────────────────────────────

/// Whether no two live leases hold the same port.
pub open spec fn ports_unique(leases: Map<Seq<char>, Lease>) -> bool {
    forall|a: Seq<char>, b: Seq<char>|
        #![trigger leases.contains_key(a), leases.contains_key(b)]
        leases.contains_key(a) && leases.contains_key(b) && a != b && model::is_live(
            leases[a].state,
        ) && model::is_live(leases[b].state) && leases[a].protocol == leases[b].protocol
            ==> leases[a].port != leases[b].port
}

/// Whether no two live leases are held for the same service.
pub open spec fn services_unique(leases: Map<Seq<char>, Lease>) -> bool {
    forall|a: Seq<char>, b: Seq<char>|
        #![trigger leases.contains_key(a), leases.contains_key(b)]
        leases.contains_key(a) && leases.contains_key(b) && a != b && model::is_live(
            leases[a].state,
        ) && model::is_live(leases[b].state) && leases[a].project_path@ == leases[b].project_path@
            ==> leases[a].service_name@ != leases[b].service_name@
}

/// Whether every lease stands under its own id.
pub open spec fn ids_match(leases: Map<Seq<char>, Lease>) -> bool {
    forall|id: Seq<char>| #[trigger] leases.contains_key(id) ==> leases[id].lease_id@ == id
}

/// Whether every live lease was live before, under the same id, for the same
/// service, on the same port and with the same token.
pub open spec fn no_new_holder(
    before: Map<Seq<char>, Lease>,
    after: Map<Seq<char>, Lease>,
) -> bool {
    forall|id: Seq<char>| #[trigger]
        after.contains_key(id) ==> {
            &&& before.contains_key(id)
            &&& model::is_live(after[id].state) ==> model::is_live(before[id].state)
            &&& after[id].lease_id == before[id].lease_id
            &&& after[id].project_path == before[id].project_path
            &&& after[id].service_name == before[id].service_name
            &&& after[id].port == before[id].port
            &&& after[id].protocol == before[id].protocol
            &&& after[id].client_pid == before[id].client_pid
            &&& after[id].session_token == before[id].session_token
            &&& after[id].granted_at == before[id].granted_at
        }
}

/// An empty registry meets the invariants.
pub proof fn empty_registry_is_unique()
    ensures
        ports_unique(Map::<Seq<char>, Lease>::empty()),
        services_unique(Map::<Seq<char>, Lease>::empty()),
        ids_match(Map::<Seq<char>, Lease>::empty()),
{
}

/// Where no new holder appears, ports and services stay unique.
pub proof fn no_new_holder_keeps_unique(
    before: Map<Seq<char>, Lease>,
    after: Map<Seq<char>, Lease>,
)
    requires
        no_new_holder(before, after),
    ensures
        ports_unique(before) ==> ports_unique(after),
        services_unique(before) ==> services_unique(after),
        ids_match(before) ==> ids_match(after),
{
}

// ── Allocation ──────────────────────────────────────────────────────────

/// A port that is chosen is not held by a live lease.
proof fn lemma_chosen_port_not_held<P: Fn(u16, Protocol) -> bool, U: Fn() -> HashSet<u16>>(
    leases: Map<Seq<char>, Lease>,
    preferred_port: Option<u16>,
    protocol: Protocol,
    auto_reassign: bool,
    is_port_available: P,
    used_ports: U,
    port: u16,
)
    requires
        registry::chosen_port(
            leases,
            preferred_port,
            protocol,
            auto_reassign,
            is_port_available,
            used_ports,
            Ok(port),
        ),
    ensures
        !leases::port_held(leases, port, protocol),
{
    if leases::port_held(leases, port, protocol) {
        let id = choose|id: Seq<char>| #[trigger]
            leases.contains_key(id) && leases::holds_port(leases[id], port, protocol);
        assert(leases.contains_key(id));
        assert(leases::held_ports(leases, None).contains(port));
        assert(leases::held_ports(leases, Some(protocol)).contains(port));
        assert(registry::auto_port(leases, protocol, is_port_available, used_ports, Ok(port)));
    }
}

/// An allocation either changes nothing and fails, or grants a new lease on the
/// chosen port, which is then returned.
pub(crate) proof fn lemma_allocated<
    P: Fn(u16, Protocol) -> bool,
    U: Fn() -> HashSet<u16>,
    W: Fn(&Registry, &PathBuf) -> Result<(), String>,
>(
    before: Registry,
    after: Registry,
    project: String,
    service: String,
    preferred_port: Option<u16>,
    protocol: Protocol,
    auto_reassign: bool,
    pid: Option<u32>,
    is_port_available: P,
    used_ports: U,
    write: W,
    outcome: Result<Lease, RegistryError>,
) -> (granted: Option<(u16, Lease)>)
    requires
        registry::allocated(
            before,
            after,
            project,
            service,
            preferred_port,
            protocol,
            auto_reassign,
            pid,
            is_port_available,
            used_ports,
            write,
            outcome,
        ),
    ensures
        match granted {
            None => after == before && outcome is Err && !(outcome->Err_0 is Save),
            Some((port, lease)) => {
                &&& !leases::service_held(before@, project@, service@)
                &&& registry::chosen_port(
                    before@,
                    preferred_port,
                    protocol,
                    auto_reassign,
                    is_port_available,
                    used_ports,
                    Ok(port),
                )
                &&& model::is_new_lease(
                    lease,
                    project,
                    service,
                    port,
                    protocol,
                    pid,
                    registry::DEFAULT_LEASE_SECS as int,
                )
                &&& registry::granted(before, after, lease, write, outcome)
            },
        },
{
    if leases::service_held(before@, project@, service@) {
        None
    } else {
        let choice = choose|choice: Result<u16, RegistryError>|
            {
                &&& #[trigger] registry::chosen_port(
                    before@,
                    preferred_port,
                    protocol,
                    auto_reassign,
                    is_port_available,
                    used_ports,
                    choice,
                )
                &&& match choice {
                    Err(error) => outcome == Err::<Lease, RegistryError>(error) && after == before,
                    Ok(port) => exists|lease: Lease|
                        {
                            &&& #[trigger] model::is_new_lease(
                                lease,
                                project,
                                service,
                                port,
                                protocol,
                                pid,
                                registry::DEFAULT_LEASE_SECS as int,
                            )
                            &&& registry::granted(before, after, lease, write, outcome)
                        },
                }
            };
        match choice {
            Err(error) => None,
            Ok(port) => {
                let lease = choose|lease: Lease|
                    {
                        &&& #[trigger] model::is_new_lease(
                            lease,
                            project,
                            service,
                            port,
                            protocol,
                            pid,
                            registry::DEFAULT_LEASE_SECS as int,
                        )
                        &&& registry::granted(before, after, lease, write, outcome)
                    };
                Some((port, lease))
            },
        }
    }
}

/// Every service gets a port of its own: an allocation never hands out a port
/// that a live lease holds.
pub proof fn allocation_keeps_ports_unique<
    P: Fn(u16, Protocol) -> bool,
    U: Fn() -> HashSet<u16>,
    W: Fn(&Registry, &PathBuf) -> Result<(), String>,
>(
    before: Registry,
    after: Registry,
    project: String,
    service: String,
    preferred_port: Option<u16>,
    protocol: Protocol,
    auto_reassign: bool,
    pid: Option<u32>,
    is_port_available: P,
    used_ports: U,
    write: W,
    outcome: Result<Lease, RegistryError>,
)
    requires
        ports_unique(before@),
        registry::allocated(
            before,
            after,
            project,
            service,
            preferred_port,
            protocol,
            auto_reassign,
            pid,
            is_port_available,
            used_ports,
            write,
            outcome,
        ),
    ensures
        ports_unique(after@),
        outcome matches Ok(lease) ==> !leases::port_held(before@, lease.port, protocol),
{
    let granted = lemma_allocated(
        before,
        after,
        project,
        service,
        preferred_port,
        protocol,
        auto_reassign,
        pid,
        is_port_available,
        used_ports,
        write,
        outcome,
    );
    if let Some((port, lease)) = granted {
        lemma_chosen_port_not_held(
            before@,
            preferred_port,
            protocol,
            auto_reassign,
            is_port_available,
            used_ports,
            port,
        );
        assert forall|a: Seq<char>, b: Seq<char>|
            #![trigger after@.contains_key(a), after@.contains_key(b)]
            after@.contains_key(a) && after@.contains_key(b) && a != b && model::is_live(
                after@[a].state,
            ) && model::is_live(after@[b].state) && after@[a].protocol
                == after@[b].protocol implies after@[a].port != after@[b].port by {
            if a != lease.lease_id@ {
                assert(before@.contains_key(a));
            }
            if b != lease.lease_id@ {
                assert(before@.contains_key(b));
            }
        }
    }
}

/// No service holds two live leases after an allocation if none did before.
pub proof fn allocation_keeps_services_unique<
    P: Fn(u16, Protocol) -> bool,
    U: Fn() -> HashSet<u16>,
    W: Fn(&Registry, &PathBuf) -> Result<(), String>,
>(
    before: Registry,
    after: Registry,
    project: String,
    service: String,
    preferred_port: Option<u16>,
    protocol: Protocol,
    auto_reassign: bool,
    pid: Option<u32>,
    is_port_available: P,
    used_ports: U,
    write: W,
    outcome: Result<Lease, RegistryError>,
)
    requires
        services_unique(before@),
        registry::allocated(
            before,
            after,
            project,
            service,
            preferred_port,
            protocol,
            auto_reassign,
            pid,
            is_port_available,
            used_ports,
            write,
            outcome,
        ),
    ensures
        services_unique(after@),
{
    let granted = lemma_allocated(
        before,
        after,
        project,
        service,
        preferred_port,
        protocol,
        auto_reassign,
        pid,
        is_port_available,
        used_ports,
        write,
        outcome,
    );
    if let Some((port, lease)) = granted {
        assert forall|a: Seq<char>, b: Seq<char>|
            #![trigger after@.contains_key(a), after@.contains_key(b)]
            after@.contains_key(a) && after@.contains_key(b) && a != b && model::is_live(
                after@[a].state,
            ) && model::is_live(after@[b].state) && after@[a].project_path@
                == after@[b].project_path@ implies after@[a].service_name@
            != after@[b].service_name@ by {
            if a != lease.lease_id@ {
                assert(before@.contains_key(a));
            }
            if b != lease.lease_id@ {
                assert(before@.contains_key(b));
            }
        }
    }
}

/// A lease is entered under its own id.
pub proof fn allocation_keeps_ids<
    P: Fn(u16, Protocol) -> bool,
    U: Fn() -> HashSet<u16>,
    W: Fn(&Registry, &PathBuf) -> Result<(), String>,
>(
    before: Registry,
    after: Registry,
    project: String,
    service: String,
    preferred_port: Option<u16>,
    protocol: Protocol,
    auto_reassign: bool,
    pid: Option<u32>,
    is_port_available: P,
    used_ports: U,
    write: W,
    outcome: Result<Lease, RegistryError>,
)
    requires
        ids_match(before@),
        registry::allocated(
            before,
            after,
            project,
            service,
            preferred_port,
            protocol,
            auto_reassign,
            pid,
            is_port_available,
            used_ports,
            write,
            outcome,
        ),
    ensures
        ids_match(after@),
{
    let granted = lemma_allocated(
        before,
        after,
        project,
        service,
        preferred_port,
        protocol,
        auto_reassign,
        pid,
        is_port_available,
        used_ports,
        write,
        outcome,
    );
    if let Some((port, lease)) = granted {
        assert forall|id: Seq<char>| #[trigger] after@.contains_key(id) implies after@[id].lease_id@
            == id by {
            if id != lease.lease_id@ {
                assert(before@.contains_key(id));
            }
        }
    }
}

/// A request that is turned down changes nothing. (One whose lease could not be
/// written to disk keeps the lease.)
pub proof fn refused_allocation_changes_nothing<
    P: Fn(u16, Protocol) -> bool,
    U: Fn() -> HashSet<u16>,
    W: Fn(&Registry, &PathBuf) -> Result<(), String>,
>(
    before: Registry,
    after: Registry,
    project: String,
    service: String,
    preferred_port: Option<u16>,
    protocol: Protocol,
    auto_reassign: bool,
    pid: Option<u32>,
    is_port_available: P,
    used_ports: U,
    write: W,
    outcome: Result<Lease, RegistryError>,
)
    requires
        registry::allocated(
            before,
            after,
            project,
            service,
            preferred_port,
            protocol,
            auto_reassign,
            pid,
            is_port_available,
            used_ports,
            write,
            outcome,
        ),
        outcome matches Err(error) && !(error is Save),
    ensures
        after == before,
{
    let granted = lemma_allocated(
        before,
        after,
        project,
        service,
        preferred_port,
        protocol,
        auto_reassign,
        pid,
        is_port_available,
        used_ports,
        write,
        outcome,
    );
}

/// An allocation that succeeds grants a pending lease to the service that asked
/// for it, under an id of its own, and leaves every other lease as it was.
pub proof fn allocation_grants_what_was_asked_for<
    P: Fn(u16, Protocol) -> bool,
    U: Fn() -> HashSet<u16>,
    W: Fn(&Registry, &PathBuf) -> Result<(), String>,
>(
    before: Registry,
    after: Registry,
    project: String,
    service: String,
    preferred_port: Option<u16>,
    protocol: Protocol,
    auto_reassign: bool,
    pid: Option<u32>,
    is_port_available: P,
    used_ports: U,
    write: W,
    outcome: Result<Lease, RegistryError>,
)
    requires
        registry::allocated(
            before,
            after,
            project,
            service,
            preferred_port,
            protocol,
            auto_reassign,
            pid,
            is_port_available,
            used_ports,
            write,
            outcome,
        ),
        outcome is Ok,
    ensures
        outcome matches Ok(lease) && {
            &&& lease.state is Pending
            &&& lease.project_path == project
            &&& lease.service_name == service
            &&& lease.protocol == protocol
            &&& lease.client_pid == pid
            &&& after@ == before@.insert(lease.lease_id@, lease)
            &&& registry::saved(after, write, Ok(()))
        },
{
    let granted = lemma_allocated(
        before,
        after,
        project,
        service,
        preferred_port,
        protocol,
        auto_reassign,
        pid,
        is_port_available,
        used_ports,
        write,
        outcome,
    );
}

/// A preferred port that is free is the port that is allocated.
pub proof fn free_preferred_port_is_allocated<
    P: Fn(u16, Protocol) -> bool,
    U: Fn() -> HashSet<u16>,
    W: Fn(&Registry, &PathBuf) -> Result<(), String>,
>(
    before: Registry,
    after: Registry,
    project: String,
    service: String,
    preferred_port: Option<u16>,
    protocol: Protocol,
    auto_reassign: bool,
    pid: Option<u32>,
    is_port_available: P,
    used_ports: U,
    write: W,
    outcome: Result<Lease, RegistryError>,
)
    requires
        registry::allocated(
            before,
            after,
            project,
            service,
            preferred_port,
            protocol,
            auto_reassign,
            pid,
            is_port_available,
            used_ports,
            write,
            outcome,
        ),
        preferred_port matches Some(port) && {
            &&& !leases::port_held(before@, port, protocol)
            &&& !port_check::refused(is_port_available, port, protocol)
        },
    ensures
        outcome matches Ok(lease) ==> Some(lease.port) == preferred_port,
        !leases::service_held(before@, project@, service@) ==> (outcome matches Err(error)
            ==> error is Save),
{
    let granted = lemma_allocated(
        before,
        after,
        project,
        service,
        preferred_port,
        protocol,
        auto_reassign,
        pid,
        is_port_available,
        used_ports,
        write,
        outcome,
    );
}

/// A port that nobody asked for comes from the default range.
pub proof fn unasked_port_is_in_the_default_range<
    P: Fn(u16, Protocol) -> bool,
    U: Fn() -> HashSet<u16>,
    W: Fn(&Registry, &PathBuf) -> Result<(), String>,
>(
    before: Registry,
    after: Registry,
    project: String,
    service: String,
    preferred_port: Option<u16>,
    protocol: Protocol,
    auto_reassign: bool,
    pid: Option<u32>,
    is_port_available: P,
    used_ports: U,
    write: W,
    outcome: Result<Lease, RegistryError>,
)
    requires
        registry::allocated(
            before,
            after,
            project,
            service,
            preferred_port,
            protocol,
            auto_reassign,
            pid,
            is_port_available,
            used_ports,
            write,
            outcome,
        ),
    ensures
        outcome matches Ok(lease) ==> Some(lease.port) == preferred_port
            || port_check::AUTO_PORT_FIRST <= lease.port <= port_check::AUTO_PORT_LAST,
        outcome matches Ok(lease) ==> Some(lease.port) == preferred_port || preferred_port is None
            || auto_reassign,
{
    let granted = lemma_allocated(
        before,
        after,
        project,
        service,
        preferred_port,
        protocol,
        auto_reassign,
        pid,
        is_port_available,
        used_ports,
        write,
        outcome,
    );
}

// ── Nothing but an allocation makes a port held ─────────────────────────

/// A confirmation makes no port held that was not.
pub proof fn confirm_adds_no_holder<W: Fn(&Registry, &PathBuf) -> Result<(), String>>(
    before: Registry,
    after: Registry,
    lease_id: Seq<char>,
    session_token: Seq<char>,
    now: Timestamp,
    write: W,
    outcome: Result<(), RegistryError>,
)
    requires
        registry::confirmed(before, after, lease_id, session_token, now, write, outcome),
    ensures
        no_new_holder(before@, after@),
{
}

/// A release makes no port held that was not.
pub proof fn release_adds_no_holder<W: Fn(&Registry, &PathBuf) -> Result<(), String>>(
    before: Registry,
    after: Registry,
    lease_id: Seq<char>,
    session_token: Seq<char>,
    write: W,
    outcome: Result<(), RegistryError>,
)
    requires
        registry::released(before, after, lease_id, session_token, write, outcome),
    ensures
        no_new_holder(before@, after@),
{
}

/// A heartbeat makes no port held that was not.
pub proof fn heartbeat_adds_no_holder<W: Fn(&Registry, &PathBuf) -> Result<(), String>>(
    before: Registry,
    after: Registry,
    lease_id: Seq<char>,
    session_token: Seq<char>,
    now: Timestamp,
    write: W,
    outcome: Result<String, RegistryError>,
)
    requires
        registry::renewed(before, after, lease_id, session_token, now, write, outcome),
    ensures
        no_new_holder(before@, after@),
{
}

/// Expiring stale leases makes no port held that was not.
pub proof fn stale_expiry_adds_no_holder<W: Fn(&Registry, &PathBuf) -> Result<(), String>>(
    before: Registry,
    after: Registry,
    now: Timestamp,
    write: W,
    outcome: Result<usize, RegistryError>,
)
    requires
        registry::stale_expired(before, after, now, write, outcome),
    ensures
        no_new_holder(before@, after@),
{
}

/// Expiring the leases of dead clients makes no port held that was not.
pub proof fn dead_client_expiry_adds_no_holder<
    F: Fn(u32) -> bool,
    W: Fn(&Registry, &PathBuf) -> Result<(), String>,
>(
    before: Registry,
    after: Registry,
    pid_is_alive: F,
    write: W,
    outcome: Result<usize, RegistryError>,
)
    requires
        registry::dead_expired(before, after, pid_is_alive, write, outcome),
    ensures
        no_new_holder(before@, after@),
{
}

/// Garbage collection makes no port held that was not.
pub proof fn gc_adds_no_holder<W: Fn(&Registry, &PathBuf) -> Result<(), String>>(
    before: Registry,
    after: Registry,
    write: W,
    outcome: Result<usize, RegistryError>,
)
    requires
        registry::collected(before, after, write, outcome),
    ensures
        no_new_holder(before@, after@),
{
}

/// Crash recovery makes no port held that was not.
pub proof fn recovery_adds_no_holder(leases: Map<Seq<char>, Lease>, now: Timestamp)
    ensures
        no_new_holder(leases, leases::all_recovered(leases, now)),
{
}

// ── Only the holder of the token acts on a lease ────────────────────────

/// Without its token a lease cannot be confirmed, and the attempt changes nothing.
pub proof fn wrong_token_cannot_confirm<W: Fn(&Registry, &PathBuf) -> Result<(), String>>(
    before: Registry,
    after: Registry,
    lease_id: Seq<char>,
    session_token: Seq<char>,
    now: Timestamp,
    write: W,
    outcome: Result<(), RegistryError>,
)
    requires
        registry::confirmed(before, after, lease_id, session_token, now, write, outcome),
        before@.contains_key(lease_id),
        before@[lease_id].session_token@ != session_token,
    ensures
        outcome == Err::<(), RegistryError>(RegistryError::InvalidToken),
        after == before,
{
}

/// Without its token a lease cannot be released, and the attempt changes nothing.
pub proof fn wrong_token_cannot_release<W: Fn(&Registry, &PathBuf) -> Result<(), String>>(
    before: Registry,
    after: Registry,
    lease_id: Seq<char>,
    session_token: Seq<char>,
    write: W,
    outcome: Result<(), RegistryError>,
)
    requires
        registry::released(before, after, lease_id, session_token, write, outcome),
        before@.contains_key(lease_id),
        before@[lease_id].session_token@ != session_token,
    ensures
        outcome == Err::<(), RegistryError>(RegistryError::InvalidToken),
        after == before,
{
}

/// Without its token a lease cannot be renewed, and the attempt changes nothing.
pub proof fn wrong_token_cannot_heartbeat<W: Fn(&Registry, &PathBuf) -> Result<(), String>>(
    before: Registry,
    after: Registry,
    lease_id: Seq<char>,
    session_token: Seq<char>,
    now: Timestamp,
    write: W,
    outcome: Result<String, RegistryError>,
)
    requires
        registry::renewed(before, after, lease_id, session_token, now, write, outcome),
        before@.contains_key(lease_id),
        before@[lease_id].session_token@ != session_token,
    ensures
        outcome == Err::<String, RegistryError>(RegistryError::InvalidToken),
        after == before,
{
}

/// A call on one lease leaves every other lease as it was.
pub proof fn other_leases_are_left_alone<W: Fn(&Registry, &PathBuf) -> Result<(), String>>(
    before: Registry,
    after: Registry,
    lease_id: Seq<char>,
    session_token: Seq<char>,
    now: Timestamp,
    write: W,
    confirmation: Result<(), RegistryError>,
    release: Result<(), RegistryError>,
    heartbeat: Result<String, RegistryError>,
    other: Seq<char>,
)
    requires
        registry::confirmed(before, after, lease_id, session_token, now, write, confirmation)
            || registry::released(before, after, lease_id, session_token, write, release)
            || registry::renewed(before, after, lease_id, session_token, now, write, heartbeat),
        other != lease_id,
    ensures
        after@.contains_key(other) == before@.contains_key(other),
        before@.contains_key(other) ==> after@[other] == before@[other],
{
}

// ── The life of a lease ─────────────────────────────────────────────────

/// A lease that was granted can be confirmed by its holder, then renewed, both
/// as long as the calendar goes on, then released, each time with success as far
/// as the disk allows; and a confirmed or renewed lease is good for five
/// minutes from the call.
pub proof fn granted_lease_can_be_used<W: Fn(&Registry, &PathBuf) -> Result<(), String>>(
    granted: Registry,
    confirmed: Registry,
    renewed: Registry,
    released: Registry,
    lease: Lease,
    confirmed_at: Timestamp,
    renewed_at: Timestamp,
    write: W,
    confirmation: Result<(), RegistryError>,
    heartbeat: Result<String, RegistryError>,
    release: Result<(), RegistryError>,
)
    requires
        granted@.contains_key(lease.lease_id@),
        granted@[lease.lease_id@] == lease,
        lease.state is Pending,
        registry::confirmed(
            granted,
            confirmed,
            lease.lease_id@,
            lease.session_token@,
            confirmed_at,
            write,
            confirmation,
        ),
        registry::renewed(
            confirmed,
            renewed,
            lease.lease_id@,
            lease.session_token@,
            renewed_at,
            write,
            heartbeat,
        ),
        clock::representable(
            clock::plus_secs(confirmed_at, model::CONFIRM_EXTENSION_SECS as int),
        ),
        confirmed_at.secs + model::CONFIRM_EXTENSION_SECS <= i64::MAX,
        clock::representable(
            clock::plus_secs(renewed_at, registry::HEARTBEAT_EXTENSION_SECS as int),
        ),
        renewed_at.secs + registry::HEARTBEAT_EXTENSION_SECS <= i64::MAX,
        registry::released(
            renewed,
            released,
            lease.lease_id@,
            lease.session_token@,
            write,
            release,
        ),
    ensures
        confirmation matches Err(error) ==> error is Save,
        confirmed@[lease.lease_id@].state is Active,
        forall|t: Timestamp|
            t.secs < confirmed_at.secs + model::CONFIRM_EXTENSION_SECS
                ==> !#[trigger] confirmed@[lease.lease_id@].expired_at(t),
        heartbeat matches Err(error) ==> error is Save,
        renewed@[lease.lease_id@].state is Active,
        forall|t: Timestamp|
            t.secs < renewed_at.secs + registry::HEARTBEAT_EXTENSION_SECS
                ==> !#[trigger] renewed@[lease.lease_id@].expired_at(t),
        release matches Err(error) ==> error is Save,
        released@[lease.lease_id@].state is Released,
{
}

/// A released lease can be released again, but neither confirmed nor renewed.
pub proof fn released_lease_is_over<W: Fn(&Registry, &PathBuf) -> Result<(), String>>(
    before: Registry,
    confirmed: Registry,
    renewed: Registry,
    lease_id: Seq<char>,
    session_token: Seq<char>,
    now: Timestamp,
    write: W,
    confirmation: Result<(), RegistryError>,
    heartbeat: Result<String, RegistryError>,
)
    requires
        before@.contains_key(lease_id),
        before@[lease_id].state is Released || before@[lease_id].state is Expired,
        registry::confirmed(
            before,
            confirmed,
            lease_id,
            session_token,
            now,
            write,
            confirmation,
        ),
        registry::renewed(before, renewed, lease_id, session_token, now, write, heartbeat),
    ensures
        confirmation is Err,
        confirmed == before,
        heartbeat is Err,
        renewed == before,
{
}

/// Once its lease is released, and no other live lease shares it, a port is no
/// longer held, and neither is the service.
pub proof fn release_frees_the_port<W: Fn(&Registry, &PathBuf) -> Result<(), String>>(
    before: Registry,
    after: Registry,
    lease_id: Seq<char>,
    session_token: Seq<char>,
    write: W,
    outcome: Result<(), RegistryError>,
)
    requires
        ports_unique(before@),
        services_unique(before@),
        before@.contains_key(lease_id),
        before@[lease_id].session_token@ == session_token,
        model::is_live(before@[lease_id].state),
        registry::released(before, after, lease_id, session_token, write, outcome),
    ensures
        ({
            let lease = before@[lease_id];
            &&& !leases::port_held(after@, lease.port, lease.protocol)
            &&& !leases::service_held(after@, lease.project_path@, lease.service_name@)
        }),
{
    let lease = before@[lease_id];
    if leases::port_held(after@, lease.port, lease.protocol) {
        let id = choose|id: Seq<char>| #[trigger]
            after@.contains_key(id) && leases::holds_port(after@[id], lease.port, lease.protocol);
        assert(before@.contains_key(id));
    }
    if leases::service_held(after@, lease.project_path@, lease.service_name@) {
        let id = choose|id: Seq<char>| #[trigger]
            after@.contains_key(id) && leases::holds_service(
                after@[id],
                lease.project_path@,
                lease.service_name@,
            );
        assert(before@.contains_key(id));
    }
}

// ── Housekeeping ────────────────────────────────────────────────────────

/// After a sweep no live lease is past its expiry, and a second sweep at the
/// same instant finds nothing to do.
pub proof fn sweep_leaves_nothing_stale<W: Fn(&Registry, &PathBuf) -> Result<(), String>>(
    before: Registry,
    after: Registry,
    again: Registry,
    now: Timestamp,
    write: W,
    outcome: Result<usize, RegistryError>,
    second: Result<usize, RegistryError>,
)
    requires
        registry::stale_expired(before, after, now, write, outcome),
        registry::stale_expired(after, again, now, write, second),
    ensures
        forall|id: Seq<char>| #[trigger]
            after@.contains_key(id) && model::is_live(after@[id].state)
                ==> !after@[id].expired_at(now),
        again@ == after@,
        second == Ok::<usize, RegistryError>(0),
{
    let stale = leases::ids_where(after@, leases::stale(now));
    assert(stale =~= Set::<Seq<char>>::empty());
    assert(again@ =~= after@);
}

/// A sweep expires no lease that has not run out.
pub proof fn sweep_spares_fresh_leases<W: Fn(&Registry, &PathBuf) -> Result<(), String>>(
    before: Registry,
    after: Registry,
    now: Timestamp,
    write: W,
    outcome: Result<usize, RegistryError>,
    id: Seq<char>,
)
    requires
        registry::stale_expired(before, after, now, write, outcome),
        before@.contains_key(id),
        !before@[id].expired_at(now),
    ensures
        after@.contains_key(id),
        after@[id] == before@[id],
{
}

/// Expiring the leases of dead clients touches no lease without a client and
/// none whose client can only be found alive.
pub proof fn dead_client_expiry_spares_the_living<
    F: Fn(u32) -> bool,
    W: Fn(&Registry, &PathBuf) -> Result<(), String>,
>(
    before: Registry,
    after: Registry,
    pid_is_alive: F,
    write: W,
    outcome: Result<usize, RegistryError>,
    id: Seq<char>,
)
    requires
        registry::dead_expired(before, after, pid_is_alive, write, outcome),
        before@.contains_key(id),
        before@[id].client_pid matches Some(pid) ==> !call_ensures(pid_is_alive, (pid,), false),
    ensures
        after@.contains_key(id),
        after@[id] == before@[id],
{
}

/// Garbage collection keeps every live lease as it is, drops every other, and
/// finds nothing to do a second time.
pub proof fn gc_keeps_exactly_the_live_leases<W: Fn(&Registry, &PathBuf) -> Result<(), String>>(
    before: Registry,
    after: Registry,
    again: Registry,
    write: W,
    outcome: Result<usize, RegistryError>,
    second: Result<usize, RegistryError>,
)
    requires
        registry::collected(before, after, write, outcome),
        registry::collected(after, again, write, second),
    ensures
        forall|id: Seq<char>| #[trigger]
            after@.contains_key(id) <==> before@.contains_key(id) && model::is_live(
                before@[id].state,
            ),
        forall|id: Seq<char>| #[trigger] after@.contains_key(id) ==> after@[id] == before@[id],
        again@ == after@,
        second == Ok::<usize, RegistryError>(0),
{
    assert(leases::ids_where(after@, leases::ended()) =~= Set::<Seq<char>>::empty());
    assert(again@ =~= after@);
}

// ── Crash recovery and persistence ──────────────────────────────────────

/// After recovery no active lease is past its expiry, and recovering again at
/// the same instant changes nothing.
pub proof fn recovery_leaves_nothing_lapsed(leases: Map<Seq<char>, Lease>, now: Timestamp)
    ensures
        forall|id: Seq<char>| #[trigger]
            leases::all_recovered(leases, now).contains_key(id) && leases::all_recovered(
                leases,
                now,
            )[id].state is Active ==> !leases::all_recovered(leases, now)[id].expired_at(now),
        leases::all_recovered(leases::all_recovered(leases, now), now) == leases::all_recovered(
            leases,
            now,
        ),
{
    assert(leases::all_recovered(leases::all_recovered(leases, now), now)
        =~= leases::all_recovered(leases, now));
}

/// An active lease that ran out at most a minute before recovery gets a second
/// chance; one that ran out earlier does not.
pub proof fn recovery_gives_a_minute_of_grace(
    leases: Map<Seq<char>, Lease>,
    now: Timestamp,
    id: Seq<char>,
)
    requires
        leases.contains_key(id),
        leases[id].state is Active,
        leases[id].expired_at(now),
    ensures
        leases::all_recovered(leases, now)[id].state == if clock::elapsed_nanos(
            now,
            leases[id].expires_at,
        ) <= 60 * 1_000_000_000 {
            LeaseState::Pending
        } else {
            LeaseState::Expired
        },
{
}

/// A registry that is loaded from the entries of another, before any of its
/// active leases has run out, holds the same leases. It is not written again:
/// whatever the writer, nothing is asked of it.
pub proof fn loading_gives_back_what_was_saved<W: Fn(&Registry, &PathBuf) -> Result<(), String>>(
    saved: Registry,
    path: PathBuf,
    entries: Seq<LeaseEntry>,
    now: Timestamp,
    write: W,
    outcome: Result<Registry, RegistryError>,
)
    requires
        saved@ == leases::by_id(entries),
        forall|id: Seq<char>| #[trigger]
            saved@.contains_key(id) && saved@[id].state is Active ==> !saved@[id].expired_at(now),
        registry::loaded(path, entries, now, write, outcome),
    ensures
        outcome matches Ok(registry) && registry.wf() && registry@ == saved@ && registry.file()
            == Some(path),
        registry::loading_writes(path, entries, now, write),
{
    let leases = leases::by_id(entries);
    assert(leases::ids_where(leases, leases::lapsed(now)) =~= Set::<Seq<char>>::empty());
    assert(leases::all_recovered(leases, now) =~= leases);
}

/// What is acknowledged is on disk: a call that succeeds on a registry with a
/// file has had the state it left behind written to that file.
pub proof fn acknowledged_state_is_written<W: Fn(&Registry, &PathBuf) -> Result<(), String>>(
    before: Registry,
    after: Registry,
    lease: Lease,
    lease_id: Seq<char>,
    session_token: Seq<char>,
    now: Timestamp,
    path: PathBuf,
    write: W,
    done: (),
    text: String,
)
    requires
        before.file() == Some(path),
        registry::granted(before, after, lease, write, Ok(lease)) || (registry::confirmed(
            before,
            after,
            lease_id,
            session_token,
            now,
            write,
            Ok(done),
        ) || registry::released(before, after, lease_id, session_token, write, Ok(done))
            || registry::renewed(
            before,
            after,
            lease_id,
            session_token,
            now,
            write,
            Ok(text),
        )),
    ensures
        after.file() == Some(path),
        call_ensures(write, (&after, &path), Ok(())),
{
}

// ── Lists ───────────────────────────────────────────────────────────────

/// Without a filter all live leases are listed, as many as are counted.
pub proof fn unfiltered_list_is_complete(leases: Map<Seq<char>, Lease>, found: Seq<Lease>)
    requires
        registry::lists(leases, leases::listed(None), found),
    ensures
        registry::lists(leases, leases::live(), found),
        found.len() == leases::ids_where(leases, leases::live()).len(),
{
    assert(leases::listed(None) =~= leases::live());
    registry::lemma_lists_len(leases, leases::live(), found);
}

/// A filter that is longer lists no lease that a prefix of it does not.
pub proof fn longer_filter_lists_fewer(
    leases: Map<Seq<char>, Lease>,
    prefix: Seq<char>,
    longer: Seq<char>,
)
    requires
        prefix.is_prefix_of(longer),
    ensures
        leases::ids_where(leases, leases::listed(Some(longer))).subset_of(
            leases::ids_where(leases, leases::listed(Some(prefix))),
        ),
{
    assert forall|id: Seq<char>| #[trigger]
        leases::ids_where(leases, leases::listed(Some(longer))).contains(
        id,
    ) implies leases::ids_where(leases, leases::listed(Some(prefix))).contains(id) by {
        let path = leases[id].project_path@;
        assert(longer.is_prefix_of(path));
        assert(prefix =~= path.subrange(0, prefix.len() as int)) by {
            assert(longer =~= path.subrange(0, longer.len() as int));
            assert(prefix =~= longer.subrange(0, prefix.len() as int));
        }
    }
}

} // verus!
