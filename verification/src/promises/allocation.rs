//! What a request for a port is granted, and when it is turned down.
use std::collections::HashSet;
use std::path::PathBuf;
use vstd::prelude::*;
use crate::guarantees;
use crate::leases;
use crate::model;
use crate::model::{Lease, Protocol};
use crate::port_check;
use crate::registry;
use crate::registry::{Registry, RegistryError};

verus! {

/// A chosen port can be bound, by the host's own word, and no pending or active
/// lease holds it. It is the preferred one, or one of the automatic range where
/// none is preferred or another one will do.
pub proof fn chosen_port_is_free<P: Fn(u16, Protocol) -> bool, U: Fn() -> HashSet<u16>>(
    registry: &Registry,
    preferred_port: Option<u16>,
    protocol: Protocol,
    auto_reassign: bool,
    is_port_available: &P,
    used_ports: &U,
    port: u16,
)
    requires
        call_ensures(
            Registry::choose_port::<P, U>,
            (registry, preferred_port, protocol, auto_reassign, is_port_available, used_ports),
            Ok(port),
        ),
    ensures
        call_ensures(*is_port_available, (port, protocol), true),
        forall|id: Seq<char>| #[trigger]
            registry@.contains_key(id) && (registry@[id].state is Pending || registry@[id].state
                is Active) && registry@[id].protocol == protocol ==> registry@[id].port != port,
        preferred_port == Some(port) || (10000 <= port <= 19999 && (preferred_port is None
            || auto_reassign)),
        preferred_port matches Some(wanted) ==> (wanted != port ==> !unleased(
            registry@,
            wanted,
            Some(protocol),
        ) || call_ensures(*is_port_available, (wanted, protocol), false)),
        preferred_port == Some(port) || exists|used: HashSet<u16>| #[trigger]
            call_ensures(*used_ports, (), used) && is_first_choice(
                registry@,
                protocol,
                *is_port_available,
                used@,
                port,
            ),
{
    lemma_chosen_port(
        registry@,
        preferred_port,
        protocol,
        auto_reassign,
        *is_port_available,
        *used_ports,
        port,
    );
}

/// Whether no pending or active lease is on the port, for the protocol or for
/// any.
pub open spec fn unleased(
    leases: Map<Seq<char>, Lease>,
    port: u16,
    protocol: Option<Protocol>,
) -> bool {
    forall|id: Seq<char>| #[trigger]
        leases.contains_key(id) && (leases[id].state is Pending || leases[id].state is Active) && (
        protocol is None || leases[id].protocol == protocol->0) ==> leases[id].port != port
}

/// Whether the port is one that no listener uses and no lease is on.
pub open spec fn untouched(leases: Map<Seq<char>, Lease>, used: Set<u16>, port: u16) -> bool {
    10000 <= port <= 19999 && !used.contains(port) && unleased(leases, port, None)
}

/// Whether the port is the first choice of the automatic range: the lowest that
/// the host grants among those that no listener uses and no lease is on. Only
/// where the host refuses all of these it is another one, the lowest that the
/// host grants among those that no lease is on for the protocol.
pub open spec fn is_first_choice<P: Fn(u16, Protocol) -> bool>(
    leases: Map<Seq<char>, Lease>,
    protocol: Protocol,
    is_port_available: P,
    used: Set<u16>,
    port: u16,
) -> bool {
    &&& forall|q: u16|
        untouched(leases, used, q) && (q < port || !untouched(leases, used, port))
            ==> #[trigger] call_ensures(is_port_available, (q, protocol), false)
    &&& !untouched(leases, used, port) ==> forall|q: u16|
        10000 <= q < port && unleased(leases, q, Some(protocol)) ==> #[trigger] call_ensures(
            is_port_available,
            (q, protocol),
            false,
        )
}

pub(crate) proof fn lemma_chosen_port<P: Fn(u16, Protocol) -> bool, U: Fn() -> HashSet<u16>>(
    leases: Map<Seq<char>, Lease>,
    preferred_port: Option<u16>,
    protocol: Protocol,
    auto_reassign: bool,
    is_port_available: P,
    used_ports: U,
    port: u16,
)
    requires
        registry::chosen_port(
            leases,
            preferred_port,
            protocol,
            auto_reassign,
            is_port_available,
            used_ports,
            Ok(port),
        ),
    ensures
        call_ensures(is_port_available, (port, protocol), true),
        forall|id: Seq<char>| #[trigger]
            leases.contains_key(id) && (leases[id].state is Pending || leases[id].state is Active)
                && leases[id].protocol == protocol ==> leases[id].port != port,
        preferred_port == Some(port) || (10000 <= port <= 19999 && (preferred_port is None
            || auto_reassign)),
        preferred_port matches Some(wanted) ==> (wanted != port ==> !unleased(
            leases,
            wanted,
            Some(protocol),
        ) || call_ensures(is_port_available, (wanted, protocol), false)),
        preferred_port == Some(port) || exists|used: HashSet<u16>| #[trigger]
            call_ensures(used_ports, (), used) && is_first_choice(
                leases,
                protocol,
                is_port_available,
                used@,
                port,
            ),
{
    assert forall|id: Seq<char>| #[trigger]
        leases.contains_key(id) && (leases[id].state is Pending || leases[id].state is Active)
            && leases[id].protocol == protocol implies leases[id].port != port by {
        if leases[id].port == port {
            assert(leases::holds_port(leases[id], port, protocol));
            assert(leases::holds_one_of(leases[id], None));
            assert(leases::holds_one_of(leases[id], Some(protocol)));
            assert(leases::held_ports(leases, None).contains(port));
            assert(leases::held_ports(leases, Some(protocol)).contains(port));
        }
    }
    if preferred_port != Some(port) {
        assert(registry::auto_port(leases, protocol, is_port_available, used_ports, Ok(port)));
        let used = choose|used: HashSet<u16>|
            #![trigger call_ensures(used_ports, (), used)]
            {
                let unused = registry::unused_ports(leases, used@);
                &&& call_ensures(used_ports, (), used)
                &&& {
                    ||| port_check::first_free(unused, protocol, is_port_available, port)
                    ||| port_check::none_free(unused, protocol, is_port_available)
                        && port_check::first_free(
                        registry::unheld_ports(leases, protocol),
                        protocol,
                        is_port_available,
                        port,
                    )
                }
            };
        lemma_first_choice(leases, protocol, is_port_available, used, port);
        assert(call_ensures(used_ports, (), used));
    }
    if let Some(wanted) = preferred_port {
        if wanted != port && unleased(leases, wanted, Some(protocol)) {
            assert(!leases::port_held(leases, wanted, protocol));
        }
    }
}

proof fn lemma_unleased(leases: Map<Seq<char>, Lease>, port: u16, protocol: Option<Protocol>)
    ensures
        unleased(leases, port, protocol) <==> !leases::held_ports(leases, protocol).contains(port),
{
    if !unleased(leases, port, protocol) {
        let id = choose|id: Seq<char>| #[trigger]
            leases.contains_key(id) && (leases[id].state is Pending || leases[id].state is Active)
                && (protocol is None || leases[id].protocol == protocol->0) && leases[id].port
                == port;
        assert(leases.contains_key(id));
        assert(leases::holds_one_of(leases[id], protocol));
    }
}

proof fn lemma_first_choice<P: Fn(u16, Protocol) -> bool>(
    leases: Map<Seq<char>, Lease>,
    protocol: Protocol,
    is_port_available: P,
    used: HashSet<u16>,
    port: u16,
)
    requires
        ({
            let unused = registry::unused_ports(leases, used@);
            ||| port_check::first_free(unused, protocol, is_port_available, port)
            ||| port_check::none_free(unused, protocol, is_port_available)
                && port_check::first_free(
                registry::unheld_ports(leases, protocol),
                protocol,
                is_port_available,
                port,
            )
        }),
    ensures
        is_first_choice(leases, protocol, is_port_available, used@, port),
{
    let unused = registry::unused_ports(leases, used@);
    let unheld = registry::unheld_ports(leases, protocol);
    assert forall|q: u16| untouched(leases, used@, q) <==> #[trigger] unused.contains(q) by {
        lemma_unleased(leases, q, None);
    }
    assert forall|q: u16|
        untouched(leases, used@, q) && (q < port || !untouched(
            leases,
            used@,
            port,
        )) implies #[trigger] call_ensures(is_port_available, (q, protocol), false) by {
        assert(unused.contains(q));
        assert(unused.contains(port) <==> untouched(leases, used@, port));
        assert(port_check::refused(is_port_available, q, protocol));
    }
    if !untouched(leases, used@, port) {
        assert(!unused.contains(port));
        assert forall|q: u16|
            10000 <= q < port && unleased(leases, q, Some(protocol)) implies #[trigger] call_ensures(
            is_port_available,
            (q, protocol),
            false,
        ) by {
            lemma_unleased(leases, q, Some(protocol));
            assert(unheld.contains(port));
            assert(unheld.contains(q));
            assert(port_check::refused(is_port_available, q, protocol));
        }
    }
}

/// Without a preference, or where another port will do, a choice fails only
/// where the host refused every port of the automatic range that no pending or
/// active lease holds for the protocol. A preferred port that is held or
/// refused is turned down where no other will do, and only then.
pub proof fn choice_fails_only_for_want_of_a_port<
    P: Fn(u16, Protocol) -> bool,
    U: Fn() -> HashSet<u16>,
>(
    registry: &Registry,
    preferred_port: Option<u16>,
    protocol: Protocol,
    auto_reassign: bool,
    is_port_available: &P,
    used_ports: &U,
    error: RegistryError,
)
    requires
        call_ensures(
            Registry::choose_port::<P, U>,
            (registry, preferred_port, protocol, auto_reassign, is_port_available, used_ports),
            Err(error),
        ),
    ensures
        refused_for_cause(
            registry@,
            preferred_port,
            protocol,
            auto_reassign,
            *is_port_available,
            error,
        ),
{
    lemma_refused_choice(
        registry@,
        preferred_port,
        protocol,
        auto_reassign,
        *is_port_available,
        *used_ports,
        error,
    );
}

/// Whether a port may be turned down with this error: none of the automatic
/// range is left; or the one port that will do is leased, to the service that
/// the error names, or is refused by the host.
pub open spec fn refused_for_cause<P: Fn(u16, Protocol) -> bool>(
    leases: Map<Seq<char>, Lease>,
    preferred_port: Option<u16>,
    protocol: Protocol,
    auto_reassign: bool,
    is_port_available: P,
    error: RegistryError,
) -> bool {
    match error {
        RegistryError::NoAvailablePort => {
            &&& preferred_port is None || auto_reassign
            &&& forall|q: u16|
                10000 <= q <= 19999 && (forall|id: Seq<char>| #[trigger]
                    leases.contains_key(id) && (leases[id].state is Pending || leases[id].state
                        is Active) && leases[id].protocol == protocol ==> leases[id].port != q)
                    ==> #[trigger] call_ensures(is_port_available, (q, protocol), false)
        },
        RegistryError::PortAllocated { port, service, project, lease_id } => {
            &&& preferred_port == Some(port)
            &&& !auto_reassign
            &&& exists|id: Seq<char>| #[trigger]
                leases.contains_key(id) && {
                    &&& leases[id].state is Pending || leases[id].state is Active
                    &&& leases[id].port == port
                    &&& leases[id].protocol == protocol
                    &&& leases[id].service_name == service
                    &&& leases[id].project_path == project
                    &&& leases[id].lease_id == lease_id
                }
        },
        RegistryError::PortInUse { port } => {
            &&& preferred_port == Some(port)
            &&& !auto_reassign
            &&& call_ensures(is_port_available, (port, protocol), false)
            &&& forall|id: Seq<char>| #[trigger]
                leases.contains_key(id) && (leases[id].state is Pending || leases[id].state
                    is Active) && leases[id].protocol == protocol ==> leases[id].port != port
        },
        _ => false,
    }
}

proof fn lemma_refused_choice<P: Fn(u16, Protocol) -> bool, U: Fn() -> HashSet<u16>>(
    leases: Map<Seq<char>, Lease>,
    preferred_port: Option<u16>,
    protocol: Protocol,
    auto_reassign: bool,
    is_port_available: P,
    used_ports: U,
    error: RegistryError,
)
    requires
        registry::chosen_port(
            leases,
            preferred_port,
            protocol,
            auto_reassign,
            is_port_available,
            used_ports,
            Err(error),
        ),
    ensures
        refused_for_cause(
            leases,
            preferred_port,
            protocol,
            auto_reassign,
            is_port_available,
            error,
        ),
{
    if preferred_port is None || auto_reassign {
        assert(registry::auto_port(leases, protocol, is_port_available, used_ports, Err(error)));
        let unheld = registry::unheld_ports(leases, protocol);
        assert forall|q: u16|
            10000 <= q <= 19999 && (forall|id: Seq<char>| #[trigger]
                leases.contains_key(id) && (leases[id].state is Pending || leases[id].state
                    is Active) && leases[id].protocol == protocol ==> leases[id].port
                != q) implies #[trigger] call_ensures(is_port_available, (q, protocol), false) by {
            assert(unheld.contains(q));
            assert(port_check::refused(is_port_available, q, protocol));
        }
    } else {
        let port = preferred_port->0;
        if leases::port_held(leases, port, protocol) {
            let id = choose|id: Seq<char>| #[trigger]
                leases.contains_key(id) && leases::holds_port(leases[id], port, protocol) && error
                    == (RegistryError::PortAllocated {
                    port,
                    service: leases[id].service_name,
                    project: leases[id].project_path,
                    lease_id: leases[id].lease_id,
                });
            assert(leases.contains_key(id));
        } else {
            assert forall|id: Seq<char>| #[trigger]
                leases.contains_key(id) && (leases[id].state is Pending || leases[id].state
                    is Active) && leases[id].protocol == protocol implies leases[id].port
                != port by {
                if leases[id].port == port {
                    assert(leases::holds_port(leases[id], port, protocol));
                }
            }
        }
    }
}

/// An allocation that succeeds grants a port that the host said can be bound
/// and that no pending or active lease held for the protocol. It is the
/// preferred port, or where there is none or another one will do, a port from
/// 10000 to 19999. A free preferred port is never passed over, and neither is
/// an automatic one that nothing spoke against.
pub proof fn granted_port_is_free_and_wanted<
    P: Fn(u16, Protocol) -> bool,
    U: Fn() -> HashSet<u16>,
    W: Fn(&Registry, &PathBuf) -> Result<(), String>,
>(
    registry: &mut Registry,
    project: String,
    service: String,
    preferred_port: Option<u16>,
    protocol: Protocol,
    auto_reassign: bool,
    pid: Option<u32>,
    is_port_available: &P,
    used_ports: &U,
    write: &W,
    lease: Lease,
)
    requires
        call_ensures(
            Registry::allocate::<P, U, W>,
            (
                registry,
                project,
                service,
                preferred_port,
                protocol,
                auto_reassign,
                pid,
                is_port_available,
                used_ports,
                write,
            ),
            Ok(lease),
        ),
    ensures
        call_ensures(*is_port_available, (lease.port, protocol), true),
        forall|id: Seq<char>| #[trigger]
            old(registry)@.contains_key(id) && (old(registry)@[id].state is Pending || old(
                registry,
            )@[id].state is Active) && old(registry)@[id].protocol == protocol ==> old(
                registry,
            )@[id].port != lease.port,
        preferred_port == Some(lease.port) || (10000 <= lease.port <= 19999 && (preferred_port
            is None || auto_reassign)),
        preferred_port matches Some(wanted) ==> (wanted != lease.port ==> !unleased(
            old(registry)@,
            wanted,
            Some(protocol),
        ) || call_ensures(*is_port_available, (wanted, protocol), false)),
        preferred_port == Some(lease.port) || exists|used: HashSet<u16>| #[trigger]
            call_ensures(*used_ports, (), used) && is_first_choice(
                old(registry)@,
                protocol,
                *is_port_available,
                used@,
                lease.port,
            ),
{
    let granted = guarantees::lemma_allocated(
        *old(registry),
        *final(registry),
        project,
        service,
        preferred_port,
        protocol,
        auto_reassign,
        pid,
        *is_port_available,
        *used_ports,
        *write,
        Ok(lease),
    );
    lemma_chosen_port(
        old(registry)@,
        preferred_port,
        protocol,
        auto_reassign,
        *is_port_available,
        *used_ports,
        lease.port,
    );
}

/// An allocation that succeeds grants the service that asked for it a pending
/// lease of five minutes, adds it to the leases and changes no other.
pub proof fn granted_lease_is_the_one_asked_for<
    P: Fn(u16, Protocol) -> bool,
    U: Fn() -> HashSet<u16>,
    W: Fn(&Registry, &PathBuf) -> Result<(), String>,
>(
    registry: &mut Registry,
    project: String,
    service: String,
    preferred_port: Option<u16>,
    protocol: Protocol,
    auto_reassign: bool,
    pid: Option<u32>,
    is_port_available: &P,
    used_ports: &U,
    write: &W,
    lease: Lease,
)
    requires
        call_ensures(
            Registry::allocate::<P, U, W>,
            (
                registry,
                project,
                service,
                preferred_port,
                protocol,
                auto_reassign,
                pid,
                is_port_available,
                used_ports,
                write,
            ),
            Ok(lease),
        ),
    ensures
        lease.state is Pending,
        lease.project_path == project,
        lease.service_name == service,
        lease.protocol == protocol,
        lease.client_pid == pid,
        lease.confirmed_at is None,
        lease.last_heartbeat_at is None,
        0 <= lease.granted_at.secs,
        lease.expires_at.secs == lease.granted_at.secs + 300,
        lease.expires_at.nanos == lease.granted_at.nanos,
        forall|id: Seq<char>| #[trigger]
            old(registry)@.contains_key(id) && old(registry)@[id].project_path@ == project@ && old(
                registry,
            )@[id].service_name@ == service@ ==> !(old(registry)@[id].state is Pending || old(
                registry,
            )@[id].state is Active),
        final(registry)@ == old(registry)@.insert(lease.lease_id@, lease),
        final(registry).file() == old(registry).file(),
        final(registry).file() matches Some(path) ==> call_ensures(
            *write,
            (final(registry), &path),
            Ok(()),
        ),
{
    let granted = guarantees::lemma_allocated(
        *old(registry),
        *final(registry),
        project,
        service,
        preferred_port,
        protocol,
        auto_reassign,
        pid,
        *is_port_available,
        *used_ports,
        *write,
        Ok(lease),
    );
    assert forall|id: Seq<char>| #[trigger]
        old(registry)@.contains_key(id) && old(registry)@[id].project_path@ == project@ && old(
            registry,
        )@[id].service_name@ == service@ implies !(old(registry)@[id].state is Pending || old(
        registry,
    )@[id].state is Active) by {
        if old(registry)@[id].state is Pending || old(registry)@[id].state is Active {
            assert(leases::holds_service(old(registry)@[id], project@, service@));
        }
    }
}

/// Whether the service has a pending or active lease, as the error says.
pub open spec fn service_is_leased(
    leases: Map<Seq<char>, Lease>,
    project: Seq<char>,
    service: Seq<char>,
    error: RegistryError,
) -> bool {
    error matches RegistryError::ServiceLeased { service: named, project: within, port, lease_id }
        && named@ == service && within@ == project && exists|id: Seq<char>| #[trigger]
        leases.contains_key(id) && {
            &&& leases[id].state is Pending || leases[id].state is Active
            &&& leases[id].project_path@ == project
            &&& leases[id].service_name@ == service
            &&& leases[id].port == port
            &&& leases[id].lease_id == lease_id
        }
}

/// An allocation fails where the service has a pending or active lease, where
/// no port can be had, and where the registry cannot be written; in the first
/// two cases nothing changes. It fails in no other case.
pub proof fn allocation_fails_only_for_cause<
    P: Fn(u16, Protocol) -> bool,
    U: Fn() -> HashSet<u16>,
    W: Fn(&Registry, &PathBuf) -> Result<(), String>,
>(
    registry: &mut Registry,
    project: String,
    service: String,
    preferred_port: Option<u16>,
    protocol: Protocol,
    auto_reassign: bool,
    pid: Option<u32>,
    is_port_available: &P,
    used_ports: &U,
    write: &W,
    error: RegistryError,
)
    requires
        call_ensures(
            Registry::allocate::<P, U, W>,
            (
                registry,
                project,
                service,
                preferred_port,
                protocol,
                auto_reassign,
                pid,
                is_port_available,
                used_ports,
                write,
            ),
            Err(error),
        ),
    ensures
        match error {
            RegistryError::ServiceLeased { service: named, project: within, port, lease_id } => {
                &&& *final(registry) == *old(registry)
                &&& named == service
                &&& within == project
                &&& exists|id: Seq<char>| #[trigger]
                    old(registry)@.contains_key(id) && {
                        let lease = old(registry)@[id];
                        &&& lease.state is Pending || lease.state is Active
                        &&& lease.project_path@ == project@
                        &&& lease.service_name@ == service@
                        &&& lease.port == port
                        &&& lease.lease_id == lease_id
                    }
            },
            RegistryError::Save { message } => old(registry).file() matches Some(path)
                && call_ensures(*write, (final(registry), &path), Err(message)),
            _ => {
                &&& *final(registry) == *old(registry)
                &&& refused_for_cause(
                    old(registry)@,
                    preferred_port,
                    protocol,
                    auto_reassign,
                    *is_port_available,
                    error,
                )
            },
        },
        (exists|id: Seq<char>| #[trigger]
            old(registry)@.contains_key(id) && (old(registry)@[id].state is Pending || old(
                registry,
            )@[id].state is Active) && old(registry)@[id].project_path@ == project@ && old(
                registry,
            )@[id].service_name@ == service@) ==> error is ServiceLeased,
{
    lemma_refused_allocation(
        *old(registry),
        *final(registry),
        project,
        service,
        preferred_port,
        protocol,
        auto_reassign,
        pid,
        *is_port_available,
        *used_ports,
        *write,
        error,
    );
}

pub(crate) proof fn lemma_refused_allocation<
    P: Fn(u16, Protocol) -> bool,
    U: Fn() -> HashSet<u16>,
    W: Fn(&Registry, &PathBuf) -> Result<(), String>,
>(
    before: Registry,
    after: Registry,
    project: String,
    service: String,
    preferred_port: Option<u16>,
    protocol: Protocol,
    auto_reassign: bool,
    pid: Option<u32>,
    is_port_available: P,
    used_ports: U,
    write: W,
    error: RegistryError,
)
    requires
        registry::allocated(
            before,
            after,
            project,
            service,
            preferred_port,
            protocol,
            auto_reassign,
            pid,
            is_port_available,
            used_ports,
            write,
            Err(error),
        ),
    ensures
        match error {
            RegistryError::ServiceLeased { service: named, project: within, port, lease_id } => {
                &&& after == before
                &&& named == service
                &&& within == project
                &&& exists|id: Seq<char>| #[trigger]
                    before@.contains_key(id) && {
                        let lease = before@[id];
                        &&& lease.state is Pending || lease.state is Active
                        &&& lease.project_path@ == project@
                        &&& lease.service_name@ == service@
                        &&& lease.port == port
                        &&& lease.lease_id == lease_id
                    }
            },
            RegistryError::Save { message } => before.file() matches Some(path)
                && call_ensures(write, (&after, &path), Err(message)),
            _ => {
                &&& after == before
                &&& refused_for_cause(
                    before@,
                    preferred_port,
                    protocol,
                    auto_reassign,
                    is_port_available,
                    error,
                )
            },
        },
        (exists|id: Seq<char>| #[trigger]
            before@.contains_key(id) && (before@[id].state is Pending || before@[id].state is Active) && before@[id].project_path@ == project@ && before@[id].service_name@ == service@) ==> error is ServiceLeased,
{
    if leases::service_held(before@, project@, service@) {
        let id = choose|id: Seq<char>| #[trigger]
            before@.contains_key(id) && leases::holds_service(
                before@[id],
                project@,
                service@,
            ) && error == (RegistryError::ServiceLeased {
                service,
                project,
                port: before@[id].port,
                lease_id: before@[id].lease_id,
            });
        assert(before@.contains_key(id));
    } else {
        if exists|id: Seq<char>| #[trigger]
            before@.contains_key(id) && (before@[id].state is Pending || before@[id].state is Active) && before@[id].project_path@ == project@ && before@[id].service_name@ == service@ {
            let id = choose|id: Seq<char>| #[trigger]
                before@.contains_key(id) && (before@[id].state is Pending || before@[id].state is Active) && before@[id].project_path@ == project@ && before@[id].service_name@ == service@;
            assert(leases::holds_service(before@[id], project@, service@));
        }
        let choice = choose|choice: Result<u16, RegistryError>|
            {
                &&& #[trigger] registry::chosen_port(
                    before@,
                    preferred_port,
                    protocol,
                    auto_reassign,
                    is_port_available,
                    used_ports,
                    choice,
                )
                &&& match choice {
                    Err(cause) => Err::<Lease, RegistryError>(error) == Err::<
                        Lease,
                        RegistryError,
                    >(cause) && after == before,
                    Ok(port) => exists|lease: Lease|
                        {
                            &&& #[trigger] model::is_new_lease(
                                lease,
                                project,
                                service,
                                port,
                                protocol,
                                pid,
                                registry::DEFAULT_LEASE_SECS as int,
                            )
                            &&& registry::granted(
                                before,
                                after,
                                lease,
                                write,
                                Err(error),
                            )
                        },
                }
            };
        if choice is Err {
            lemma_refused_choice(
                before@,
                preferred_port,
                protocol,
                auto_reassign,
                is_port_available,
                used_ports,
                error,
            );
        }
    }
}

} // verus!
