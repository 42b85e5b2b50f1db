//! The search for a free port.
//!
//! Whether a port can be bound is the host's to say, and the answer may change
//! from one moment to the next. The functions here take the host's answer as a
//! predicate, and say of their result what the predicate answered.
use std::collections::HashSet;
use std::ops::RangeInclusive;
use vstd::prelude::*;
use crate::model::Protocol;
use crate::scan::{PortProcess, ScanError};

verus! {

broadcast use vstd::std_specs::hash::group_hash_axioms;

/// First port of the default range for auto-assignment.
pub const AUTO_PORT_FIRST: u16 = 10000;

/// Last port of the default range for auto-assignment.
pub const AUTO_PORT_LAST: u16 = 19999;

/// The ports of a range.
pub open spec fn ports_in(range: RangeInclusive<u16>) -> Set<u16> {
    Set::new(
        |port: u16|
            range@.start <= port && if range@.exhausted {
                port < range@.end
            } else {
                port <= range@.end
            },
    )
}

/// The ports of the default range for auto-assignment.
pub open spec fn auto_ports() -> Set<u16> {
    Set::new(|port: u16| AUTO_PORT_FIRST <= port <= AUTO_PORT_LAST)
}

/// Whether the predicate may answer that the port can be bound.
pub open spec fn bindable<P: Fn(u16, Protocol) -> bool>(
    is_port_available: P,
    port: u16,
    protocol: Protocol,
) -> bool {
    call_ensures(is_port_available, (port, protocol), true)
}

/// Whether the predicate may answer that the port cannot be bound.
pub open spec fn refused<P: Fn(u16, Protocol) -> bool>(
    is_port_available: P,
    port: u16,
    protocol: Protocol,
) -> bool {
    call_ensures(is_port_available, (port, protocol), false)
}

/// Whether the search among the candidates comes to ask about `port`: it is one
/// of them, and every candidate before it was refused.
pub open spec fn reached<P: Fn(u16, Protocol) -> bool>(
    candidates: Set<u16>,
    protocol: Protocol,
    is_port_available: P,
    port: u16,
) -> bool {
    &&& candidates.contains(port)
    &&& forall|q: u16|
        candidates.contains(q) && q < port ==> #[trigger] refused(is_port_available, q, protocol)
}

/// Whether the predicate can be asked about every port that the search among
/// the candidates comes to. It is asked about no other.
pub open spec fn answers<P: Fn(u16, Protocol) -> bool>(
    candidates: Set<u16>,
    protocol: Protocol,
    is_port_available: P,
) -> bool {
    forall|port: u16|
        reached(candidates, protocol, is_port_available, port) ==> #[trigger] call_requires(
            is_port_available,
            (port, protocol),
        )
}

/// Whether the search among the candidates comes upon `port`: it is reached and
/// can be bound.
pub open spec fn first_free<P: Fn(u16, Protocol) -> bool>(
    candidates: Set<u16>,
    protocol: Protocol,
    is_port_available: P,
    port: u16,
) -> bool {
    &&& reached(candidates, protocol, is_port_available, port)
    &&& bindable(is_port_available, port, protocol)
}

/// Whether the search among the candidates comes upon nothing: every one of
/// them was refused.
pub open spec fn none_free<P: Fn(u16, Protocol) -> bool>(
    candidates: Set<u16>,
    protocol: Protocol,
    is_port_available: P,
) -> bool {
    forall|q: u16|
        candidates.contains(q) ==> #[trigger] refused(is_port_available, q, protocol)
}

/// The ports on which a scan found listeners.
pub open spec fn listener_ports(listeners: Seq<PortProcess>) -> Set<u16> {
    listeners.map_values(|listener: PortProcess| listener.port).to_set()
}

/// Default port range for auto-assignment (avoids well-known ports and common
/// dev tool ranges).
pub fn auto_port_range() -> (range: RangeInclusive<u16>)
    ensures
        range@.start == AUTO_PORT_FIRST,
        range@.end == AUTO_PORT_LAST,
        !range@.exhausted,
        ports_in(range) == auto_ports(),
{
    let range = RangeInclusive::new(AUTO_PORT_FIRST, AUTO_PORT_LAST);
    assert(ports_in(range) =~= auto_ports());
    range
}

/// The ports that a scan found in use; none where the scan failed.
pub fn get_used_ports(scan: &Result<Vec<PortProcess>, ScanError>) -> (ports: HashSet<u16>)
    ensures
        match scan {
            Ok(listeners) => ports@ == listener_ports(listeners@),
            Err(_) => ports@ == Set::<u16>::empty(),
        },
{
    let mut ports: HashSet<u16> = HashSet::new();
    if let Ok(listeners) = scan {
        let mut i: usize = 0;
        assert(listener_ports(listeners@.take(0)) =~= Set::<u16>::empty());
        while i < listeners.len()
            invariant
                i <= listeners.len(),
                ports@ == listener_ports(listeners@.take(i as int)),
            decreases listeners.len() - i,
        {
            let ghost before = listeners@.take(i as int).map_values(|l: PortProcess| l.port);
            let ghost after = listeners@.take(i + 1).map_values(|l: PortProcess| l.port);
            ports.insert(listeners[i].port);
            assert(after =~= before.push(listeners@[i as int].port));
            assert(after.to_set() =~= before.to_set().insert(listeners@[i as int].port)) by {
                assert forall|p: u16| before.to_set().insert(
                    listeners@[i as int].port,
                ).contains(p) implies after.to_set().contains(p) by {
                    if before.contains(p) {
                        let k = choose|k: int| 0 <= k < before.len() && before[k] == p;
                        assert(after[k] == p);
                    } else {
                        assert(after[i as int] == p);
                    }
                }
            }
            i += 1;
        }
        assert(listeners@.take(listeners@.len() as int) =~= listeners@);
    }
    ports
}

/// Find an available port in the given range.
/// Returns the first available port, or None if all are in use.
pub fn find_available_port<P: Fn(u16, Protocol) -> bool>(
    range: RangeInclusive<u16>,
    protocol: Protocol,
    is_port_available: &P,
) -> (found: Option<u16>)
    requires
        answers(ports_in(range), protocol, *is_port_available),
    ensures
        match found {
            Some(port) => first_free(ports_in(range), protocol, *is_port_available, port),
            None => none_free(ports_in(range), protocol, *is_port_available),
        },
{
    let none: HashSet<u16> = HashSet::new();
    assert(ports_in(range).difference(none@.union(none@)) =~= ports_in(range));
    find_available_port_fast(range, protocol, &none, &none, is_port_available)
}

/// Find an available port in the given range, passing over the ports that are
/// known to be used or allocated without asking for them.
pub fn find_available_port_fast<P: Fn(u16, Protocol) -> bool>(
    range: RangeInclusive<u16>,
    protocol: Protocol,
    used_ports: &HashSet<u16>,
    allocated_ports: &HashSet<u16>,
    is_port_available: &P,
) -> (found: Option<u16>)
    requires
        answers(
            ports_in(range).difference(used_ports@.union(allocated_ports@)),
            protocol,
            *is_port_available,
        ),
    ensures
        match found {
            Some(port) => first_free(
                ports_in(range).difference(used_ports@.union(allocated_ports@)),
                protocol,
                *is_port_available,
                port,
            ),
            None => none_free(
                ports_in(range).difference(used_ports@.union(allocated_ports@)),
                protocol,
                *is_port_available,
            ),
        },
{
    let ghost candidates = ports_in(range).difference(used_ports@.union(allocated_ports@));
    let mut port: u16 = 0;
    loop
        invariant
            answers(candidates, protocol, *is_port_available),
            candidates == ports_in(range).difference(used_ports@.union(allocated_ports@)),
            forall|q: u16|
                candidates.contains(q) && q < port ==> #[trigger] refused(
                    *is_port_available,
                    q,
                    protocol,
                ),
        decreases u16::MAX - port,
    {
        if range.contains(&port) && !used_ports.contains(&port) && !allocated_ports.contains(&port)
        {
            if is_port_available(port, protocol) {
                return Some(port);
            }
        }
        if port == u16::MAX {
            return None;
        }
        port += 1;
    }
}

} // verus!
