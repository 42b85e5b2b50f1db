//! The search for a port that can be bound.
use std::collections::HashSet;
use std::ops::RangeInclusive;
use vstd::prelude::*;
use crate::model::Protocol;
use crate::port_check;
use crate::scan::{PortProcess, ScanError};

verus! {

/// Ports are assigned from 10000 to 19999.
pub proof fn automatic_ports_are_ten_thousand(range: RangeInclusive<u16>)
    requires
        call_ensures(port_check::auto_port_range, (), range),
    ensures
        range@.start == 10000,
        range@.end == 19999,
        !range@.exhausted,
{
}

/// A search finds the first port of the range that the host does not refuse, by
/// the host's own word; it finds none only where the host refused all.
pub proof fn search_finds_the_first_free_port<P: Fn(u16, Protocol) -> bool>(
    range: RangeInclusive<u16>,
    protocol: Protocol,
    is_port_available: &P,
    found: Option<u16>,
)
    requires
        call_ensures(
            port_check::find_available_port::<P>,
            (range, protocol, is_port_available),
            found,
        ),
        !range@.exhausted,
    ensures
        match found {
            Some(port) => {
                &&& range@.start <= port <= range@.end
                &&& call_ensures(*is_port_available, (port, protocol), true)
                &&& forall|q: u16|
                    range@.start <= q < port ==> #[trigger] call_ensures(
                        *is_port_available,
                        (q, protocol),
                        false,
                    )
            },
            None => forall|q: u16|
                range@.start <= q <= range@.end ==> #[trigger] call_ensures(
                    *is_port_available,
                    (q, protocol),
                    false,
                ),
        },
{
    let all = port_check::ports_in(range);
    assert forall|q: u16|
        range@.start <= q <= range@.end && (found matches Some(port)
            ==> q < port) implies #[trigger] call_ensures(*is_port_available, (q, protocol), false) by {
        assert(all.contains(q));
        assert(port_check::refused(*is_port_available, q, protocol));
    }
}

/// A search that passes over known ports finds the first of the others that the
/// host does not refuse, and none only where the host refused all others.
pub proof fn search_passes_over_known_ports<P: Fn(u16, Protocol) -> bool>(
    range: RangeInclusive<u16>,
    protocol: Protocol,
    used_ports: &HashSet<u16>,
    allocated_ports: &HashSet<u16>,
    is_port_available: &P,
    found: Option<u16>,
)
    requires
        call_ensures(
            port_check::find_available_port_fast::<P>,
            (range, protocol, used_ports, allocated_ports, is_port_available),
            found,
        ),
        !range@.exhausted,
    ensures
        match found {
            Some(port) => {
                &&& range@.start <= port <= range@.end
                &&& !used_ports@.contains(port)
                &&& !allocated_ports@.contains(port)
                &&& call_ensures(*is_port_available, (port, protocol), true)
                &&& forall|q: u16|
                    range@.start <= q < port && !used_ports@.contains(q)
                        && !allocated_ports@.contains(q) ==> #[trigger] call_ensures(
                        *is_port_available,
                        (q, protocol),
                        false,
                    )
            },
            None => forall|q: u16|
                range@.start <= q <= range@.end && !used_ports@.contains(q)
                    && !allocated_ports@.contains(q) ==> #[trigger] call_ensures(
                    *is_port_available,
                    (q, protocol),
                    false,
                ),
        },
{
    let candidates = port_check::ports_in(range).difference(
        used_ports@.union(allocated_ports@),
    );
    assert forall|q: u16|
        range@.start <= q <= range@.end && !used_ports@.contains(q) && !allocated_ports@.contains(q)
            && (found matches Some(port) ==> q < port) implies #[trigger] call_ensures(
        *is_port_available,
        (q, protocol),
        false,
    ) by {
        assert(candidates.contains(q));
        assert(port_check::refused(*is_port_available, q, protocol));
    }
    if let Some(port) = found {
        assert(candidates.contains(port));
    }
}

/// The ports in use are those of the listeners that a scan found, and none
/// where it failed.
pub proof fn used_ports_are_those_with_a_listener(
    scan: &Result<Vec<PortProcess>, ScanError>,
    ports: HashSet<u16>,
    port: u16,
)
    requires
        call_ensures(port_check::get_used_ports, (scan,), ports),
    ensures
        ports@.contains(port) <==> (scan matches Ok(listeners) && exists|i: int|
            0 <= i < listeners@.len() && (#[trigger] listeners@[i]).port == port),
{
    if let Ok(listeners) = scan {
        let numbers = listeners@.map_values(|listener: PortProcess| listener.port);
        if ports@.contains(port) {
            assert(numbers.contains(port));
            let i = choose|i: int| 0 <= i < numbers.len() && numbers[i] == port;
            assert(listeners@[i].port == port);
        }
        if exists|i: int| 0 <= i < listeners@.len() && (#[trigger] listeners@[i]).port == port {
            let i = choose|i: int|
                0 <= i < listeners@.len() && (#[trigger] listeners@[i]).port == port;
            assert(numbers[i] == port);
            assert(numbers.contains(port));
        }
    }
}

} // verus!
