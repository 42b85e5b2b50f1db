//! Expiring, collecting and recovering leases.
use std::path::PathBuf;
use vstd::prelude::*;
use crate::clock;
use crate::clock::Timestamp;
use crate::leases;
use crate::leases::LeaseEntry;
use crate::model::Lease;
use crate::registry;
use crate::registry::{Registry, RegistryError};

verus! {

/// Whether `after` is `before` with another state, if any.
pub open spec fn same_but_state(before: Lease, after: Lease) -> bool {
    &&& after.lease_id == before.lease_id
    &&& after.project_path == before.project_path
    &&& after.service_name == before.service_name
    &&& after.port == before.port
    &&& after.protocol == before.protocol
    &&& after.client_pid == before.client_pid
    &&& after.session_token == before.session_token
    &&& after.granted_at == before.granted_at
    &&& after.confirmed_at == before.confirmed_at
    &&& after.last_heartbeat_at == before.last_heartbeat_at
    &&& after.expires_at == before.expires_at
}

/// A sweep for stale leases expires every pending or active lease whose expiry
/// the given instant is past, and leaves every other as it is.
pub proof fn stale_leases_expire<W: Fn(&Registry, &PathBuf) -> Result<(), String>>(
    registry: &mut Registry,
    now: Timestamp,
    write: &W,
    outcome: Result<usize, RegistryError>,
    id: Seq<char>,
)
    requires
        call_ensures(Registry::expire_stale_at::<W>, (registry, now, write), outcome),
    ensures
        final(registry)@.contains_key(id) <==> old(registry)@.contains_key(id),
        old(registry)@.contains_key(id) ==> {
            let was = old(registry)@[id];
            let left = final(registry)@[id];
            let past = now.secs > was.expires_at.secs || (now.secs == was.expires_at.secs
                && now.nanos > was.expires_at.nanos);
            if (was.state is Pending || was.state is Active) && past {
                left.state is Expired && same_but_state(was, left)
            } else {
                left == was
            }
        },
{
}

/// A sweep counts the leases that it expired, and writes the registry where
/// there was one.
pub proof fn stale_leases_are_counted<W: Fn(&Registry, &PathBuf) -> Result<(), String>>(
    registry: &mut Registry,
    now: Timestamp,
    write: &W,
    outcome: Result<usize, RegistryError>,
)
    requires
        call_ensures(Registry::expire_stale_at::<W>, (registry, now, write), outcome),
    ensures
        exists|ids: Set<Seq<char>>|
            {
                &&& forall|id: Seq<char>| #[trigger]
                    ids.contains(id) <==> old(registry)@.contains_key(id) && final(registry)@[id].state != old(registry)@[id].state
                &&& counted(*final(registry), ids, *write, outcome)
            },
{
    let ids = leases::ids_where(old(registry)@, leases::stale(now));
    assert(counted(*final(registry), ids, *write, outcome));
}

/// Whether the outcome is the number of the leases, with the registry written
/// where that is not zero, or the writer's error.
pub open spec fn counted<W: Fn(&Registry, &PathBuf) -> Result<(), String>>(
    after: Registry,
    ids: Set<Seq<char>>,
    write: W,
    outcome: Result<usize, RegistryError>,
) -> bool {
    match outcome {
        Ok(n) => {
            &&& n == ids.len()
            &&& n > 0 ==> (after.file() matches Some(path) ==> call_ensures(
                write,
                (&after, &path),
                Ok(()),
            ))
        },
        Err(error) => {
            &&& ids.len() > 0
            &&& error matches RegistryError::Save { message } && after.file() matches Some(path)
                && call_ensures(write, (&after, &path), Err(message))
        },
    }
}

/// A sweep by the clock expires no lease but pending and active ones, changes
/// nothing but states, and leaves no lease without an entry.
pub proof fn sweep_by_the_clock_expires_live_leases<
    W: Fn(&Registry, &PathBuf) -> Result<(), String>,
>(registry: &mut Registry, write: &W, outcome: Result<usize, RegistryError>)
    requires
        call_ensures(Registry::expire_stale::<W>, (registry, write), outcome),
    ensures
        exists|now: Timestamp|
            #![trigger clock::is_clock_reading(now)]
            forall|id: Seq<char>| #[trigger]
                old(registry)@.contains_key(id) ==> {
                    let was = old(registry)@[id];
                    let left = final(registry)@[id];
                    let past = now.secs > was.expires_at.secs || (now.secs == was.expires_at.secs
                        && now.nanos > was.expires_at.nanos);
                    &&& final(registry)@.contains_key(id)
                    &&& if (was.state is Pending || was.state is Active) && past {
                        left.state is Expired && same_but_state(was, left)
                    } else {
                        left == was
                    }
                },
{
    let now = choose|now: Timestamp| #[trigger]
        clock::is_clock_reading(now) && registry::stale_expired(
            *old(registry),
            *final(registry),
            now,
            *write,
            outcome,
        );
    assert(clock::is_clock_reading(now));
}

/// Once a client has died, its lease is expired, whether it was pending or
/// active; where the client lives, where there is none, and where the lease is
/// over, the lease stays as it is.
pub proof fn leases_of_dead_clients_expire<
    F: Fn(u32) -> bool,
    W: Fn(&Registry, &PathBuf) -> Result<(), String>,
>(
    registry: &mut Registry,
    pid_is_alive: F,
    write: &W,
    outcome: Result<usize, RegistryError>,
    id: Seq<char>,
)
    requires
        call_ensures(
            Registry::expire_dead_clients::<F, W>,
            (registry, pid_is_alive, write),
            outcome,
        ),
    ensures
        final(registry)@.contains_key(id) <==> old(registry)@.contains_key(id),
        old(registry)@.contains_key(id) ==> {
            let was = old(registry)@[id];
            let left = final(registry)@[id];
            &&& left == was || (left.state is Expired && same_but_state(was, left))
            &&& (was.state is Pending || was.state is Active) && (was.client_pid matches Some(pid)
                && !call_ensures(pid_is_alive, (pid,), true)) ==> left.state is Expired
            &&& was.client_pid is None ==> left == was
            &&& (was.client_pid matches Some(pid) && !call_ensures(pid_is_alive, (pid,), false))
                ==> left == was
            &&& !(was.state is Pending || was.state is Active) ==> left == was
        },
{
}

/// The leases that expire for their clients are counted, and the registry is
/// written where there was one.
pub proof fn leases_of_dead_clients_are_counted<
    F: Fn(u32) -> bool,
    W: Fn(&Registry, &PathBuf) -> Result<(), String>,
>(registry: &mut Registry, pid_is_alive: F, write: &W, outcome: Result<usize, RegistryError>)
    requires
        call_ensures(
            Registry::expire_dead_clients::<F, W>,
            (registry, pid_is_alive, write),
            outcome,
        ),
    ensures
        exists|ids: Set<Seq<char>>|
            {
                &&& forall|id: Seq<char>| #[trigger]
                    ids.contains(id) <==> old(registry)@.contains_key(id) && final(registry)@[id].state != old(registry)@[id].state
                &&& counted(*final(registry), ids, *write, outcome)
            },
{
    let dead = choose|dead: Set<Seq<char>>|
        {
            &&& #[trigger] registry::found_dead(old(registry)@, pid_is_alive, dead)
            &&& final(registry)@ == leases::with_expired(old(registry)@, dead)
            &&& registry::swept(*final(registry), dead.len(), *write, outcome)
        };
    assert(counted(*final(registry), dead, *write, outcome));
    assert forall|id: Seq<char>| #[trigger]
        dead.contains(id) <==> old(registry)@.contains_key(id) && final(registry)@[id].state
            != old(registry)@[id].state by {
        if old(registry)@.contains_key(id) {
            assert(old(registry)@.dom().contains(id));
        }
    }
}

/// The places of the entries that are picked, in order.
proof fn lemma_picked_places(
    entries: Seq<LeaseEntry>,
    property: spec_fn(Lease) -> bool,
) -> (places: Seq<int>)
    ensures
        places.len() == leases::picked(entries, property).len(),
        forall|j: int|
            0 <= j < places.len() ==> 0 <= #[trigger] places[j] < entries.len()
                && leases::picked(entries, property)[j] == entries[places[j]],
        forall|j: int, k: int|
            0 <= j < k < places.len() ==> #[trigger] places[j] < #[trigger] places[k],
        forall|i: int|
            0 <= i < entries.len() ==> (#[trigger] places.contains(i) <==> property(
                entries[i].lease,
            )),
    decreases entries.len(),
{
    if entries.len() == 0 {
        reveal(Seq::filter);
        Seq::empty()
    } else {
        let n = entries.len() - 1;
        let first = entries.take(n);
        let before = lemma_picked_places(first, property);
        assert(entries.take(n + 1) =~= entries);
        leases::lemma_picked_step(entries, property, n);
        assert(forall|i: int| 0 <= i < n ==> first[i] == #[trigger] entries[i]);
        let places = if property(entries[n].lease) {
            before.push(n)
        } else {
            before
        };
        assert forall|i: int| 0 <= i < entries.len() implies (#[trigger] places.contains(i)
            <==> property(entries[i].lease)) by {
            if i < n {
                assert(before.contains(i) <==> property(first[i].lease));
                if before.contains(i) {
                    let j = choose|j: int| 0 <= j < before.len() && before[j] == i;
                    assert(places[j] == i);
                }
                if places.contains(i) {
                    let j = choose|j: int| 0 <= j < places.len() && places[j] == i;
                    assert(before[j] == i);
                }
            } else if property(entries[n].lease) {
                assert(places[before.len() as int] == n);
            } else if places.contains(i) {
                let j = choose|j: int| 0 <= j < places.len() && places[j] == i;
                assert(before[j] < n);
            }
        }
        places
    }
}

/// The clients that are asked about are those of the pending and active leases,
/// one for each lease that has one, in the order of the entries.
pub proof fn clients_of_live_leases_are_asked_about(
    registry: &Registry,
    pids: Vec<u32>,
    entries: &Vec<LeaseEntry>,
)
    requires
        call_ensures(Registry::client_pids, (registry,), pids),
        call_ensures(Registry::entries, (registry,), entries),
    ensures
        exists|places: Seq<int>| #[trigger] are_clients_at(entries@, places, pids@),
{
    let places = lemma_picked_places(entries@, leases::with_client());
    assert forall|j: int| 0 <= j < places.len() implies {
        &&& 0 <= #[trigger] places[j] < entries@.len()
        &&& entries@[places[j]].lease.client_pid == Some(pids@[j])
    } by {
        assert(leases::client_entries(entries@)[j] == entries@[places[j]]);
        assert(places.contains(places[j]));
    }
    assert(are_clients_at(entries@, places, pids@));
}

/// Whether the pids are those of the entries at the places, in order, and these
/// are the places of all pending and active leases with a client.
pub open spec fn are_clients_at(
    entries: Seq<LeaseEntry>,
    places: Seq<int>,
    pids: Seq<u32>,
) -> bool {
    &&& places.len() == pids.len()
    &&& forall|j: int|
        0 <= j < places.len() ==> {
            &&& 0 <= #[trigger] places[j] < entries.len()
            &&& entries[places[j]].lease.client_pid == Some(pids[j])
        }
    &&& forall|j: int, k: int|
        0 <= j < k < places.len() ==> #[trigger] places[j] < #[trigger] places[k]
    &&& forall|i: int|
        0 <= i < entries.len() ==> (#[trigger] places.contains(i) <==> entries[i].lease.client_pid
            is Some && (entries[i].lease.state is Pending || entries[i].lease.state is Active))
}

/// By the answers about the clients, a pending or active lease expires where
/// every answer about its client is that it is dead, and stays where every
/// answer is that it lives. No lease without a client expires.
pub proof fn answers_decide_about_leases<W: Fn(&Registry, &PathBuf) -> Result<(), String>>(
    asked: &Registry,
    pids: Vec<u32>,
    registry: &mut Registry,
    alive: &[bool],
    write: &W,
    outcome: Result<usize, RegistryError>,
    id: Seq<char>,
)
    requires
        call_ensures(Registry::client_pids, (asked,), pids),
        *asked == *old(registry),
        old(registry).wf(),
        alive@.len() == pids@.len(),
        call_ensures(Registry::expire_clients::<W>, (registry, alive, write), outcome),
    ensures
        final(registry)@.contains_key(id) <==> old(registry)@.contains_key(id),
        old(registry)@.contains_key(id) ==> {
            let was = old(registry)@[id];
            let left = final(registry)@[id];
            &&& left == was || (left.state is Expired && same_but_state(was, left))
            &&& was.client_pid is None || !(was.state is Pending || was.state is Active) ==> left
                == was
            &&& was.client_pid matches Some(pid) ==> {
                &&& (was.state is Pending || was.state is Active) && (forall|j: int|
                    0 <= j < pids@.len() && pids@[j] == pid ==> !#[trigger] alive@[j])
                    ==> left.state is Expired
                &&& (forall|j: int| 0 <= j < pids@.len() && pids@[j] == pid ==> #[trigger] alive@[j])
                    ==> left == was
            }
        },
{
    let entries = old(registry).contents();
    let all = leases::client_entries(entries);
    let dead = leases::dead_ids(all, alive@);
    registry::lemma_contents(*old(registry));
    leases::lemma_by_id(entries);
    leases::lemma_dead_ids(all, alive@, id);
    leases::lemma_picked(entries, leases::with_client());
    if old(registry)@.contains_key(id) {
        assert forall|j: int| 0 <= j < all.len() && (#[trigger] all[j]).id@ == id implies {
            &&& all[j].lease == old(registry)@[id]
            &&& leases::with_client()(all[j].lease)
            &&& old(registry)@[id].client_pid == Some(pids@[j])
        } by {
            leases::lemma_picked_from(entries, leases::with_client(), j);
            let i = choose|i: int| 0 <= i < entries.len() && #[trigger] entries[i] == all[j];
            assert(leases::by_id(entries)[entries[i].id@] == entries[i].lease);
        }
        let was = old(registry)@[id];
        if (was.state is Pending || was.state is Active) && was.client_pid is Some {
            assert(leases::ids_where(leases::by_id(entries), leases::with_client()).contains(id));
            assert(leases::entry_ids(all).to_set().contains(id));
            let j = choose|j: int| 0 <= j < all.len() && leases::entry_ids(all)[j] == id;
            assert(all[j].id@ == id);
            assert(alive@[j] || !alive@[j]);
        }
        if dead.contains(id) {
            let j = choose|j: int| 0 <= j < all.len() && (#[trigger] all[j]).id@ == id && !alive@[j];
            assert(!alive@[j]);
        }
    }
}

/// Garbage collection keeps every pending and active lease as it is and drops
/// every other; it counts those that it drops.
pub proof fn collection_keeps_the_live_leases<W: Fn(&Registry, &PathBuf) -> Result<(), String>>(
    registry: &mut Registry,
    write: &W,
    outcome: Result<usize, RegistryError>,
)
    requires
        call_ensures(Registry::gc::<W>, (registry, write), outcome),
    ensures
        forall|id: Seq<char>| #[trigger]
            final(registry)@.contains_key(id) <==> old(registry)@.contains_key(id) && (old(
                registry,
            )@[id].state is Pending || old(registry)@[id].state is Active),
        forall|id: Seq<char>| #[trigger]
            final(registry)@.contains_key(id) ==> final(registry)@[id] == old(registry)@[id],
        exists|ids: Set<Seq<char>>|
            {
                &&& forall|id: Seq<char>| #[trigger]
                    ids.contains(id) <==> old(registry)@.contains_key(id) && !final(registry)@.contains_key(id)
                &&& counted(*final(registry), ids, *write, outcome)
            },
{
    let ids = leases::ids_where(old(registry)@, leases::ended());
    assert(counted(*final(registry), ids, *write, outcome));
    assert forall|id: Seq<char>| #[trigger]
        ids.contains(id) <==> old(registry)@.contains_key(id) && !final(registry)@.contains_key(id) by {}
}

/// Loading keeps every lease of the entries. An active one that ran out at most
/// a minute before is pending again, one that ran out earlier is expired, and
/// every other is as it was.
pub proof fn loading_recovers_lapsed_leases<W: Fn(&Registry, &PathBuf) -> Result<(), String>>(
    path: PathBuf,
    entries: Vec<LeaseEntry>,
    now: Timestamp,
    write: &W,
    registry: Registry,
    i: int,
)
    requires
        leases::entry_ids(entries@).no_duplicates(),
        call_ensures(Registry::load_at::<W>, (path, entries, now, write), Ok(registry)),
        0 <= i < entries@.len(),
        now.nanos < 1_000_000_000,
        entries@[i].lease.expires_at.nanos < 1_000_000_000,
    ensures
        registry.file() == Some(path),
        registry@.contains_key(entries@[i].id@),
        ({
            let was = entries@[i].lease;
            let left = registry@[entries@[i].id@];
            let late = (now.secs - was.expires_at.secs) * 1_000_000_000 + (now.nanos
                - was.expires_at.nanos);
            if was.state is Active && late > 0 {
                &&& same_but_state(was, left)
                &&& late <= 60_000_000_000 ==> left.state is Pending
                &&& late > 60_000_000_000 ==> left.state is Expired
                &&& call_ensures(*write, (&registry, &path), Ok(()))
            } else {
                left == was
            }
        }),
{
    leases::lemma_by_id(entries@);
    let id = entries@[i].id@;
    let was = entries@[i].lease;
    let all = leases::by_id(entries@);
    assert(all.contains_key(id) && all[id] == was);
    if leases::lapsed(now)(was) {
        leases::lemma_picked(entries@, leases::lapsed(now));
        let changed = leases::ids_where(all, leases::lapsed(now));
        assert(changed.contains(id));
        assert(changed.len() > 0) by {
            if changed.len() == 0 {
                assert(changed =~= Set::empty());
            }
        }
    }
}

/// Loading adds no lease that is not among the entries.
pub proof fn loading_adds_no_lease<W: Fn(&Registry, &PathBuf) -> Result<(), String>>(
    path: PathBuf,
    entries: Vec<LeaseEntry>,
    now: Timestamp,
    write: &W,
    registry: Registry,
    id: Seq<char>,
)
    requires
        leases::entry_ids(entries@).no_duplicates(),
        call_ensures(Registry::load_at::<W>, (path, entries, now, write), Ok(registry)),
        registry@.contains_key(id),
    ensures
        exists|i: int| 0 <= i < entries@.len() && (#[trigger] entries@[i]).id@ == id,
{
    leases::lemma_by_id(entries@);
}

/// Loading fails only where a lease lapsed and the writer could not write.
pub proof fn loading_fails_only_with_the_writer<W: Fn(&Registry, &PathBuf) -> Result<(), String>>(
    path: PathBuf,
    entries: Vec<LeaseEntry>,
    now: Timestamp,
    write: &W,
    error: RegistryError,
)
    requires
        leases::entry_ids(entries@).no_duplicates(),
        call_ensures(Registry::load_at::<W>, (path, entries, now, write), Err(error)),
    ensures
        error is Save,
        exists|i: int|
            {
                &&& 0 <= i < entries@.len()
                &&& (#[trigger] entries@[i]).lease.state is Active
                &&& now.secs >= entries@[i].lease.expires_at.secs
            },
{
    leases::lemma_by_id(entries@);
    leases::lemma_picked(entries@, leases::lapsed(now));
    assert(leases::picked(entries@, leases::lapsed(now)).len() > 0);
    leases::lemma_picked_from(entries@, leases::lapsed(now), 0);
}

/// An empty registry holds no lease and has no file.
pub proof fn new_registry_is_empty(registry: Registry, id: Seq<char>)
    requires
        call_ensures(Registry::in_memory, (), registry),
    ensures
        !registry@.contains_key(id),
        registry.file() is None,
{
}

} // verus!
