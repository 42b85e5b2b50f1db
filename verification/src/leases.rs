//! What a registry holds: leases by id, and what its operations make of them.
use vstd::prelude::*;
use crate::clock;
use crate::clock::Timestamp;
use crate::model;
use crate::model::{Lease, LeaseState, Protocol};

verus! {

/// Grace period for crash recovery: recently-expired Active leases get a second chance (seconds).
pub const GRACE_PERIOD_SECS: i64 = 60;

/// A lease under the id by which the registry finds it.
#[derive(Debug)]
pub struct LeaseEntry {
    pub id: String,
    pub lease: Lease,
}

/// The ids of the entries, in order.
pub open spec fn entry_ids(entries: Seq<LeaseEntry>) -> Seq<Seq<char>> {
    entries.map_values(|entry: LeaseEntry| entry.id@)
}

/// The leases of the entries by id.
pub open spec fn by_id(entries: Seq<LeaseEntry>) -> Map<Seq<char>, Lease> {
    Map::new(
        |id: Seq<char>| entry_ids(entries).contains(id),
        |id: Seq<char>| entries[entry_ids(entries).index_of(id)].lease,
    )
}

/// The ids of the leases with a property.
pub open spec fn ids_where(
    leases: Map<Seq<char>, Lease>,
    property: spec_fn(Lease) -> bool,
) -> Set<Seq<char>> {
    leases.dom().filter(|id: Seq<char>| property(leases[id]))
}

/// The leases with every one of the given ids expired.
pub open spec fn with_expired(
    leases: Map<Seq<char>, Lease>,
    ids: Set<Seq<char>>,
) -> Map<Seq<char>, Lease> {
    Map::new(
        |id: Seq<char>| leases.contains_key(id),
        |id: Seq<char>|
            if ids.contains(id) {
                leases[id].after_expire()
            } else {
                leases[id]
            },
    )
}

/// The property of holding a port.
pub open spec fn live() -> spec_fn(Lease) -> bool {
    |lease: Lease| model::is_live(lease.state)
}

/// The property of holding a port past the expiry at `now`.
pub open spec fn stale(now: Timestamp) -> spec_fn(Lease) -> bool {
    |lease: Lease| model::is_live(lease.state) && lease.expired_at(now)
}

/// The property of holding a port for a project path that starts with the filter.
pub open spec fn listed(project_filter: Option<Seq<char>>) -> spec_fn(Lease) -> bool {
    |lease: Lease|
        model::is_live(lease.state) && (project_filter matches Some(prefix)
            ==> prefix.is_prefix_of(lease.project_path@))
}

/// Whether the lease holds the port.
pub open spec fn holds_port(lease: Lease, port: u16, protocol: Protocol) -> bool {
    model::is_live(lease.state) && lease.port == port && lease.protocol == protocol
}

/// Whether the lease is held for the service.
pub open spec fn holds_service(lease: Lease, project: Seq<char>, service: Seq<char>) -> bool {
    model::is_live(lease.state) && lease.project_path@ == project && lease.service_name@ == service
}

/// Whether some live lease holds the port.
pub open spec fn port_held(
    leases: Map<Seq<char>, Lease>,
    port: u16,
    protocol: Protocol,
) -> bool {
    exists|id: Seq<char>| #[trigger]
        leases.contains_key(id) && holds_port(leases[id], port, protocol)
}

/// Whether some live lease is held for the service.
pub open spec fn service_held(
    leases: Map<Seq<char>, Lease>,
    project: Seq<char>,
    service: Seq<char>,
) -> bool {
    exists|id: Seq<char>| #[trigger]
        leases.contains_key(id) && holds_service(leases[id], project, service)
}

/// The ports of all live leases, or of those for one protocol.
pub open spec fn held_ports(
    leases: Map<Seq<char>, Lease>,
    protocol: Option<Protocol>,
) -> Set<u16> {
    Set::new(
        |port: u16|
            exists|id: Seq<char>| #[trigger]
                leases.contains_key(id) && holds_one_of(leases[id], protocol) && leases[id].port
                    == port,
    )
}

/// Whether the lease holds a port, for the given protocol if there is one.
pub open spec fn holds_one_of(lease: Lease, protocol: Option<Protocol>) -> bool {
    model::is_live(lease.state) && (protocol matches Some(protocol) ==> lease.protocol == protocol)
}

/// What crash recovery at `now` makes of a lease: an active lease that ran out
/// within the grace period is pending again, one that ran out before is
/// expired, every other lease is left as it is.
pub open spec fn recovered(lease: Lease, now: Timestamp) -> Lease {
    if lease.state is Active && lease.expired_at(now) {
        if clock::elapsed_nanos(now, lease.expires_at) <= GRACE_PERIOD_SECS * 1_000_000_000 {
            Lease { state: LeaseState::Pending, ..lease }
        } else {
            Lease { state: LeaseState::Expired, ..lease }
        }
    } else {
        lease
    }
}

/// What crash recovery at `now` makes of all leases.
pub open spec fn all_recovered(
    leases: Map<Seq<char>, Lease>,
    now: Timestamp,
) -> Map<Seq<char>, Lease> {
    leases.map_values(|lease: Lease| recovered(lease, now))
}

/// The property of being changed by crash recovery at `now`.
pub open spec fn lapsed(now: Timestamp) -> spec_fn(Lease) -> bool {
    |lease: Lease| lease.state is Active && lease.expired_at(now)
}

/// The property of holding a port for a client that is known.
pub open spec fn with_client() -> spec_fn(Lease) -> bool {
    |lease: Lease| model::is_live(lease.state) && lease.client_pid is Some
}

/// The entries of the live leases with a client, in order.
pub open spec fn client_entries(entries: Seq<LeaseEntry>) -> Seq<LeaseEntry> {
    picked(entries, with_client())
}

/// The clients of the entries, in order.
pub open spec fn clients(entries: Seq<LeaseEntry>) -> Seq<u32> {
    entries.map_values(|entry: LeaseEntry| entry.lease.client_pid->0)
}

/// The ids of the entries whose answer is that the client is not alive.
pub open spec fn dead_ids(entries: Seq<LeaseEntry>, alive: Seq<bool>) -> Set<Seq<char>>
    decreases entries.len(),
{
    if entries.len() == 0 {
        Set::empty()
    } else {
        let before = dead_ids(entries.drop_last(), alive);
        if alive[entries.len() - 1] {
            before
        } else {
            before.insert(entries.last().id@)
        }
    }
}

/// An id is that of a dead client's lease exactly where one of the entries of
/// that id has that answer.
pub proof fn lemma_dead_ids(entries: Seq<LeaseEntry>, alive: Seq<bool>, id: Seq<char>)
    ensures
        dead_ids(entries, alive).finite(),
        dead_ids(entries, alive).contains(id) <==> exists|j: int|
            0 <= j < entries.len() && (#[trigger] entries[j]).id@ == id && !alive[j],
    decreases entries.len(),
{
    if entries.len() > 0 {
        let n = entries.len() - 1;
        let before = entries.drop_last();
        lemma_dead_ids(before, alive, id);
        assert(forall|j: int| 0 <= j < n ==> #[trigger] before[j] == entries[j]);
        if exists|j: int|
            0 <= j < entries.len() && (#[trigger] entries[j]).id@ == id && !alive[j] {
            let j = choose|j: int|
                0 <= j < entries.len() && (#[trigger] entries[j]).id@ == id && !alive[j];
            if j < n {
                assert(before[j].id@ == id);
            }
        }
        if dead_ids(before, alive).contains(id) {
            let j = choose|j: int|
                0 <= j < before.len() && (#[trigger] before[j]).id@ == id && !alive[j];
            assert(entries[j].id@ == id);
        }
        if !alive[n] && entries[n].id@ == id {
            assert(dead_ids(entries, alive).contains(id));
        }
    }
}

/// The property of holding no port any more.
pub open spec fn ended() -> spec_fn(Lease) -> bool {
    |lease: Lease| !model::is_live(lease.state)
}

/// Crash recovery at `now` for one lease. Returns whether the lease changed.
pub fn recover(lease: &mut Lease, now: Timestamp) -> (changed: bool)
    ensures
        *final(lease) == recovered(*old(lease), now),
        changed == lapsed(now)(*old(lease)),
{
    if lease.state == LeaseState::Active && lease.is_expired_at(now) {
        if now.nanos_since(lease.expires_at) <= GRACE_PERIOD_SECS as i128 * 1_000_000_000 {
            lease.state = LeaseState::Pending;
        } else {
            lease.state = LeaseState::Expired;
        }
        true
    } else {
        false
    }
}

/// Every entry is found under its id.
pub proof fn lemma_by_id(entries: Seq<LeaseEntry>)
    requires
        entry_ids(entries).no_duplicates(),
    ensures
        forall|i: int|
            0 <= i < entries.len() ==> by_id(entries).contains_key(#[trigger] entries[i].id@)
                && by_id(entries)[entries[i].id@] == entries[i].lease,
        forall|id: Seq<char>| #[trigger]
            by_id(entries).contains_key(id) ==> exists|i: int|
                0 <= i < entries.len() && #[trigger] entries[i].id@ == id,
{
    let ids = entry_ids(entries);
    assert forall|i: int| 0 <= i < entries.len() implies by_id(entries).contains_key(
        #[trigger] entries[i].id@,
    ) && by_id(entries)[entries[i].id@] == entries[i].lease by {
        assert(ids[i] == entries[i].id@);
        assert(ids.contains(entries[i].id@));
        let k = ids.index_of(entries[i].id@);
        assert(0 <= k < ids.len() && ids[k] == ids[i]);
        assert(k == i);
    }
    assert forall|id: Seq<char>| #[trigger] by_id(entries).contains_key(id) implies exists|i: int|
        0 <= i < entries.len() && #[trigger] entries[i].id@ == id by {
        let i = choose|i: int| 0 <= i < ids.len() && ids[i] == id;
        assert(entries[i].id@ == id);
    }
}

/// The entries whose lease has a property, in order.
pub open spec fn picked(
    entries: Seq<LeaseEntry>,
    property: spec_fn(Lease) -> bool,
) -> Seq<LeaseEntry> {
    entries.filter(|entry: LeaseEntry| property(entry.lease))
}

/// The last entry is picked, if it has the property, after those before it.
pub proof fn lemma_picked_step(entries: Seq<LeaseEntry>, property: spec_fn(Lease) -> bool, i: int)
    requires
        0 <= i < entries.len(),
    ensures
        picked(entries.take(i + 1), property) == if property(entries[i].lease) {
            picked(entries.take(i), property).push(entries[i])
        } else {
            picked(entries.take(i), property)
        },
{
    reveal(Seq::filter);
    assert(entries.take(i + 1).drop_last() =~= entries.take(i));
}

/// What is picked from the first entries comes first in what is picked.
pub proof fn lemma_picked_prefix(entries: Seq<LeaseEntry>, property: spec_fn(Lease) -> bool, i: int)
    requires
        0 <= i <= entries.len(),
    ensures
        picked(entries.take(i), property).len() <= picked(entries, property).len(),
        picked(entries.take(i), property) == picked(entries, property).take(
            picked(entries.take(i), property).len() as int,
        ),
    decreases entries.len() - i,
{
    let first = picked(entries.take(i), property);
    if i == entries.len() {
        assert(entries.take(i) =~= entries);
        assert(first =~= first.take(first.len() as int));
    } else {
        lemma_picked_prefix(entries, property, i + 1);
        lemma_picked_step(entries, property, i);
        assert(first =~= picked(entries, property).take(first.len() as int));
    }
}

/// An id has a property exactly where one of the entries of that id has it.
pub proof fn lemma_ids_where(
    entries: Seq<LeaseEntry>,
    property: spec_fn(Lease) -> bool,
    id: Seq<char>,
)
    requires
        entry_ids(entries).no_duplicates(),
    ensures
        ids_where(by_id(entries), property).contains(id) <==> exists|i: int|
            0 <= i < entries.len() && (#[trigger] entries[i]).id@ == id && property(
                entries[i].lease,
            ),
{
    lemma_by_id(entries);
    if ids_where(by_id(entries), property).contains(id) {
        assert(by_id(entries).contains_key(id));
        let i = choose|i: int| 0 <= i < entries.len() && #[trigger] entries[i].id@ == id;
        assert(by_id(entries)[entries[i].id@] == entries[i].lease);
    }
}

/// The picked entries are those of the ids with the property, each once.
pub proof fn lemma_picked(entries: Seq<LeaseEntry>, property: spec_fn(Lease) -> bool)
    requires
        entry_ids(entries).no_duplicates(),
    ensures
        entry_ids(picked(entries, property)).no_duplicates(),
        entry_ids(picked(entries, property)).to_set() == ids_where(by_id(entries), property),
        ids_where(by_id(entries), property).finite(),
        ids_where(by_id(entries), property).len() == picked(entries, property).len(),
    decreases entries.len(),
{
    let chosen = entry_ids(picked(entries, property));
    if entries.len() == 0 {
        reveal(Seq::filter);
        assert(chosen.to_set() =~= ids_where(by_id(entries), property));
    } else {
        let n = entries.len() - 1;
        let prev = entries.take(n);
        let prev_chosen = entry_ids(picked(prev, property));
        let last = entries[n];
        assert(entries.take(n + 1) =~= entries);
        assert(entry_ids(prev) =~= entry_ids(entries).take(n));
        lemma_picked(prev, property);
        lemma_picked_step(entries, property, n);
        assert(forall|i: int| 0 <= i < n ==> entry_ids(entries)[i] == (#[trigger] prev[i]).id@);
        assert(entry_ids(entries)[n] == last.id@);
        assert(!prev_chosen.contains(last.id@)) by {
            if prev_chosen.contains(last.id@) {
                assert(prev_chosen.to_set().contains(last.id@));
                lemma_ids_where(prev, property, last.id@);
                let i = choose|i: int|
                    0 <= i < prev.len() && (#[trigger] prev[i]).id@ == last.id@ && property(
                        prev[i].lease,
                    );
                assert(entry_ids(entries)[i] == entry_ids(entries)[n]);
            }
        }
        if property(last.lease) {
            assert(chosen =~= prev_chosen.push(last.id@));
        }
        assert forall|id: Seq<char>| chosen.to_set().contains(id) == ids_where(
            by_id(entries),
            property,
        ).contains(id) by {
            lemma_ids_where(entries, property, id);
            lemma_ids_where(prev, property, id);
            assert(prev_chosen.to_set().contains(id) == prev_chosen.contains(id));
            if exists|i: int|
                0 <= i < entries.len() && (#[trigger] entries[i]).id@ == id && property(
                    entries[i].lease,
                ) {
                let i = choose|i: int|
                    0 <= i < entries.len() && (#[trigger] entries[i]).id@ == id && property(
                        entries[i].lease,
                    );
                if i < n {
                    assert(prev[i] == entries[i]);
                    assert(prev_chosen.contains(id));
                    let k = choose|k: int| 0 <= k < prev_chosen.len() && prev_chosen[k] == id;
                    assert(chosen[k] == id);
                } else {
                    assert(chosen[chosen.len() - 1] == id);
                }
            }
            if chosen.contains(id) {
                let k = choose|k: int| 0 <= k < chosen.len() && chosen[k] == id;
                if k < prev_chosen.len() {
                    assert(prev_chosen[k] == id);
                    assert(prev_chosen.contains(id));
                    let i = choose|i: int|
                        0 <= i < prev.len() && (#[trigger] prev[i]).id@ == id && property(
                            prev[i].lease,
                        );
                    assert(entries[i] == prev[i]);
                } else {
                    assert(entries[n].id@ == id);
                }
            }
        }
        assert(chosen.to_set() =~= ids_where(by_id(entries), property));
    }
    chosen.unique_seq_to_set();
}

/// Another lease under the id of an entry takes the place of the one there.
pub proof fn lemma_by_id_update(entries: Seq<LeaseEntry>, i: int, entry: LeaseEntry)
    requires
        entry_ids(entries).no_duplicates(),
        0 <= i < entries.len(),
        entry.id@ == entries[i].id@,
    ensures
        entry_ids(entries.update(i, entry)) == entry_ids(entries),
        by_id(entries.update(i, entry)) == by_id(entries).insert(entry.id@, entry.lease),
{
    let updated = entries.update(i, entry);
    assert(entry_ids(updated) =~= entry_ids(entries));
    lemma_by_id(entries);
    lemma_by_id(updated);
    assert forall|id: Seq<char>| by_id(entries).contains_key(id) implies #[trigger] by_id(
        updated,
    )[id] == by_id(entries).insert(entry.id@, entry.lease)[id] by {
        let k = choose|k: int| 0 <= k < entries.len() && #[trigger] entries[k].id@ == id;
        assert(updated[k].id@ == id);
        if k != i {
            assert(entry_ids(entries)[k] != entry_ids(entries)[i]);
        }
    }
    assert(by_id(entries).contains_key(entries[i].id@));
    assert(by_id(updated) =~= by_id(entries).insert(entry.id@, entry.lease));
}

/// An entry of a new id is added to the leases.
pub proof fn lemma_by_id_push(entries: Seq<LeaseEntry>, entry: LeaseEntry)
    requires
        entry_ids(entries).no_duplicates(),
        !by_id(entries).contains_key(entry.id@),
    ensures
        entry_ids(entries.push(entry)).no_duplicates(),
        by_id(entries.push(entry)) == by_id(entries).insert(entry.id@, entry.lease),
{
    let pushed = entries.push(entry);
    assert(entry_ids(pushed) =~= entry_ids(entries).push(entry.id@));
    lemma_by_id(entries);
    lemma_by_id(pushed);
    assert forall|id: Seq<char>| by_id(pushed).contains_key(id) implies by_id(
        entries,
    ).insert(entry.id@, entry.lease).contains_key(id) && #[trigger] by_id(pushed)[id] == by_id(
        entries,
    ).insert(entry.id@, entry.lease)[id] by {
        let k = choose|k: int| 0 <= k < pushed.len() && #[trigger] pushed[k].id@ == id;
        if k < entries.len() {
            assert(entries[k].id@ == id);
        }
    }
    assert forall|id: Seq<char>| by_id(entries).insert(
        entry.id@,
        entry.lease,
    ).contains_key(id) implies #[trigger] by_id(pushed).contains_key(id) by {
        if id == entry.id@ {
            assert(pushed[entries.len() as int].id@ == id);
        } else {
            let k = choose|k: int| 0 <= k < entries.len() && #[trigger] entries[k].id@ == id;
            assert(pushed[k].id@ == id);
        }
    }
    assert(by_id(pushed) =~= by_id(entries).insert(entry.id@, entry.lease));
}

/// What is done to every entry's lease is done to every lease.
pub proof fn lemma_by_id_each(
    entries: Seq<LeaseEntry>,
    changed: Seq<LeaseEntry>,
    expected: Map<Seq<char>, Lease>,
)
    requires
        entry_ids(entries).no_duplicates(),
        changed.len() == entries.len(),
        expected.dom() == by_id(entries).dom(),
        forall|i: int|
            0 <= i < entries.len() ==> (#[trigger] changed[i]).id@ == entries[i].id@
                && changed[i].lease == expected[entries[i].id@],
    ensures
        entry_ids(changed) == entry_ids(entries),
        by_id(changed) == expected,
{
    assert(entry_ids(changed) =~= entry_ids(entries)) by {
        assert forall|i: int| 0 <= i < entries.len() implies #[trigger] entry_ids(changed)[i]
            == entry_ids(entries)[i] by {
            assert(changed[i].id@ == entries[i].id@);
        }
    }
    lemma_by_id(entries);
    lemma_by_id(changed);
    assert forall|id: Seq<char>| by_id(changed).contains_key(id) implies #[trigger] by_id(
        changed,
    )[id] == expected[id] by {
        let k = choose|k: int| 0 <= k < changed.len() && #[trigger] changed[k].id@ == id;
        assert(changed[k].lease == expected[id]);
    }
    assert(by_id(changed).dom() =~= by_id(entries).dom());
    assert(by_id(changed) =~= expected);
}

/// Every picked entry is one of the entries and has the property.
pub proof fn lemma_picked_from(entries: Seq<LeaseEntry>, property: spec_fn(Lease) -> bool, k: int)
    requires
        0 <= k < picked(entries, property).len(),
    ensures
        property(picked(entries, property)[k].lease),
        exists|i: int|
            0 <= i < entries.len() && #[trigger] entries[i] == picked(entries, property)[k],
    decreases entries.len(),
{
    if entries.len() == 0 {
        reveal(Seq::filter);
    } else {
        let n = entries.len() - 1;
        assert(entries.take(n + 1) =~= entries);
        lemma_picked_step(entries, property, n);
        if k < picked(entries.take(n), property).len() {
            lemma_picked_from(entries.take(n), property, k);
            let i = choose|i: int|
                0 <= i < n && #[trigger] entries.take(n)[i] == picked(entries, property)[k];
            assert(entries[i] == picked(entries, property)[k]);
        } else {
            assert(entries[n] == picked(entries, property)[k]);
        }
    }
}

/// Keeping the picked entries keeps the leases with the property.
pub proof fn lemma_by_id_picked(entries: Seq<LeaseEntry>, property: spec_fn(Lease) -> bool)
    requires
        entry_ids(entries).no_duplicates(),
    ensures
        by_id(picked(entries, property)) == by_id(entries).restrict(
            ids_where(by_id(entries), property),
        ),
{
    let kept = picked(entries, property);
    let wanted = ids_where(by_id(entries), property);
    lemma_picked(entries, property);
    lemma_by_id(entries);
    lemma_by_id(kept);
    assert forall|id: Seq<char>| by_id(kept).contains_key(id) == by_id(entries).restrict(
        wanted,
    ).contains_key(id) by {
        assert(by_id(kept).contains_key(id) == entry_ids(kept).to_set().contains(id));
    }
    assert forall|id: Seq<char>| by_id(kept).contains_key(id) implies #[trigger] by_id(kept)[id]
        == by_id(entries)[id] by {
        let k = choose|k: int| 0 <= k < kept.len() && #[trigger] kept[k].id@ == id;
        lemma_picked_from(entries, property, k);
        let i = choose|i: int| 0 <= i < entries.len() && #[trigger] entries[i] == kept[k];
        assert(by_id(entries)[entries[i].id@] == entries[i].lease);
    }
    assert(by_id(kept) =~= by_id(entries).restrict(wanted));
}

/// Copies of the leases.
pub fn cloned(found: &Vec<&Lease>) -> (leases: Vec<Lease>)
    ensures
        leases@ == found@.unref(),
{
    let mut leases: Vec<Lease> = Vec::new();
    let mut i: usize = 0;
    while i < found.len()
        invariant
            i <= found.len(),
            leases@ == found@.unref().take(i as int),
        decreases found.len() - i,
    {
        leases.push(found[i].clone());
        assert(found@.unref().take(i + 1) =~= found@.unref().take(i as int).push(
            found@.unref()[i as int],
        ));
        i += 1;
    }
    assert(found@.unref().take(found@.len() as int) =~= found@.unref());
    leases
}

} // verus!
