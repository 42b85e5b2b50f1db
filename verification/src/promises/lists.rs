//! Looking leases up and listing them.
use vstd::prelude::*;
use crate::leases;
use crate::leases::LeaseEntry;
use crate::model::{Lease, LeaseState, Protocol};
use crate::registry;
use crate::registry::Registry;
use crate::text;

verus! {

/// The ids behind a list of the leases with a property.
pub(crate) proof fn lemma_listed_ids(
    leases: Map<Seq<char>, Lease>,
    property: spec_fn(Lease) -> bool,
    found: Seq<Lease>,
) -> (ids: Seq<Seq<char>>)
    requires
        registry::lists(leases, property, found),
    ensures
        ids.no_duplicates(),
        ids.len() == found.len(),
        forall|i: int|
            0 <= i < found.len() ==> leases.contains_key(#[trigger] ids[i]) && found[i]
                == leases[ids[i]],
        forall|id: Seq<char>| #[trigger]
            ids.contains(id) <==> leases.contains_key(id) && property(leases[id]),
{
    let ids = choose|ids: Seq<Seq<char>>|
        #![trigger ids.no_duplicates()]
        {
            &&& ids.no_duplicates()
            &&& ids.to_set() == leases::ids_where(leases, property)
            &&& ids.len() == found.len()
            &&& forall|i: int| 0 <= i < found.len() ==> #[trigger] found[i] == leases[ids[i]]
        };
    assert forall|id: Seq<char>| #[trigger]
        ids.contains(id) <==> leases.contains_key(id) && property(leases[id]) by {
        assert(ids.contains(id) == ids.to_set().contains(id));
    }
    assert forall|i: int| 0 <= i < found.len() implies leases.contains_key(#[trigger] ids[i])
        && found[i] == leases[ids[i]] by {
        assert(ids.contains(ids[i]));
    }
    ids
}

/// A list holds every pending or active lease whose project path starts with
/// the filter, every one where there is no filter, each once, and no other.
pub proof fn list_holds_exactly_what_was_asked_for(
    registry: &Registry,
    project_filter: Option<&str>,
    found: Vec<&Lease>,
)
    requires
        call_ensures(Registry::list, (registry, project_filter), found),
    ensures
        exists|ids: Seq<Seq<char>>|
            #![trigger ids.no_duplicates()]
            {
                &&& ids.no_duplicates()
                &&& ids.len() == found@.len()
                &&& forall|i: int|
                    0 <= i < found@.len() ==> registry@.contains_key(#[trigger] ids[i])
                        && *found@[i] == registry@[ids[i]]
                &&& forall|id: Seq<char>| #[trigger]
                    ids.contains(id) <==> {
                        &&& registry@.contains_key(id)
                        &&& registry@[id].state is Pending || registry@[id].state is Active
                        &&& project_filter matches Some(prefix) ==> prefix@.is_prefix_of(
                            registry@[id].project_path@,
                        )
                    }
            },
{
    let property = leases::listed(text::optional(project_filter));
    let ids = lemma_listed_ids(registry@, property, found@.unref());
    assert forall|i: int| 0 <= i < found@.len() implies registry@.contains_key(#[trigger] ids[i])
        && *found@[i] == registry@[ids[i]] by {
        assert(found@.unref()[i] == *found@[i]);
    }
    assert(ids.no_duplicates());
}

/// The empty filter lists as many leases as no filter, and the same.
pub proof fn empty_filter_lists_everything(
    registry: &Registry,
    filter: &str,
    filtered: Vec<&Lease>,
    all: Vec<&Lease>,
    i: int,
)
    requires
        call_ensures(Registry::list, (registry, Some(filter)), filtered),
        call_ensures(Registry::list, (registry, None::<&str>), all),
        filter@.len() == 0,
        0 <= i < all@.len(),
    ensures
        filtered@.len() == all@.len(),
        exists|j: int| 0 <= j < filtered@.len() && *(#[trigger] filtered@[j]) == *all@[i],
{
    let p = leases::listed(Some(filter@));
    let q = leases::listed(None);
    let few = lemma_listed_ids(registry@, p, filtered@.unref());
    let many = lemma_listed_ids(registry@, q, all@.unref());
    assert forall|id: Seq<char>| few.contains(id) == many.contains(id) by {
        assert(filter@.is_prefix_of(registry@[id].project_path@));
    }
    assert(few.to_set() =~= many.to_set());
    few.unique_seq_to_set();
    many.unique_seq_to_set();
    assert(many.contains(many[i]));
    assert(few.contains(many[i]));
    let j = choose|j: int| 0 <= j < few.len() && few[j] == many[i];
    assert(filtered@.unref()[j] == *filtered@[j]);
    assert(all@.unref()[i] == *all@[i]);
}

/// The active leases are those that are pending or active, each once.
pub proof fn active_leases_are_pending_or_active(registry: &Registry, found: Vec<&Lease>)
    requires
        call_ensures(Registry::active_leases, (registry,), found),
    ensures
        exists|ids: Seq<Seq<char>>|
            #![trigger ids.no_duplicates()]
            {
                &&& ids.no_duplicates()
                &&& ids.len() == found@.len()
                &&& forall|i: int|
                    0 <= i < found@.len() ==> registry@.contains_key(#[trigger] ids[i])
                        && *found@[i] == registry@[ids[i]]
                &&& forall|id: Seq<char>| #[trigger]
                    ids.contains(id) <==> {
                        &&& registry@.contains_key(id)
                        &&& registry@[id].state is Pending || registry@[id].state is Active
                    }
            },
{
    let ids = lemma_listed_ids(registry@, leases::live(), found@.unref());
    assert forall|i: int| 0 <= i < found@.len() implies registry@.contains_key(#[trigger] ids[i])
        && *found@[i] == registry@[ids[i]] by {
        assert(found@.unref()[i] == *found@[i]);
    }
    assert(ids.no_duplicates());
}

/// As many leases are counted as are listed without a filter.
pub proof fn count_agrees_with_list(registry: &Registry, count: usize, found: Vec<&Lease>)
    requires
        call_ensures(Registry::active_count, (registry,), count),
        call_ensures(Registry::list, (registry, None::<&str>), found),
    ensures
        count == found@.len(),
{
    assert(leases::listed(None) =~= leases::live());
    registry::lemma_lists_len(registry@, leases::live(), found@.unref());
}

/// A search by port finds a pending or active lease on that port and for that
/// protocol wherever there is one, and nothing else.
pub proof fn port_search_finds_its_holder(
    registry: &Registry,
    port: u16,
    protocol: Protocol,
    found: Option<&Lease>,
)
    requires
        call_ensures(Registry::find_active_by_port, (registry, port, protocol), found),
    ensures
        found matches Some(lease) ==> {
            &&& lease.port == port
            &&& lease.protocol == protocol
            &&& lease.state is Pending || lease.state is Active
            &&& exists|id: Seq<char>| #[trigger]
                registry@.contains_key(id) && registry@[id] == *lease
        },
        forall|id: Seq<char>| #[trigger]
            registry@.contains_key(id) && registry@[id].port == port && registry@[id].protocol
                == protocol && (registry@[id].state is Pending || registry@[id].state is Active)
                ==> found is Some,
{
    assert forall|id: Seq<char>| #[trigger]
        registry@.contains_key(id) && registry@[id].port == port && registry@[id].protocol
            == protocol && (registry@[id].state is Pending || registry@[id].state
            is Active) implies found is Some by {
        assert(leases::holds_port(registry@[id], port, protocol));
    }
}

/// A search by service finds a pending or active lease of that project and
/// service wherever there is one, and nothing else.
pub proof fn service_search_finds_its_holder(
    registry: &Registry,
    project: &str,
    service: &str,
    found: Option<&Lease>,
)
    requires
        call_ensures(Registry::find_active_by_service, (registry, project, service), found),
    ensures
        found matches Some(lease) ==> {
            &&& lease.project_path@ == project@
            &&& lease.service_name@ == service@
            &&& lease.state is Pending || lease.state is Active
            &&& exists|id: Seq<char>| #[trigger]
                registry@.contains_key(id) && registry@[id] == *lease
        },
        forall|id: Seq<char>| #[trigger]
            registry@.contains_key(id) && registry@[id].project_path@ == project@
                && registry@[id].service_name@ == service@ && (registry@[id].state is Pending
                || registry@[id].state is Active) ==> found is Some,
{
    assert forall|id: Seq<char>| #[trigger]
        registry@.contains_key(id) && registry@[id].project_path@ == project@
            && registry@[id].service_name@ == service@ && (registry@[id].state is Pending
            || registry@[id].state is Active) implies found is Some by {
        assert(leases::holds_service(registry@[id], project@, service@));
    }
}

/// A lease is looked up by its id, and found exactly where the registry has it.
pub proof fn lookup_finds_the_lease_of_the_id(
    registry: &Registry,
    lease_id: &str,
    found: Option<&Lease>,
)
    requires
        call_ensures(Registry::get, (registry, lease_id), found),
    ensures
        found is Some <==> registry@.contains_key(lease_id@),
        found matches Some(lease) ==> *lease == registry@[lease_id@],
{
}

/// The entries of a registry are its leases, each once, under its id.
pub proof fn entries_are_the_leases(registry: &Registry, entries: &Vec<LeaseEntry>)
    requires
        registry.wf(),
        call_ensures(Registry::entries, (registry,), entries),
    ensures
        forall|i: int|
            0 <= i < entries@.len() ==> registry@.contains_key((#[trigger] entries@[i]).id@)
                && registry@[entries@[i].id@] == entries@[i].lease,
        forall|id: Seq<char>| #[trigger]
            registry@.contains_key(id) ==> exists|i: int|
                0 <= i < entries@.len() && (#[trigger] entries@[i]).id@ == id,
        forall|i: int, j: int|
            0 <= i < j < entries@.len() ==> (#[trigger] entries@[i]).id@ != (
            #[trigger] entries@[j]).id@,
{
    leases::lemma_by_id(entries@);
    let ids = leases::entry_ids(entries@);
    assert forall|i: int, j: int| 0 <= i < j < entries@.len() implies (#[trigger] entries@[i]).id@
        != (#[trigger] entries@[j]).id@ by {
        assert(ids[i] != ids[j]);
    }
}

/// A state holds its port exactly while it is pending or active.
pub proof fn pending_and_active_leases_are_live(state: LeaseState, live: bool)
    requires
        call_ensures(LeaseState::live, (state,), live),
    ensures
        live <==> state is Pending || state is Active,
{
}

} // verus!
