//! The registry of port leases.
//!
//! The registry holds every lease under its id. Time, the state of the host's
//! ports and the disk come in from outside: the clock is read here, the other
//! two are asked through the functions that the caller passes in.
use std::collections::HashSet;
use std::path::PathBuf;
use vstd::prelude::*;
use vstd::string::StringExecFns;
use crate::clock;
use crate::clock::Timestamp;
use crate::decimal;
use crate::guarantees;
use crate::leases;
use crate::leases::LeaseEntry;
use crate::model;
use crate::model::{Lease, LeaseState, Protocol};
use crate::port_check;
use crate::text;

verus! {

broadcast use vstd::std_specs::hash::group_hash_axioms;

/// Default lease duration for new allocations (seconds).
pub const DEFAULT_LEASE_SECS: i64 = 300;

/// Default heartbeat extension (seconds).
pub const HEARTBEAT_EXTENSION_SECS: i64 = 300;

/// Why the registry turned a request down.
#[derive(Debug)]
pub enum RegistryError {
    /// The service already has a live lease.
    ServiceLeased { service: String, project: String, port: u16, lease_id: String },
    /// The port is held by a live lease.
    PortAllocated { port: u16, service: String, project: String, lease_id: String },
    /// The port is taken by a process outside of the registry.
    PortInUse { port: u16 },
    /// No port of the auto-assignment range is free.
    NoAvailablePort,
    /// There is no lease of that id.
    LeaseNotFound,
    /// The session token is not that of the lease.
    InvalidToken,
    /// Only a pending lease can be confirmed.
    NotPending { state: LeaseState },
    /// Only an active lease can be renewed.
    NotActive { state: LeaseState },
    /// The new expiry would lie beyond the end of the calendar.
    ExpiryOutOfRange,
    /// The registry could not be written to disk.
    Save { message: String },
}

/// The text of an error.
pub open spec fn error_text(error: RegistryError) -> Seq<char> {
    match error {
        RegistryError::ServiceLeased { service, project, port, lease_id } => "service '"@
            + service@ + "' in project '"@ + project@ + "' already has an active lease on port "@
            + decimal::decimal(port as nat) + " (lease: "@ + lease_id@ + ")"@,
        RegistryError::PortAllocated { port, service, project, lease_id } => "port "@
            + decimal::decimal(port as nat) + " is already allocated to service '"@ + service@
            + "' in '"@ + project@ + "' (lease: "@ + lease_id@ + ")"@,
        RegistryError::PortInUse { port } => "port "@ + decimal::decimal(port as nat)
            + " is in use by another process (not managed by portus)"@,
        RegistryError::NoAvailablePort => "no available ports in auto-assignment range"@,
        RegistryError::LeaseNotFound => "lease not found"@,
        RegistryError::InvalidToken => "invalid session token"@,
        RegistryError::NotPending { state } => "lease is not in pending state (current: "@
            + model::state_name(state) + ")"@,
        RegistryError::NotActive { state } => "lease is not active (current: "@
            + model::state_name(state) + ")"@,
        RegistryError::ExpiryOutOfRange => "lease expiry is out of range"@,
        RegistryError::Save { message } => message@,
    }
}

impl RegistryError {
    /// The text of the error.
    pub fn message(&self) -> (message: String)
        ensures
            message@ == error_text(*self),
    {
        match self {
            RegistryError::ServiceLeased { service, project, port, lease_id } => {
                let mut out = "service '".to_owned();
                out.append(service.as_str());
                out.append("' in project '");
                out.append(project.as_str());
                out.append("' already has an active lease on port ");
                out.append(decimal::decimal_text(*port as u64).as_str());
                out.append(" (lease: ");
                out.append(lease_id.as_str());
                out.append(")");
                out
            },
            RegistryError::PortAllocated { port, service, project, lease_id } => {
                let mut out = "port ".to_owned();
                out.append(decimal::decimal_text(*port as u64).as_str());
                out.append(" is already allocated to service '");
                out.append(service.as_str());
                out.append("' in '");
                out.append(project.as_str());
                out.append("' (lease: ");
                out.append(lease_id.as_str());
                out.append(")");
                out
            },
            RegistryError::PortInUse { port } => {
                let mut out = "port ".to_owned();
                out.append(decimal::decimal_text(*port as u64).as_str());
                out.append(" is in use by another process (not managed by portus)");
                out
            },
            RegistryError::NoAvailablePort => {
                "no available ports in auto-assignment range".to_owned()
            },
            RegistryError::LeaseNotFound => "lease not found".to_owned(),
            RegistryError::InvalidToken => "invalid session token".to_owned(),
            RegistryError::NotPending { state } => {
                let mut out = "lease is not in pending state (current: ".to_owned();
                out.append(state.name());
                out.append(")");
                out
            },
            RegistryError::NotActive { state } => {
                let mut out = "lease is not active (current: ".to_owned();
                out.append(state.name());
                out.append(")");
                out
            },
            RegistryError::ExpiryOutOfRange => "lease expiry is out of range".to_owned(),
            RegistryError::Save { message } => message.clone(),
        }
    }
}

// ── The registry ────────────────────────────────────────────────────────

/// In-memory registry of port leases, backed by an optional file.
#[derive(Debug)]
pub struct Registry {
    leases: Vec<LeaseEntry>,
    /// None = in-memory only (tests), Some = persisted to disk.
    path: Option<PathBuf>,
}

impl View for Registry {
    type V = Map<Seq<char>, Lease>;

    closed spec fn view(&self) -> Map<Seq<char>, Lease> {
        leases::by_id(self.leases@)
    }
}

/// Whether the writer can be asked to write a registry that holds these leases
/// to this file. Where there is no file, nothing is written.
pub open spec fn writes<W: Fn(&Registry, &PathBuf) -> Result<(), String>>(
    write: W,
    file: Option<PathBuf>,
    leases: Map<Seq<char>, Lease>,
) -> bool {
    file matches Some(path) ==> forall|registry: &Registry|
        registry.wf() && registry.file() == file && registry@ == leases
            ==> #[trigger] call_requires(write, (registry, &path))
}

/// Whether `outcome` may come of saving the registry: an in-memory registry is
/// not written, and for any other the writer says whether it was.
pub open spec fn saved<W: Fn(&Registry, &PathBuf) -> Result<(), String>>(
    registry: Registry,
    write: W,
    outcome: Result<(), RegistryError>,
) -> bool {
    match registry.file() {
        None => outcome is Ok,
        Some(path) => match outcome {
            Ok(done) => call_ensures(write, (&registry, &path), Ok(done)),
            Err(RegistryError::Save { message }) => call_ensures(
                write,
                (&registry, &path),
                Err(message),
            ),
            Err(_) => false,
        },
    }
}

/// Whether `found` are the leases with the property, each once, in some order.
pub open spec fn lists(
    leases: Map<Seq<char>, Lease>,
    property: spec_fn(Lease) -> bool,
    found: Seq<Lease>,
) -> bool {
    exists|ids: Seq<Seq<char>>|
        #![trigger ids.no_duplicates()]
        {
            &&& ids.no_duplicates()
            &&& ids.to_set() == leases::ids_where(leases, property)
            &&& ids.len() == found.len()
            &&& forall|i: int| 0 <= i < found.len() ==> #[trigger] found[i] == leases[ids[i]]
        }
}

impl Registry {
    /// Whether every lease has an id of its own.
    pub closed spec fn wf(&self) -> bool {
        leases::entry_ids(self.leases@).no_duplicates()
    }

    /// The file that the registry is written to, if there is one.
    pub closed spec fn file(&self) -> Option<PathBuf> {
        self.path
    }

    /// The entries in the order in which the registry holds them.
    pub closed spec fn contents(&self) -> Seq<LeaseEntry> {
        self.leases@
    }

    /// Create an empty in-memory registry (for testing). Does not persist to disk.
    pub fn in_memory() -> (registry: Self)
        ensures
            registry.wf(),
            registry@ == Map::<Seq<char>, Lease>::empty(),
            registry.file() is None,
    {
        let registry = Registry { leases: Vec::new(), path: None };
        assert(registry@ =~= Map::<Seq<char>, Lease>::empty());
        registry
    }

    /// Get the file path of this registry (if persisted).
    pub fn path(&self) -> (path: Option<&PathBuf>)
        ensures
            match path {
                Some(path) => self.file() == Some(*path),
                None => self.file() is None,
            },
    {
        match &self.path {
            Some(path) => Some(path),
            None => None,
        }
    }

    /// Every lease with its id.
    pub fn entries(&self) -> (entries: &Vec<LeaseEntry>)
        ensures
            entries@ == self.contents(),
            self.wf() ==> leases::entry_ids(entries@).no_duplicates(),
            self@ == leases::by_id(entries@),
    {
        &self.leases
    }

    /// Persist the registry with the given writer.
    /// No-op for in-memory registries.
    pub fn save<W: Fn(&Registry, &PathBuf) -> Result<(), String>>(&self, write: &W) -> (outcome:
        Result<(), RegistryError>)
        requires
            self.file() matches Some(path) ==> call_requires(*write, (self, &path)),
        ensures
            saved(*self, *write, outcome),
    {
        match &self.path {
            None => Ok(()),
            Some(path) => {
                let written = write(self, path);
                assert(call_ensures(*write, (self, path), written));
                match written {
                    Ok(done) => Ok(done),
                    Err(message) => Err(RegistryError::Save { message }),
                }
            },
        }
    }

    fn position(&self, lease_id: &str) -> (found: Option<usize>)
        requires
            self.wf(),
        ensures
            match found {
                Some(i) => i < self.leases.len() && self.leases@[i as int].id@ == lease_id@
                    && self@.contains_key(lease_id@) && self@[lease_id@]
                    == self.leases@[i as int].lease,
                None => !self@.contains_key(lease_id@),
            },
    {
        proof {
            leases::lemma_by_id(self.leases@);
        }
        let mut i: usize = 0;
        while i < self.leases.len()
            invariant
                self.wf(),
                i <= self.leases.len(),
                forall|k: int| 0 <= k < i ==> (#[trigger] self.leases@[k]).id@ != lease_id@,
            decreases self.leases.len() - i,
        {
            if text::same_text(self.leases[i].id.as_str(), lease_id) {
                proof {
                    leases::lemma_by_id(self.leases@);
                }
                return Some(i);
            }
            i += 1;
        }
        None
    }

    /// The lease of the given id.
    pub fn get(&self, lease_id: &str) -> (found: Option<&Lease>)
        requires
            self.wf(),
        ensures
            match found {
                Some(lease) => self@.contains_key(lease_id@) && self@[lease_id@] == *lease,
                None => !self@.contains_key(lease_id@),
            },
    {
        match self.position(lease_id) {
            Some(i) => Some(&self.leases[i].lease),
            None => None,
        }
    }

    /// The number of leases, live or not.
    pub fn len(&self) -> (count: usize)
        requires
            self.wf(),
        ensures
            count == self@.dom().len(),
    {
        proof {
            let ids = leases::entry_ids(self.leases@);
            ids.unique_seq_to_set();
            assert(self@.dom() =~= ids.to_set());
        }
        self.leases.len()
    }
}

// ── What the holder of a lease may do ───────────────────────────────────

impl Registry {
    /// Another lease in the place of the one at `i`.
    fn replace(&mut self, i: usize, lease: Lease)
        requires
            old(self).wf(),
            i < old(self).contents().len(),
        ensures
            final(self).wf(),
            final(self).file() == old(self).file(),
            final(self)@ == old(self)@.insert(old(self).contents()[i as int].id@, lease),
    {
        let ghost before = self.leases@;
        self.leases[i].lease = lease;
        proof {
            leases::lemma_by_id_update(before, i as int, self.leases@[i as int]);
            assert(self.leases@ =~= before.update(i as int, self.leases@[i as int]));
        }
    }

    /// Confirm a lease (client successfully bound the port).
    pub fn confirm<W: Fn(&Registry, &PathBuf) -> Result<(), String>>(
        &mut self,
        lease_id: &str,
        session_token: &str,
        write: &W,
    ) -> (outcome: Result<(), RegistryError>)
        requires
            old(self).wf(),
            forall|now: Timestamp| #[trigger]
                clock::is_clock_reading(now) ==> confirmation_writes(
                    *old(self),
                    lease_id@,
                    session_token@,
                    now,
                    *write,
                ),
        ensures
            exists|now: Timestamp| #[trigger]
                clock::is_clock_reading(now) && confirmed(
                    *old(self),
                    *final(self),
                    lease_id@,
                    session_token@,
                    now,
                    *write,
                    outcome,
                ),
    {
        let now = clock::utc_now();
        self.confirm_at(lease_id, session_token, now, write)
    }

    /// Confirm a lease at the given instant.
    pub fn confirm_at<W: Fn(&Registry, &PathBuf) -> Result<(), String>>(
        &mut self,
        lease_id: &str,
        session_token: &str,
        now: Timestamp,
        write: &W,
    ) -> (outcome: Result<(), RegistryError>)
        requires
            old(self).wf(),
            confirmation_writes(*old(self), lease_id@, session_token@, now, *write),
            now.secs + model::CONFIRM_EXTENSION_SECS <= i64::MAX,
        ensures
            confirmed(
                *old(self),
                *final(self),
                lease_id@,
                session_token@,
                now,
                *write,
                outcome,
            ),
    {
        let i = match self.position(lease_id) {
            Some(i) => i,
            None => {
                return Err(RegistryError::LeaseNotFound);
            },
        };
        if !text::same_text(self.leases[i].lease.session_token.as_str(), session_token) {
            return Err(RegistryError::InvalidToken);
        }
        let state = self.leases[i].lease.state;
        if state != LeaseState::Pending {
            return Err(RegistryError::NotPending { state });
        }
        if !now.plus_seconds(model::CONFIRM_EXTENSION_SECS).in_calendar() {
            return Err(RegistryError::ExpiryOutOfRange);
        }
        let mut lease = self.leases[i].lease.clone();
        lease.confirm_at(now);
        self.replace(i, lease);
        self.save(write)
    }

    /// Release a lease.
    pub fn release<W: Fn(&Registry, &PathBuf) -> Result<(), String>>(
        &mut self,
        lease_id: &str,
        session_token: &str,
        write: &W,
    ) -> (outcome: Result<(), RegistryError>)
        requires
            old(self).wf(),
            release_writes(*old(self), lease_id@, session_token@, *write),
        ensures
            released(*old(self), *final(self), lease_id@, session_token@, *write, outcome),
    {
        let i = match self.position(lease_id) {
            Some(i) => i,
            None => {
                return Err(RegistryError::LeaseNotFound);
            },
        };
        if !text::same_text(self.leases[i].lease.session_token.as_str(), session_token) {
            return Err(RegistryError::InvalidToken);
        }
        let mut lease = self.leases[i].lease.clone();
        lease.release();
        self.replace(i, lease);
        self.save(write)
    }

    /// Process a heartbeat for a lease. Returns the new expiry in RFC 3339.
    pub fn heartbeat<W: Fn(&Registry, &PathBuf) -> Result<(), String>>(
        &mut self,
        lease_id: &str,
        session_token: &str,
        write: &W,
    ) -> (outcome: Result<String, RegistryError>)
        requires
            old(self).wf(),
            forall|now: Timestamp| #[trigger]
                clock::is_clock_reading(now) ==> heartbeat_writes(
                    *old(self),
                    lease_id@,
                    session_token@,
                    now,
                    *write,
                ),
        ensures
            exists|now: Timestamp| #[trigger]
                clock::is_clock_reading(now) && renewed(
                    *old(self),
                    *final(self),
                    lease_id@,
                    session_token@,
                    now,
                    *write,
                    outcome,
                ),
    {
        let now = clock::utc_now();
        self.heartbeat_at(lease_id, session_token, now, write)
    }

    /// Process a heartbeat at the given instant.
    pub fn heartbeat_at<W: Fn(&Registry, &PathBuf) -> Result<(), String>>(
        &mut self,
        lease_id: &str,
        session_token: &str,
        now: Timestamp,
        write: &W,
    ) -> (outcome: Result<String, RegistryError>)
        requires
            old(self).wf(),
            heartbeat_writes(*old(self), lease_id@, session_token@, now, *write),
            now.secs + HEARTBEAT_EXTENSION_SECS <= i64::MAX,
        ensures
            renewed(*old(self), *final(self), lease_id@, session_token@, now, *write, outcome),
    {
        let i = match self.position(lease_id) {
            Some(i) => i,
            None => {
                return Err(RegistryError::LeaseNotFound);
            },
        };
        if !text::same_text(self.leases[i].lease.session_token.as_str(), session_token) {
            return Err(RegistryError::InvalidToken);
        }
        let state = self.leases[i].lease.state;
        if state != LeaseState::Active {
            return Err(RegistryError::NotActive { state });
        }
        let expires = match now.plus_seconds(HEARTBEAT_EXTENSION_SECS).rfc3339() {
            Some(expires) => expires,
            None => {
                return Err(RegistryError::ExpiryOutOfRange);
            },
        };
        let mut lease = self.leases[i].lease.clone();
        lease.heartbeat_at(now, HEARTBEAT_EXTENSION_SECS);
        self.replace(i, lease);
        match self.save(write) {
            Ok(_) => Ok(expires),
            Err(error) => Err(error),
        }
    }
}

/// Whether the registry knows the lease and the token is that of its holder;
/// the error otherwise.
pub open spec fn authorised(
    leases: Map<Seq<char>, Lease>,
    lease_id: Seq<char>,
    session_token: Seq<char>,
) -> Result<Lease, RegistryError> {
    if !leases.contains_key(lease_id) {
        Err(RegistryError::LeaseNotFound)
    } else if leases[lease_id].session_token@ != session_token {
        Err(RegistryError::InvalidToken)
    } else {
        Ok(leases[lease_id])
    }
}

/// Whether the writer can be asked for what a confirmation at `now` writes: the
/// registry with the lease confirmed, and only where it is.
pub open spec fn confirmation_writes<W: Fn(&Registry, &PathBuf) -> Result<(), String>>(
    before: Registry,
    lease_id: Seq<char>,
    session_token: Seq<char>,
    now: Timestamp,
    write: W,
) -> bool {
    let expiry = clock::plus_secs(now, model::CONFIRM_EXTENSION_SECS as int);
    authorised(before@, lease_id, session_token) matches Ok(lease) ==> (lease.state is Pending
        && clock::representable(expiry) ==> writes(
        write,
        before.file(),
        before@.insert(lease_id, lease.after_confirm(now)),
    ))
}

/// Whether the writer can be asked for what a release writes: the registry with
/// the lease released, and only where it is.
pub open spec fn release_writes<W: Fn(&Registry, &PathBuf) -> Result<(), String>>(
    before: Registry,
    lease_id: Seq<char>,
    session_token: Seq<char>,
    write: W,
) -> bool {
    authorised(before@, lease_id, session_token) matches Ok(lease) ==> writes(
        write,
        before.file(),
        before@.insert(lease_id, lease.after_release()),
    )
}

/// Whether the writer can be asked for what a heartbeat at `now` writes: the
/// registry with the lease renewed, and only where it is.
pub open spec fn heartbeat_writes<W: Fn(&Registry, &PathBuf) -> Result<(), String>>(
    before: Registry,
    lease_id: Seq<char>,
    session_token: Seq<char>,
    now: Timestamp,
    write: W,
) -> bool {
    let expiry = clock::plus_secs(now, HEARTBEAT_EXTENSION_SECS as int);
    authorised(before@, lease_id, session_token) matches Ok(lease) ==> (lease.state is Active
        && clock::representable(expiry) ==> writes(
        write,
        before.file(),
        before@.insert(
            lease_id,
            lease.after_heartbeat(now, HEARTBEAT_EXTENSION_SECS as int),
        ),
    ))
}

/// What a registry is and returns after a confirmation at `now`: a pending
/// lease becomes active for the holder of its token, and the registry is
/// saved; anything else is turned down and changes nothing.
pub open spec fn confirmed<W: Fn(&Registry, &PathBuf) -> Result<(), String>>(
    before: Registry,
    after: Registry,
    lease_id: Seq<char>,
    session_token: Seq<char>,
    now: Timestamp,
    write: W,
    outcome: Result<(), RegistryError>,
) -> bool {
    let expiry = clock::plus_secs(now, model::CONFIRM_EXTENSION_SECS as int);
    match authorised(before@, lease_id, session_token) {
        Err(error) => outcome == Err::<(), RegistryError>(error) && after == before,
        Ok(lease) => if !(lease.state is Pending) {
            outcome == Err::<(), RegistryError>(RegistryError::NotPending { state: lease.state })
                && after == before
        } else if !clock::representable(expiry) {
            outcome == Err::<(), RegistryError>(RegistryError::ExpiryOutOfRange) && after == before
        } else {
            &&& after.wf()
            &&& after.file() == before.file()
            &&& after@ == before@.insert(lease_id, lease.after_confirm(now))
            &&& saved(after, write, outcome)
        },
    }
}

/// What a registry is and returns after a release: the lease is released for
/// the holder of its token, whatever its state was, and the registry is saved.
pub open spec fn released<W: Fn(&Registry, &PathBuf) -> Result<(), String>>(
    before: Registry,
    after: Registry,
    lease_id: Seq<char>,
    session_token: Seq<char>,
    write: W,
    outcome: Result<(), RegistryError>,
) -> bool {
    match authorised(before@, lease_id, session_token) {
        Err(error) => outcome == Err::<(), RegistryError>(error) && after == before,
        Ok(lease) => {
            &&& after.wf()
            &&& after.file() == before.file()
            &&& after@ == before@.insert(lease_id, lease.after_release())
            &&& saved(after, write, outcome)
        },
    }
}

/// What a registry is and returns after a heartbeat at `now`: an active lease
/// is renewed for the holder of its token, and the registry is saved; anything
/// else is turned down and changes nothing.
pub open spec fn renewed<W: Fn(&Registry, &PathBuf) -> Result<(), String>>(
    before: Registry,
    after: Registry,
    lease_id: Seq<char>,
    session_token: Seq<char>,
    now: Timestamp,
    write: W,
    outcome: Result<String, RegistryError>,
) -> bool {
    let expiry = clock::plus_secs(now, HEARTBEAT_EXTENSION_SECS as int);
    match authorised(before@, lease_id, session_token) {
        Err(error) => outcome == Err::<String, RegistryError>(error) && after == before,
        Ok(lease) => if !(lease.state is Active) {
            outcome == Err::<String, RegistryError>(RegistryError::NotActive { state: lease.state })
                && after == before
        } else if !clock::representable(expiry) {
            outcome == Err::<String, RegistryError>(RegistryError::ExpiryOutOfRange) && after
                == before
        } else {
            &&& after.wf()
            &&& after.file() == before.file()
            &&& after@ == before@.insert(
                lease_id,
                lease.after_heartbeat(now, HEARTBEAT_EXTENSION_SECS as int),
            )
            &&& match outcome {
                Ok(expires) => expires@ == clock::rfc3339_text(expiry.secs, expiry.nanos) && saved(
                    after,
                    write,
                    Ok(()),
                ),
                Err(error) => saved(after, write, Err(error)),
            }
        },
    }
}

// ── Looking leases up ───────────────────────────────────────────────────

impl Registry {
    /// Find an active/pending lease by port and protocol.
    pub fn find_active_by_port(&self, port: u16, protocol: Protocol) -> (found: Option<&Lease>)
        requires
            self.wf(),
        ensures
            match found {
                Some(lease) => leases::holds_port(*lease, port, protocol) && exists|id: Seq<char>|
                    #[trigger] self@.contains_key(id) && self@[id] == *lease,
                None => !leases::port_held(self@, port, protocol),
            },
    {
        proof {
            leases::lemma_by_id(self.leases@);
        }
        let mut i: usize = 0;
        while i < self.leases.len()
            invariant
                self.wf(),
                i <= self.leases.len(),
                forall|k: int|
                    0 <= k < i ==> !leases::holds_port(
                        (#[trigger] self.leases@[k]).lease,
                        port,
                        protocol,
                    ),
            decreases self.leases.len() - i,
        {
            let lease = &self.leases[i].lease;
            if lease.state.live() && lease.port == port && lease.protocol == protocol {
                proof {
                    leases::lemma_by_id(self.leases@);
                    assert(self@.contains_key(self.leases@[i as int].id@));
                }
                return Some(lease);
            }
            i += 1;
        }
        None
    }

    /// Find an active/pending lease by project + service name.
    pub fn find_active_by_service(&self, project: &str, service: &str) -> (found: Option<&Lease>)
        requires
            self.wf(),
        ensures
            match found {
                Some(lease) => leases::holds_service(*lease, project@, service@) && exists|
                    id: Seq<char>,
                | #[trigger]
                    self@.contains_key(id) && self@[id] == *lease,
                None => !leases::service_held(self@, project@, service@),
            },
    {
        proof {
            leases::lemma_by_id(self.leases@);
        }
        let mut i: usize = 0;
        while i < self.leases.len()
            invariant
                self.wf(),
                i <= self.leases.len(),
                forall|k: int|
                    0 <= k < i ==> !leases::holds_service(
                        (#[trigger] self.leases@[k]).lease,
                        project@,
                        service@,
                    ),
            decreases self.leases.len() - i,
        {
            let lease = &self.leases[i].lease;
            if lease.state.live() && text::same_text(lease.project_path.as_str(), project)
                && text::same_text(lease.service_name.as_str(), service) {
                proof {
                    leases::lemma_by_id(self.leases@);
                    assert(self@.contains_key(self.leases@[i as int].id@));
                }
                return Some(lease);
            }
            i += 1;
        }
        None
    }

    /// All active/pending leases.
    pub fn active_leases(&self) -> (found: Vec<&Lease>)
        requires
            self.wf(),
        ensures
            lists(self@, leases::live(), found@.unref()),
    {
        let ghost property = leases::live();
        let mut found: Vec<&Lease> = Vec::new();
        let mut i: usize = 0;
        proof {
            reveal(Seq::filter);
            assert(leases::picked(self.leases@.take(0), property) =~= seq![]);
        }
        while i < self.leases.len()
            invariant
                i <= self.leases.len(),
                property == leases::live(),
                found@.len() == leases::picked(self.leases@.take(i as int), property).len(),
                forall|k: int|
                    0 <= k < found@.len() ==> *(#[trigger] found@[k]) == leases::picked(
                        self.leases@.take(i as int),
                        property,
                    )[k].lease,
            decreases self.leases.len() - i,
        {
            proof {
                leases::lemma_picked_step(self.leases@, property, i as int);
            }
            if self.leases[i].lease.state.live() {
                found.push(&self.leases[i].lease);
            }
            i += 1;
        }
        proof {
            assert(self.leases@.take(self.leases@.len() as int) =~= self.leases@);
            lemma_lists_picked(*self, property, found@.unref());
        }
        found
    }

    /// List active/pending leases, optionally filtered by project path prefix.
    pub fn list(&self, project_filter: Option<&str>) -> (found: Vec<&Lease>)
        requires
            self.wf(),
        ensures
            lists(self@, leases::listed(text::optional(project_filter)), found@.unref()),
    {
        let ghost property = leases::listed(text::optional(project_filter));
        let mut found: Vec<&Lease> = Vec::new();
        let mut i: usize = 0;
        proof {
            reveal(Seq::filter);
            assert(leases::picked(self.leases@.take(0), property) =~= seq![]);
        }
        while i < self.leases.len()
            invariant
                i <= self.leases.len(),
                property == leases::listed(text::optional(project_filter)),
                found@.len() == leases::picked(self.leases@.take(i as int), property).len(),
                forall|k: int|
                    0 <= k < found@.len() ==> *(#[trigger] found@[k]) == leases::picked(
                        self.leases@.take(i as int),
                        property,
                    )[k].lease,
            decreases self.leases.len() - i,
        {
            proof {
                leases::lemma_picked_step(self.leases@, property, i as int);
            }
            let lease = &self.leases[i].lease;
            let wanted = lease.state.live() && match project_filter {
                Some(prefix) => text::starts_with(lease.project_path.as_str(), prefix),
                None => true,
            };
            if wanted {
                found.push(lease);
            }
            i += 1;
        }
        proof {
            assert(self.leases@.take(self.leases@.len() as int) =~= self.leases@);
            lemma_lists_picked(*self, property, found@.unref());
        }
        found
    }

    /// Total active lease count.
    pub fn active_count(&self) -> (count: usize)
        requires
            self.wf(),
        ensures
            count == leases::ids_where(self@, leases::live()).len(),
    {
        let found = self.active_leases();
        proof {
            lemma_lists_len(self@, leases::live(), found@.unref());
        }
        found.len()
    }
}

/// The leases of a registry are those of its entries.
pub(crate) proof fn lemma_contents(registry: Registry)
    requires
        registry.wf(),
    ensures
        registry@ == leases::by_id(registry.contents()),
        leases::entry_ids(registry.contents()).no_duplicates(),
{
}

/// The picked entries list the leases with the property.
proof fn lemma_lists_picked(
    registry: Registry,
    property: spec_fn(Lease) -> bool,
    found: Seq<Lease>,
)
    requires
        registry.wf(),
        found.len() == leases::picked(registry.leases@, property).len(),
        forall|k: int|
            0 <= k < found.len() ==> #[trigger] found[k] == leases::picked(
                registry.leases@,
                property,
            )[k].lease,
    ensures
        lists(registry@, property, found),
{
    let entries = registry.leases@;
    let chosen = leases::picked(entries, property);
    let ids = leases::entry_ids(chosen);
    leases::lemma_picked(entries, property);
    leases::lemma_by_id(entries);
    assert forall|k: int| 0 <= k < found.len() implies #[trigger] found[k]
        == registry@[ids[k]] by {
        leases::lemma_picked_from(entries, property, k);
        let i = choose|i: int| 0 <= i < entries.len() && #[trigger] entries[i] == chosen[k];
        assert(registry@[entries[i].id@] == entries[i].lease);
        assert(ids[k] == chosen[k].id@);
    }
    assert(ids.no_duplicates());
}

/// A list of the leases with a property is as long as there are such leases.
pub proof fn lemma_lists_len(
    leases: Map<Seq<char>, Lease>,
    property: spec_fn(Lease) -> bool,
    found: Seq<Lease>,
)
    requires
        lists(leases, property, found),
    ensures
        found.len() == leases::ids_where(leases, property).len(),
{
    let ids = choose|ids: Seq<Seq<char>>|
        #![trigger ids.no_duplicates()]
        {
            &&& ids.no_duplicates()
            &&& ids.to_set() == leases::ids_where(leases, property)
            &&& ids.len() == found.len()
            &&& forall|i: int| 0 <= i < found.len() ==> #[trigger] found[i] == leases[ids[i]]
        };
    ids.unique_seq_to_set();
}

// ── Allocation ──────────────────────────────────────────────────────────

/// The ports of the default range that neither are in use nor belong to a live
/// lease, for whatever protocol.
pub open spec fn unused_ports(leases: Map<Seq<char>, Lease>, used: Set<u16>) -> Set<u16> {
    port_check::auto_ports().difference(used.union(leases::held_ports(leases, None)))
}

/// The ports of the default range that belong to no live lease for the protocol.
pub open spec fn unheld_ports(leases: Map<Seq<char>, Lease>, protocol: Protocol) -> Set<u16> {
    port_check::auto_ports().difference(leases::held_ports(leases, Some(protocol)))
}

/// Whether the host can be asked what an automatic choice of a port asks: once
/// which ports are in use, then about the unused ports, and where none of them
/// can be bound, about the unheld ones.
pub open spec fn auto_port_answers<P: Fn(u16, Protocol) -> bool, U: Fn() -> HashSet<u16>>(
    leases: Map<Seq<char>, Lease>,
    protocol: Protocol,
    is_port_available: P,
    used_ports: U,
) -> bool {
    &&& call_requires(used_ports, ())
    &&& forall|used: HashSet<u16>| #[trigger]
        call_ensures(used_ports, (), used) ==> {
            let unused = unused_ports(leases, used@);
            &&& port_check::answers(unused, protocol, is_port_available)
            &&& port_check::none_free(unused, protocol, is_port_available) ==> port_check::answers(
                unheld_ports(leases, protocol),
                protocol,
                is_port_available,
            )
        }
}

/// Whether an automatic choice of a port may come to `outcome`: the first
/// unused port that can be bound; where there is none, the first unheld one.
pub open spec fn auto_port<P: Fn(u16, Protocol) -> bool, U: Fn() -> HashSet<u16>>(
    leases: Map<Seq<char>, Lease>,
    protocol: Protocol,
    is_port_available: P,
    used_ports: U,
    outcome: Result<u16, RegistryError>,
) -> bool {
    let unheld = unheld_ports(leases, protocol);
    exists|used: HashSet<u16>|
        #![trigger call_ensures(used_ports, (), used)]
        {
            let unused = unused_ports(leases, used@);
            &&& call_ensures(used_ports, (), used)
            &&& match outcome {
                Ok(port) => {
                    ||| port_check::first_free(unused, protocol, is_port_available, port)
                    ||| port_check::none_free(unused, protocol, is_port_available)
                        && port_check::first_free(unheld, protocol, is_port_available, port)
                },
                Err(error) => {
                    &&& error is NoAvailablePort
                    &&& port_check::none_free(unused, protocol, is_port_available)
                    &&& port_check::none_free(unheld, protocol, is_port_available)
                },
            }
        }
}

/// Whether `error` names a live lease on the port.
pub open spec fn names_port_holder(
    leases: Map<Seq<char>, Lease>,
    port: u16,
    protocol: Protocol,
    error: RegistryError,
) -> bool {
    exists|id: Seq<char>| #[trigger]
        leases.contains_key(id) && leases::holds_port(leases[id], port, protocol) && error
            == (RegistryError::PortAllocated {
            port,
            service: leases[id].service_name,
            project: leases[id].project_path,
            lease_id: leases[id].lease_id,
        })
}

/// Whether `error` names a live lease of the service.
pub open spec fn names_service_holder(
    leases: Map<Seq<char>, Lease>,
    project: String,
    service: String,
    error: RegistryError,
) -> bool {
    exists|id: Seq<char>| #[trigger]
        leases.contains_key(id) && leases::holds_service(leases[id], project@, service@) && error
            == (RegistryError::ServiceLeased {
            service,
            project,
            port: leases[id].port,
            lease_id: leases[id].lease_id,
        })
}

/// Whether the host can be asked what the choice of a port asks: whether the
/// preferred port can be bound, and what an automatic choice asks where there
/// is one.
pub open spec fn choice_answers<P: Fn(u16, Protocol) -> bool, U: Fn() -> HashSet<u16>>(
    leases: Map<Seq<char>, Lease>,
    preferred_port: Option<u16>,
    protocol: Protocol,
    auto_reassign: bool,
    is_port_available: P,
    used_ports: U,
) -> bool {
    match preferred_port {
        None => auto_port_answers(leases, protocol, is_port_available, used_ports),
        Some(port) => {
            &&& call_requires(is_port_available, (port, protocol))
            &&& auto_reassign && (leases::port_held(leases, port, protocol) || port_check::refused(
                is_port_available,
                port,
                protocol,
            )) ==> auto_port_answers(leases, protocol, is_port_available, used_ports)
        },
    }
}

/// Whether the choice of a port may come to `outcome`. A preferred port that no
/// live lease holds and that can be bound is taken. One that is not free is
/// replaced by an automatic choice where that is wanted and turned down where
/// it is not. Without a preference the choice is automatic.
pub open spec fn chosen_port<P: Fn(u16, Protocol) -> bool, U: Fn() -> HashSet<u16>>(
    leases: Map<Seq<char>, Lease>,
    preferred_port: Option<u16>,
    protocol: Protocol,
    auto_reassign: bool,
    is_port_available: P,
    used_ports: U,
    outcome: Result<u16, RegistryError>,
) -> bool {
    match preferred_port {
        None => auto_port(leases, protocol, is_port_available, used_ports, outcome),
        Some(port) => {
            let held = leases::port_held(leases, port, protocol);
            ||| {
                &&& !held
                &&& port_check::bindable(is_port_available, port, protocol)
                &&& outcome == Ok::<u16, RegistryError>(port)
            }
            ||| {
                &&& held || port_check::refused(is_port_available, port, protocol)
                &&& if auto_reassign {
                    auto_port(leases, protocol, is_port_available, used_ports, outcome)
                } else {
                    match outcome {
                        Ok(_) => false,
                        Err(error) => if held {
                            names_port_holder(leases, port, protocol, error)
                        } else {
                            error == RegistryError::PortInUse { port }
                        },
                    }
                }
            }
        },
    }
}

/// What a registry is and returns once a lease is granted: the lease stands
/// under its id, and the registry is saved.
pub open spec fn granted<W: Fn(&Registry, &PathBuf) -> Result<(), String>>(
    before: Registry,
    after: Registry,
    lease: Lease,
    write: W,
    outcome: Result<Lease, RegistryError>,
) -> bool {
    &&& after.wf()
    &&& after.file() == before.file()
    &&& after@ == before@.insert(lease.lease_id@, lease)
    &&& match outcome {
        Ok(returned) => returned == lease && saved(after, write, Ok(())),
        Err(error) => saved(after, write, Err(error)),
    }
}

/// Whether the host can be asked what a request for a port asks, and the writer
/// for what it writes: the registry with the new lease. Where the service has a
/// live lease, neither is asked for anything.
pub open spec fn allocation_answers<
    P: Fn(u16, Protocol) -> bool,
    U: Fn() -> HashSet<u16>,
    W: Fn(&Registry, &PathBuf) -> Result<(), String>,
>(
    before: Registry,
    project: String,
    service: String,
    preferred_port: Option<u16>,
    protocol: Protocol,
    auto_reassign: bool,
    pid: Option<u32>,
    is_port_available: P,
    used_ports: U,
    write: W,
) -> bool {
    !leases::service_held(before@, project@, service@) ==> {
        &&& choice_answers(
            before@,
            preferred_port,
            protocol,
            auto_reassign,
            is_port_available,
            used_ports,
        )
        &&& forall|port: u16, lease: Lease|
            {
                &&& chosen_port(
                    before@,
                    preferred_port,
                    protocol,
                    auto_reassign,
                    is_port_available,
                    used_ports,
                    Ok(port),
                )
                &&& #[trigger] model::is_new_lease(
                    lease,
                    project,
                    service,
                    port,
                    protocol,
                    pid,
                    DEFAULT_LEASE_SECS as int,
                )
            } ==> writes(write, before.file(), before@.insert(lease.lease_id@, lease))
    }
}

/// What a registry is and returns after a request for a port. A service that
/// has a live lease gets no other. A request for which no port can be chosen
/// is turned down and changes nothing. Any other is granted a new lease on the
/// chosen port.
pub open spec fn allocated<
    P: Fn(u16, Protocol) -> bool,
    U: Fn() -> HashSet<u16>,
    W: Fn(&Registry, &PathBuf) -> Result<(), String>,
>(
    before: Registry,
    after: Registry,
    project: String,
    service: String,
    preferred_port: Option<u16>,
    protocol: Protocol,
    auto_reassign: bool,
    pid: Option<u32>,
    is_port_available: P,
    used_ports: U,
    write: W,
    outcome: Result<Lease, RegistryError>,
) -> bool {
    if leases::service_held(before@, project@, service@) {
        &&& after == before
        &&& outcome matches Err(error) && names_service_holder(
            before@,
            project,
            service,
            error,
        )
    } else {
        exists|choice: Result<u16, RegistryError>|
            {
                &&& #[trigger] chosen_port(
                    before@,
                    preferred_port,
                    protocol,
                    auto_reassign,
                    is_port_available,
                    used_ports,
                    choice,
                )
                &&& match choice {
                    Err(error) => outcome == Err::<Lease, RegistryError>(error) && after == before,
                    Ok(port) => exists|lease: Lease|
                        {
                            &&& #[trigger] model::is_new_lease(
                                lease,
                                project,
                                service,
                                port,
                                protocol,
                                pid,
                                DEFAULT_LEASE_SECS as int,
                            )
                            &&& granted(before, after, lease, write, outcome)
                        },
                }
            }
    }
}

impl Registry {
    fn allocated_ports(&self, protocol: Option<Protocol>) -> (ports: HashSet<u16>)
        requires
            self.wf(),
        ensures
            ports@ == leases::held_ports(self@, protocol),
    {
        let mut ports: HashSet<u16> = HashSet::new();
        let mut i: usize = 0;
        while i < self.leases.len()
            invariant
                self.wf(),
                i <= self.leases.len(),
                forall|port: u16| #[trigger]
                    ports@.contains(port) <==> exists|k: int|
                        0 <= k < i && leases::holds_one_of((#[trigger] self.leases@[k]).lease, protocol)
                            && self.leases@[k].lease.port == port,
            decreases self.leases.len() - i,
        {
            let ghost before = ports@;
            let lease = &self.leases[i].lease;
            let wanted = match protocol {
                Some(protocol) => lease.protocol == protocol,
                None => true,
            };
            if lease.state.live() && wanted {
                ports.insert(lease.port);
            }
            proof {
                assert forall|port: u16| #[trigger] ports@.contains(port) implies exists|k: int|
                    0 <= k < i + 1 && leases::holds_one_of((#[trigger] self.leases@[k]).lease, protocol)
                        && self.leases@[k].lease.port == port by {
                    if before.contains(port) {
                        let k = choose|k: int|
                            0 <= k < i && leases::holds_one_of((#[trigger] self.leases@[k]).lease, protocol)
                                && self.leases@[k].lease.port == port;
                        assert(self.leases@[k].lease.port == port);
                    } else {
                        assert(self.leases@[i as int].lease.port == port);
                    }
                }
            }
            i += 1;
        }
        proof {
            leases::lemma_by_id(self.leases@);
            assert forall|port: u16| ports@.contains(port) == leases::held_ports(
                self@,
                protocol,
            ).contains(port) by {
                if ports@.contains(port) {
                    let k = choose|k: int|
                        0 <= k < self.leases@.len() && leases::holds_one_of(
                            (#[trigger] self.leases@[k]).lease,
                            protocol,
                        ) && self.leases@[k].lease.port == port;
                    assert(self@.contains_key(self.leases@[k].id@));
                }
            }
            assert(ports@ =~= leases::held_ports(self@, protocol));
        }
        ports
    }

    fn find_auto_port<P: Fn(u16, Protocol) -> bool, U: Fn() -> HashSet<u16>>(
        &self,
        protocol: Protocol,
        is_port_available: &P,
        used_ports: &U,
    ) -> (outcome: Result<u16, RegistryError>)
        requires
            self.wf(),
            auto_port_answers(self@, protocol, *is_port_available, *used_ports),
        ensures
            auto_port(self@, protocol, *is_port_available, *used_ports, outcome),
    {
        let allocated = self.allocated_ports(None);
        let used = used_ports();
        let found = port_check::find_available_port_fast(
            port_check::auto_port_range(),
            protocol,
            &used,
            &allocated,
            is_port_available,
        );
        match found {
            Some(port) => Ok(port),
            None => {
                // The scan may name ports that can be bound all the same, and a port
                // that is leased for the other protocol is free for this one.
                let none: HashSet<u16> = HashSet::new();
                let allocated = self.allocated_ports(Some(protocol));
                assert(none@.union(allocated@) =~= allocated@);
                match port_check::find_available_port_fast(
                    port_check::auto_port_range(),
                    protocol,
                    &none,
                    &allocated,
                    is_port_available,
                ) {
                    Some(port) => Ok(port),
                    None => Err(RegistryError::NoAvailablePort),
                }
            },
        }
    }

    /// Choose the port for a request: the preferred one where it is free,
    /// otherwise one of the default range.
    pub fn choose_port<P: Fn(u16, Protocol) -> bool, U: Fn() -> HashSet<u16>>(
        &self,
        preferred_port: Option<u16>,
        protocol: Protocol,
        auto_reassign: bool,
        is_port_available: &P,
        used_ports: &U,
    ) -> (outcome: Result<u16, RegistryError>)
        requires
            self.wf(),
            choice_answers(
                self@,
                preferred_port,
                protocol,
                auto_reassign,
                *is_port_available,
                *used_ports,
            ),
        ensures
            chosen_port(
                self@,
                preferred_port,
                protocol,
                auto_reassign,
                *is_port_available,
                *used_ports,
                outcome,
            ),
    {
        match preferred_port {
            None => self.find_auto_port(protocol, is_port_available, used_ports),
            Some(port) => {
                let registry_conflict = self.find_active_by_port(port, protocol);
                let system_available = is_port_available(port, protocol);
                if registry_conflict.is_none() && system_available {
                    Ok(port)
                } else if auto_reassign {
                    self.find_auto_port(protocol, is_port_available, used_ports)
                } else {
                    match registry_conflict {
                        Some(holder) => Err(
                            RegistryError::PortAllocated {
                                port,
                                service: holder.service_name.clone(),
                                project: holder.project_path.clone(),
                                lease_id: holder.lease_id.clone(),
                            },
                        ),
                        None => Err(RegistryError::PortInUse { port }),
                    }
                }
            },
        }
    }

    /// Enter a lease under its id and persist the registry.
    pub fn grant<W: Fn(&Registry, &PathBuf) -> Result<(), String>>(
        &mut self,
        lease: Lease,
        write: &W,
    ) -> (outcome: Result<Lease, RegistryError>)
        requires
            old(self).wf(),
            writes(*write, old(self).file(), old(self)@.insert(lease.lease_id@, lease)),
        ensures
            granted(*old(self), *final(self), lease, *write, outcome),
    {
        let returned = lease.clone();
        match self.position(lease.lease_id.as_str()) {
            Some(i) => self.replace(i, lease),
            None => {
                let id = lease.lease_id.clone();
                let ghost before = self.leases@;
                let entry = LeaseEntry { id, lease };
                proof {
                    leases::lemma_by_id_push(before, entry);
                }
                self.leases.push(entry);
            },
        }
        match self.save(write) {
            Ok(_) => Ok(returned),
            Err(error) => Err(error),
        }
    }

    /// Allocate a port. If a preferred port is given and available, use it.
    /// Otherwise, auto-assign from the default range.
    /// Returns the new lease on success.
    pub fn allocate<
        P: Fn(u16, Protocol) -> bool,
        U: Fn() -> HashSet<u16>,
        W: Fn(&Registry, &PathBuf) -> Result<(), String>,
    >(
        &mut self,
        project: String,
        service: String,
        preferred_port: Option<u16>,
        protocol: Protocol,
        auto_reassign: bool,
        pid: Option<u32>,
        is_port_available: &P,
        used_ports: &U,
        write: &W,
    ) -> (outcome: Result<Lease, RegistryError>)
        requires
            old(self).wf(),
            allocation_answers(
                *old(self),
                project,
                service,
                preferred_port,
                protocol,
                auto_reassign,
                pid,
                *is_port_available,
                *used_ports,
                *write,
            ),
        ensures
            allocated(
                *old(self),
                *final(self),
                project,
                service,
                preferred_port,
                protocol,
                auto_reassign,
                pid,
                *is_port_available,
                *used_ports,
                *write,
                outcome,
            ),
            guarantees::ports_unique(old(self)@) ==> guarantees::ports_unique(final(self)@),
            guarantees::services_unique(old(self)@) ==> guarantees::services_unique(final(self)@),
    {
        // Check if this project+service already has an active/pending lease.
        if let Some(existing) = self.find_active_by_service(
            project.as_str(),
            service.as_str(),
        ) {
            return Err(
                RegistryError::ServiceLeased {
                    port: existing.port,
                    lease_id: existing.lease_id.clone(),
                    service,
                    project,
                },
            );
        }
        let choice = self.choose_port(
            preferred_port,
            protocol,
            auto_reassign,
            is_port_available,
            used_ports,
        );
        let port = match choice {
            Ok(port) => port,
            Err(error) => {
                return Err(error);
            },
        };
        let lease = Lease::new(
            project,
            service,
            port,
            protocol,
            pid,
            DEFAULT_LEASE_SECS,
        );
        let outcome = self.grant(lease, write);
        proof {
            assert(model::is_new_lease(
                lease,
                project,
                service,
                port,
                protocol,
                pid,
                DEFAULT_LEASE_SECS as int,
            ));
            if guarantees::ports_unique(old(self)@) {
                guarantees::allocation_keeps_ports_unique(
                    *old(self),
                    *self,
                    project,
                    service,
                    preferred_port,
                    protocol,
                    auto_reassign,
                    pid,
                    *is_port_available,
                    *used_ports,
                    *write,
                    outcome,
                );
            }
            if guarantees::services_unique(old(self)@) {
                guarantees::allocation_keeps_services_unique(
                    *old(self),
                    *self,
                    project,
                    service,
                    preferred_port,
                    protocol,
                    auto_reassign,
                    pid,
                    *is_port_available,
                    *used_ports,
                    *write,
                    outcome,
                );
            }
        }
        outcome
    }
}

// ── Housekeeping ────────────────────────────────────────────────────────

/// What a sweep over the leases returns: the number of leases it dealt with.
/// The registry is saved where there was one.
pub open spec fn swept<W: Fn(&Registry, &PathBuf) -> Result<(), String>>(
    after: Registry,
    count: nat,
    write: W,
    outcome: Result<usize, RegistryError>,
) -> bool {
    match outcome {
        Ok(n) => n == count && (count > 0 ==> saved(after, write, Ok(()))),
        Err(error) => count > 0 && saved(after, write, Err(error)),
    }
}

/// Whether the writer can be asked for what expiring the leases that are stale
/// at `now` writes: the leases with those expired, and nothing where there are
/// none.
pub open spec fn stale_expiry_writes<W: Fn(&Registry, &PathBuf) -> Result<(), String>>(
    file: Option<PathBuf>,
    leases: Map<Seq<char>, Lease>,
    now: Timestamp,
    write: W,
) -> bool {
    let stale = leases::ids_where(leases, leases::stale(now));
    stale.len() > 0 ==> writes(write, file, leases::with_expired(leases, stale))
}

/// What a registry is and returns once the leases that are stale at `now` are expired.
pub open spec fn stale_expired<W: Fn(&Registry, &PathBuf) -> Result<(), String>>(
    before: Registry,
    after: Registry,
    now: Timestamp,
    write: W,
    outcome: Result<usize, RegistryError>,
) -> bool {
    let stale = leases::ids_where(before@, leases::stale(now));
    &&& after.wf()
    &&& after.file() == before.file()
    &&& after@ == leases::with_expired(before@, stale)
    &&& swept(after, stale.len(), write, outcome)
}

/// Whether the lease is live and its client may be found dead.
pub open spec fn client_dead<F: Fn(u32) -> bool>(lease: Lease, pid_is_alive: F) -> bool {
    &&& model::is_live(lease.state)
    &&& lease.client_pid matches Some(pid) && call_ensures(pid_is_alive, (pid,), false)
}

/// Whether the lease is spared: it is not live, has no client, or its client
/// may be found alive.
pub open spec fn client_spared<F: Fn(u32) -> bool>(lease: Lease, pid_is_alive: F) -> bool {
    model::is_live(lease.state) ==> (lease.client_pid matches Some(pid) ==> call_ensures(
        pid_is_alive,
        (pid,),
        true,
    ))
}

/// Whether `dead` are the live leases whose client was found dead; of every
/// other live lease with a client the client was found alive.
pub open spec fn found_dead<F: Fn(u32) -> bool>(
    leases: Map<Seq<char>, Lease>,
    pid_is_alive: F,
    dead: Set<Seq<char>>,
) -> bool {
    &&& dead.finite()
    &&& dead.subset_of(leases.dom())
    &&& forall|id: Seq<char>| #[trigger]
        leases.contains_key(id) ==> if dead.contains(id) {
            client_dead(leases[id], pid_is_alive)
        } else {
            client_spared(leases[id], pid_is_alive)
        }
}

/// Whether the host can be asked what expiring the leases of dead clients asks:
/// of every live lease with a client, and of no other, whether the client is
/// alive.
pub open spec fn clients_known<F: Fn(u32) -> bool>(
    leases: Map<Seq<char>, Lease>,
    pid_is_alive: F,
) -> bool {
    forall|id: Seq<char>| #[trigger]
        leases.contains_key(id) && model::is_live(leases[id].state) ==> (
        leases[id].client_pid matches Some(pid) ==> call_requires(pid_is_alive, (pid,)))
}

/// Whether the writer can be asked for what expiring the leases of dead clients
/// writes: the leases with those expired that were found dead, and nothing
/// where there are none.
pub open spec fn dead_expiry_writes<
    F: Fn(u32) -> bool,
    W: Fn(&Registry, &PathBuf) -> Result<(), String>,
>(
    file: Option<PathBuf>,
    leases: Map<Seq<char>, Lease>,
    pid_is_alive: F,
    write: W,
) -> bool {
    forall|dead: Set<Seq<char>>| #[trigger]
        found_dead(leases, pid_is_alive, dead) && dead.len() > 0 ==> writes(
            write,
            file,
            leases::with_expired(leases, dead),
        )
}

/// What a registry is and returns once the leases of dead clients are expired.
pub open spec fn dead_expired<
    F: Fn(u32) -> bool,
    W: Fn(&Registry, &PathBuf) -> Result<(), String>,
>(
    before: Registry,
    after: Registry,
    pid_is_alive: F,
    write: W,
    outcome: Result<usize, RegistryError>,
) -> bool {
    &&& after.wf()
    &&& after.file() == before.file()
    &&& exists|dead: Set<Seq<char>>|
        {
            &&& #[trigger] found_dead(before@, pid_is_alive, dead)
            &&& after@ == leases::with_expired(before@, dead)
            &&& swept(after, dead.len(), write, outcome)
        }
}

/// Whether the writer can be asked for what removing the leases that hold no
/// port writes: the live leases, and nothing where there are no others.
pub open spec fn collection_writes<W: Fn(&Registry, &PathBuf) -> Result<(), String>>(
    before: Registry,
    write: W,
) -> bool {
    leases::ids_where(before@, leases::ended()).len() > 0 ==> writes(
        write,
        before.file(),
        before@.restrict(leases::ids_where(before@, leases::live())),
    )
}

/// Whether the writer can be asked for what the answers about the clients lead
/// to: the leases with those of dead clients expired, and nothing where there
/// are none.
pub open spec fn client_expiry_writes<W: Fn(&Registry, &PathBuf) -> Result<(), String>>(
    before: Registry,
    alive: Seq<bool>,
    write: W,
) -> bool {
    let dead = leases::dead_ids(leases::client_entries(before.contents()), alive);
    dead.len() > 0 ==> writes(write, before.file(), leases::with_expired(before@, dead))
}

/// What a registry is and returns once the leases are expired whose clients are
/// not alive by these answers.
pub open spec fn clients_expired<W: Fn(&Registry, &PathBuf) -> Result<(), String>>(
    before: Registry,
    after: Registry,
    alive: Seq<bool>,
    write: W,
    outcome: Result<usize, RegistryError>,
) -> bool {
    let dead = leases::dead_ids(leases::client_entries(before.contents()), alive);
    &&& after.wf()
    &&& after.file() == before.file()
    &&& after@ == leases::with_expired(before@, dead)
    &&& swept(after, dead.len(), write, outcome)
}

/// The answers about the clients tell which leases were found to have a dead
/// client.
proof fn lemma_answers_find_dead<F: Fn(u32) -> bool>(
    entries: Seq<LeaseEntry>,
    pid_is_alive: F,
    alive: Seq<bool>,
)
    requires
        leases::entry_ids(entries).no_duplicates(),
        alive.len() == leases::client_entries(entries).len(),
        forall|j: int|
            0 <= j < alive.len() ==> call_ensures(
                pid_is_alive,
                (leases::clients(leases::client_entries(entries))[j],),
                #[trigger] alive[j],
            ),
    ensures
        found_dead(
            leases::by_id(entries),
            pid_is_alive,
            leases::dead_ids(leases::client_entries(entries), alive),
        ),
{
    let leases = leases::by_id(entries);
    let asked = leases::client_entries(entries);
    let dead = leases::dead_ids(asked, alive);
    leases::lemma_by_id(entries);
    leases::lemma_picked(entries, leases::with_client());
    leases::lemma_dead_ids(asked, alive, seq![]);
    assert forall|j: int| 0 <= j < asked.len() implies leases.contains_key(
        (#[trigger] asked[j]).id@,
    ) && leases[asked[j].id@] == asked[j].lease && leases::with_client()(asked[j].lease) by {
        leases::lemma_picked_from(entries, leases::with_client(), j);
        let i = choose|i: int| 0 <= i < entries.len() && #[trigger] entries[i] == asked[j];
        assert(leases.contains_key(entries[i].id@));
    }
    assert forall|id: Seq<char>| dead.contains(id) implies leases.contains_key(id) by {
        leases::lemma_dead_ids(asked, alive, id);
    }
    assert forall|id: Seq<char>| #[trigger] leases.contains_key(id) implies if dead.contains(id) {
        client_dead(leases[id], pid_is_alive)
    } else {
        client_spared(leases[id], pid_is_alive)
    } by {
        leases::lemma_dead_ids(asked, alive, id);
        if dead.contains(id) {
            let j = choose|j: int|
                0 <= j < asked.len() && (#[trigger] asked[j]).id@ == id && !alive[j];
            assert(leases[asked[j].id@] == asked[j].lease);
        } else if leases::with_client()(leases[id]) {
            assert(leases::entry_ids(asked).to_set().contains(id));
            let j = choose|j: int| 0 <= j < asked.len() && leases::entry_ids(asked)[j] == id;
            assert(asked[j].id@ == id);
            assert(alive[j]);
        }
    }
}

/// What a registry is and returns once the leases that hold no port are removed.
pub open spec fn collected<W: Fn(&Registry, &PathBuf) -> Result<(), String>>(
    before: Registry,
    after: Registry,
    write: W,
    outcome: Result<usize, RegistryError>,
) -> bool {
    &&& after.wf()
    &&& after.file() == before.file()
    &&& after@ == before@.restrict(leases::ids_where(before@, leases::live()))
    &&& swept(after, leases::ids_where(before@, leases::ended()).len(), write, outcome)
}

/// Whether the writer can be asked for what loading the entries at `now`
/// writes: what crash recovery makes of them, and nothing where that changes
/// none.
pub open spec fn loading_writes<W: Fn(&Registry, &PathBuf) -> Result<(), String>>(
    path: PathBuf,
    entries: Seq<LeaseEntry>,
    now: Timestamp,
    write: W,
) -> bool {
    let leases = leases::by_id(entries);
    leases::ids_where(leases, leases::lapsed(now)).len() > 0 ==> writes(
        write,
        Some(path),
        leases::all_recovered(leases, now),
    )
}

/// Whether loading the given entries at `now` may come to `outcome`: a registry
/// that holds what crash recovery makes of them, saved where recovery changed
/// anything.
pub open spec fn loaded<W: Fn(&Registry, &PathBuf) -> Result<(), String>>(
    path: PathBuf,
    entries: Seq<LeaseEntry>,
    now: Timestamp,
    write: W,
    outcome: Result<Registry, RegistryError>,
) -> bool {
    let leases = leases::by_id(entries);
    let changed = leases::ids_where(leases, leases::lapsed(now)).len() > 0;
    exists|registry: Registry|
        {
            &&& #[trigger] registry.wf()
            &&& registry@ == leases::all_recovered(leases, now)
            &&& registry.file() == Some(path)
            &&& match outcome {
                Ok(returned) => returned == registry && (changed ==> saved(
                    registry,
                    write,
                    Ok(()),
                )),
                Err(error) => changed && saved(registry, write, Err(error)),
            }
        }
}

impl Registry {
    /// Create a registry backed by the given file path, from the entries that
    /// the file held (none where there is no file yet).
    pub fn load<W: Fn(&Registry, &PathBuf) -> Result<(), String>>(
        path: PathBuf,
        entries: Vec<LeaseEntry>,
        write: &W,
    ) -> (outcome: Result<Self, RegistryError>)
        requires
            leases::entry_ids(entries@).no_duplicates(),
            forall|now: Timestamp| #[trigger]
                clock::is_clock_reading(now) ==> loading_writes(path, entries@, now, *write),
        ensures
            exists|now: Timestamp| #[trigger]
                clock::is_clock_reading(now) && loaded(path, entries@, now, *write, outcome),
    {
        let now = clock::utc_now();
        Registry::load_at(path, entries, now, write)
    }

    /// Create a registry at the given instant.
    pub fn load_at<W: Fn(&Registry, &PathBuf) -> Result<(), String>>(
        path: PathBuf,
        entries: Vec<LeaseEntry>,
        now: Timestamp,
        write: &W,
    ) -> (outcome: Result<Self, RegistryError>)
        requires
            leases::entry_ids(entries@).no_duplicates(),
            loading_writes(path, entries@, now, *write),
        ensures
            loaded(path, entries@, now, *write, outcome),
    {
        let ghost before = entries@;
        let ghost property = leases::lapsed(now);
        let mut leases = entries;
        let mut changed = false;
        let mut i: usize = 0;
        proof {
            reveal(Seq::filter);
            assert(leases::picked(before.take(0), property) =~= seq![]);
        }
        while i < leases.len()
            invariant
                i <= leases.len(),
                leases.len() == before.len(),
                property == leases::lapsed(now),
                forall|k: int|
                    0 <= k < i ==> (#[trigger] leases@[k]).id@ == before[k].id@ && leases@[k].lease
                        == leases::recovered(before[k].lease, now),
                forall|k: int| i <= k < leases.len() ==> #[trigger] leases@[k] == before[k],
                changed == (leases::picked(before.take(i as int), property).len() > 0),
            decreases leases.len() - i,
        {
            proof {
                leases::lemma_picked_step(before, property, i as int);
            }
            if leases::recover(&mut leases[i].lease, now) {
                changed = true;
            }
            i += 1;
        }
        let registry = Registry { leases, path: Some(path) };
        proof {
            assert(before.take(before.len() as int) =~= before);
            leases::lemma_picked(before, property);
            leases::lemma_by_id(before);
            let expected = leases::all_recovered(leases::by_id(before), now);
            assert(expected.dom() =~= leases::by_id(before).dom());
            leases::lemma_by_id_each(before, registry.leases@, expected);
            assert(registry.wf());
        }
        if changed {
            if let Err(error) = registry.save(write) {
                return Err(error);
            }
        }
        Ok(registry)
    }

    /// Expire all stale leases (pending or active past their expiry).
    /// Returns the number of leases expired.
    pub fn expire_stale<W: Fn(&Registry, &PathBuf) -> Result<(), String>>(
        &mut self,
        write: &W,
    ) -> (outcome: Result<usize, RegistryError>)
        requires
            old(self).wf(),
            forall|now: Timestamp| #[trigger]
                clock::is_clock_reading(now) ==> stale_expiry_writes(
                    old(self).file(),
                    old(self)@,
                    now,
                    *write,
                ),
        ensures
            exists|now: Timestamp| #[trigger]
                clock::is_clock_reading(now) && stale_expired(
                    *old(self),
                    *final(self),
                    now,
                    *write,
                    outcome,
                ),
    {
        let now = clock::utc_now();
        self.expire_stale_at(now, write)
    }

    /// Expire all leases that are stale at the given instant.
    pub fn expire_stale_at<W: Fn(&Registry, &PathBuf) -> Result<(), String>>(
        &mut self,
        now: Timestamp,
        write: &W,
    ) -> (outcome: Result<usize, RegistryError>)
        requires
            old(self).wf(),
            stale_expiry_writes(old(self).file(), old(self)@, now, *write),
        ensures
            stale_expired(*old(self), *final(self), now, *write, outcome),
    {
        let ghost before = self.leases@;
        let ghost property = leases::stale(now);
        let mut expired_count: usize = 0;
        let mut i: usize = 0;
        proof {
            reveal(Seq::filter);
            assert(leases::picked(before.take(0), property) =~= seq![]);
        }
        while i < self.leases.len()
            invariant
                i <= self.leases.len(),
                self.leases.len() == before.len(),
                self.path == old(self).path,
                property == leases::stale(now),
                forall|k: int|
                    0 <= k < i ==> (#[trigger] self.leases@[k]).id@ == before[k].id@
                        && self.leases@[k].lease == if property(before[k].lease) {
                        before[k].lease.after_expire()
                    } else {
                        before[k].lease
                    },
                forall|k: int|
                    i <= k < self.leases.len() ==> #[trigger] self.leases@[k] == before[k],
                expired_count == leases::picked(before.take(i as int), property).len(),
                expired_count <= i,
            decreases self.leases.len() - i,
        {
            proof {
                leases::lemma_picked_step(before, property, i as int);
            }
            if self.leases[i].lease.state.live() && self.leases[i].lease.is_expired_at(now) {
                self.leases[i].lease.expire();
                expired_count += 1;
            }
            i += 1;
        }
        proof {
            assert(before.take(before.len() as int) =~= before);
            leases::lemma_picked(before, property);
            leases::lemma_by_id(before);
            let leases = leases::by_id(before);
            let expected = leases::with_expired(leases, leases::ids_where(leases, property));
            assert(expected.dom() =~= leases.dom());
            leases::lemma_by_id_each(before, self.leases@, expected);
        }
        if expired_count > 0 {
            if let Err(error) = self.save(write) {
                return Err(error);
            }
        }
        Ok(expired_count)
    }

    /// Expire active or pending leases whose client PID is no longer alive.
    pub fn expire_dead_clients<
        F: Fn(u32) -> bool,
        W: Fn(&Registry, &PathBuf) -> Result<(), String>,
    >(&mut self, pid_is_alive: F, write: &W) -> (outcome: Result<usize, RegistryError>)
        requires
            old(self).wf(),
            clients_known(old(self)@, pid_is_alive),
            dead_expiry_writes(old(self).file(), old(self)@, pid_is_alive, *write),
        ensures
            dead_expired(*old(self), *final(self), pid_is_alive, *write, outcome),
    {
        let pids = self.client_pids();
        let ghost before = self.leases@;
        let ghost asked = leases::client_entries(before);
        let mut alive: Vec<bool> = Vec::new();
        let mut i: usize = 0;
        proof {
            leases::lemma_by_id(before);
        }
        while i < pids.len()
            invariant
                i <= pids.len(),
                alive@.len() == i,
                asked == leases::client_entries(before),
                pids@ == leases::clients(asked),
                leases::entry_ids(before).no_duplicates(),
                clients_known(leases::by_id(before), pid_is_alive),
                forall|j: int|
                    0 <= j < i ==> call_ensures(pid_is_alive, (pids@[j],), #[trigger] alive@[j]),
            decreases pids.len() - i,
        {
            proof {
                leases::lemma_by_id(before);
                leases::lemma_picked_from(before, leases::with_client(), i as int);
                let k = choose|k: int| 0 <= k < before.len() && #[trigger] before[k]
                    == asked[i as int];
                assert(leases::by_id(before).contains_key(before[k].id@));
            }
            alive.push(pid_is_alive(pids[i]));
            i += 1;
        }
        let ghost dead = leases::dead_ids(asked, alive@);
        proof {
            lemma_answers_find_dead(before, pid_is_alive, alive@);
            assert(found_dead(old(self)@, pid_is_alive, dead));
        }
        self.expire_clients(alive.as_slice(), write)
    }

    /// The clients of the live leases: those that a search for dead clients asks
    /// about, once for each lease.
    pub fn client_pids(&self) -> (pids: Vec<u32>)
        ensures
            pids@ == leases::clients(leases::client_entries(self.contents())),
    {
        let ghost property = leases::with_client();
        let mut pids: Vec<u32> = Vec::new();
        let mut i: usize = 0;
        proof {
            reveal(Seq::filter);
            assert(leases::client_entries(self.leases@.take(0)) =~= seq![]);
        }
        while i < self.leases.len()
            invariant
                i <= self.leases.len(),
                property == leases::with_client(),
                pids@ =~= leases::clients(leases::client_entries(self.leases@.take(i as int))),
            decreases self.leases.len() - i,
        {
            proof {
                leases::lemma_picked_step(self.leases@, property, i as int);
            }
            if self.leases[i].lease.state.live() {
                if let Some(pid) = self.leases[i].lease.client_pid {
                    pids.push(pid);
                }
            }
            i += 1;
        }
        assert(self.leases@.take(self.leases@.len() as int) =~= self.leases@);
        pids
    }

    /// Expire the live leases whose clients are not alive by the given answers,
    /// one for each client in the order of `client_pids`.
    pub fn expire_clients<W: Fn(&Registry, &PathBuf) -> Result<(), String>>(
        &mut self,
        alive: &[bool],
        write: &W,
    ) -> (outcome: Result<usize, RegistryError>)
        requires
            old(self).wf(),
            alive@.len() == leases::client_entries(old(self).contents()).len(),
            client_expiry_writes(*old(self), alive@, *write),
        ensures
            clients_expired(*old(self), *final(self), alive@, *write, outcome),
    {
        let ghost before = self.leases@;
        let ghost leases = leases::by_id(before);
        let ghost property = leases::with_client();
        let ghost asked = leases::client_entries(before);
        let ghost mut dead: Set<Seq<char>> = Set::empty();
        let mut expired_count: usize = 0;
        let mut answered: usize = 0;
        let mut i: usize = 0;
        proof {
            leases::lemma_by_id(before);
            reveal(Seq::filter);
            assert(leases::client_entries(before.take(0)) =~= seq![]);
        }
        while i < self.leases.len()
            invariant
                i <= self.leases.len(),
                self.leases.len() == before.len(),
                self.path == old(self).path,
                leases::entry_ids(before).no_duplicates(),
                property == leases::with_client(),
                asked == leases::client_entries(before),
                alive@.len() == asked.len(),
                answered == leases::client_entries(before.take(i as int)).len(),
                leases::client_entries(before.take(i as int)) == asked.take(answered as int),
                answered <= asked.len(),
                dead == leases::dead_ids(asked.take(answered as int), alive@),
                dead.finite(),
                expired_count == dead.len(),
                expired_count <= i,
                forall|id: Seq<char>| #[trigger]
                    dead.contains(id) ==> exists|k: int|
                        0 <= k < i && (#[trigger] before[k]).id@ == id,
                forall|k: int|
                    0 <= k < i ==> (#[trigger] self.leases@[k]).id@ == before[k].id@
                        && self.leases@[k].lease == if dead.contains(before[k].id@) {
                        before[k].lease.after_expire()
                    } else {
                        before[k].lease
                    },
                forall|k: int|
                    i <= k < self.leases.len() ==> #[trigger] self.leases@[k] == before[k],
            decreases self.leases.len() - i,
        {
            let ghost id = before[i as int].id@;
            proof {
                leases::lemma_picked_step(before, property, i as int);
                leases::lemma_picked_prefix(before, property, i + 1);
                assert(leases::entry_ids(before)[i as int] == id);
                assert forall|k: int| 0 <= k < i implies (#[trigger] before[k]).id@ != id by {
                    assert(leases::entry_ids(before)[k] == before[k].id@);
                }
            }
            if self.leases[i].lease.state.live() && self.leases[i].lease.client_pid.is_some() {
                proof {
                    assert(asked.take(answered + 1).drop_last() =~= asked.take(answered as int));
                    assert(asked.take(answered + 1).last() == before[i as int]);
                }
                if !alive[answered] {
                    self.leases[i].lease.expire();
                    expired_count += 1;
                    proof {
                        let earlier = dead;
                        dead = dead.insert(id);
                        assert(before[i as int].id@ == id);
                        assert forall|other: Seq<char>| #[trigger]
                            dead.contains(other) implies exists|k: int|
                            0 <= k < i + 1 && (#[trigger] before[k]).id@ == other by {
                            if other != id {
                                assert(earlier.contains(other));
                            }
                        }
                    }
                }
                answered += 1;
            }
            i += 1;
        }
        proof {
            assert(before.take(before.len() as int) =~= before);
            assert(asked.take(answered as int) =~= asked);
            let expected = leases::with_expired(leases, dead);
            assert(expected.dom() =~= leases.dom());
            leases::lemma_by_id_each(before, self.leases@, expected);
        }
        if expired_count > 0 {
            if let Err(error) = self.save(write) {
                return Err(error);
            }
        }
        Ok(expired_count)
    }

    /// Remove all released and expired leases (garbage collection).
    pub fn gc<W: Fn(&Registry, &PathBuf) -> Result<(), String>>(&mut self, write: &W) -> (outcome:
        Result<usize, RegistryError>)
        requires
            old(self).wf(),
            collection_writes(*old(self), *write),
        ensures
            collected(*old(self), *final(self), *write, outcome),
    {
        let ghost before = self.leases@;
        let mut removed: usize = 0;
        let mut i: usize = 0;
        proof {
            reveal(Seq::filter);
            assert(leases::picked(before.take(0), leases::live()) =~= seq![]);
            assert(leases::picked(before.take(0), leases::ended()) =~= seq![]);
            assert(before =~= leases::picked(before.take(0), leases::live()) + before.skip(0));
            assert(before.len() == self.leases.len());
        }
        while i < self.leases.len()
            invariant
                i <= self.leases.len(),
                i + removed <= before.len() <= usize::MAX,
                self.leases.len() == before.len() - removed,
                self.path == old(self).path,
                self.leases@ == leases::picked(before.take(i + removed), leases::live())
                    + before.skip(i + removed),
                i == leases::picked(before.take(i + removed), leases::live()).len(),
                removed == leases::picked(before.take(i + removed), leases::ended()).len(),
            decreases self.leases.len() - i,
        {
            let ghost seen = i + removed;
            let ghost kept = leases::picked(before.take(seen), leases::live());
            proof {
                leases::lemma_picked_step(before, leases::live(), seen);
                leases::lemma_picked_step(before, leases::ended(), seen);
                assert(self.leases@[i as int] == before[seen]);
            }
            if self.leases[i].lease.state.live() {
                assert(kept + before.skip(seen) =~= kept.push(before[seen]) + before.skip(seen + 1));
                i += 1;
            } else {
                self.leases.remove(i);
                removed += 1;
                assert(self.leases@ =~= kept + before.skip(seen + 1));
            }
        }
        proof {
            assert(before.take(before.len() as int) =~= before);
            assert(self.leases@ =~= leases::picked(before, leases::live()));
            leases::lemma_picked(before, leases::live());
            leases::lemma_picked(before, leases::ended());
            leases::lemma_by_id_picked(before, leases::live());
        }
        if removed > 0 {
            if let Err(error) = self.save(write) {
                return Err(error);
            }
        }
        Ok(removed)
    }
}

} // verus!
