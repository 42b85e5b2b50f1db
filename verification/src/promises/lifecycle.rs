//! What the holder of a lease can do with it.
use std::path::PathBuf;
use vstd::prelude::*;
use crate::clock;
use crate::clock::Timestamp;
use crate::model::{Lease, Protocol};
use crate::registry::{Registry, RegistryError};

verus! {

/// A lease is confirmed by the holder of its token while it is pending. It is
/// active from then on and good for five minutes from the call; nothing else of
/// it changes, and no other lease.
pub proof fn confirmation_activates_the_lease<W: Fn(&Registry, &PathBuf) -> Result<(), String>>(
    registry: &mut Registry,
    lease_id: &str,
    session_token: &str,
    now: Timestamp,
    write: &W,
    done: (),
)
    requires
        call_ensures(
            Registry::confirm_at::<W>,
            (registry, lease_id, session_token, now, write),
            Ok(done),
        ),
        now.secs + 300 <= i64::MAX,
    ensures
        old(registry)@.contains_key(lease_id@),
        old(registry)@[lease_id@].session_token@ == session_token@,
        old(registry)@[lease_id@].state is Pending,
        final(registry)@.contains_key(lease_id@),
        ({
            let was = old(registry)@[lease_id@];
            let now_held = final(registry)@[lease_id@];
            &&& now_held.state is Active
            &&& now_held.confirmed_at == Some(now)
            &&& now_held.last_heartbeat_at == Some(now)
            &&& now_held.expires_at.secs == now.secs + 300
            &&& now.nanos < 1_000_000_000 ==> now_held.expires_at.nanos == now.nanos
            &&& now_held.lease_id == was.lease_id
            &&& now_held.project_path == was.project_path
            &&& now_held.service_name == was.service_name
            &&& now_held.port == was.port
            &&& now_held.protocol == was.protocol
            &&& now_held.client_pid == was.client_pid
            &&& now_held.session_token == was.session_token
            &&& now_held.granted_at == was.granted_at
        }),
        forall|id: Seq<char>|
            id != lease_id@ ==> (#[trigger] final(registry)@.contains_key(id) <==> old(
                registry,
            )@.contains_key(id)) && (old(registry)@.contains_key(id) ==> final(registry)@[id]
                == old(registry)@[id]),
        final(registry).file() == old(registry).file(),
        final(registry).file() matches Some(path) ==> call_ensures(
            *write,
            (final(registry), &path),
            Ok(()),
        ),
{
}

/// A confirmation fails for an unknown lease, a wrong token, a lease that is
/// not pending, an expiry past the end of the calendar and a registry that
/// cannot be written, and in no other case.
pub proof fn confirmation_fails_only_for_cause<W: Fn(&Registry, &PathBuf) -> Result<(), String>>(
    registry: &mut Registry,
    lease_id: &str,
    session_token: &str,
    now: Timestamp,
    write: &W,
    error: RegistryError,
)
    requires
        call_ensures(
            Registry::confirm_at::<W>,
            (registry, lease_id, session_token, now, write),
            Err(error),
        ),
        0 <= now.secs,
        now.secs + 300 <= i64::MAX,
        now.nanos < 1_000_000_000,
    ensures
        match error {
            RegistryError::LeaseNotFound => !old(registry)@.contains_key(lease_id@),
            RegistryError::InvalidToken => old(registry)@.contains_key(lease_id@) && old(
                registry,
            )@[lease_id@].session_token@ != session_token@,
            RegistryError::NotPending { state } => {
                &&& old(registry)@.contains_key(lease_id@)
                &&& state == old(registry)@[lease_id@].state
                &&& !(state is Pending)
            },
            RegistryError::ExpiryOutOfRange => now.secs + 300 > 8_210_266_876_799,
            RegistryError::Save { message } => {
                &&& old(registry)@.contains_key(lease_id@)
                &&& old(registry)@[lease_id@].session_token@ == session_token@
                &&& old(registry).file() matches Some(path) && call_ensures(
                    *write,
                    (final(registry), &path),
                    Err(message),
                )
            },
            _ => false,
        },
        !(error is Save) ==> *final(registry) == *old(registry),
        !old(registry)@.contains_key(lease_id@) ==> error is LeaseNotFound,
        old(registry)@.contains_key(lease_id@) && old(registry)@[lease_id@].session_token@
            != session_token@ ==> error is InvalidToken,
{
}

/// A confirmation by the clock makes the lease active, for five minutes from
/// the instant that it notes down.
pub proof fn confirmation_by_the_clock_activates_the_lease<W: Fn(&Registry, &PathBuf) -> Result<(), String>>(
    registry: &mut Registry,
    lease_id: &str,
    session_token: &str,
    write: &W,
    done: (),
)
    requires
        call_ensures(
            Registry::confirm::<W>,
            (registry, lease_id, session_token, write),
            Ok(done),
        ),
    ensures
        old(registry)@.contains_key(lease_id@),
        old(registry)@[lease_id@].session_token@ == session_token@,
        old(registry)@[lease_id@].state is Pending,
        final(registry)@.contains_key(lease_id@),
        ({
            let was = old(registry)@[lease_id@];
            let now_held = final(registry)@[lease_id@];
            &&& now_held.state is Active
            &&& now_held.confirmed_at matches Some(at) && {
                &&& now_held.last_heartbeat_at == Some(at)
                &&& now_held.expires_at.secs == at.secs + 300
                &&& now_held.expires_at.nanos == at.nanos
            }
            &&& now_held.lease_id == was.lease_id
            &&& now_held.project_path == was.project_path
            &&& now_held.service_name == was.service_name
            &&& now_held.port == was.port
            &&& now_held.protocol == was.protocol
            &&& now_held.client_pid == was.client_pid
            &&& now_held.session_token == was.session_token
            &&& now_held.granted_at == was.granted_at
        }),
        forall|id: Seq<char>|
            id != lease_id@ ==> (#[trigger] final(registry)@.contains_key(id) <==> old(
                registry,
            )@.contains_key(id)) && (old(registry)@.contains_key(id) ==> final(registry)@[id]
                == old(registry)@[id]),
        final(registry).file() == old(registry).file(),
        final(registry).file() matches Some(path) ==> call_ensures(
            *write,
            (final(registry), &path),
            Ok(()),
        ),
{
}

/// A lease is released by the holder of its token, whatever its state. Nothing
/// but its state changes, and no other lease.
pub proof fn release_ends_the_lease<W: Fn(&Registry, &PathBuf) -> Result<(), String>>(
    registry: &mut Registry,
    lease_id: &str,
    session_token: &str,
    write: &W,
    done: (),
)
    requires
        call_ensures(
            Registry::release::<W>,
            (registry, lease_id, session_token, write),
            Ok(done),
        ),
    ensures
        old(registry)@.contains_key(lease_id@),
        old(registry)@[lease_id@].session_token@ == session_token@,
        final(registry)@.contains_key(lease_id@),
        ({
            let was = old(registry)@[lease_id@];
            let now_held = final(registry)@[lease_id@];
            &&& now_held.state is Released
            &&& now_held.confirmed_at == was.confirmed_at
            &&& now_held.last_heartbeat_at == was.last_heartbeat_at
            &&& now_held.expires_at == was.expires_at
            &&& now_held.lease_id == was.lease_id
            &&& now_held.project_path == was.project_path
            &&& now_held.service_name == was.service_name
            &&& now_held.port == was.port
            &&& now_held.protocol == was.protocol
            &&& now_held.client_pid == was.client_pid
            &&& now_held.session_token == was.session_token
            &&& now_held.granted_at == was.granted_at
        }),
        forall|id: Seq<char>|
            id != lease_id@ ==> (#[trigger] final(registry)@.contains_key(id) <==> old(
                registry,
            )@.contains_key(id)) && (old(registry)@.contains_key(id) ==> final(registry)@[id]
                == old(registry)@[id]),
        final(registry).file() == old(registry).file(),
        final(registry).file() matches Some(path) ==> call_ensures(
            *write,
            (final(registry), &path),
            Ok(()),
        ),
{
}

/// A release fails for an unknown lease, a wrong token and a registry that
/// cannot be written, and in no other case.
pub proof fn release_fails_only_for_cause<W: Fn(&Registry, &PathBuf) -> Result<(), String>>(
    registry: &mut Registry,
    lease_id: &str,
    session_token: &str,
    write: &W,
    error: RegistryError,
)
    requires
        call_ensures(
            Registry::release::<W>,
            (registry, lease_id, session_token, write),
            Err(error),
        ),
    ensures
        match error {
            RegistryError::LeaseNotFound => !old(registry)@.contains_key(lease_id@),
            RegistryError::InvalidToken => old(registry)@.contains_key(lease_id@) && old(
                registry,
            )@[lease_id@].session_token@ != session_token@,
            RegistryError::Save { message } => {
                &&& old(registry)@.contains_key(lease_id@)
                &&& old(registry)@[lease_id@].session_token@ == session_token@
                &&& old(registry).file() matches Some(path) && call_ensures(
                    *write,
                    (final(registry), &path),
                    Err(message),
                )
            },
            _ => false,
        },
        !(error is Save) ==> *final(registry) == *old(registry),
        !old(registry)@.contains_key(lease_id@) ==> error is LeaseNotFound,
        old(registry)@.contains_key(lease_id@) && old(registry)@[lease_id@].session_token@
            != session_token@ ==> error is InvalidToken,
{
}

/// A heartbeat renews an active lease for the holder of its token, for five
/// minutes from the call, and answers with the new expiry. Nothing else of the
/// lease changes, and no other lease.
pub proof fn heartbeat_renews_the_lease<W: Fn(&Registry, &PathBuf) -> Result<(), String>>(
    registry: &mut Registry,
    lease_id: &str,
    session_token: &str,
    now: Timestamp,
    write: &W,
    expires: String,
)
    requires
        call_ensures(
            Registry::heartbeat_at::<W>,
            (registry, lease_id, session_token, now, write),
            Ok(expires),
        ),
        now.secs + 300 <= i64::MAX,
    ensures
        old(registry)@.contains_key(lease_id@),
        old(registry)@[lease_id@].session_token@ == session_token@,
        old(registry)@[lease_id@].state is Active,
        final(registry)@.contains_key(lease_id@),
        ({
            let was = old(registry)@[lease_id@];
            let now_held = final(registry)@[lease_id@];
            &&& now_held.state is Active
            &&& now_held.confirmed_at == was.confirmed_at
            &&& now_held.last_heartbeat_at == Some(now)
            &&& now_held.expires_at.secs == now.secs + 300
            &&& now.nanos < 1_000_000_000 ==> now_held.expires_at.nanos == now.nanos
            &&& expires@ == clock::rfc3339_text(
                now_held.expires_at.secs,
                now_held.expires_at.nanos,
            )
            &&& now_held.lease_id == was.lease_id
            &&& now_held.project_path == was.project_path
            &&& now_held.service_name == was.service_name
            &&& now_held.port == was.port
            &&& now_held.protocol == was.protocol
            &&& now_held.client_pid == was.client_pid
            &&& now_held.session_token == was.session_token
            &&& now_held.granted_at == was.granted_at
        }),
        forall|id: Seq<char>|
            id != lease_id@ ==> (#[trigger] final(registry)@.contains_key(id) <==> old(
                registry,
            )@.contains_key(id)) && (old(registry)@.contains_key(id) ==> final(registry)@[id]
                == old(registry)@[id]),
        final(registry).file() == old(registry).file(),
        final(registry).file() matches Some(path) ==> call_ensures(
            *write,
            (final(registry), &path),
            Ok(()),
        ),
{
}

/// A heartbeat fails for an unknown lease, a wrong token, a lease that is not
/// active, an expiry past the end of the calendar and a registry that cannot be
/// written, and in no other case.
pub proof fn heartbeat_fails_only_for_cause<W: Fn(&Registry, &PathBuf) -> Result<(), String>>(
    registry: &mut Registry,
    lease_id: &str,
    session_token: &str,
    now: Timestamp,
    write: &W,
    error: RegistryError,
)
    requires
        call_ensures(
            Registry::heartbeat_at::<W>,
            (registry, lease_id, session_token, now, write),
            Err(error),
        ),
        0 <= now.secs,
        now.secs + 300 <= i64::MAX,
        now.nanos < 1_000_000_000,
    ensures
        match error {
            RegistryError::LeaseNotFound => !old(registry)@.contains_key(lease_id@),
            RegistryError::InvalidToken => old(registry)@.contains_key(lease_id@) && old(
                registry,
            )@[lease_id@].session_token@ != session_token@,
            RegistryError::NotActive { state } => {
                &&& old(registry)@.contains_key(lease_id@)
                &&& state == old(registry)@[lease_id@].state
                &&& !(state is Active)
            },
            RegistryError::ExpiryOutOfRange => now.secs + 300 > 8_210_266_876_799,
            RegistryError::Save { message } => {
                &&& old(registry)@.contains_key(lease_id@)
                &&& old(registry)@[lease_id@].session_token@ == session_token@
                &&& old(registry).file() matches Some(path) && call_ensures(
                    *write,
                    (final(registry), &path),
                    Err(message),
                )
            },
            _ => false,
        },
        !(error is Save) ==> *final(registry) == *old(registry),
        !old(registry)@.contains_key(lease_id@) ==> error is LeaseNotFound,
        old(registry)@.contains_key(lease_id@) && old(registry)@[lease_id@].session_token@
            != session_token@ ==> error is InvalidToken,
{
}

/// A heartbeat by the clock renews the lease, for five minutes from the instant
/// that it notes down.
pub proof fn heartbeat_by_the_clock_renews_the_lease<W: Fn(&Registry, &PathBuf) -> Result<(), String>>(
    registry: &mut Registry,
    lease_id: &str,
    session_token: &str,
    write: &W,
    expires: String,
)
    requires
        call_ensures(
            Registry::heartbeat::<W>,
            (registry, lease_id, session_token, write),
            Ok(expires),
        ),
    ensures
        old(registry)@.contains_key(lease_id@),
        old(registry)@[lease_id@].session_token@ == session_token@,
        old(registry)@[lease_id@].state is Active,
        final(registry)@.contains_key(lease_id@),
        ({
            let was = old(registry)@[lease_id@];
            let now_held = final(registry)@[lease_id@];
            &&& now_held.state is Active
            &&& now_held.confirmed_at == was.confirmed_at
            &&& now_held.last_heartbeat_at matches Some(at) && {
                &&& now_held.expires_at.secs == at.secs + 300
                &&& now_held.expires_at.nanos == at.nanos
            }
            &&& expires@ == clock::rfc3339_text(
                now_held.expires_at.secs,
                now_held.expires_at.nanos,
            )
            &&& now_held.lease_id == was.lease_id
            &&& now_held.project_path == was.project_path
            &&& now_held.service_name == was.service_name
            &&& now_held.port == was.port
            &&& now_held.protocol == was.protocol
            &&& now_held.client_pid == was.client_pid
            &&& now_held.session_token == was.session_token
            &&& now_held.granted_at == was.granted_at
        }),
        forall|id: Seq<char>|
            id != lease_id@ ==> (#[trigger] final(registry)@.contains_key(id) <==> old(
                registry,
            )@.contains_key(id)) && (old(registry)@.contains_key(id) ==> final(registry)@[id]
                == old(registry)@[id]),
        final(registry).file() == old(registry).file(),
        final(registry).file() matches Some(path) ==> call_ensures(
            *write,
            (final(registry), &path),
            Ok(()),
        ),
{
}

/// Saving hands the registry to the writer for its own file, and comes to what
/// the writer says. Without a file there is nothing to fail.
pub proof fn save_comes_to_what_the_writer_says<W: Fn(&Registry, &PathBuf) -> Result<(), String>>(
    registry: &Registry,
    write: &W,
    outcome: Result<(), RegistryError>,
)
    requires
        call_ensures(Registry::save::<W>, (registry, write), outcome),
    ensures
        match registry.file() {
            None => outcome is Ok,
            Some(path) => match outcome {
                Ok(_) => call_ensures(*write, (registry, &path), Ok(())),
                Err(error) => error matches RegistryError::Save { message } && call_ensures(
                    *write,
                    (registry, &path),
                    Err(message),
                ),
            },
        },
{
}

/// A lease is expired once the clock is past its expiry, and no earlier.
pub proof fn expiry_is_passed_after_its_instant(lease: &Lease, now: Timestamp, expired: bool)
    requires
        call_ensures(Lease::is_expired_at, (lease, now), expired),
    ensures
        expired <==> now.secs > lease.expires_at.secs || (now.secs == lease.expires_at.secs
            && now.nanos > lease.expires_at.nanos),
{
}

/// A new lease is pending, for the port, the service and the client that it was
/// made for, and good for as long as it was made for.
pub proof fn new_lease_is_pending_for_its_duration(
    project_path: String,
    service_name: String,
    port: u16,
    protocol: Protocol,
    client_pid: Option<u32>,
    lease_duration_secs: i64,
    lease: Lease,
)
    requires
        call_ensures(
            Lease::new,
            (project_path, service_name, port, protocol, client_pid, lease_duration_secs),
            lease,
        ),
        -8_000_000_000_000 <= lease_duration_secs <= 8_000_000_000_000,
    ensures
        lease.state is Pending,
        lease.project_path == project_path,
        lease.service_name == service_name,
        lease.port == port,
        lease.protocol == protocol,
        lease.client_pid == client_pid,
        lease.confirmed_at is None,
        lease.last_heartbeat_at is None,
        lease.lease_id@.len() == 36,
        lease.session_token@.len() == 36,
        lease.expires_at.secs == lease.granted_at.secs + lease_duration_secs,
        lease.expires_at.nanos == lease.granted_at.nanos,
{
}

} // verus!
