//! Port leases and their lifecycle.
use vstd::prelude::*;
use crate::clock;
use crate::clock::Timestamp;

verus! {

/// How long a confirmed lease lives without a heartbeat, in seconds.
pub const CONFIRM_EXTENSION_SECS: i64 = 300;

/// State of a port lease through its lifecycle.
#[derive(Debug, Clone, Copy, PartialEq, Eq, Structural)]
pub enum LeaseState {
    /// Port allocated by daemon, client has not yet confirmed it bound successfully.
    Pending,
    /// Client confirmed it bound the port; lease is live.
    Active,
    /// Client explicitly released the lease.
    Released,
    /// Lease expired due to missed heartbeats or timeout.
    Expired,
}

/// Whether a lease in this state holds its port.
pub open spec fn is_live(state: LeaseState) -> bool {
    state is Pending || state is Active
}

/// The name of a state, capitalised.
pub open spec fn state_name(state: LeaseState) -> Seq<char> {
    match state {
        LeaseState::Pending => "Pending"@,
        LeaseState::Active => "Active"@,
        LeaseState::Released => "Released"@,
        LeaseState::Expired => "Expired"@,
    }
}

/// The name of a state in small letters.
pub open spec fn state_label(state: LeaseState) -> Seq<char> {
    match state {
        LeaseState::Pending => "pending"@,
        LeaseState::Active => "active"@,
        LeaseState::Released => "released"@,
        LeaseState::Expired => "expired"@,
    }
}

impl LeaseState {
    /// Whether a lease in this state holds its port.
    pub fn live(self) -> (live: bool)
        ensures
            live == is_live(self),
    {
        match self {
            LeaseState::Pending => true,
            LeaseState::Active => true,
            LeaseState::Released => false,
            LeaseState::Expired => false,
        }
    }

    /// The name of the state, capitalised.
    pub fn name(self) -> (name: &'static str)
        ensures
            name@ == state_name(self),
    {
        match self {
            LeaseState::Pending => "Pending",
            LeaseState::Active => "Active",
            LeaseState::Released => "Released",
            LeaseState::Expired => "Expired",
        }
    }

    /// The name of the state in small letters.
    pub fn label(self) -> (label: &'static str)
        ensures
            label@ == state_label(self),
    {
        match self {
            LeaseState::Pending => "pending",
            LeaseState::Active => "active",
            LeaseState::Released => "released",
            LeaseState::Expired => "expired",
        }
    }
}

/// Network protocol for the port allocation.
#[derive(Debug, Clone, Copy, PartialEq, Eq, Structural)]
pub enum Protocol {
    Tcp,
    Udp,
}

impl Default for Protocol {
    fn default() -> (protocol: Self)
        ensures
            protocol == Protocol::Tcp,
    {
        Protocol::Tcp
    }
}

/// The name of a protocol, capitalised.
pub open spec fn protocol_name(protocol: Protocol) -> Seq<char> {
    match protocol {
        Protocol::Tcp => "Tcp"@,
        Protocol::Udp => "Udp"@,
    }
}

/// The name of a protocol in small letters.
pub open spec fn protocol_label(protocol: Protocol) -> Seq<char> {
    match protocol {
        Protocol::Tcp => "tcp"@,
        Protocol::Udp => "udp"@,
    }
}

impl Protocol {
    /// The name of the protocol, capitalised.
    pub fn name(self) -> (name: &'static str)
        ensures
            name@ == protocol_name(self),
    {
        match self {
            Protocol::Tcp => "Tcp",
            Protocol::Udp => "Udp",
        }
    }

    /// The name of the protocol in small letters.
    pub fn label(self) -> (label: &'static str)
        ensures
            label@ == protocol_label(self),
    {
        match self {
            Protocol::Tcp => "tcp",
            Protocol::Udp => "udp",
        }
    }
}

/// A port lease representing a single allocation.
#[derive(Debug)]
pub struct Lease {
    pub lease_id: String,
    pub project_path: String,
    pub service_name: String,
    pub port: u16,
    pub protocol: Protocol,
    pub state: LeaseState,
    pub client_pid: Option<u32>,
    pub session_token: String,
    pub granted_at: Timestamp,
    pub confirmed_at: Option<Timestamp>,
    pub last_heartbeat_at: Option<Timestamp>,
    pub expires_at: Timestamp,
}

impl Clone for Lease {
    fn clone(&self) -> (copy: Self)
        ensures
            copy == *self,
    {
        Lease {
            lease_id: self.lease_id.clone(),
            project_path: self.project_path.clone(),
            service_name: self.service_name.clone(),
            port: self.port,
            protocol: self.protocol,
            state: self.state,
            client_pid: self.client_pid,
            session_token: self.session_token.clone(),
            granted_at: self.granted_at,
            confirmed_at: self.confirmed_at,
            last_heartbeat_at: self.last_heartbeat_at,
            expires_at: self.expires_at,
        }
    }
}

/// Whether the text has the form of a version 4 UUID: 32 hexadecimal digits in
/// groups of 8, 4, 4, 4 and 12 with hyphens between them, the third group
/// starting with the version and the fourth with the variant.
pub open spec fn is_uuid_text(text: Seq<char>) -> bool {
    &&& text.len() == 36
    &&& text[8] == '-' && text[13] == '-' && text[18] == '-' && text[23] == '-'
    &&& forall|i: int|
        0 <= i < 36 && i != 8 && i != 13 && i != 18 && i != 23 ==> '0' <= #[trigger] text[i] <= '9'
            || 'a' <= text[i] <= 'f'
    &&& text[14] == '4'
    &&& text[19] == '8' || text[19] == '9' || text[19] == 'a' || text[19] == 'b'
}

/// `uuid::Uuid::new_v4`, written out: a random UUID of version 4. Which one it
/// is depends on chance; that two calls differ is not claimed.
#[verifier::external_body]
fn new_uuid() -> (id: String)
    ensures
        is_uuid_text(id@),
{
    uuid::Uuid::new_v4().to_string()
}

/// Whether the lease is new: pending, with ids of its own, granted when the
/// clock was read and running for the given number of seconds from that.
pub open spec fn is_new_lease(
    lease: Lease,
    project_path: String,
    service_name: String,
    port: u16,
    protocol: Protocol,
    client_pid: Option<u32>,
    lease_duration_secs: int,
) -> bool {
    &&& is_uuid_text(lease.lease_id@)
    &&& is_uuid_text(lease.session_token@)
    &&& clock::is_clock_reading(lease.granted_at)
    &&& lease == Lease {
        lease_id: lease.lease_id,
        project_path,
        service_name,
        port,
        protocol,
        state: LeaseState::Pending,
        client_pid,
        session_token: lease.session_token,
        granted_at: lease.granted_at,
        confirmed_at: None,
        last_heartbeat_at: None,
        expires_at: clock::plus_secs(lease.granted_at, lease_duration_secs),
    }
}

impl Lease {
    /// The lease once the client has confirmed it at `now`.
    pub open spec fn after_confirm(self, now: Timestamp) -> Lease {
        Lease {
            state: LeaseState::Active,
            confirmed_at: Some(now),
            last_heartbeat_at: Some(now),
            expires_at: clock::plus_secs(now, CONFIRM_EXTENSION_SECS as int),
            ..self
        }
    }

    /// The lease after a heartbeat at `now`.
    pub open spec fn after_heartbeat(self, now: Timestamp, extension_secs: int) -> Lease {
        Lease {
            last_heartbeat_at: Some(now),
            expires_at: clock::plus_secs(now, extension_secs),
            ..self
        }
    }

    /// The lease once its holder has released it.
    pub open spec fn after_release(self) -> Lease {
        Lease { state: LeaseState::Released, ..self }
    }

    /// The lease once it has run out.
    pub open spec fn after_expire(self) -> Lease {
        Lease { state: LeaseState::Expired, ..self }
    }

    /// Whether the lease has run out at `now`.
    pub open spec fn expired_at(self, now: Timestamp) -> bool {
        clock::later(now, self.expires_at)
    }

    /// Create a new pending lease for the given port. Where the clock reads an
    /// instant close to the end of the calendar, the expiry may lie past it.
    pub fn new(
        project_path: String,
        service_name: String,
        port: u16,
        protocol: Protocol,
        client_pid: Option<u32>,
        lease_duration_secs: i64,
    ) -> (lease: Self)
        requires
            clock::duration_in_range(lease_duration_secs as int),
        ensures
            is_new_lease(
                lease,
                project_path,
                service_name,
                port,
                protocol,
                client_pid,
                lease_duration_secs as int,
            ),
    {
        let now = clock::utc_now();
        Lease {
            lease_id: new_uuid(),
            project_path,
            service_name,
            port,
            protocol,
            state: LeaseState::Pending,
            client_pid,
            session_token: new_uuid(),
            granted_at: now,
            confirmed_at: None,
            last_heartbeat_at: None,
            expires_at: now.plus_seconds(lease_duration_secs),
        }
    }

    /// Check whether this lease has expired.
    pub fn is_expired(&self) -> (expired: bool)
        ensures
            exists|now: Timestamp| #[trigger]
                clock::is_clock_reading(now) && expired == self.expired_at(now),
    {
        let now = clock::utc_now();
        self.is_expired_at(now)
    }

    /// Check whether this lease has expired at the given instant.
    pub fn is_expired_at(&self, now: Timestamp) -> (expired: bool)
        ensures
            expired == self.expired_at(now),
    {
        now.is_after(self.expires_at)
    }

    /// Mark the lease as confirmed (client successfully bound the port). Where
    /// the clock reads an instant close to the end of the calendar, the expiry
    /// may lie past it.
    pub fn confirm(&mut self)
        ensures
            exists|now: Timestamp| #[trigger]
                clock::is_clock_reading(now) && *final(self) == old(self).after_confirm(now),
    {
        let now = clock::utc_now();
        self.set_confirmed(now);
    }

    /// Mark the lease as confirmed at the given instant, which extends its
    /// expiry. The new expiry must lie in the calendar's range.
    pub fn confirm_at(&mut self, now: Timestamp)
        requires
            now.secs + CONFIRM_EXTENSION_SECS <= i64::MAX,
            clock::representable(clock::plus_secs(now, CONFIRM_EXTENSION_SECS as int)),
        ensures
            *final(self) == old(self).after_confirm(now),
    {
        self.set_confirmed(now);
    }

    /// Set what a confirmation at the given instant changes.
    fn set_confirmed(&mut self, now: Timestamp)
        requires
            now.secs + CONFIRM_EXTENSION_SECS <= i64::MAX,
        ensures
            *final(self) == old(self).after_confirm(now),
    {
        self.state = LeaseState::Active;
        self.confirmed_at = Some(now);
        self.last_heartbeat_at = Some(now);
        self.expires_at = now.plus_seconds(CONFIRM_EXTENSION_SECS);
    }

    /// Record a heartbeat, extending the lease. Where the clock reads an instant
    /// close to the end of the calendar, the expiry may lie past it.
    pub fn heartbeat(&mut self, extension_secs: i64)
        requires
            clock::duration_in_range(extension_secs as int),
        ensures
            exists|now: Timestamp| #[trigger]
                clock::is_clock_reading(now) && *final(self) == old(self).after_heartbeat(
                    now,
                    extension_secs as int,
                ),
    {
        let now = clock::utc_now();
        self.set_heartbeat(now, extension_secs);
    }

    /// Record a heartbeat at the given instant. The new expiry must lie in the
    /// calendar's range.
    pub fn heartbeat_at(&mut self, now: Timestamp, extension_secs: i64)
        requires
            i64::MIN <= now.secs + extension_secs <= i64::MAX,
            clock::representable(clock::plus_secs(now, extension_secs as int)),
        ensures
            *final(self) == old(self).after_heartbeat(now, extension_secs as int),
    {
        self.set_heartbeat(now, extension_secs);
    }

    /// Set what a heartbeat at the given instant changes.
    fn set_heartbeat(&mut self, now: Timestamp, extension_secs: i64)
        requires
            i64::MIN <= now.secs + extension_secs <= i64::MAX,
        ensures
            *final(self) == old(self).after_heartbeat(now, extension_secs as int),
    {
        self.last_heartbeat_at = Some(now);
        self.expires_at = now.plus_seconds(extension_secs);
    }

    /// Mark the lease as released.
    pub fn release(&mut self)
        ensures
            *final(self) == old(self).after_release(),
    {
        self.state = LeaseState::Released;
    }

    /// Mark the lease as expired.
    pub fn expire(&mut self)
        ensures
            *final(self) == old(self).after_expire(),
    {
        self.state = LeaseState::Expired;
    }
}

} // verus!
