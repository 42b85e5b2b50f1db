//! The tools that Portus offers to coding agents: what they ask the daemon and
//! what they report of its answer.
use vstd::prelude::*;
use crate::cli;
use crate::client;
use crate::client::{ClientError, DaemonStatus};
use crate::clock;
use crate::clock::Timestamp;
use crate::model;
use crate::model::{Lease, Protocol};
use crate::protocol::{Request, Response};
use crate::text;

verus! {

/// Result of the allocate_port tool.
#[derive(Debug)]
pub struct AllocatePortResult {
    pub port: u16,
    pub lease_id: String,
    pub token: String,
    pub expires_at: String,
}

/// Result of the release_port tool.
#[derive(Debug)]
pub struct ReleasePortResult {
    pub released: bool,
    pub lease_id: String,
}

/// Information about a port lease.
#[derive(Debug)]
pub struct LeaseInfo {
    pub lease_id: String,
    pub project_path: String,
    pub service_name: String,
    pub port: u16,
    pub protocol: String,
    pub state: String,
    pub client_pid: Option<u32>,
    pub token: String,
    pub granted_at: String,
    pub confirmed_at: Option<String>,
    pub last_heartbeat_at: Option<String>,
    pub expires_at: String,
}

/// The instants of a lease, written out.
#[derive(Debug)]
pub struct LeaseTimes {
    pub granted_at: String,
    pub confirmed_at: Option<String>,
    pub last_heartbeat_at: Option<String>,
    pub expires_at: String,
}

/// Result of the list_ports tool.
#[derive(Debug)]
pub struct ListPortsResult {
    pub leases: Vec<LeaseInfo>,
}

/// Result of the check_port tool.
#[derive(Debug)]
pub struct CheckPortResult {
    pub available: bool,
    pub holder: Option<LeaseInfo>,
    pub reason: Option<String>,
}

/// Result of the daemon_status tool.
#[derive(Debug)]
pub struct DaemonStatusResult {
    pub pid: u32,
    pub uptime: u64,
    pub active_leases: usize,
}

/// Whether every instant of the lease lies in the calendar's range.
pub open spec fn dated(lease: Lease) -> bool {
    &&& clock::representable(lease.granted_at)
    &&& lease.confirmed_at matches Some(at) ==> clock::representable(at)
    &&& lease.last_heartbeat_at matches Some(at) ==> clock::representable(at)
    &&& clock::representable(lease.expires_at)
}

/// Whether every instant of every lease lies in the calendar's range.
pub open spec fn all_dated(leases: Seq<Lease>) -> bool {
    forall|i: int| 0 <= i < leases.len() ==> dated(#[trigger] leases[i])
}

/// The text of an instant in RFC 3339.
pub open spec fn instant_text(at: Timestamp) -> Seq<char> {
    clock::rfc3339_text(at.secs, at.nanos)
}

/// The text of an instant in RFC 3339, where there is one.
pub open spec fn optional_instant_text(at: Option<Timestamp>) -> Option<Seq<char>> {
    match at {
        Some(at) => Some(instant_text(at)),
        None => None,
    }
}

/// Whether `times` are the instants of the lease in RFC 3339.
pub open spec fn are_times_of(times: LeaseTimes, lease: Lease) -> bool {
    &&& times.granted_at@ == instant_text(lease.granted_at)
    &&& text::optional_string(times.confirmed_at) == optional_instant_text(lease.confirmed_at)
    &&& text::optional_string(times.last_heartbeat_at) == optional_instant_text(
        lease.last_heartbeat_at,
    )
    &&& times.expires_at@ == instant_text(lease.expires_at)
}

/// Whether `info` tells of the lease, with the given instants.
pub open spec fn tells_of(info: LeaseInfo, lease: Lease, times: LeaseTimes) -> bool {
    &&& info.lease_id == lease.lease_id
    &&& info.project_path == lease.project_path
    &&& info.service_name == lease.service_name
    &&& info.port == lease.port
    &&& info.protocol@ == model::protocol_label(lease.protocol)
    &&& info.state@ == model::state_label(lease.state)
    &&& info.client_pid == lease.client_pid
    &&& info.token == lease.session_token
    &&& info.granted_at == times.granted_at
    &&& info.confirmed_at == times.confirmed_at
    &&& info.last_heartbeat_at == times.last_heartbeat_at
    &&& info.expires_at == times.expires_at
}

/// Whether `info` tells of the lease.
pub open spec fn is_info_of(info: LeaseInfo, lease: Lease) -> bool {
    exists|times: LeaseTimes| #[trigger]
        are_times_of(times, lease) && tells_of(info, lease, times)
}

fn instant(at: Timestamp) -> (text: String)
    requires
        clock::representable(at),
    ensures
        text@ == instant_text(at),
{
    at.rfc3339().unwrap()
}

fn optional_instant(at: Option<Timestamp>) -> (text: Option<String>)
    requires
        at matches Some(at) ==> clock::representable(at),
    ensures
        text::optional_string(text) == optional_instant_text(at),
{
    match at {
        Some(at) => Some(instant(at)),
        None => None,
    }
}

impl LeaseTimes {
    /// The instants of a lease in RFC 3339.
    pub fn of(lease: &Lease) -> (times: Self)
        requires
            dated(*lease),
        ensures
            are_times_of(times, *lease),
    {
        LeaseTimes {
            granted_at: instant(lease.granted_at),
            confirmed_at: optional_instant(lease.confirmed_at),
            last_heartbeat_at: optional_instant(lease.last_heartbeat_at),
            expires_at: instant(lease.expires_at),
        }
    }
}

impl LeaseInfo {
    /// The information about a lease, with its instants written out.
    pub fn with_times(lease: &Lease, times: LeaseTimes) -> (info: Self)
        ensures
            tells_of(info, *lease, times),
    {
        LeaseInfo {
            lease_id: lease.lease_id.clone(),
            project_path: lease.project_path.clone(),
            service_name: lease.service_name.clone(),
            port: lease.port,
            protocol: lease.protocol.label().to_owned(),
            state: lease.state.label().to_owned(),
            client_pid: lease.client_pid,
            token: lease.session_token.clone(),
            granted_at: times.granted_at,
            confirmed_at: times.confirmed_at,
            last_heartbeat_at: times.last_heartbeat_at,
            expires_at: times.expires_at,
        }
    }

    /// The information about a lease.
    pub fn of(lease: &Lease) -> (info: Self)
        requires
            dated(*lease),
        ensures
            is_info_of(info, *lease),
    {
        LeaseInfo::with_times(lease, LeaseTimes::of(lease))
    }
}

/// The request of the allocate_port tool.
pub fn allocate_port_request(
    project: String,
    service: String,
    port: Option<u16>,
    auto_reassign: Option<bool>,
    pid: u32,
) -> (request: Request)
    ensures
        request == (Request::Allocate {
            project,
            service,
            preferred_port: port,
            protocol: Protocol::Tcp,
            auto_reassign: auto_reassign == Some(true),
            pid: Some(pid),
        }),
{
    let auto_reassign = match auto_reassign {
        Some(wanted) => wanted,
        None => false,
    };
    client::allocate_request(project, service, port, auto_reassign, pid)
}

/// What the allocate_port tool reports.
pub fn allocate_port_result(response: Response) -> (outcome: Result<
    AllocatePortResult,
    ClientError,
>)
    requires
        response matches Response::Allocated { lease } ==> clock::representable(lease.expires_at),
    ensures
        match response {
            Response::Allocated { lease } => outcome matches Ok(result) && result.port == lease.port
                && result.lease_id == lease.lease_id && result.token == lease.session_token
                && result.expires_at@ == instant_text(lease.expires_at),
            _ => outcome matches Err(error) && client::is_refusal(response, error),
        },
{
    match client::expect_allocated(response) {
        Ok(lease) => Ok(
            AllocatePortResult {
                port: lease.port,
                expires_at: instant(lease.expires_at),
                lease_id: lease.lease_id,
                token: lease.session_token,
            },
        ),
        Err(error) => Err(error),
    }
}

/// What the release_port tool reports.
pub fn release_port_result(response: Response) -> (outcome: Result<ReleasePortResult, ClientError>)
    ensures
        match response {
            Response::Released { lease_id } => outcome == Ok::<ReleasePortResult, ClientError>(
                (ReleasePortResult { released: true, lease_id }),
            ),
            _ => outcome matches Err(error) && client::is_refusal(response, error),
        },
{
    match client::expect_released(response) {
        Ok(lease_id) => Ok(ReleasePortResult { released: true, lease_id }),
        Err(error) => Err(error),
    }
}

/// What the list_ports tool reports.
pub fn list_ports_result(response: Response) -> (outcome: Result<ListPortsResult, ClientError>)
    requires
        response matches Response::LeaseList { leases } ==> all_dated(leases@),
    ensures
        match response {
            Response::LeaseList { leases } => outcome matches Ok(result) && {
                &&& result.leases@.len() == leases@.len()
                &&& forall|i: int|
                    0 <= i < leases@.len() ==> is_info_of(#[trigger] result.leases@[i], leases@[i])
            },
            _ => outcome matches Err(error) && client::is_refusal(response, error),
        },
{
    match client::expect_leases(response) {
        Ok(leases) => {
            let mut infos: Vec<LeaseInfo> = Vec::new();
            let mut i: usize = 0;
            while i < leases.len()
                invariant
                    i <= leases.len(),
                    all_dated(leases@),
                    infos@.len() == i,
                    forall|k: int| 0 <= k < i ==> is_info_of(#[trigger] infos@[k], leases@[k]),
                decreases leases.len() - i,
            {
                assert(dated(leases@[i as int]));
                infos.push(LeaseInfo::of(&leases[i]));
                i += 1;
            }
            Ok(ListPortsResult { leases: infos })
        },
        Err(error) => Err(error),
    }
}

/// What the check_port tool reports: the port can be had where it can be bound
/// and no live lease holds it.
pub fn check_port_result(port: u16, response: Response, bindable: bool) -> (outcome: Result<
    CheckPortResult,
    ClientError,
>)
    requires
        response matches Response::LeaseList { leases } ==> all_dated(leases@),
    ensures
        match response {
            Response::LeaseList { leases } => outcome matches Ok(result) && {
                let holder = cli::first_on(leases@, port, Protocol::Tcp);
                &&& result.available == (bindable && holder is None)
                &&& text::optional_string(result.reason) == cli::unavailable_reason(
                    bindable,
                    holder,
                )
                &&& match holder {
                    Some(lease) => result.holder matches Some(info) && is_info_of(info, lease),
                    None => result.holder is None,
                }
            },
            _ => outcome matches Err(error) && client::is_refusal(response, error),
        },
{
    match client::expect_leases(response) {
        Ok(leases) => {
            let holder = cli::find_on_port(&leases, port, Protocol::Tcp);
            let answer = cli::port_availability(bindable, holder);
            let info = match holder {
                Some(lease) => {
                    proof {
                        lemma_first_on(leases@, port, Protocol::Tcp);
                    }
                    Some(LeaseInfo::of(lease))
                },
                None => None,
            };
            Ok(CheckPortResult { available: answer.available, holder: info, reason: answer.reason })
        },
        Err(error) => Err(error),
    }
}

/// The first of the leases on a port is one of the leases.
proof fn lemma_first_on(leases: Seq<Lease>, port: u16, protocol: Protocol)
    ensures
        cli::first_on(leases, port, protocol) matches Some(lease) ==> exists|i: int|
            0 <= i < leases.len() && #[trigger] leases[i] == lease,
    decreases leases.len(),
{
    if leases.len() > 0 {
        if leases[0].port == port && leases[0].protocol == protocol {
            assert(leases[0] == leases[0]);
        } else {
            let rest = leases.drop_first();
            lemma_first_on(rest, port, protocol);
            if let Some(lease) = cli::first_on(rest, port, protocol) {
                let i = choose|i: int| 0 <= i < rest.len() && #[trigger] rest[i] == lease;
                assert(leases[i + 1] == lease);
            }
        }
    }
}

/// What the daemon_status tool reports.
pub fn daemon_status_result(response: Response) -> (outcome: Result<
    DaemonStatusResult,
    ClientError,
>)
    ensures
        match response {
            Response::DaemonStatus { pid, uptime_secs, active_leases, .. } => outcome == Ok::<
                DaemonStatusResult,
                ClientError,
            >((DaemonStatusResult { pid, uptime: uptime_secs, active_leases })),
            _ => outcome matches Err(error) && client::is_refusal(response, error),
        },
{
    match client::expect_status(response) {
        Ok(status) => Ok(
            DaemonStatusResult {
                pid: status.pid,
                uptime: status.uptime_secs,
                active_leases: status.active_leases,
            },
        ),
        Err(error) => Err(error),
    }
}

} // verus!
