//! What clients and tools make of the daemon's answers.
use vstd::prelude::*;
use crate::cli;
use crate::client;
use crate::client::{ClientError, DaemonStatus};
use crate::clock;
use crate::clock::Timestamp;
use crate::mcp;
use crate::mcp::{
    AllocatePortResult, CheckPortResult, DaemonStatusResult, LeaseInfo, LeaseTimes,
    ListPortsResult, ReleasePortResult,
};
use crate::model::{Lease, Protocol};
use crate::promises::deciding;
use crate::protocol::{Request, Response};

verus! {

// ── Clients ─────────────────────────────────────────────────────────────

/// A client asks for a TCP port of its own process, in the name of the project
/// and the service, with the port and the leeway that it was given.
pub proof fn request_says_what_is_wanted(
    project: String,
    service: String,
    preferred_port: Option<u16>,
    auto_reassign: bool,
    pid: u32,
    request: Request,
)
    requires
        call_ensures(
            client::allocate_request,
            (project, service, preferred_port, auto_reassign, pid),
            request,
        ),
    ensures
        request matches Request::Allocate {
            project: p,
            service: s,
            preferred_port: port,
            protocol,
            auto_reassign: leeway,
            pid: process,
        } && p == project && s == service && port == preferred_port && protocol is Tcp && leeway
            == auto_reassign && process == Some(pid),
{
}

/// A lease comes out of an answer exactly where the daemon granted one.
pub proof fn granted_lease_is_taken_over(response: Response, outcome: Result<Lease, ClientError>)
    requires
        call_ensures(client::expect_allocated, (response,), outcome),
    ensures
        response matches Response::Allocated { lease } ==> outcome == Ok::<Lease, ClientError>(
            lease,
        ),
        outcome is Ok ==> response is Allocated,
{
}

/// An id comes out of an answer exactly where the daemon confirmed a lease, or
/// released one.
pub proof fn id_of_the_lease_is_taken_over(
    response: Response,
    confirmed: Result<String, ClientError>,
    released: Result<String, ClientError>,
)
    requires
        call_ensures(client::expect_confirmed, (response,), confirmed),
        call_ensures(client::expect_released, (response,), released),
    ensures
        response matches Response::Confirmed { lease_id } ==> confirmed == Ok::<
            String,
            ClientError,
        >(lease_id),
        confirmed is Ok ==> response is Confirmed,
        response matches Response::Released { lease_id } ==> released == Ok::<String, ClientError>(
            lease_id,
        ),
        released is Ok ==> response is Released,
{
}

/// Leases come out of an answer exactly where the daemon listed them.
pub proof fn listed_leases_are_taken_over(
    response: Response,
    outcome: Result<Vec<Lease>, ClientError>,
)
    requires
        call_ensures(client::expect_leases, (response,), outcome),
    ensures
        response matches Response::LeaseList { leases } ==> (outcome matches Ok(found) && found@
            == leases@),
        outcome is Ok ==> response is LeaseList,
{
}

/// The status comes out of an answer exactly where the daemon gave it, and the
/// daemon is known to run exactly by such an answer.
pub proof fn status_is_taken_over(
    response: Response,
    outcome: Result<DaemonStatus, ClientError>,
    answer: Option<Response>,
    running: Option<DaemonStatus>,
)
    requires
        call_ensures(client::expect_status, (response,), outcome),
        call_ensures(client::running_status, (answer,), running),
    ensures
        response matches Response::DaemonStatus {
            pid,
            uptime_secs,
            active_leases,
            socket_path,
        } ==> (outcome matches Ok(status) && status.pid == pid && status.uptime_secs == uptime_secs
            && status.active_leases == active_leases && status.socket_path == socket_path),
        outcome is Ok ==> response is DaemonStatus,
        running is Some <==> (answer matches Some(response) && response is DaemonStatus),
        answer matches Some(Response::DaemonStatus {
            pid,
            uptime_secs,
            active_leases,
            socket_path,
        }) ==> (running matches Some(status) && status.pid == pid && status.uptime_secs
            == uptime_secs && status.active_leases == active_leases && status.socket_path
            == socket_path),
{
}

/// A shutdown is agreed on exactly where the daemon says that it shuts down.
pub proof fn shutdown_is_agreed_on(response: Response, outcome: Result<(), ClientError>)
    requires
        call_ensures(client::expect_shutdown, (response,), outcome),
    ensures
        outcome is Ok <==> response is ShuttingDown,
        outcome matches Err(error) ==> error == (ClientError::Unexpected { response }),
{
}

/// What the daemon says against a request reaches the client in the daemon's
/// words, whatever was asked; any other answer is passed on as it is.
pub proof fn refusal_is_passed_on(
    response: Response,
    code: &str,
    message: &str,
    text: String,
    allocated: Result<Lease, ClientError>,
    confirmed: Result<String, ClientError>,
    released: Result<String, ClientError>,
    listed: Result<Vec<Lease>, ClientError>,
    status: Result<DaemonStatus, ClientError>,
)
    requires
        call_ensures(client::expect_allocated, (response,), allocated),
        call_ensures(client::expect_confirmed, (response,), confirmed),
        call_ensures(client::expect_released, (response,), released),
        call_ensures(client::expect_leases, (response,), listed),
        call_ensures(client::expect_status, (response,), status),
        call_ensures(cli::format_daemon_error, (code, message), text),
    ensures
        response matches Response::Error { code: c, message: m } ==> (c@ == code@ && m@ == message@
            ==> {
            &&& allocated matches Err(error) && says(error, text@)
            &&& confirmed matches Err(error) && says(error, text@)
            &&& released matches Err(error) && says(error, text@)
            &&& listed matches Err(error) && says(error, text@)
            &&& status matches Err(error) && says(error, text@)
        }),
        !(response is Error) ==> {
            &&& allocated matches Err(error) ==> error == (ClientError::Unexpected { response })
            &&& confirmed matches Err(error) ==> error == (ClientError::Unexpected { response })
            &&& released matches Err(error) ==> error == (ClientError::Unexpected { response })
            &&& listed matches Err(error) ==> error == (ClientError::Unexpected { response })
            &&& status matches Err(error) ==> error == (ClientError::Unexpected { response })
        },
{
}

/// Whether the error is a refusal in the given words.
pub open spec fn says(error: ClientError, words: Seq<char>) -> bool {
    error matches ClientError::Daemon { message } && message@ == words
}

// ── Tools ───────────────────────────────────────────────────────────────

/// The tool asks for a TCP port of its own process; another port will do only
/// where that was said.
pub proof fn tool_asks_for_what_is_wanted(
    project: String,
    service: String,
    port: Option<u16>,
    auto_reassign: Option<bool>,
    pid: u32,
    request: Request,
)
    requires
        call_ensures(
            mcp::allocate_port_request,
            (project, service, port, auto_reassign, pid),
            request,
        ),
    ensures
        request matches Request::Allocate {
            project: p,
            service: s,
            preferred_port,
            protocol,
            auto_reassign: leeway,
            pid: process,
        } && p == project && s == service && preferred_port == port && protocol is Tcp && (leeway
            <==> auto_reassign == Some(true)) && process == Some(pid),
{
}

/// The tool reports the port of the granted lease, with the id and the token
/// that it takes to release it, and the instant at which it ends.
pub proof fn tool_reports_the_granted_lease(
    response: Response,
    outcome: Result<AllocatePortResult, ClientError>,
    expires_at: Option<String>,
)
    requires
        response matches Response::Allocated { lease } ==> clock::representable(lease.expires_at)
            && call_ensures(Timestamp::rfc3339, (lease.expires_at,), expires_at),
        call_ensures(mcp::allocate_port_result, (response,), outcome),
    ensures
        response matches Response::Allocated { lease } ==> (outcome matches Ok(result)
            && result.port == lease.port && result.lease_id == lease.lease_id && result.token
            == lease.session_token && expires_at is Some && result.expires_at@
            == expires_at->0@),
        outcome is Ok ==> response is Allocated,
{
}

/// The tool reports a release exactly where the daemon released the lease.
pub proof fn tool_reports_the_release(
    response: Response,
    outcome: Result<ReleasePortResult, ClientError>,
)
    requires
        call_ensures(mcp::release_port_result, (response,), outcome),
    ensures
        response matches Response::Released { lease_id } ==> (outcome matches Ok(result)
            && result.released && result.lease_id == lease_id),
        outcome is Ok ==> response is Released,
{
}

/// Whether the information is the lease's own.
pub open spec fn describes(info: LeaseInfo, lease: Lease) -> bool {
    &&& info.lease_id == lease.lease_id
    &&& info.project_path == lease.project_path
    &&& info.service_name == lease.service_name
    &&& info.port == lease.port
    &&& info.protocol@ == if lease.protocol is Tcp {
        seq!['t', 'c', 'p']
    } else {
        seq!['u', 'd', 'p']
    }
    &&& deciding::is_label_of(info.state@, lease.state)
    &&& info.client_pid == lease.client_pid
    &&& info.token == lease.session_token
    &&& info.confirmed_at is Some <==> lease.confirmed_at is Some
    &&& info.last_heartbeat_at is Some <==> lease.last_heartbeat_at is Some
}

proof fn lemma_describes(info: LeaseInfo, lease: Lease)
    requires
        mcp::is_info_of(info, lease),
    ensures
        describes(info, lease),
        info.granted_at@ == clock::rfc3339_text(lease.granted_at.secs, lease.granted_at.nanos),
        info.expires_at@ == clock::rfc3339_text(lease.expires_at.secs, lease.expires_at.nanos),
        lease.confirmed_at matches Some(at) ==> (info.confirmed_at matches Some(text) && text@
            == clock::rfc3339_text(at.secs, at.nanos)),
        lease.last_heartbeat_at matches Some(at) ==> (info.last_heartbeat_at matches Some(text)
            && text@ == clock::rfc3339_text(at.secs, at.nanos)),
{
    let times = choose|times: LeaseTimes| #[trigger]
        mcp::are_times_of(times, lease) && mcp::tells_of(info, lease, times);
    deciding::lemma_labels(lease.state);
    reveal_strlit("tcp");
    reveal_strlit("udp");
    assert("tcp"@ =~= seq!['t', 'c', 'p']);
    assert("udp"@ =~= seq!['u', 'd', 'p']);
}

/// The information about a lease is its own, in every field, and its instants
/// are those of the lease in RFC 3339.
pub proof fn information_is_that_of_the_lease(
    lease: &Lease,
    info: LeaseInfo,
    granted_at: Option<String>,
    expires_at: Option<String>,
    at: Timestamp,
    text: Option<String>,
)
    requires
        call_ensures(LeaseInfo::of, (lease,), info),
        clock::representable(lease.granted_at),
        clock::representable(lease.expires_at),
        clock::representable(at),
        call_ensures(Timestamp::rfc3339, (lease.granted_at,), granted_at),
        call_ensures(Timestamp::rfc3339, (lease.expires_at,), expires_at),
        call_ensures(Timestamp::rfc3339, (at,), text),
    ensures
        describes(info, *lease),
        granted_at matches Some(t) && info.granted_at@ == t@,
        expires_at matches Some(t) && info.expires_at@ == t@,
        lease.confirmed_at == Some(at) ==> text is Some && (info.confirmed_at matches Some(t) && t@
            == text->0@),
        lease.last_heartbeat_at == Some(at) ==> text is Some && (
        info.last_heartbeat_at matches Some(t) && t@ == text->0@),
{
    lemma_describes(info, *lease);
}

/// The instants that stand in the information are the lease's, each in its
/// place.
pub proof fn instants_stand_in_their_places(lease: &Lease, times: LeaseTimes, info: LeaseInfo)
    requires
        call_ensures(LeaseInfo::with_times, (lease, times), info),
    ensures
        info.granted_at == times.granted_at,
        info.confirmed_at == times.confirmed_at,
        info.last_heartbeat_at == times.last_heartbeat_at,
        info.expires_at == times.expires_at,
        info.lease_id == lease.lease_id,
        info.project_path == lease.project_path,
        info.service_name == lease.service_name,
        info.port == lease.port,
        info.client_pid == lease.client_pid,
        info.token == lease.session_token,
        deciding::is_label_of(info.state@, lease.state),
{
    deciding::lemma_labels(lease.state);
}

/// The instants of a lease, written out, are those of the lease.
pub proof fn instants_are_written_out(
    lease: &Lease,
    times: LeaseTimes,
    granted_at: Option<String>,
    expires_at: Option<String>,
)
    requires
        call_ensures(LeaseTimes::of, (lease,), times),
        clock::representable(lease.granted_at),
        clock::representable(lease.expires_at),
        call_ensures(Timestamp::rfc3339, (lease.granted_at,), granted_at),
        call_ensures(Timestamp::rfc3339, (lease.expires_at,), expires_at),
    ensures
        granted_at matches Some(t) && times.granted_at@ == t@,
        expires_at matches Some(t) && times.expires_at@ == t@,
        times.confirmed_at is Some <==> lease.confirmed_at is Some,
        times.last_heartbeat_at is Some <==> lease.last_heartbeat_at is Some,
{
}

/// The tool lists every lease that the daemon listed, one for one.
pub proof fn tool_lists_every_lease(response: Response, outcome: Result<ListPortsResult, ClientError>)
    requires
        call_ensures(mcp::list_ports_result, (response,), outcome),
    ensures
        response matches Response::LeaseList { leases } ==> (outcome matches Ok(result)
            && result.leases@.len() == leases@.len() && forall|i: int|
            0 <= i < leases@.len() ==> describes(#[trigger] result.leases@[i], leases@[i])),
        outcome is Ok ==> response is LeaseList,
{
    if let Response::LeaseList { leases } = response {
        let result = outcome->Ok_0;
        assert forall|i: int| 0 <= i < leases@.len() implies describes(
            #[trigger] result.leases@[i],
            leases@[i],
        ) by {
            lemma_describes(result.leases@[i], leases@[i]);
        }
    }
}

/// The tool calls a port available exactly where it can be bound and none of
/// the daemon's leases is on it for TCP. Where one is, it is the holder.
pub proof fn tool_knows_who_holds_a_port(
    port: u16,
    response: Response,
    bindable: bool,
    outcome: Result<CheckPortResult, ClientError>,
)
    requires
        call_ensures(mcp::check_port_result, (port, response, bindable), outcome),
    ensures
        response matches Response::LeaseList { leases } ==> (outcome matches Ok(result) && {
            let held = exists|i: int|
                0 <= i < leases@.len() && (#[trigger] leases@[i]).port == port
                    && leases@[i].protocol is Tcp;
            &&& result.available <==> bindable && !held
            &&& result.reason is None <==> result.available
            &&& result.holder is Some <==> held
            &&& result.holder matches Some(info) ==> exists|i: int|
                0 <= i < leases@.len() && (#[trigger] leases@[i]).port == port
                    && leases@[i].protocol is Tcp && describes(info, leases@[i])
        }),
        outcome is Ok ==> response is LeaseList,
{
    if let Response::LeaseList { leases } = response {
        deciding::lemma_first_on(leases@, port, Protocol::Tcp);
        let result = outcome->Ok_0;
        if let Some(lease) = cli::first_on(leases@, port, Protocol::Tcp) {
            let i = choose|i: int|
                {
                    &&& 0 <= i < leases@.len()
                    &&& #[trigger] leases@[i] == lease
                    &&& lease.port == port
                    &&& lease.protocol == Protocol::Tcp
                    &&& forall|j: int|
                        0 <= j < i ==> (#[trigger] leases@[j]).port != port || leases@[j].protocol
                            != Protocol::Tcp
                };
            assert(leases@[i].port == port);
            lemma_describes(result.holder->0, lease);
        }
    }
}

/// The tool reports what the daemon says of itself.
pub proof fn tool_reports_the_status(
    response: Response,
    outcome: Result<DaemonStatusResult, ClientError>,
)
    requires
        call_ensures(mcp::daemon_status_result, (response,), outcome),
    ensures
        response matches Response::DaemonStatus {
            pid,
            uptime_secs,
            active_leases,
            socket_path,
        } ==> (outcome matches Ok(status) && status.pid == pid && status.uptime == uptime_secs
            && status.active_leases == active_leases),
        outcome is Ok ==> response is DaemonStatus,
{
}

} // verus!
