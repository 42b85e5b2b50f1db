//! What a client makes of the daemon's responses.
use vstd::prelude::*;
use crate::cli;
use crate::model::{Lease, Protocol};
use crate::protocol::{Request, Response};

verus! {

/// Why a response is not what the client asked for.
#[derive(Debug)]
pub enum ClientError {
    /// The daemon turned the request down; the message is for people.
    Daemon { message: String },
    /// The daemon answered something else.
    Unexpected { response: Response },
}

/// Whether the error is the one for a response that was not asked for.
pub open spec fn is_refusal(response: Response, error: ClientError) -> bool {
    match response {
        Response::Error { code, message } => error matches ClientError::Daemon { message: text }
            && text@ == cli::with_capital(message@) + cli::suggestion(code@, message@),
        _ => error == ClientError::Unexpected { response },
    }
}

fn refusal(response: Response) -> (error: ClientError)
    ensures
        is_refusal(response, error),
{
    match response {
        Response::Error { code, message } => ClientError::Daemon {
            message: cli::format_daemon_error(code.as_str(), message.as_str()),
        },
        _ => ClientError::Unexpected { response },
    }
}

/// The request for a TCP port.
pub fn allocate_request(
    project: String,
    service: String,
    preferred_port: Option<u16>,
    auto_reassign: bool,
    pid: u32,
) -> (request: Request)
    ensures
        request == (Request::Allocate {
            project,
            service,
            preferred_port,
            protocol: Protocol::Tcp,
            auto_reassign,
            pid: Some(pid),
        }),
{
    Request::Allocate {
        project,
        service,
        preferred_port,
        protocol: Protocol::Tcp,
        auto_reassign,
        pid: Some(pid),
    }
}

/// The lease that was asked for.
pub fn expect_allocated(response: Response) -> (outcome: Result<Lease, ClientError>)
    ensures
        match response {
            Response::Allocated { lease } => outcome == Ok::<Lease, ClientError>(lease),
            _ => outcome matches Err(error) && is_refusal(response, error),
        },
{
    match response {
        Response::Allocated { lease } => Ok(lease),
        other => Err(refusal(other)),
    }
}

/// The id of the lease that was confirmed.
pub fn expect_confirmed(response: Response) -> (outcome: Result<String, ClientError>)
    ensures
        match response {
            Response::Confirmed { lease_id } => outcome == Ok::<String, ClientError>(lease_id),
            _ => outcome matches Err(error) && is_refusal(response, error),
        },
{
    match response {
        Response::Confirmed { lease_id } => Ok(lease_id),
        other => Err(refusal(other)),
    }
}

/// The id of the lease that was released.
pub fn expect_released(response: Response) -> (outcome: Result<String, ClientError>)
    ensures
        match response {
            Response::Released { lease_id } => outcome == Ok::<String, ClientError>(lease_id),
            _ => outcome matches Err(error) && is_refusal(response, error),
        },
{
    match response {
        Response::Released { lease_id } => Ok(lease_id),
        other => Err(refusal(other)),
    }
}

/// The leases that were asked for.
pub fn expect_leases(response: Response) -> (outcome: Result<Vec<Lease>, ClientError>)
    ensures
        match response {
            Response::LeaseList { leases } => outcome == Ok::<Vec<Lease>, ClientError>(leases),
            _ => outcome matches Err(error) && is_refusal(response, error),
        },
{
    match response {
        Response::LeaseList { leases } => Ok(leases),
        other => Err(refusal(other)),
    }
}

/// What the daemon says of itself.
#[derive(Debug)]
pub struct DaemonStatus {
    pub pid: u32,
    pub uptime_secs: u64,
    pub active_leases: usize,
    pub socket_path: String,
}

/// The status that was asked for.
pub fn expect_status(response: Response) -> (outcome: Result<DaemonStatus, ClientError>)
    ensures
        match response {
            Response::DaemonStatus { pid, uptime_secs, active_leases, socket_path } => outcome
                == Ok::<DaemonStatus, ClientError>(
                (DaemonStatus { pid, uptime_secs, active_leases, socket_path }),
            ),
            _ => outcome matches Err(error) && is_refusal(response, error),
        },
{
    match response {
        Response::DaemonStatus { pid, uptime_secs, active_leases, socket_path } => Ok(
            DaemonStatus { pid, uptime_secs, active_leases, socket_path },
        ),
        other => Err(refusal(other)),
    }
}

/// Whether the daemon agreed to shut down. Anything else is unexpected.
pub fn expect_shutdown(response: Response) -> (outcome: Result<(), ClientError>)
    ensures
        match outcome {
            Ok(_) => response is ShuttingDown,
            Err(error) => !(response is ShuttingDown) && error == (ClientError::Unexpected {
                response,
            }),
        },
{
    match response {
        Response::ShuttingDown => Ok(()),
        other => Err(ClientError::Unexpected { response: other }),
    }
}

/// Whether the answer to a request for the status shows that the daemon runs;
/// `None` where there was no answer.
pub fn running_status(response: Option<Response>) -> (status: Option<DaemonStatus>)
    ensures
        match response {
            Some(Response::DaemonStatus { pid, uptime_secs, active_leases, socket_path }) => status
                == Some((DaemonStatus { pid, uptime_secs, active_leases, socket_path })),
            _ => status is None,
        },
{
    match response {
        Some(Response::DaemonStatus { pid, uptime_secs, active_leases, socket_path }) => Some(
            DaemonStatus { pid, uptime_secs, active_leases, socket_path },
        ),
        _ => None,
    }
}

} // verus!
