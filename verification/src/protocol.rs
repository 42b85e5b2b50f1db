//! What clients and the daemon say to each other.
use vstd::prelude::*;
use crate::model::{Lease, Protocol};

verus! {

/// Unique message wrapper for request/response correlation.
#[derive(Debug, Clone)]
pub struct Message<T> {
    pub id: String,
    pub payload: T,
}

/// Client-to-daemon requests.
#[derive(Debug, Clone)]
pub enum Request {
    /// Request a port allocation.
    Allocate {
        project: String,
        service: String,
        preferred_port: Option<u16>,
        protocol: Protocol,
        auto_reassign: bool,
        pid: Option<u32>,
    },
    /// Confirm that the client successfully bound the allocated port.
    Confirm { lease_id: String, session_token: String },
    /// Release a port allocation.
    Release { lease_id: String, session_token: String },
    /// Send a heartbeat to keep a lease alive.
    Heartbeat { lease_id: String, session_token: String },
    /// List active leases, optionally filtered by project.
    List { project_filter: Option<String> },
    /// Request daemon status.
    Status,
    /// Graceful daemon shutdown (used by CLI `daemon stop`).
    Shutdown,
}

/// Daemon-to-client responses.
#[derive(Debug, Clone)]
pub enum Response {
    /// Port successfully allocated.
    Allocated { lease: Lease },
    /// Lease confirmed.
    Confirmed { lease_id: String },
    /// Lease released.
    Released { lease_id: String },
    /// Heartbeat acknowledged with next deadline.
    HeartbeatAck { lease_id: String, expires_at: String },
    /// List of leases.
    LeaseList { leases: Vec<Lease> },
    /// Daemon status information.
    DaemonStatus { pid: u32, uptime_secs: u64, active_leases: usize, socket_path: String },
    /// Shutdown acknowledged.
    ShuttingDown,
    /// Error response.
    Error { code: String, message: String },
}

/// Whether the response is an error of the given code and message.
pub open spec fn is_error(response: Response, error_code: Seq<char>, text: Seq<char>) -> bool {
    response matches Response::Error { code, message } && code@ == error_code && message@ == text
}

impl Response {
    /// Convenience constructor for error responses.
    pub fn error(code: &str, message: &str) -> (response: Self)
        ensures
            is_error(response, code@, message@),
    {
        Response::Error { code: code.to_owned(), message: message.to_owned() }
    }
}

} // verus!
