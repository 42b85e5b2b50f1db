//! Port collision prevention for developers.
pub mod cli;
pub mod client;
pub mod clock;
pub mod daemon;
pub mod dashboard;
pub mod decimal;
pub mod guarantees;
pub mod leases;
pub mod mcp;
pub mod model;
pub mod paths;
pub mod port_check;
pub mod promises;
pub mod protocol;
pub mod registry;
pub mod report;
pub mod scan;
pub mod sort;
pub mod text;
pub mod transport;

pub use crate::model::{Lease, LeaseState, Protocol};
pub use crate::protocol::{Request, Response};
