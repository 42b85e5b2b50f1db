//! What the operations are for, promised of the functions themselves.
//!
//! Each law here takes the arguments and the result of a call and says what the
//! caller can count on, in terms of the leases, the host's answers and the text
//! that went in and came out.
pub mod allocation;
pub mod answers;
pub mod deciding;
pub mod ending;
pub mod framing;
pub mod housekeeping;
pub mod lifecycle;
pub mod lists;
pub mod places;
pub mod ports;
pub mod printing;
pub mod scanning;
pub mod serving;
pub mod showing;
pub mod time;
pub mod values;
pub mod words;
