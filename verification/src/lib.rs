//! Era-scoped consensus: a supervisor that creates, routes events to, and
//! retires per-era instances of a weighted-quorum agreement protocol, together
//! with the byte-level wire format its messages and cost tables travel in.

pub mod bytesrepr;
pub mod era;
pub mod host_function_costs;
pub mod messages;
pub mod supervisor;
pub mod types;
pub mod validators;
