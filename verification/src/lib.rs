//! Coordination and result aggregation for a publish/subscribe throughput
//! benchmark.
//!
//! The workers of a benchmark round are written here as state machines: each
//! one is a function from the worker's state and the event that just happened
//! to the next state and the action to perform. The caller performs the action
//! (opening a session, sleeping, publishing, waiting for a sample) and hands
//! back the event. The aggregation of the reported samples into a report is a
//! plain function.

pub mod clock;
pub mod fault;
pub mod subscribe;
pub mod publish;
pub mod file_name;
pub mod report;
pub mod locators;
pub mod combined;
pub mod topic;
