//! Orchestration core of a capacity-search benchmark: per-iteration process
//! lifecycle, live metric-stream parsing, overload evaluation, and the
//! cleanup protocol, each stated as a contract and verified.

pub mod artifacts;
pub mod cleanup;
pub mod iteration;
pub mod metrics;
pub mod overload;
pub mod process;
pub mod search;
pub mod text;
