//! The DPDK backend: preflight checks, environment snapshots, queue planning and execution.

pub mod environment;
pub mod executor;
pub mod native;
pub mod planning;
pub mod planning_laws;
pub mod preflight;
pub mod probe;
pub mod reading_laws;
