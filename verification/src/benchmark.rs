//! Benchmarks: plans, environment snapshots, evidence and certification.

pub mod bench;
pub mod certification;
pub mod certification_laws;
pub mod plan_laws;
pub mod report_laws;
pub mod runner;
pub mod snapshot;
