//! Application layer: what the orchestrator and the workers decide.

pub mod orchestrator;
pub mod worker;
