//! The queue and the state repository as in-process values.

pub mod queue;
pub mod repository;
