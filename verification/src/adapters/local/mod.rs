//! Backends of the single-host deployment.

pub mod events;
pub mod fs;
pub mod redis;
