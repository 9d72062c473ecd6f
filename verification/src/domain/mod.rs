//! Domain layer: pure rules on plain values.

pub mod av;
pub mod hls;
pub mod jobs;
