//! Rules of the concrete backends.

pub mod local;
