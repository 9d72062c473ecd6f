//! Segment-parallel HLS build pipeline: the schedule of a source, the jobs
//! derived from it, the MP4 box surgery on transcoded fragments, the playlist
//! text, and the dispatch and completion rules that tie them together.
//!
//! All times are whole microseconds held in `u64`.

pub mod adapters;
pub mod application;
pub mod config;
pub mod domain;
pub mod ports;
pub mod text;
