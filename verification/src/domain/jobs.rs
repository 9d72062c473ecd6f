//! Job envelopes and the per-video status record.
//!
//! Storage keys are plain strings; times are microseconds.

use vstd::prelude::*;

verus! {

/// A request to render one strip of thumbnails for a video.
#[derive(Debug, Clone)]
pub struct ThumbnailStripJob {
    pub id: String,
    pub video_id: String,
    pub source_path: String,
    pub output_path: String,
    pub interval_seconds: u32,
    pub width: u32,
}

/// A unit of work for a worker.
#[derive(Debug, Clone)]
pub enum Job {
    Segment(SegmentJob),
    ThumbnailStrip(ThumbnailStripJob),
}

/// A request to transcode one segment of a video.
#[derive(Debug, Clone)]
pub struct SegmentJob {
    /// Unique job ID.
    pub id: String,
    /// The video this segment belongs to.
    pub video_id: String,
    /// Zero-based position of the segment in the video.
    pub segment_index: usize,
    /// Storage key of the source.
    pub source_path: String,
    /// Storage key of the transcoded segment.
    pub output_path: String,
    /// Where the segment starts in the source, in microseconds.
    pub start_time: u64,
    /// How long the segment lasts, in microseconds.
    pub duration: u64,
}

/// What is kept about a video while its segments are in flight.
#[derive(Debug, Clone)]
pub struct VideoStatus {
    pub id: String,
    /// Storage key of the source.
    pub source_path: String,
    /// Key prefix of everything emitted for the video.
    pub hls_dir: String,
    pub total_segments: usize,
    /// Duration of each segment in microseconds, in playlist order.
    pub segment_durations: Vec<u64>,
}

/// Whether a job goes to the high-priority list: the first two segments of
/// a video do, so that playback can start early.
pub open spec fn high_priority(job: Job) -> bool {
    match job {
        Job::Segment(segment) => segment.segment_index < 2,
        Job::ThumbnailStrip(_) => false,
    }
}

impl Job {
    /// Whether this job goes to the high-priority list.
    pub fn is_high_priority(&self) -> (high: bool)
        ensures
            high == high_priority(*self),
    {
        match self {
            Job::Segment(segment) => segment.segment_index < 2,
            Job::ThumbnailStrip(_) => false,
        }
    }
}

} // verus!
