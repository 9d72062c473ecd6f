//! What the Redis backend decides: which list a job goes to, under which
//! keys a video's state lives, and how a dequeue proceeds.

use crate::domain::jobs::{high_priority, Job, VideoStatus};
use vstd::prelude::*;
use vstd::string::*;

verus! {

/// What a dequeue does once the non-blocking pop from the high-priority
/// list has come back.
pub enum PopStep {
    /// Deliver this message.
    Deliver(String),
    /// Block on the normal list with the caller's timeout.
    WaitOnNormal,
}

/// The name of the list that `job` is pushed to.
pub open spec fn queue_key_of(job: Job) -> Seq<char> {
    if high_priority(job) {
        "sinatra:segment_jobs:high"@
    } else {
        "sinatra:segment_jobs:normal"@
    }
}

/// The step that follows the pop result `high`.
pub open spec fn step_after_pop(high: Option<String>) -> PopStep {
    match high {
        Some(message) => PopStep::Deliver(message),
        None => PopStep::WaitOnNormal,
    }
}

/// The name of the high-priority list.
pub fn high_queue_key() -> (key: &'static str)
    ensures
        key@ == "sinatra:segment_jobs:high"@,
{
    "sinatra:segment_jobs:high"
}

/// The name of the normal list.
pub fn normal_queue_key() -> (key: &'static str)
    ensures
        key@ == "sinatra:segment_jobs:normal"@,
{
    "sinatra:segment_jobs:normal"
}

/// The name of the list that `job` is pushed to: the high-priority list for
/// the first two segments of a video, the normal list otherwise.
pub fn queue_key(job: &Job) -> (key: &'static str)
    ensures
        key@ == queue_key_of(*job),
{
    if job.is_high_priority() {
        high_queue_key()
    } else {
        normal_queue_key()
    }
}

/// The key under which the status record of `video_id` is stored.
pub fn status_key(video_id: &str) -> (key: String)
    ensures
        key@ == "sinatra:video:"@ + video_id@,
{
    let mut key = String::from_str("sinatra:video:");
    key.append(video_id);
    key
}

/// The key under which the completion counter of `video_id` is stored.
pub fn completed_key(video_id: &str) -> (key: String)
    ensures
        key@ == "sinatra:video_completed:"@ + video_id@,
{
    let mut key = String::from_str("sinatra:video_completed:");
    key.append(video_id);
    key
}

/// How a dequeue goes on after the pop from the high-priority list: a
/// message found there is delivered, and only an empty result leads to the
/// normal list.
pub fn after_high_pop(high: Option<String>) -> (step: PopStep)
    ensures
        step == step_after_pop(high),
        high is Some ==> step == PopStep::Deliver(high->Some_0),
{
    match high {
        Some(message) => PopStep::Deliver(message),
        None => PopStep::WaitOnNormal,
    }
}

/// The total number of segments to report for a stored status record, zero
/// where there is none.
pub fn get_total_segments(status: &Option<VideoStatus>) -> (total: usize)
    ensures
        total == match *status {
            Some(s) => s.total_segments,
            None => 0usize,
        },
{
    match status {
        Some(s) => s.total_segments,
        None => 0,
    }
}

} // verus!
