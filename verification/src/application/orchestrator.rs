//! The orchestrator: from a new source and its schedule to the status record
//! and the segment jobs of the video.

use crate::domain::av::av::{
    boundaries_of,
    durations_of,
    is_non_decreasing,
    non_decreasing,
    segment_boundaries,
};
use crate::domain::hls::segment_uri;
use crate::domain::jobs::{SegmentJob, VideoStatus};
use crate::text::{decimal, lemma_decimal_injective, push_decimal};
use vstd::prelude::*;
use vstd::string::*;

verus! {

/// The orchestrator with the handles it works through.
pub struct OrchestratorService<S, Q, R> {
    storage: S,
    queue: Q,
    repo: R,
}

/// Why no plan was made for a source.
#[derive(Debug, Clone, Copy, PartialEq, Eq, Structural)]
pub enum OrchestratorError {
    /// The prober's keyframe times are not in order.
    ProbeFailure,
    /// The source key names no file, so no output prefix can be derived.
    InvalidSourceKey,
    /// The schedule has fewer than two boundaries.
    NoSegments,
}

/// What the orchestrator persists and enqueues for one accepted source.
pub struct VideoPlan {
    /// The record to persist before anything is enqueued.
    pub status: VideoStatus,
    /// One job per segment, in index order.
    pub jobs: Vec<SegmentJob>,
}

/// The file stem that `std::path::Path::file_stem` finds in `key`.
pub uninterp spec fn path_file_stem(key: Seq<char>) -> Option<Seq<char>>;

/// The key prefix of the artifacts of the source with file stem `stem`.
pub open spec fn hls_dir_of(stem: Seq<char>) -> Seq<char> {
    "hls/"@ + stem
}

/// The storage key of segment `i` under `hls_dir`.
pub open spec fn segment_key(hls_dir: Seq<char>, i: nat) -> Seq<char> {
    hls_dir + "/"@ + segment_uri(i)
}

/// Whether `c` is a lower-case hexadecimal digit.
pub open spec fn is_lower_hex(c: char) -> bool {
    ('0' <= c && c <= '9') || ('a' <= c && c <= 'f')
}

/// Whether `id` has the shape of a hyphenated lower-case UUID: 36
/// characters, hyphens after the 8th, 12th, 16th and 20th hexadecimal
/// digit, and lower-case hexadecimal digits elsewhere.
pub open spec fn uuid_shaped(id: Seq<char>) -> bool {
    &&& id.len() == 36
    &&& forall|i: int|
        0 <= i < 36 ==> if i == 8 || i == 13 || i == 18 || i == 23 {
            #[trigger] id[i] == '-'
        } else {
            is_lower_hex(id[i])
        }
}

/// Whether `job` is the job of segment `i` of the video `video_id`, cut
/// from the source `key` at `boundaries` and stored under `hls_dir`.
pub open spec fn job_for(
    job: SegmentJob,
    video_id: Seq<char>,
    key: Seq<char>,
    hls_dir: Seq<char>,
    boundaries: Seq<u64>,
    i: int,
) -> bool {
    &&& job.video_id@ == video_id
    &&& job.segment_index == i
    &&& job.source_path@ == key
    &&& job.output_path@ == segment_key(hls_dir, i as nat)
    &&& job.start_time == boundaries[i]
    &&& job.duration == boundaries[i + 1] - boundaries[i]
}

/// Whether `plan` is the plan for the source `key` with file stem `stem`
/// and the schedule `boundaries`: a status record with the derived prefix
/// and durations, and one job per segment.
pub open spec fn plan_for(
    plan: VideoPlan,
    key: Seq<char>,
    stem: Seq<char>,
    boundaries: Seq<u64>,
) -> bool {
    &&& plan.status.source_path@ == key
    &&& plan.status.hls_dir@ == hls_dir_of(stem)
    &&& plan.status.total_segments == boundaries.len() - 1
    &&& plan.status.segment_durations@ == durations_of(boundaries)
    &&& plan.jobs@.len() == boundaries.len() - 1
    &&& forall|i: int|
        0 <= i < plan.jobs@.len() ==> job_for(
            #[trigger] plan.jobs@[i],
            plan.status.id@,
            key,
            hls_dir_of(stem),
            boundaries,
            i,
        )
}

/// Calls `uuid::Uuid::new_v4` and renders the result with `to_string`.
/// The value is random; the contract states only the shape that the
/// hyphenated lower-case rendering always has.
#[verifier::external_body]
fn fresh_id() -> (id: String)
    ensures
        uuid_shaped(id@),
{
    uuid::Uuid::new_v4().to_string()
}

/// Calls `std::path::Path::file_stem` on `key` taken as a path, and hands
/// the stem back as a string. The contract names the result.
#[verifier::external_body]
fn file_stem(key: &str) -> (stem: Option<String>)
    ensures
        stem is Some == path_file_stem(key@) is Some,
        stem is Some ==> stem->Some_0@ == path_file_stem(key@)->Some_0,
{
    let stem = std::path::Path::new(key).file_stem()?;
    Some(stem.to_str()?.to_string())
}

/// The job of segment `i`, with the job ID `id`.
pub fn segment_job(
    id: String,
    video_id: &str,
    video_key: &str,
    hls_dir: &str,
    boundaries: &Vec<u64>,
    i: usize,
) -> (job: SegmentJob)
    requires
        i + 1 < boundaries@.len(),
        boundaries@[i as int] <= boundaries@[i + 1],
    ensures
        job.id@ == id@,
        job_for(job, video_id@, video_key@, hls_dir@, boundaries@, i as int),
{
    let len: usize = boundaries.len();
    let mut output = String::from_str(hls_dir);
    output.append("/");
    output.append("segment_");
    push_decimal(&mut output, i as u64);
    output.append(".mp4");
    assert(output@ =~= segment_key(hls_dir@, i as nat));
    SegmentJob {
        id,
        video_id: String::from_str(video_id),
        segment_index: i,
        source_path: String::from_str(video_key),
        output_path: output,
        start_time: boundaries[i],
        duration: boundaries[i + 1] - boundaries[i],
    }
}

/// The plan for the source `video_key` with file stem `stem`, under the
/// video ID `video_id` and with `job_ids[i]` as the ID of the job of
/// segment `i`.
pub fn build_plan(
    video_key: &str,
    stem: &str,
    boundaries: &Vec<u64>,
    video_id: String,
    job_ids: Vec<String>,
) -> (plan: VideoPlan)
    requires
        non_decreasing(boundaries@),
        boundaries@.len() >= 2,
        job_ids@.len() == boundaries@.len() - 1,
    ensures
        plan.status.id@ == video_id@,
        plan_for(plan, video_key@, stem@, boundaries@),
        forall|i: int| 0 <= i < plan.jobs@.len() ==> plan.jobs@[i].id@ == job_ids@[i]@,
{
    let mut hls_dir = String::from_str("hls/");
    hls_dir.append(stem);
    let count: usize = boundaries.len() - 1;
    let mut durations: Vec<u64> = Vec::with_capacity(count);
    let mut jobs: Vec<SegmentJob> = Vec::with_capacity(count);
    let mut i: usize = 0;
    while i < count
        invariant
            count == boundaries@.len() - 1,
            job_ids@.len() == count,
            i <= count,
            non_decreasing(boundaries@),
            hls_dir@ == hls_dir_of(stem@),
            durations@.len() == i,
            jobs@.len() == i,
            forall|k: int| 0 <= k < i ==> durations@[k] == boundaries@[k + 1] - boundaries@[k],
            forall|k: int|
                0 <= k < i ==> job_for(
                    #[trigger] jobs@[k],
                    video_id@,
                    video_key@,
                    hls_dir@,
                    boundaries@,
                    k,
                ) && jobs@[k].id@ == job_ids@[k]@,
        decreases count - i,
    {
        durations.push(boundaries[i + 1] - boundaries[i]);
        let job = segment_job(
            job_ids[i].clone(),
            video_id.as_str(),
            video_key,
            hls_dir.as_str(),
            boundaries,
            i,
        );
        jobs.push(job);
        i = i + 1;
    }
    assert(durations@ =~= durations_of(boundaries@));
    let status = VideoStatus {
        id: video_id,
        source_path: String::from_str(video_key),
        hls_dir,
        total_segments: count,
        segment_durations: durations,
    };
    VideoPlan { status, jobs }
}

impl<S, Q, R> OrchestratorService<S, Q, R> {
    /// The storage handle that the service holds.
    pub closed spec fn held_storage(&self) -> S {
        self.storage
    }

    /// The queue handle that the service holds.
    pub closed spec fn held_queue(&self) -> Q {
        self.queue
    }

    /// The repository handle that the service holds.
    pub closed spec fn held_repo(&self) -> R {
        self.repo
    }

    /// An orchestrator that works through the given handles.
    pub fn new(storage: S, queue: Q, repo: R) -> (service: Self)
        ensures
            service.held_storage() == storage,
            service.held_queue() == queue,
            service.held_repo() == repo,
    {
        Self { storage, queue, repo }
    }

    /// The storage handle.
    pub fn storage(&self) -> (storage: &S)
        ensures
            *storage == self.held_storage(),
    {
        &self.storage
    }

    /// The queue handle.
    pub fn queue(&self) -> (queue: &Q)
        ensures
            *queue == self.held_queue(),
    {
        &self.queue
    }

    /// The repository handle.
    pub fn repo(&self) -> (repo: &R)
        ensures
            *repo == self.held_repo(),
    {
        &self.repo
    }

    /// What follows the probe of a new source: from the keyframe times and
    /// the total duration that the prober reported for `video_key`, derives
    /// the schedule and plans the processing. Fails with `ProbeFailure`
    /// where the keyframe times are out of order, before anything else is
    /// looked at.
    pub fn handle_new_video(&self, video_key: &str, keyframes: Vec<u64>, duration: u64) -> (result:
        Result<VideoPlan, OrchestratorError>)
        ensures
            !non_decreasing(keyframes@) <==> result == Err::<VideoPlan, OrchestratorError>(
                OrchestratorError::ProbeFailure,
            ),
            non_decreasing(keyframes@) && path_file_stem(video_key@) is None <==> result == Err::<
                VideoPlan,
                OrchestratorError,
            >(OrchestratorError::InvalidSourceKey),
            non_decreasing(keyframes@) && path_file_stem(video_key@) is Some && boundaries_of(
                keyframes@,
                duration,
            ).len() < 2 <==> result == Err::<VideoPlan, OrchestratorError>(
                OrchestratorError::NoSegments,
            ),
            non_decreasing(keyframes@) && path_file_stem(video_key@) is Some && boundaries_of(
                keyframes@,
                duration,
            ).len() >= 2 <==> result is Ok,
            result is Ok ==> {
                let plan = result->Ok_0;
                &&& plan_for(
                    plan,
                    video_key@,
                    path_file_stem(video_key@)->Some_0,
                    boundaries_of(keyframes@, duration),
                )
                &&& uuid_shaped(plan.status.id@)
                &&& forall|i: int| 0 <= i < plan.jobs@.len() ==> uuid_shaped(plan.jobs@[i].id@)
            },
    {
        if !is_non_decreasing(&keyframes) {
            return Err(OrchestratorError::ProbeFailure);
        }
        let boundaries = segment_boundaries(keyframes, duration);
        self.plan_new_video(video_key, &boundaries)
    }

    /// Plans the processing of the source `video_key`, whose schedule is
    /// `boundaries`: draws a fresh video ID and a fresh ID for each job,
    /// derives the output prefix from the key's file stem, and lays out the
    /// status record and one job per segment.
    pub fn plan_new_video(&self, video_key: &str, boundaries: &Vec<u64>) -> (result: Result<
        VideoPlan,
        OrchestratorError,
    >)
        requires
            non_decreasing(boundaries@),
        ensures
            path_file_stem(video_key@) is None <==> result == Err::<VideoPlan, OrchestratorError>(
                OrchestratorError::InvalidSourceKey,
            ),
            path_file_stem(video_key@) is Some && boundaries@.len() < 2 <==> result == Err::<
                VideoPlan,
                OrchestratorError,
            >(OrchestratorError::NoSegments),
            path_file_stem(video_key@) is Some && boundaries@.len() >= 2 <==> result is Ok,
            result is Ok ==> {
                let plan = result->Ok_0;
                &&& plan_for(plan, video_key@, path_file_stem(video_key@)->Some_0, boundaries@)
                &&& uuid_shaped(plan.status.id@)
                &&& forall|i: int| 0 <= i < plan.jobs@.len() ==> uuid_shaped(plan.jobs@[i].id@)
            },
    {
        let stem = match file_stem(video_key) {
            Some(stem) => stem,
            None => {
                return Err(OrchestratorError::InvalidSourceKey);
            },
        };
        if boundaries.len() < 2 {
            return Err(OrchestratorError::NoSegments);
        }
        let count: usize = boundaries.len() - 1;
        let video_id = fresh_id();
        let mut job_ids: Vec<String> = Vec::with_capacity(count);
        let mut i: usize = 0;
        while i < count
            invariant
                i <= count,
                job_ids@.len() == i,
                forall|k: int| 0 <= k < i ==> uuid_shaped(#[trigger] job_ids@[k]@),
            decreases count - i,
        {
            job_ids.push(fresh_id());
            i = i + 1;
        }
        let plan = build_plan(video_key, stem.as_str(), boundaries, video_id, job_ids);
        assert forall|k: int| 0 <= k < plan.jobs@.len() implies uuid_shaped(
            plan.jobs@[k].id@,
        ) by {
            assert(plan.jobs@[k].id@ == job_ids@[k]@);
        }
        Ok(plan)
    }
}

/// No two segments of a video share a storage key.
pub proof fn lemma_segment_keys_differ(hls_dir: Seq<char>, i: nat, j: nat)
    requires
        i != j,
    ensures
        segment_key(hls_dir, i) != segment_key(hls_dir, j),
{
    if segment_key(hls_dir, i) == segment_key(hls_dir, j) {
        let head = hls_dir + "/"@ + "segment_"@;
        let a = segment_key(hls_dir, i);
        let b = segment_key(hls_dir, j);
        assert(a =~= head + decimal(i) + ".mp4"@);
        assert(b =~= head + decimal(j) + ".mp4"@);
        assert(a.len() == b.len());
        assert(decimal(i).len() == decimal(j).len());
        assert(a.subrange(head.len() as int, (head.len() + decimal(i).len()) as int) =~= decimal(i));
        assert(b.subrange(head.len() as int, (head.len() + decimal(j).len()) as int) =~= decimal(j));
        lemma_decimal_injective(i, j);
    }
}

} // verus!
