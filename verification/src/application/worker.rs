//! The worker: what it uploads for a job, what it does after the completion
//! count comes back, and what the finalizer publishes.

use crate::application::orchestrator::segment_key;
use crate::domain::av::segments::{
    fragment_start,
    generate_init_segment,
    init_bytes,
    moof_tag,
    strip_init_header,
    SegmentError,
};
use crate::domain::hls::{build_playlist, playlist_text};
use crate::domain::jobs::{Job, SegmentJob, VideoStatus};
use crate::text::{decimal, push_decimal};
use vstd::prelude::*;
use vstd::string::*;

verus! {

/// A worker with the handles it works through.
pub struct WorkerService<S, Q, R> {
    storage: S,
    queue: Q,
    repo: R,
}

/// What came back from one attempt to take a job from the queue.
pub enum DequeueOutcome {
    /// A job was delivered.
    Delivered(Job),
    /// The wait ended without a job.
    TimedOut,
    /// The queue reported an error.
    Failed,
}

/// What a worker does next in its loop.
pub enum WorkerStep {
    /// Process the job, then ask the queue again.
    Process(Job),
    /// Ask the queue again at once.
    Poll,
    /// Wait this many seconds, then ask the queue again.
    Backoff(u64),
}

/// What a worker does once its increment of the completion counter has
/// come back.
#[derive(Debug, Clone, Copy, PartialEq, Eq, Structural)]
pub enum CompletionAction {
    /// Segments are still outstanding: go back to the queue.
    Continue,
    /// This was the last segment: publish the playlist and delete the record.
    Finalize,
    /// The count is past the total: a redelivered job after the video was
    /// finalized. Nothing more is done.
    Stale,
}

/// One object to write to storage.
pub struct Upload {
    pub key: String,
    pub bytes: Vec<u8>,
}

/// What the finalizer publishes for a video.
pub struct Finalization {
    pub init_key: String,
    pub init: Vec<u8>,
    pub playlist_key: String,
    pub playlist: String,
}

/// Seconds a worker waits after a queue error.
pub const QUEUE_ERROR_BACKOFF_SECONDS: u64 = 1;

/// The storage key of the initialization segment under `hls_dir`.
pub open spec fn init_key(hls_dir: Seq<char>) -> Seq<char> {
    hls_dir + "/init.mp4"@
}

/// The storage key of the playlist under `hls_dir`.
pub open spec fn playlist_key(hls_dir: Seq<char>) -> Seq<char> {
    hls_dir + "/playlist.m3u8"@
}

/// The name of the local scratch file for segment `index` of `video_id`.
pub open spec fn segment_temp(video_id: Seq<char>, index: nat) -> Seq<char> {
    "seg_"@ + video_id + "_"@ + decimal(index) + ".mp4"@
}

/// The step that follows `outcome` in the worker loop.
pub open spec fn step_after(outcome: DequeueOutcome) -> WorkerStep {
    match outcome {
        DequeueOutcome::Delivered(job) => WorkerStep::Process(job),
        DequeueOutcome::TimedOut => WorkerStep::Poll,
        DequeueOutcome::Failed => WorkerStep::Backoff(QUEUE_ERROR_BACKOFF_SECONDS),
    }
}

/// The action that follows the completion count `completed` for a video of
/// `total` segments.
pub open spec fn action_after(completed: usize, total: usize) -> CompletionAction {
    if completed == total {
        CompletionAction::Finalize
    } else if completed < total {
        CompletionAction::Continue
    } else {
        CompletionAction::Stale
    }
}

/// What the worker loop does after one attempt to take a job.
pub fn next_step(outcome: DequeueOutcome) -> (step: WorkerStep)
    ensures
        step == step_after(outcome),
{
    match outcome {
        DequeueOutcome::Delivered(job) => WorkerStep::Process(job),
        DequeueOutcome::TimedOut => WorkerStep::Poll,
        DequeueOutcome::Failed => WorkerStep::Backoff(QUEUE_ERROR_BACKOFF_SECONDS),
    }
}

/// What a worker does after the repository returned `completed` as the new
/// completion count of a video with `total` segments.
pub fn check_video_completion(completed: usize, total: usize) -> (action: CompletionAction)
    ensures
        action == action_after(completed, total),
        action == CompletionAction::Finalize <==> completed == total,
{
    if completed == total {
        CompletionAction::Finalize
    } else if completed < total {
        CompletionAction::Continue
    } else {
        CompletionAction::Stale
    }
}

/// The name of the scratch file that a worker transcodes a segment into.
/// It holds the video ID and the segment index, so that workers sharing a
/// disk do not collide.
pub fn segment_temp_name(video_id: &str, segment_index: usize) -> (name: String)
    ensures
        name@ == segment_temp(video_id@, segment_index as nat),
{
    let mut name = String::from_str("seg_");
    name.append(video_id);
    name.append("_");
    push_decimal(&mut name, segment_index as u64);
    name.append(".mp4");
    assert(name@ =~= segment_temp(video_id@, segment_index as nat));
    name
}

/// What a worker uploads for `job` once the encoder has written
/// `transcoded`: the media fragment, under the job's output key. Fails
/// where the encoder's output holds no `moof` box.
pub fn process_segment(job: &SegmentJob, transcoded: &[u8]) -> (result: Result<
    Upload,
    SegmentError,
>)
    ensures
        match fragment_start(transcoded@, 0) {
            Some(start) => result is Ok && result->Ok_0.key@ == job.output_path@
                && result->Ok_0.bytes@ == transcoded@.subrange(start, transcoded@.len() as int),
            None => result is Err && result->Err_0 == SegmentError::MalformedFragment,
        },
        result is Ok ==> result->Ok_0.bytes@.len() >= 8 && result->Ok_0.bytes@.subrange(4, 8)
            == moof_tag(),
{
    match strip_init_header(transcoded) {
        Ok(bytes) => Ok(Upload { key: job.output_path.clone(), bytes }),
        Err(e) => Err(e),
    }
}

/// What the finalizer publishes for the video of `status`, given the
/// encoder's one-frame output `encoded` for the source: the initialization
/// segment and the playlist that refers to it as `init.mp4`.
pub fn generate_playlist(status: &VideoStatus, encoded: &[u8]) -> (out: Finalization)
    ensures
        out.init_key@ == init_key(status.hls_dir@),
        out.init@ == init_bytes(encoded@, 0),
        out.playlist_key@ == playlist_key(status.hls_dir@),
        out.playlist@ == playlist_text(status.segment_durations@, Some("init.mp4"@)),
{
    let mut init_key = status.hls_dir.clone();
    init_key.append("/init.mp4");
    let mut playlist_key = status.hls_dir.clone();
    playlist_key.append("/playlist.m3u8");
    Finalization {
        init_key,
        init: generate_init_segment(encoded),
        playlist_key,
        playlist: build_playlist(&status.segment_durations, Some("init.mp4")),
    }
}

impl<S, Q, R> WorkerService<S, Q, R> {
    /// The storage handle that the service holds.
    pub closed spec fn held_storage(&self) -> S {
        self.storage
    }

    /// The queue handle that the service holds.
    pub closed spec fn held_queue(&self) -> Q {
        self.queue
    }

    /// The repository handle that the service holds.
    pub closed spec fn held_repo(&self) -> R {
        self.repo
    }

    /// A worker that works through the given handles.
    pub fn new(storage: S, queue: Q, repo: R) -> (service: Self)
        ensures
            service.held_storage() == storage,
            service.held_queue() == queue,
            service.held_repo() == repo,
    {
        Self { storage, queue, repo }
    }

    /// The storage handle.
    pub fn storage(&self) -> (storage: &S)
        ensures
            *storage == self.held_storage(),
    {
        &self.storage
    }

    /// The queue handle.
    pub fn queue(&self) -> (queue: &Q)
        ensures
            *queue == self.held_queue(),
    {
        &self.queue
    }

    /// The repository handle.
    pub fn repo(&self) -> (repo: &R)
        ensures
            *repo == self.held_repo(),
    {
        &self.repo
    }
}

/// The store after a worker has uploaded `bytes` under `key`: an upload
/// replaces whatever was stored under the key.
pub open spec fn stored(store: Map<Seq<char>, Seq<u8>>, key: Seq<char>, bytes: Seq<u8>) -> Map<
    Seq<char>,
    Seq<u8>,
> {
    store.insert(key, bytes)
}

/// The store after the fragments of segments `0..fragments.len()` have been
/// uploaded under `hls_dir`.
pub open spec fn after_segments(
    store: Map<Seq<char>, Seq<u8>>,
    hls_dir: Seq<char>,
    fragments: Seq<Seq<u8>>,
) -> Map<Seq<char>, Seq<u8>>
    decreases fragments.len(),
{
    if fragments.len() == 0 {
        store
    } else {
        stored(
            after_segments(store, hls_dir, fragments.drop_last()),
            segment_key(hls_dir, (fragments.len() - 1) as nat),
            fragments.last(),
        )
    }
}

/// The store after all segments were uploaded and the finalizer has
/// published the initialization segment and the playlist.
pub open spec fn after_pipeline(
    store: Map<Seq<char>, Seq<u8>>,
    hls_dir: Seq<char>,
    fragments: Seq<Seq<u8>>,
    init: Seq<u8>,
    playlist: Seq<u8>,
) -> Map<Seq<char>, Seq<u8>> {
    stored(
        stored(after_segments(store, hls_dir, fragments), init_key(hls_dir), init),
        playlist_key(hls_dir),
        playlist,
    )
}

/// Whether `key` is the key of one of the first `n` segments under `hls_dir`.
pub open spec fn is_segment_key(hls_dir: Seq<char>, n: nat, key: Seq<char>) -> bool {
    exists|i: nat| i < n && key == #[trigger] segment_key(hls_dir, i)
}

/// The keys of all artifacts of a video of `n` segments under `hls_dir`.
pub open spec fn artifact_keys(hls_dir: Seq<char>, n: nat) -> Set<Seq<char>> {
    Set::new(
        |key: Seq<char>|
            key == init_key(hls_dir) || key == playlist_key(hls_dir) || is_segment_key(
                hls_dir,
                n,
                key,
            ),
    )
}

proof fn lemma_segment_key_step(hls_dir: Seq<char>, n: nat, key: Seq<char>)
    requires
        n > 0,
    ensures
        is_segment_key(hls_dir, n, key) <==> (key == segment_key(hls_dir, (n - 1) as nat)
            || is_segment_key(hls_dir, (n - 1) as nat, key)),
{
    let last = (n - 1) as nat;
    if is_segment_key(hls_dir, n, key) {
        let i = choose|i: nat| i < n && key == #[trigger] segment_key(hls_dir, i);
        if i != last {
            assert(i < last && key == segment_key(hls_dir, i));
        }
    }
    if key == segment_key(hls_dir, last) {
        assert(last < n && key == segment_key(hls_dir, last));
    }
    if is_segment_key(hls_dir, last, key) {
        let i = choose|i: nat| i < last && key == #[trigger] segment_key(hls_dir, i);
        assert(i < n && key == segment_key(hls_dir, i));
    }
}

proof fn lemma_segment_keys(
    store: Map<Seq<char>, Seq<u8>>,
    hls_dir: Seq<char>,
    fragments: Seq<Seq<u8>>,
    key: Seq<char>,
)
    ensures
        after_segments(store, hls_dir, fragments).dom().contains(key) <==> (store.dom().contains(
            key,
        ) || is_segment_key(hls_dir, fragments.len(), key)),
    decreases fragments.len(),
{
    if fragments.len() > 0 {
        lemma_segment_keys(store, hls_dir, fragments.drop_last(), key);
        lemma_segment_key_step(hls_dir, fragments.len(), key);
    }
}

/// Once every segment of a video is uploaded and the finalizer has run on
/// an empty store, the stored keys are the initialization segment, the
/// playlist and one key per segment, and no other.
pub proof fn lemma_pipeline_stores_each_artifact(
    hls_dir: Seq<char>,
    fragments: Seq<Seq<u8>>,
    init: Seq<u8>,
    playlist: Seq<u8>,
)
    ensures
        after_pipeline(Map::empty(), hls_dir, fragments, init, playlist).dom() == artifact_keys(
            hls_dir,
            fragments.len(),
        ),
{
    let done = after_pipeline(Map::empty(), hls_dir, fragments, init, playlist);
    assert forall|key: Seq<char>| done.dom().contains(key) <==> artifact_keys(
        hls_dir,
        fragments.len(),
    ).contains(key) by {
        lemma_segment_keys(Map::empty(), hls_dir, fragments, key);
    }
    assert(done.dom() =~= artifact_keys(hls_dir, fragments.len()));
}

proof fn lemma_artifact_keys_differ(hls_dir: Seq<char>, i: nat)
    ensures
        segment_key(hls_dir, i) != init_key(hls_dir),
        segment_key(hls_dir, i) != playlist_key(hls_dir),
        init_key(hls_dir) != playlist_key(hls_dir),
{
    reveal_strlit("/");
    reveal_strlit("segment_");
    reveal_strlit("/init.mp4");
    reveal_strlit("/playlist.m3u8");
    let at = (hls_dir.len() + 1) as int;
    assert(segment_key(hls_dir, i)[at] == 's');
    assert(init_key(hls_dir)[at] == 'i');
    assert(playlist_key(hls_dir)[at] == 'p');
}

/// Running a worker again on a delivered job, and the finalizer again on a
/// finished video, leaves the same set of stored objects: the keys are
/// those of the first run, the playlist and the initialization segment
/// are byte for byte the same, the segment of the job is the fragment of
/// the later run and begins with `moof` as every fragment does, and no
/// other object changes.
pub proof fn lemma_rerun_keeps_the_artifacts(
    hls_dir: Seq<char>,
    fragments: Seq<Seq<u8>>,
    init: Seq<u8>,
    playlist: Seq<u8>,
    i: nat,
    again: Seq<u8>,
)
    requires
        i < fragments.len(),
        again.len() >= 8,
        again.subrange(4, 8) == moof_tag(),
    ensures
        ({
            let done = after_pipeline(Map::empty(), hls_dir, fragments, init, playlist);
            let rerun = stored(
                stored(
                    stored(done, segment_key(hls_dir, i), again),
                    init_key(hls_dir),
                    init,
                ),
                playlist_key(hls_dir),
                playlist,
            );
            &&& rerun.dom() == done.dom()
            &&& rerun[playlist_key(hls_dir)] == done[playlist_key(hls_dir)]
            &&& rerun[init_key(hls_dir)] == done[init_key(hls_dir)]
            &&& rerun[segment_key(hls_dir, i)] == again
            &&& rerun[segment_key(hls_dir, i)].subrange(4, 8) == moof_tag()
            &&& forall|key: Seq<char>|
                done.dom().contains(key) && key != segment_key(hls_dir, i) ==> rerun[key]
                    == done[key]
        }),
{
    let done = after_pipeline(Map::empty(), hls_dir, fragments, init, playlist);
    lemma_pipeline_stores_each_artifact(hls_dir, fragments, init, playlist);
    lemma_artifact_keys_differ(hls_dir, i);
    assert(is_segment_key(hls_dir, fragments.len(), segment_key(hls_dir, i)));
    assert(done.dom().contains(segment_key(hls_dir, i)));
    let rerun = stored(
        stored(stored(done, segment_key(hls_dir, i), again), init_key(hls_dir), init),
        playlist_key(hls_dir),
        playlist,
    );
    assert(rerun.dom() =~= done.dom());
}

/// The completion counts of a video are strictly increasing, and exactly
/// one of them finalizes: where `counts` are the values returned by
/// successive increments of a counter that started at zero, each is one
/// more than the one before, and the action is `Finalize` at the
/// increment that brings the count to `total` and at no other.
pub proof fn lemma_counter_reaches_total_once(counts: Seq<usize>, total: usize)
    requires
        counts.len() > 0 ==> counts[0] == 1,
        forall|i: int| 1 <= i < counts.len() ==> #[trigger] counts[i] == counts[i - 1] + 1,
    ensures
        forall|i: int| 0 <= i < counts.len() ==> counts[i] == i + 1,
        forall|i: int, j: int| 0 <= i < j < counts.len() ==> counts[i] < counts[j],
        forall|i: int|
            0 <= i < counts.len() ==> (action_after(counts[i], total) == CompletionAction::Finalize
                <==> i + 1 == total),
    decreases counts.len(),
{
    if counts.len() > 1 {
        let shorter = counts.drop_last();
        assert forall|i: int| 1 <= i < shorter.len() implies #[trigger] shorter[i] == shorter[i
            - 1] + 1 by {
            assert(counts[i] == counts[i - 1] + 1);
        }
        lemma_counter_reaches_total_once(shorter, total);
        let last = counts.len() - 1;
        assert(shorter[last - 1] == last);
        assert(counts[last] == counts[last - 1] + 1);
        assert forall|i: int| 0 <= i < counts.len() implies counts[i] == i + 1 by {
            if i < last {
                assert(shorter[i] == counts[i]);
            }
        }
    }
}

} // verus!
