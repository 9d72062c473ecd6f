//! The state repository: one record per video in flight, made of the
//! status descriptor and the count of completed segments.

use crate::domain::jobs::VideoStatus;
use vstd::prelude::*;
use vstd::string::*;

verus! {

/// What the repository holds for one video.
pub struct StatusRecord {
    pub status: VideoStatus,
    /// How many segment completions were counted so far.
    pub completed: usize,
}

/// An in-process state repository.
pub struct VideoStateStore {
    records: Vec<StatusRecord>,
}

/// Whether no two of `records` belong to the same video.
pub open spec fn distinct_ids(records: Seq<StatusRecord>) -> bool {
    forall|i: int, j: int|
        0 <= i < records.len() && 0 <= j < records.len() && i != j ==> records[i].status.id@
            != records[j].status.id@
}

/// Whether one of `records` belongs to the video `id`.
pub open spec fn has_record(records: Seq<StatusRecord>, id: Seq<char>) -> bool {
    exists|i: int| 0 <= i < records.len() && #[trigger] records[i].status.id@ == id
}

/// The record of the video `id` among `records`.
pub open spec fn record_of(records: Seq<StatusRecord>, id: Seq<char>) -> StatusRecord {
    records[choose|i: int| 0 <= i < records.len() && #[trigger] records[i].status.id@ == id]
}

/// The records as a map from video ID to record.
pub open spec fn as_map(records: Seq<StatusRecord>) -> Map<Seq<char>, StatusRecord> {
    Map::new(|id: Seq<char>| has_record(records, id), |id: Seq<char>| record_of(records, id))
}

proof fn lemma_record_at(records: Seq<StatusRecord>, i: int)
    requires
        distinct_ids(records),
        0 <= i < records.len(),
    ensures
        has_record(records, records[i].status.id@),
        record_of(records, records[i].status.id@) == records[i],
{
    let id = records[i].status.id@;
    assert(records[i].status.id@ == id);
    let j = choose|j: int| 0 <= j < records.len() && #[trigger] records[j].status.id@ == id;
    assert(j == i);
}

impl VideoStateStore {
    /// The records held.
    pub closed spec fn records(&self) -> Seq<StatusRecord> {
        self.records@
    }

    /// Each video has at most one record.
    pub open spec fn well_formed(&self) -> bool {
        distinct_ids(self.records())
    }

    /// An empty repository.
    pub fn new() -> (store: Self)
        ensures
            store.well_formed(),
            store@ == Map::<Seq<char>, StatusRecord>::empty(),
    {
        let store = VideoStateStore { records: Vec::new() };
        assert(store@ =~= Map::<Seq<char>, StatusRecord>::empty());
        store
    }

    /// The index of the record of `video_id`.
    fn find(&self, video_id: &str) -> (found: Option<usize>)
        ensures
            found is Some ==> found->Some_0 < self.records().len() && self.records()[found->Some_0 as int].status.id@
                == video_id@,
            found is None ==> !has_record(self.records(), video_id@),
    {
        let wanted = String::from_str(video_id);
        let n: usize = self.records.len();
        let mut i: usize = 0;
        while i < n
            invariant
                n == self.records@.len(),
                i <= n,
                wanted@ == video_id@,
                forall|k: int| 0 <= k < i ==> self.records@[k].status.id@ != video_id@,
            decreases n - i,
        {
            if self.records[i].status.id == wanted {
                return Some(i);
            }
            i = i + 1;
        }
        None
    }

    /// Stores `status` with a completion count of zero, in place of any
    /// record of the same video.
    pub fn save_video_status(&mut self, status: VideoStatus)
        requires
            old(self).well_formed(),
        ensures
            final(self).well_formed(),
            final(self)@ == old(self)@.insert(status.id@, StatusRecord { status, completed: 0 }),
    {
        let ghost id = status.id@;
        let ghost before = self.records@;
        let record = StatusRecord { status, completed: 0 };
        match self.find(record.status.id.as_str()) {
            Some(i) => {
                self.records.set(i, record);
                proof {
                    let after = self.records@;
                    assert forall|a: int, b: int|
                        0 <= a < after.len() && 0 <= b < after.len() && a != b implies after[a].status.id@
                        != after[b].status.id@ by {
                        assert(before[a].status.id@ == after[a].status.id@);
                        assert(before[b].status.id@ == after[b].status.id@);
                    }
                    lemma_record_at(after, i as int);
                    assert forall|key: Seq<char>| key != id implies has_record(after, key)
                        == has_record(before, key) && (has_record(before, key) ==> record_of(
                        after,
                        key,
                    ) == record_of(before, key)) by {
                        if has_record(before, key) {
                            let k = choose|k: int|
                                0 <= k < before.len() && #[trigger] before[k].status.id@ == key;
                            assert(after[k] == before[k]);
                            lemma_record_at(after, k);
                            lemma_record_at(before, k);
                        }
                        if has_record(after, key) {
                            let k = choose|k: int|
                                0 <= k < after.len() && #[trigger] after[k].status.id@ == key;
                            assert(after[k] == before[k]);
                            assert(before[k].status.id@ == key);
                        }
                    }
                    assert(self@ =~= old(self)@.insert(id, record));
                }
            },
            None => {
                self.records.push(record);
                proof {
                    let after = self.records@;
                    let last = before.len() as int;
                    assert forall|a: int, b: int|
                        0 <= a < after.len() && 0 <= b < after.len() && a != b implies after[a].status.id@
                        != after[b].status.id@ by {
                        if a < last {
                            assert(before[a].status.id@ == after[a].status.id@);
                        }
                        if b < last {
                            assert(before[b].status.id@ == after[b].status.id@);
                        }
                    }
                    lemma_record_at(after, last);
                    assert forall|key: Seq<char>| key != id implies has_record(after, key)
                        == has_record(before, key) && (has_record(before, key) ==> record_of(
                        after,
                        key,
                    ) == record_of(before, key)) by {
                        if has_record(before, key) {
                            let k = choose|k: int|
                                0 <= k < before.len() && #[trigger] before[k].status.id@ == key;
                            assert(after[k] == before[k]);
                            lemma_record_at(after, k);
                            lemma_record_at(before, k);
                        }
                        if has_record(after, key) {
                            let k = choose|k: int|
                                0 <= k < after.len() && #[trigger] after[k].status.id@ == key;
                            assert(after[k] == before[k]);
                            assert(before[k].status.id@ == key);
                        }
                    }
                    assert(self@ =~= old(self)@.insert(id, record));
                }
            },
        }
    }

    /// The status of `video_id`, if it has a record.
    pub fn get_video_status(&self, video_id: &str) -> (status: Option<&VideoStatus>)
        requires
            self.well_formed(),
        ensures
            status is Some <==> self@.dom().contains(video_id@),
            status is Some ==> *status->Some_0 == self@[video_id@].status,
    {
        match self.find(video_id) {
            Some(i) => {
                proof {
                    lemma_record_at(self.records@, i as int);
                }
                Some(&self.records[i].status)
            },
            None => None,
        }
    }

    /// The total number of segments of `video_id`, zero where it has no
    /// record.
    pub fn get_total_segments(&self, video_id: &str) -> (total: usize)
        requires
            self.well_formed(),
        ensures
            total == if self@.dom().contains(video_id@) {
                self@[video_id@].status.total_segments
            } else {
                0usize
            },
    {
        match self.get_video_status(video_id) {
            Some(status) => status.total_segments,
            None => 0,
        }
    }

    /// Counts one more completed segment of `video_id` and returns the new
    /// count. Nothing is counted, and `None` returned, where the video has
    /// no record or its count has reached `usize::MAX`.
    pub fn mark_segment_complete(&mut self, video_id: &str) -> (count: Option<usize>)
        requires
            old(self).well_formed(),
        ensures
            final(self).well_formed(),
            count is Some <==> old(self)@.dom().contains(video_id@) && old(
                self,
            )@[video_id@].completed < usize::MAX,
            count is Some ==> count->Some_0 == old(self)@[video_id@].completed + 1 && final(self)@
                == old(self)@.insert(
                video_id@,
                StatusRecord {
                    status: old(self)@[video_id@].status,
                    completed: count->Some_0,
                },
            ),
            count is None ==> final(self)@ == old(self)@,
    {
        let ghost before = self.records@;
        match self.find(video_id) {
            Some(i) => {
                proof {
                    lemma_record_at(before, i as int);
                }
                let completed: usize = self.records[i].completed;
                if completed == usize::MAX {
                    return None;
                }
                let mut taken: Vec<StatusRecord> = Vec::new();
                core::mem::swap(&mut self.records, &mut taken);
                let old_record = taken.remove(i);
                let record = StatusRecord { status: old_record.status, completed: completed + 1 };
                taken.insert(i, record);
                self.records = taken;
                proof {
                    let after = self.records@;
                    assert(after =~= before.update(i as int, record));
                    assert forall|a: int, b: int|
                        0 <= a < after.len() && 0 <= b < after.len() && a != b implies after[a].status.id@
                        != after[b].status.id@ by {
                        assert(before[a].status.id@ == after[a].status.id@);
                        assert(before[b].status.id@ == after[b].status.id@);
                    }
                    lemma_record_at(after, i as int);
                    assert forall|key: Seq<char>| key != video_id@ implies has_record(after, key)
                        == has_record(before, key) && (has_record(before, key) ==> record_of(
                        after,
                        key,
                    ) == record_of(before, key)) by {
                        if has_record(before, key) {
                            let k = choose|k: int|
                                0 <= k < before.len() && #[trigger] before[k].status.id@ == key;
                            assert(after[k] == before[k]);
                            lemma_record_at(after, k);
                            lemma_record_at(before, k);
                        }
                        if has_record(after, key) {
                            let k = choose|k: int|
                                0 <= k < after.len() && #[trigger] after[k].status.id@ == key;
                            assert(after[k] == before[k]);
                            assert(before[k].status.id@ == key);
                        }
                    }
                    assert(self@ =~= old(self)@.insert(video_id@, record));
                }
                Some(completed + 1)
            },
            None => None,
        }
    }

    /// Deletes the record of `video_id`, if it has one.
    pub fn cleanup_video(&mut self, video_id: &str)
        requires
            old(self).well_formed(),
        ensures
            final(self).well_formed(),
            final(self)@ == old(self)@.remove(video_id@),
    {
        let ghost before = self.records@;
        match self.find(video_id) {
            Some(i) => {
                self.records.remove(i);
                proof {
                    let after = self.records@;
                    assert forall|a: int, b: int|
                        0 <= a < after.len() && 0 <= b < after.len() && a != b implies after[a].status.id@
                        != after[b].status.id@ by {
                        let a0 = if a < i { a } else { a + 1 };
                        let b0 = if b < i { b } else { b + 1 };
                        assert(after[a] == before[a0]);
                        assert(after[b] == before[b0]);
                    }
                    assert(!has_record(after, video_id@)) by {
                        if has_record(after, video_id@) {
                            let k = choose|k: int|
                                0 <= k < after.len() && #[trigger] after[k].status.id@ == video_id@;
                            let k0 = if k < i { k } else { k + 1 };
                            assert(after[k] == before[k0]);
                            assert(before[k0].status.id@ == before[i as int].status.id@);
                        }
                    }
                    assert forall|key: Seq<char>| key != video_id@ implies has_record(after, key)
                        == has_record(before, key) && (has_record(before, key) ==> record_of(
                        after,
                        key,
                    ) == record_of(before, key)) by {
                        if has_record(before, key) {
                            let k = choose|k: int|
                                0 <= k < before.len() && #[trigger] before[k].status.id@ == key;
                            let k1 = if k < i { k } else { k - 1 };
                            assert(after[k1] == before[k]);
                            lemma_record_at(after, k1);
                            lemma_record_at(before, k);
                        }
                        if has_record(after, key) {
                            let k = choose|k: int|
                                0 <= k < after.len() && #[trigger] after[k].status.id@ == key;
                            let k0 = if k < i { k } else { k + 1 };
                            assert(after[k] == before[k0]);
                            assert(before[k0].status.id@ == key);
                        }
                    }
                    assert(self@ =~= old(self)@.remove(video_id@));
                }
            },
            None => {
                assert(self@ =~= old(self)@.remove(video_id@));
            },
        }
    }
}

impl View for VideoStateStore {
    type V = Map<Seq<char>, StatusRecord>;

    open spec fn view(&self) -> Map<Seq<char>, StatusRecord> {
        as_map(self.records())
    }
}

} // verus!
