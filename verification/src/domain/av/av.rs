//! The segment schedule of a source: where its segments begin and end.
//!
//! Times are microseconds from the start of the source.

use vstd::prelude::*;

verus! {

/// The least gap, in microseconds, between the last keyframe and the end of
/// the source that still makes a segment of its own.
pub const TAIL_EPSILON: u64 = 100_000;

/// Why a source yields no schedule.
#[derive(Debug, Clone, Copy, PartialEq, Eq, Structural)]
pub enum AnalysisError {
    /// Fewer than two boundary points: there is nothing to cut.
    NoSegments,
}

/// Whether no time in `times` is earlier than the one before it.
pub open spec fn non_decreasing(times: Seq<u64>) -> bool {
    forall|i: int, j: int| 0 <= i <= j < times.len() ==> times[i] <= times[j]
}

/// The boundaries of the segments of a source with the given keyframes and
/// total duration. The duration closes the last segment where it lies more
/// than `TAIL_EPSILON` past the last keyframe; a source without keyframes
/// and with a positive duration is one segment from zero.
pub open spec fn boundaries_of(keyframes: Seq<u64>, duration: u64) -> Seq<u64> {
    if keyframes.len() > 0 {
        if duration as int - keyframes.last() as int > TAIL_EPSILON as int {
            keyframes.push(duration)
        } else {
            keyframes
        }
    } else if duration > 0 {
        seq![0u64, duration]
    } else {
        keyframes
    }
}

/// The lengths of the segments between consecutive boundaries.
pub open spec fn durations_of(boundaries: Seq<u64>) -> Seq<u64> {
    Seq::new(
        if boundaries.len() > 0 {
            (boundaries.len() - 1) as nat
        } else {
            0
        },
        |i: int| (boundaries[i + 1] - boundaries[i]) as u64,
    )
}

/// The sum of `durations`.
pub open spec fn total_of(durations: Seq<u64>) -> int
    decreases durations.len(),
{
    if durations.len() == 0 {
        0
    } else {
        total_of(durations.drop_last()) + durations.last() as int
    }
}

/// Ordered keyframes give ordered boundaries.
pub proof fn lemma_boundaries_keep_order(keyframes: Seq<u64>, duration: u64)
    requires
        non_decreasing(keyframes),
    ensures
        non_decreasing(boundaries_of(keyframes, duration)),
{
    let boundaries = boundaries_of(keyframes, duration);
    assert forall|i: int, j: int| 0 <= i <= j < boundaries.len() implies boundaries[i]
        <= boundaries[j] by {
        if keyframes.len() > 0 {
            if j < keyframes.len() {
                assert(keyframes[i] <= keyframes[j]);
            } else if i < keyframes.len() {
                assert(keyframes[i] <= keyframes[keyframes.len() - 1]);
            }
        }
    }
}

/// Whether `times` is in non-decreasing order.
pub fn is_non_decreasing(times: &Vec<u64>) -> (ordered: bool)
    ensures
        ordered == non_decreasing(times@),
{
    let n: usize = times.len();
    if n < 2 {
        return true;
    }
    let mut i: usize = 1;
    while i < n
        invariant
            n == times@.len(),
            1 <= i <= n,
            non_decreasing(times@.take(i as int)),
        decreases n - i,
    {
        if times[i - 1] > times[i] {
            return false;
        }
        proof {
            let shorter = times@.take(i as int);
            let longer = times@.take(i + 1);
            assert forall|a: int, b: int| 0 <= a <= b < longer.len() implies longer[a]
                <= longer[b] by {
                if b < i {
                    assert(shorter[a] <= shorter[b]);
                } else if a < i {
                    assert(shorter[a] <= shorter[i - 1]);
                }
            }
        }
        i = i + 1;
    }
    assert(times@.take(n as int) =~= times@);
    true
}

/// The segment boundaries of a source, from its keyframe times and its
/// total duration.
pub fn segment_boundaries(keyframes: Vec<u64>, duration: u64) -> (boundaries: Vec<u64>)
    ensures
        boundaries@ == boundaries_of(keyframes@, duration),
        non_decreasing(keyframes@) ==> non_decreasing(boundaries@),
{
    proof {
        if non_decreasing(keyframes@) {
            lemma_boundaries_keep_order(keyframes@, duration);
        }
    }
    let mut boundaries = keyframes;
    let n: usize = boundaries.len();
    if n > 0 {
        let last: u64 = boundaries[n - 1];
        if duration > last && duration - last > TAIL_EPSILON {
            boundaries.push(duration);
        }
    } else if duration > 0 {
        boundaries.push(0);
        boundaries.push(duration);
        assert(boundaries@ =~= seq![0u64, duration]);
    }
    boundaries
}

/// The duration of each segment between consecutive boundaries, or
/// `NoSegments` where there are fewer than two boundaries.
pub fn segment_durations(boundaries: &Vec<u64>) -> (result: Result<Vec<u64>, AnalysisError>)
    requires
        non_decreasing(boundaries@),
    ensures
        boundaries@.len() < 2 <==> result == Err::<Vec<u64>, AnalysisError>(
            AnalysisError::NoSegments,
        ),
        boundaries@.len() >= 2 ==> result is Ok && result->Ok_0@ == durations_of(boundaries@),
{
    let n: usize = boundaries.len();
    if n < 2 {
        return Err(AnalysisError::NoSegments);
    }
    let count: usize = n - 1;
    let mut durations: Vec<u64> = Vec::with_capacity(count);
    let mut i: usize = 0;
    while i < count
        invariant
            n == boundaries@.len(),
            count == n - 1,
            i <= count,
            non_decreasing(boundaries@),
            durations@.len() == i,
            forall|k: int| 0 <= k < i ==> durations@[k] == boundaries@[k + 1] - boundaries@[k],
        decreases count - i,
    {
        durations.push(boundaries[i + 1] - boundaries[i]);
        i = i + 1;
    }
    assert(durations@ =~= durations_of(boundaries@));
    Ok(durations)
}

/// The segments of an ordered schedule add up to the span from its first
/// boundary to its last.
pub proof fn lemma_durations_cover_the_span(boundaries: Seq<u64>)
    requires
        non_decreasing(boundaries),
        boundaries.len() >= 1,
    ensures
        total_of(durations_of(boundaries)) == boundaries.last() - boundaries[0],
    decreases boundaries.len(),
{
    if boundaries.len() == 1 {
        assert(durations_of(boundaries) =~= Seq::<u64>::empty());
    } else {
        let shorter = boundaries.drop_last();
        assert(non_decreasing(shorter)) by {
            assert forall|i: int, j: int| 0 <= i <= j < shorter.len() implies shorter[i]
                <= shorter[j] by {
                assert(boundaries[i] <= boundaries[j]);
            }
        }
        lemma_durations_cover_the_span(shorter);
        assert(durations_of(boundaries).drop_last() =~= durations_of(shorter));
        assert(boundaries[boundaries.len() - 2] <= boundaries[boundaries.len() - 1]);
    }
}

} // verus!
