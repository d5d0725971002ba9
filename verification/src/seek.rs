//! Where to seek when sampling frames across a video: positions are given
//! as fractions of the duration (`num / den`), which the caller multiplies
//! by the probed duration.

use vstd::prelude::*;

verus! {

/// A position in a video as the fraction `num / den` of its duration.
#[derive(Clone, Copy, PartialEq, Eq, Structural, Debug)]
pub struct SeekFraction {
    pub num: u32,
    pub den: u32,
}

/// Frames sampled at most for semantic indexing.
pub const MAX_SAMPLE_FRAMES: usize = 5;

/// Frames taken at most for a timeline sprite.
pub const MAX_TIMELINE_FRAMES: usize = 40;

pub open spec fn clamp(v: int, lo: int, hi: int) -> int {
    if v < lo {
        lo
    } else if v > hi {
        hi
    } else {
        v
    }
}

/// Evenly spread sample points: `i / count` for `i < count`, with `count`
/// the request clamped to `1..=5`; a video too short to sample (at most
/// half a second, or of unknown length) is sampled at its start only.
pub fn sample_seek_points(max_frames: usize, long_enough: bool) -> (points: Vec<SeekFraction>)
    ensures
        points@.len() >= 1,
        forall|i: int| 0 <= i < points@.len() ==> #[trigger] points@[i].num < points@[i].den,
        !long_enough ==> points@ == seq![(SeekFraction { num: 0, den: 1 })],
        long_enough ==> {
            let count = clamp(max_frames as int, 1, MAX_SAMPLE_FRAMES as int);
            &&& points@.len() == count
            &&& forall|i: int| 0 <= i < count ==> #[trigger] points@[i] == (SeekFraction { num: i as u32, den: count as u32 })
        },
{
    let mut points: Vec<SeekFraction> = Vec::new();
    if !long_enough {
        points.push(SeekFraction { num: 0, den: 1 });
        return points;
    }
    let count: u32 = if max_frames < 1 {
        1
    } else if max_frames > MAX_SAMPLE_FRAMES {
        MAX_SAMPLE_FRAMES as u32
    } else {
        max_frames as u32
    };
    let mut i: u32 = 0;
    while i < count
        invariant
            i <= count,
            count == clamp(max_frames as int, 1, MAX_SAMPLE_FRAMES as int),
            points@.len() == i,
            forall|j: int| 0 <= j < i ==> #[trigger] points@[j] == (SeekFraction { num: j as u32, den: count }),
        decreases count - i,
    {
        points.push(SeekFraction { num: i, den: count });
        i = i + 1;
    }
    points
}

/// Timeline points from the first to the last moment: `i / (n - 1)` for
/// `i < n`, with `n` the request capped at 40 (a single point is the
/// start); a video too short to sample gives its start only. No point is
/// planned when none is asked for, so there are never more than `count`.
pub fn timeline_seek_points(count: usize, long_enough: bool) -> (points: Vec<SeekFraction>)
    ensures
        points@.len() <= count,
        points@.len() <= MAX_TIMELINE_FRAMES,
        forall|i: int| 0 <= i < points@.len() ==> #[trigger] points@[i].num <= points@[i].den && points@[i].den > 0,
        count == 0 ==> points@.len() == 0,
        count > 0 && !long_enough ==> points@ == seq![(SeekFraction { num: 0, den: 1 })],
        count > 0 && long_enough ==> {
            let n = clamp(count as int, 1, MAX_TIMELINE_FRAMES as int);
            &&& points@.len() == n
            &&& n == 1 ==> points@[0] == (SeekFraction { num: 0, den: 1 })
            &&& n > 1 ==> forall|i: int| 0 <= i < n ==> #[trigger] points@[i] == (SeekFraction { num: i as u32, den: (n - 1) as u32 })
        },
{
    let mut points: Vec<SeekFraction> = Vec::new();
    if count == 0 {
        return points;
    }
    let n: u32 = if count > MAX_TIMELINE_FRAMES {
        MAX_TIMELINE_FRAMES as u32
    } else {
        count as u32
    };
    if !long_enough || n == 1 {
        points.push(SeekFraction { num: 0, den: 1 });
        return points;
    }
    let mut i: u32 = 0;
    while i < n
        invariant
            1 < n,
            i <= n,
            n == clamp(count as int, 1, MAX_TIMELINE_FRAMES as int),
            points@.len() == i,
            forall|j: int| 0 <= j < i ==> #[trigger] points@[j] == (SeekFraction { num: j as u32, den: (n - 1) as u32 }),
        decreases n - i,
    {
        points.push(SeekFraction { num: i, den: n - 1 });
        i = i + 1;
    }
    points
}

} // verus!
