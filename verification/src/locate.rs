//! Finding the sample nearest to a retention time.

use vstd::prelude::*;
use crate::error::EngineError;

verus! {

/// Whether the retention times never decrease.
pub open spec fn non_decreasing(times: Seq<u64>) -> bool {
    forall|i: int, j: int| 0 <= i <= j < times.len() ==> times[i] <= times[j]
}

/// How far apart two retention times are.
pub open spec fn distance(a: u64, b: u64) -> int {
    if a <= b {
        b - a
    } else {
        a - b
    }
}

/// Position of the first sample at or after `from` that is not earlier than
/// `time`; the number of samples if there is none.
pub open spec fn first_not_before(times: Seq<u64>, time: u64, from: int) -> int
    decreases times.len() - from,
{
    if from >= times.len() || times[from] >= time {
        from
    } else {
        first_not_before(times, time, from + 1)
    }
}

/// Position of the sample nearest to `time` among non-decreasing retention
/// times: of the two samples around `time`, the nearer one, and the earlier
/// one where both are equally near.
pub open spec fn closest_position(times: Seq<u64>, time: u64) -> int {
    let p = first_not_before(times, time, 0);
    if p == 0 {
        0
    } else if p == times.len() {
        times.len() - 1
    } else if time - times[p - 1] <= times[p] - time {
        p - 1
    } else {
        p
    }
}

/// A position with only earlier samples before it and a sample not earlier
/// at it is the first such position.
proof fn lemma_first_not_before_is(times: Seq<u64>, time: u64, from: int, p: int)
    requires
        0 <= from <= p <= times.len(),
        forall|i: int| from <= i < p ==> #[trigger] times[i] < time,
        p == times.len() || times[p] >= time,
    ensures
        first_not_before(times, time, from) == p,
    decreases p - from,
{
    if from < p {
        lemma_first_not_before_is(times, time, from + 1, p);
    }
}

/// What the first position not earlier than `time` divides.
pub proof fn lemma_first_not_before_divides(times: Seq<u64>, time: u64, from: int)
    requires
        0 <= from <= times.len(),
    ensures
        from <= first_not_before(times, time, from) <= times.len(),
        forall|i: int|
            from <= i < first_not_before(times, time, from) ==> #[trigger] times[i] < time,
        first_not_before(times, time, from) < times.len() ==> times[first_not_before(
            times,
            time,
            from,
        )] >= time,
    decreases times.len() - from,
{
    if from < times.len() && times[from] < time {
        lemma_first_not_before_divides(times, time, from + 1);
    }
}

/// Among non-decreasing retention times no sample is nearer to `time` than
/// the closest one, and every earlier sample is farther or at the same time.
pub proof fn lemma_closest_is_nearest(times: Seq<u64>, time: u64, j: int)
    requires
        non_decreasing(times),
        0 <= j < times.len(),
    ensures
        0 <= closest_position(times, time) < times.len(),
        distance(times[closest_position(times, time)], time) <= distance(times[j], time),
        j < closest_position(times, time) ==> distance(times[closest_position(times, time)], time)
            < distance(times[j], time) || times[j] == times[closest_position(times, time)],
{
    lemma_first_not_before_divides(times, time, 0);
    let p = first_not_before(times, time, 0);
    let c = closest_position(times, time);
    if p > 0 {
        assert(times[p - 1] < time);
    }
    if j < p {
        assert(times[j] < time);
        if p > 0 {
            assert(times[j] <= times[p - 1]);
        }
    } else {
        assert(times[p] <= times[j]);
    }
}

/// A retention time that occurs among non-decreasing ones is found where it
/// first occurs.
pub proof fn lemma_closest_finds_exact(times: Seq<u64>, time: u64, j: int)
    requires
        non_decreasing(times),
        0 <= j < times.len(),
        times[j] == time,
    ensures
        0 <= closest_position(times, time) <= j,
        times[closest_position(times, time)] == time,
{
    lemma_first_not_before_divides(times, time, 0);
    let p = first_not_before(times, time, 0);
    if p > j {
        assert(times[j] < time);
    }
    assert(times[p] <= times[j]);
    if p > 0 {
        assert(times[p - 1] < time);
    }
}

/// The position of the sample nearest to `clicked_rt`, by binary search.
/// There is none among no samples. Of two samples equally near, the earlier
/// one is taken.
pub fn nearest_position(retention_times: &Vec<u64>, clicked_rt: u64) -> (found: Option<usize>)
    ensures
        found is None <==> retention_times@.len() == 0,
        found matches Some(position) ==> position < retention_times@.len(),
        found matches Some(position) ==> non_decreasing(retention_times@) ==> position
            == closest_position(retention_times@, clicked_rt),
{
    let n: usize = retention_times.len();
    if n == 0 {
        return None;
    }
    let mut lo: usize = 0;
    let mut hi: usize = n;
    while lo < hi
        invariant
            n == retention_times@.len(),
            0 <= lo <= hi <= n,
            non_decreasing(retention_times@) ==> forall|i: int|
                0 <= i < lo ==> #[trigger] retention_times@[i] < clicked_rt,
            non_decreasing(retention_times@) ==> forall|i: int|
                hi <= i < n ==> #[trigger] retention_times@[i] >= clicked_rt,
        decreases hi - lo,
    {
        let mid: usize = lo + (hi - lo) / 2;
        if retention_times[mid] < clicked_rt {
            lo = mid + 1;
        } else {
            hi = mid;
        }
    }
    proof {
        if non_decreasing(retention_times@) {
            lemma_first_not_before_is(retention_times@, clicked_rt, 0, lo as int);
        }
    }
    if lo == 0 {
        Some(0)
    } else if lo == n {
        Some(n - 1)
    } else {
        let previous: u64 = retention_times[lo - 1];
        let next: u64 = retention_times[lo];
        if previous < clicked_rt && clicked_rt <= next {
            if clicked_rt - previous <= next - clicked_rt {
                Some(lo - 1)
            } else {
                Some(lo)
            }
        } else {
            Some(lo)
        }
    }
}

/// The spectrum index paired with the retention time nearest to
/// `clicked_rt`. There is none to give while the index is empty or its two
/// columns differ in length.
pub fn locate_by_retention_time(
    retention_times: &Vec<u64>,
    indices: &Vec<usize>,
    clicked_rt: u64,
) -> (found: Result<usize, EngineError>)
    ensures
        found is Err <==> retention_times@.len() == 0 || retention_times@.len() != indices@.len(),
        found is Err ==> found == Err::<usize, EngineError>(EngineError::NoIndexAvailable),
        found matches Ok(index) ==> exists|position: int|
            0 <= position < indices@.len() && #[trigger] indices@[position] == index,
        found matches Ok(index) ==> non_decreasing(retention_times@) ==> index
            == indices@[closest_position(retention_times@, clicked_rt)],
{
    if retention_times.len() != indices.len() {
        return Err(EngineError::NoIndexAvailable);
    }
    match nearest_position(retention_times, clicked_rt) {
        Some(position) => Ok(indices[position]),
        None => Err(EngineError::NoIndexAvailable),
    }
}

} // verus!
