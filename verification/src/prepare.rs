//! Collapsing samples that share a retention time into one averaged plot point.

use vstd::prelude::*;

verus! {

/// The plot points held by `data`, as pairs `(x, y)`.
pub open spec fn points(data: Seq<[u64; 2]>) -> Seq<(int, int)> {
    Seq::new(data.len(), |i: int| (data[i][0] as int, data[i][1] as int))
}

/// The samples of a chromatogram as pairs `(retention time, intensity)`.
pub open spec fn samples(times: Seq<u64>, intensities: Seq<u64>) -> Seq<(int, int)> {
    Seq::new(times.len(), |i: int| (times[i] as int, intensities[i] as int))
}

/// Sum of `values[lo..hi]`.
pub open spec fn sum_range(values: Seq<u64>, lo: int, hi: int) -> int
    decreases hi - lo,
{
    if hi <= lo {
        0
    } else {
        sum_range(values, lo, hi - 1) + values[hi - 1]
    }
}

/// Arithmetic mean of `values[lo..hi]`, rounded down.
pub open spec fn mean_range(values: Seq<u64>, lo: int, hi: int) -> int {
    sum_range(values, lo, hi) / (hi - lo)
}

/// Where the run of equal retention times that ends just before `end` begins.
pub open spec fn run_start(times: Seq<u64>, end: int) -> int
    decreases end,
{
    if end <= 1 {
        0
    } else if times[end - 2] == times[end - 1] {
        run_start(times, end - 1)
    } else {
        end - 1
    }
}

/// The plot points of the first `n` samples: one point per maximal run of
/// consecutive samples with the same retention time, at that time, with the
/// mean of the run's intensities.
pub open spec fn prepared_prefix(times: Seq<u64>, intensities: Seq<u64>, n: int) -> Seq<(int, int)>
    decreases n,
{
    if n <= 0 {
        Seq::empty()
    } else {
        let s = run_start(times, n);
        proof {
            lemma_run_start_bounds(times, n);
        }
        prepared_prefix(times, intensities, s).push(
            (times[s] as int, mean_range(intensities, s, n)),
        )
    }
}

/// The plot points of a whole chromatogram.
pub open spec fn prepared(times: Seq<u64>, intensities: Seq<u64>) -> Seq<(int, int)> {
    prepared_prefix(times, intensities, times.len() as int)
}

/// A run that ends before `end` begins before `end` and not before the first sample.
pub proof fn lemma_run_start_bounds(times: Seq<u64>, end: int)
    requires
        end >= 1,
    ensures
        0 <= run_start(times, end) < end,
    decreases end,
{
    if end > 1 && times[end - 2] == times[end - 1] {
        lemma_run_start_bounds(times, end - 1);
    }
}

/// A stretch of equal retention times that cannot be extended to the left is
/// the run that ends at its end.
proof fn lemma_run_start_is(times: Seq<u64>, start: int, end: int)
    requires
        0 <= start < end <= times.len(),
        forall|k: int| start <= k < end ==> times[k] == times[start],
        start == 0 || times[start - 1] != times[start],
    ensures
        run_start(times, end) == start,
    decreases end,
{
    if end > 1 && start < end - 1 {
        lemma_run_start_is(times, start, end - 1);
    }
}

/// The sum of a stretch of 64-bit values is bounded by its length.
proof fn lemma_sum_range_bound(values: Seq<u64>, lo: int, hi: int)
    requires
        lo <= hi,
    ensures
        0 <= sum_range(values, lo, hi) <= (hi - lo) * 0xffff_ffff_ffff_ffff,
    decreases hi - lo,
{
    if lo < hi {
        lemma_sum_range_bound(values, lo, hi - 1);
        assert((hi - lo) * 0xffff_ffff_ffff_ffff == (hi - 1 - lo) * 0xffff_ffff_ffff_ffff
            + 0xffff_ffff_ffff_ffff) by (nonlinear_arith);
    }
}

/// A mean of 64-bit values is a 64-bit value.
proof fn lemma_mean_fits(values: Seq<u64>, lo: int, hi: int)
    requires
        lo < hi,
    ensures
        0 <= mean_range(values, lo, hi) <= 0xffff_ffff_ffff_ffff,
{
    lemma_sum_range_bound(values, lo, hi);
    let s = sum_range(values, lo, hi);
    let c = hi - lo;
    assert(0 <= s / c <= 0xffff_ffff_ffff_ffff) by (nonlinear_arith)
        requires
            c > 0,
            0 <= s <= c * 0xffff_ffff_ffff_ffff,
    ;
}

/// The points of a prefix are never more than its samples, and none are
/// made from nothing.
pub proof fn lemma_prepared_prefix_len(times: Seq<u64>, intensities: Seq<u64>, n: int)
    requires
        0 <= n <= times.len(),
    ensures
        prepared_prefix(times, intensities, n).len() <= n,
        n > 0 ==> prepared_prefix(times, intensities, n).len() > 0,
    decreases n,
{
    if n > 0 {
        lemma_run_start_bounds(times, n);
        lemma_prepared_prefix_len(times, intensities, run_start(times, n));
    }
}

/// Where no sample has the retention time of the one before it, each prefix
/// of the samples is its own set of plot points.
proof fn lemma_prepared_prefix_of_changing_times(times: Seq<u64>, intensities: Seq<u64>, n: int)
    requires
        times.len() == intensities.len(),
        0 <= n <= times.len(),
        forall|i: int| 0 < i < times.len() ==> times[i - 1] != #[trigger] times[i],
    ensures
        prepared_prefix(times, intensities, n) == samples(times, intensities).take(n),
    decreases n,
{
    if n > 0 {
        lemma_prepared_prefix_of_changing_times(times, intensities, n - 1);
        assert(run_start(times, n) == n - 1);
        assert(sum_range(intensities, n - 1, n) == intensities[n - 1]) by {
            assert(sum_range(intensities, n - 1, n - 1) == 0);
        }
        let v = sum_range(intensities, n - 1, n);
        let d = n - (n - 1);
        assert(v / d == v) by (nonlinear_arith)
            requires
                d == 1,
        ;
        assert(samples(times, intensities).take(n) =~= samples(times, intensities).take(n - 1).push(
            (times[n - 1] as int, intensities[n - 1] as int),
        ));
    } else {
        assert(prepared_prefix(times, intensities, n) =~= samples(times, intensities).take(n));
    }
}

/// Preparing leaves a chromatogram unchanged when no sample has the
/// retention time of the one before it.
pub proof fn lemma_prepare_changing_times(times: Seq<u64>, intensities: Seq<u64>)
    requires
        times.len() == intensities.len(),
        forall|i: int| 0 < i < times.len() ==> times[i - 1] != #[trigger] times[i],
    ensures
        prepared(times, intensities) == samples(times, intensities),
{
    lemma_prepared_prefix_of_changing_times(times, intensities, times.len() as int);
    assert(samples(times, intensities).take(times.len() as int) =~= samples(times, intensities));
}

/// Preparing leaves a chromatogram unchanged when its retention times are
/// all distinct.
pub proof fn lemma_prepare_distinct_times(times: Seq<u64>, intensities: Seq<u64>)
    requires
        times.len() == intensities.len(),
        forall|i: int, j: int| 0 <= i < j < times.len() ==> times[i] != times[j],
    ensures
        prepared(times, intensities) == samples(times, intensities),
{
    lemma_prepare_changing_times(times, intensities);
}

/// In the points of a prefix, the last point stands at the retention time of
/// the prefix's last sample, and no point stands at the time of the point
/// before it.
proof fn lemma_prepared_prefix_changes(times: Seq<u64>, intensities: Seq<u64>, n: int)
    requires
        0 < n <= times.len(),
    ensures
        prepared_prefix(times, intensities, n).last().0 == times[n - 1],
        forall|k: int|
            0 < k < prepared_prefix(times, intensities, n).len() ==> prepared_prefix(
                times,
                intensities,
                n,
            )[k - 1].0 != #[trigger] prepared_prefix(times, intensities, n)[k].0,
    decreases n,
{
    let s = run_start(times, n);
    lemma_run_start_bounds(times, n);
    lemma_run_is_constant(times, n);
    let before = prepared_prefix(times, intensities, s);
    let all = prepared_prefix(times, intensities, n);
    assert(all == before.push((times[s] as int, mean_range(intensities, s, n))));
    assert(times[s] == times[n - 1]);
    if s > 0 {
        lemma_prepared_prefix_changes(times, intensities, s);
        lemma_prepared_prefix_len(times, intensities, s);
    }
    assert forall|k: int| 0 < k < all.len() implies all[k - 1].0 != #[trigger] all[k].0 by {
        if k < before.len() {
            assert(all[k] == before[k]);
            assert(all[k - 1] == before[k - 1]);
        } else {
            assert(all[k - 1] == before.last());
        }
    }
}

/// The run that ends before `end` holds one retention time, and the sample
/// before it, if there is one, has another.
proof fn lemma_run_is_constant(times: Seq<u64>, end: int)
    requires
        0 < end <= times.len(),
    ensures
        forall|k: int| run_start(times, end) <= k < end ==> #[trigger] times[k] == times[end - 1],
        run_start(times, end) > 0 ==> times[run_start(times, end) - 1] != times[end - 1],
    decreases end,
{
    if end > 1 && times[end - 2] == times[end - 1] {
        lemma_run_is_constant(times, end - 1);
    }
}

/// Every plot point of a prepared chromatogram stands at a retention time
/// other than that of the point before it.
pub proof fn lemma_prepared_times_change(times: Seq<u64>, intensities: Seq<u64>)
    ensures
        forall|k: int|
            0 < k < prepared(times, intensities).len() ==> prepared(times, intensities)[k - 1].0
                != #[trigger] prepared(times, intensities)[k].0,
{
    if times.len() > 0 {
        lemma_prepared_prefix_changes(times, intensities, times.len() as int);
    }
}

/// Preparing is idempotent: the points of a prepared chromatogram, taken as
/// samples again, prepare to themselves.
pub proof fn lemma_prepare_idempotent(
    times: Seq<u64>,
    intensities: Seq<u64>,
    times2: Seq<u64>,
    intensities2: Seq<u64>,
)
    requires
        samples(times2, intensities2) == prepared(times, intensities),
        times2.len() == intensities2.len(),
    ensures
        prepared(times2, intensities2) == prepared(times, intensities),
{
    lemma_prepared_times_change(times, intensities);
    let p = prepared(times, intensities);
    assert forall|i: int| 0 < i < times2.len() implies times2[i - 1] != #[trigger] times2[i] by {
        assert(samples(times2, intensities2)[i - 1].0 == times2[i - 1]);
        assert(samples(times2, intensities2)[i].0 == times2[i]);
        assert(p[i - 1].0 != p[i].0);
    }
    lemma_prepare_changing_times(times2, intensities2);
}

/// Where the retention times never decrease, the plot points stand at
/// strictly increasing times.
pub proof fn lemma_prepared_strictly_increasing(times: Seq<u64>, intensities: Seq<u64>)
    requires
        forall|i: int, j: int| 0 <= i <= j < times.len() ==> times[i] <= times[j],
    ensures
        forall|a: int, b: int|
            0 <= a < b < prepared(times, intensities).len() ==> prepared(times, intensities)[a].0
                < prepared(times, intensities)[b].0,
{
    lemma_prepared_prefix_increasing(times, intensities, times.len() as int);
}

proof fn lemma_prepared_prefix_increasing(times: Seq<u64>, intensities: Seq<u64>, n: int)
    requires
        0 <= n <= times.len(),
        forall|i: int, j: int| 0 <= i <= j < times.len() ==> times[i] <= times[j],
    ensures
        forall|a: int, b: int|
            0 <= a < b < prepared_prefix(times, intensities, n).len() ==> prepared_prefix(
                times,
                intensities,
                n,
            )[a].0 < prepared_prefix(times, intensities, n)[b].0,
        n > 0 ==> prepared_prefix(times, intensities, n).last().0 == times[n - 1],
    decreases n,
{
    if n > 0 {
        let s = run_start(times, n);
        lemma_run_start_bounds(times, n);
        lemma_run_is_constant(times, n);
        lemma_prepared_prefix_increasing(times, intensities, s);
        if s > 0 {
            lemma_prepared_prefix_len(times, intensities, s);
            assert(times[s - 1] <= times[s]);
        }
    }
}

/// Collapses samples into plot points: consecutive samples with exactly the
/// same retention time become one point, at that time, whose height is the
/// mean of their intensities, rounded down. Empty input gives no points.
pub fn prepare(retention_times: &Vec<u64>, intensities: &Vec<u64>) -> (data: Vec<[u64; 2]>)
    requires
        retention_times@.len() == intensities@.len(),
    ensures
        points(data@) == prepared(retention_times@, intensities@),
{
    let n: usize = retention_times.len();
    let mut data: Vec<[u64; 2]> = Vec::new();
    if n == 0 {
        assert(points(data@) =~= prepared(retention_times@, intensities@));
        return data;
    }
    let mut start: usize = 0;
    let mut total: u128 = intensities[0] as u128;
    let mut i: usize = 1;
    assert(points(data@) =~= prepared_prefix(retention_times@, intensities@, 0));
    assert(sum_range(intensities@, 0, 1) == intensities@[0]) by {
        assert(sum_range(intensities@, 0, 0) == 0);
    }
    while i < n
        invariant
            n == retention_times@.len(),
            n == intensities@.len(),
            0 <= start < i <= n,
            forall|k: int| start <= k < i ==> retention_times@[k] == retention_times@[start as int],
            start == 0 || retention_times@[start - 1] != retention_times@[start as int],
            points(data@) == prepared_prefix(retention_times@, intensities@, start as int),
            total == sum_range(intensities@, start as int, i as int),
        decreases n - i,
    {
        if retention_times[i] != retention_times[start] {
            proof {
                lemma_run_start_is(retention_times@, start as int, i as int);
                lemma_mean_fits(intensities@, start as int, i as int);
            }
            let count: u128 = (i - start) as u128;
            let mean: u64 = (total / count) as u64;
            let ghost before = data@;
            data.push([retention_times[start], mean]);
            assert(points(data@) =~= points(before).push(
                (retention_times@[start as int] as int, mean as int),
            ));
            start = i;
            total = intensities[i] as u128;
            assert(sum_range(intensities@, i as int, i + 1) == intensities@[i as int]) by {
                assert(sum_range(intensities@, i as int, i as int) == 0);
            }
        } else {
            proof {
                lemma_sum_range_bound(intensities@, start as int, i as int);
                assert((i - start) * 0xffff_ffff_ffff_ffff + 0xffff_ffff_ffff_ffff
                    < 0x1_0000_0000_0000_0000_0000_0000_0000_0000) by (nonlinear_arith)
                    requires
                        0 <= i - start <= 0xffff_ffff_ffff_ffff,
                ;
            }
            total = total + intensities[i] as u128;
        }
        i = i + 1;
    }
    proof {
        lemma_run_start_is(retention_times@, start as int, n as int);
        lemma_mean_fits(intensities@, start as int, n as int);
    }
    let count: u128 = (n - start) as u128;
    let mean: u64 = (total / count) as u64;
    let ghost before = data@;
    data.push([retention_times[start], mean]);
    assert(points(data@) =~= points(before).push(
        (retention_times@[start as int] as int, mean as int),
    ));
    data
}

} // verus!
