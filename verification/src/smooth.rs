//! Centered moving-average smoothing of plot points.

use vstd::prelude::*;
use crate::prepare::points;

verus! {

/// Sum of the heights of `series[lo..hi]`.
pub open spec fn height_sum(series: Seq<(int, int)>, lo: int, hi: int) -> int
    decreases hi - lo,
{
    if hi <= lo {
        0
    } else {
        height_sum(series, lo, hi - 1) + series[hi - 1].1
    }
}

/// Whether point `i` of `len` points has `half_window` neighbours on both sides.
pub open spec fn has_full_window(len: int, half_window: int, i: int) -> bool {
    half_window <= i && i < len - half_window
}

/// Point `i` after smoothing: unchanged where the window does not fit,
/// else at the same place with the mean height, rounded down, of the
/// `2 * half_window + 1` points around it.
pub open spec fn smoothed_point(series: Seq<(int, int)>, half_window: int, i: int) -> (int, int) {
    if has_full_window(series.len() as int, half_window, i) {
        (
            series[i].0,
            height_sum(series, i - half_window, i + half_window + 1) / (2 * half_window + 1),
        )
    } else {
        series[i]
    }
}

/// A series after smoothing with the given half-window.
pub open spec fn smoothed(series: Seq<(int, int)>, half_window: int) -> Seq<(int, int)> {
    Seq::new(series.len(), |i: int| smoothed_point(series, half_window, i))
}

/// The heights of a stretch of 64-bit points sum to a bounded number.
proof fn lemma_height_sum_bound(data: Seq<[u64; 2]>, lo: int, hi: int)
    requires
        0 <= lo <= hi <= data.len(),
    ensures
        0 <= height_sum(points(data), lo, hi) <= (hi - lo) * 0xffff_ffff_ffff_ffff,
    decreases hi - lo,
{
    if lo < hi {
        lemma_height_sum_bound(data, lo, hi - 1);
        assert((hi - lo) * 0xffff_ffff_ffff_ffff == (hi - 1 - lo) * 0xffff_ffff_ffff_ffff
            + 0xffff_ffff_ffff_ffff) by (nonlinear_arith);
    }
}

/// Smoothing keeps the first and the last point whenever the half-window is
/// at least one.
pub proof fn lemma_smooth_keeps_ends(series: Seq<(int, int)>, half_window: int)
    requires
        half_window >= 1,
        series.len() >= 1,
    ensures
        smoothed(series, half_window)[0] == series[0],
        smoothed(series, half_window)[series.len() - 1] == series[series.len() - 1],
{
}

/// Smoothing keeps every point that is nearer to an end than the half-window.
pub proof fn lemma_smooth_keeps_edges(series: Seq<(int, int)>, half_window: int, i: int)
    requires
        0 <= i < series.len(),
        i < half_window || i >= series.len() - half_window,
    ensures
        smoothed(series, half_window)[i] == series[i],
{
}

/// A window that does not fit into the series leaves the series unchanged.
pub proof fn lemma_smooth_wide_window(series: Seq<(int, int)>, half_window: int)
    requires
        series.len() <= 2 * half_window,
    ensures
        smoothed(series, half_window) == series,
{
    assert(smoothed(series, half_window) =~= series);
}

/// A half-window of zero leaves the series unchanged.
pub proof fn lemma_smooth_zero_window(series: Seq<(int, int)>)
    ensures
        smoothed(series, 0) == series,
{
    assert forall|i: int| 0 <= i < series.len() implies smoothed_point(series, 0, i)
        == series[i] by {
        assert(height_sum(series, i, i) == 0);
        assert(height_sum(series, i, i + 1) == series[i].1);
        let total = height_sum(series, i - 0, i + 0 + 1);
        let count: int = 2 * 0int + 1;
        assert(total / count == total) by (nonlinear_arith)
            requires
                count == 1,
        ;
        assert(has_full_window(series.len() as int, 0, i));
        assert(smoothed_point(series, 0, i) == (series[i].0, series[i].1));
    }
    assert(smoothed(series, 0) =~= series);
}

/// Smoothing never moves a point sideways and never changes how many there are.
pub proof fn lemma_smooth_keeps_places(series: Seq<(int, int)>, half_window: int, i: int)
    requires
        0 <= i < series.len(),
    ensures
        smoothed(series, half_window).len() == series.len(),
        smoothed(series, half_window)[i].0 == series[i].0,
{
}

/// Smooths plot points with a centered moving average over
/// `2 * window_size + 1` points. Points nearer to an end than `window_size`
/// are kept as they are; a window larger than the series changes nothing.
pub fn smooth(data: &Vec<[u64; 2]>, window_size: u8) -> (smoothed_data: Vec<[u64; 2]>)
    ensures
        points(smoothed_data@) == smoothed(points(data@), window_size as int),
{
    let n: usize = data.len();
    let w: usize = window_size as usize;
    let mut smoothed_data: Vec<[u64; 2]> = Vec::new();
    let mut i: usize = 0;
    while i < n
        invariant
            n == data@.len(),
            w == window_size,
            0 <= i <= n,
            smoothed_data@.len() == i,
            forall|k: int|
                0 <= k < i ==> #[trigger] points(smoothed_data@)[k] == smoothed_point(
                    points(data@),
                    w as int,
                    k,
                ),
        decreases n - i,
    {
        let ghost before = smoothed_data@;
        if i < w || i >= n - w {
            let kept: [u64; 2] = data[i];
            smoothed_data.push(kept);
            assert(points(smoothed_data@)[i as int] == points(data@)[i as int]);
        } else {
            let lo: usize = i - w;
            let hi: usize = i + w + 1;
            let mut total: u128 = 0;
            let mut j: usize = lo;
            while j < hi
                invariant
                    n == data@.len(),
                    0 <= lo <= j <= hi <= n,
                    hi - lo <= 511,
                    total == height_sum(points(data@), lo as int, j as int),
                decreases hi - j,
            {
                proof {
                    lemma_height_sum_bound(data@, lo as int, j as int);
                    assert((j - lo) * 0xffff_ffff_ffff_ffff + 0xffff_ffff_ffff_ffff
                        < 0x1_0000_0000_0000_0000_0000_0000_0000_0000) by (nonlinear_arith)
                        requires
                            0 <= j - lo <= 511,
                    ;
                    assert(points(data@)[j as int].1 == data@[j as int][1]);
                }
                total = total + data[j][1] as u128;
                j = j + 1;
            }
            let count: u128 = (2 * w + 1) as u128;
            proof {
                lemma_height_sum_bound(data@, lo as int, hi as int);
                let s = height_sum(points(data@), lo as int, hi as int);
                let c = count as int;
                assert(0 <= s / c <= 0xffff_ffff_ffff_ffff) by (nonlinear_arith)
                    requires
                        c > 0,
                        c == hi - lo,
                        0 <= s <= (hi - lo) * 0xffff_ffff_ffff_ffff,
                ;
            }
            let average: u64 = (total / count) as u64;
            smoothed_data.push([data[i][0], average]);
            assert(points(data@)[i as int].0 == data@[i as int][0]);
            assert(points(smoothed_data@)[i as int] == smoothed_point(
                points(data@),
                w as int,
                i as int,
            ));
        }
        assert forall|k: int| 0 <= k < i + 1 implies #[trigger] points(smoothed_data@)[k]
            == smoothed_point(points(data@), w as int, k) by {
            if k < i {
                assert(points(before)[k] == smoothed_point(points(data@), w as int, k));
                assert(smoothed_data@[k] == before[k]);
            }
        }
        i = i + 1;
    }
    assert(points(smoothed_data@) =~= smoothed(points(data@), window_size as int));
    smoothed_data
}

} // verus!
