use chromascope::smooth::smooth;

#[test]
fn smooth_averages_only_where_the_window_fits() {
    let data: Vec<[u64; 2]> = vec![[1, 1], [2, 2], [3, 3], [4, 4], [5, 5]];
    // With a half-window of one the points at 1, 2 and 3 have a full
    // window; on a straight line each mean is the point's own height.
    assert_eq!(smooth(&data, 1), vec![[1, 1], [2, 2], [3, 3], [4, 4], [5, 5]]);
    // With a half-window of two only the middle point has one.
    let bent: Vec<[u64; 2]> = vec![[1, 10], [2, 0], [3, 0], [4, 0], [5, 0]];
    assert_eq!(smooth(&bent, 2), vec![[1, 10], [2, 0], [3, 2], [4, 0], [5, 0]]);
}

#[test]
fn smooth_takes_the_mean_of_the_window() {
    let data: Vec<[u64; 2]> = vec![[10, 0], [20, 3], [30, 6], [40, 30], [50, 0]];
    assert_eq!(smooth(&data, 1), vec![[10, 0], [20, 3], [30, 13], [40, 12], [50, 0]]);
}

#[test]
fn smooth_rounds_the_mean_down() {
    let data: Vec<[u64; 2]> = vec![[1, 1], [2, 2], [3, 2]];
    assert_eq!(smooth(&data, 1), vec![[1, 1], [2, 1], [3, 2]]);
}

#[test]
fn smooth_keeps_the_ends() {
    let data: Vec<[u64; 2]> = vec![[1, 9], [2, 0], [3, 0], [4, 0], [5, 0], [6, 0], [7, 5]];
    for w in 1u8..=11 {
        let out = smooth(&data, w);
        assert_eq!(out.len(), data.len());
        assert_eq!(out[0], data[0]);
        assert_eq!(out[6], data[6]);
    }
}

#[test]
fn smooth_with_zero_window_changes_nothing() {
    let data: Vec<[u64; 2]> = vec![[1, 9], [2, 4], [3, 7]];
    assert_eq!(smooth(&data, 0), data);
}

#[test]
fn smooth_with_a_window_wider_than_the_series_changes_nothing() {
    let data: Vec<[u64; 2]> = vec![[1, 9], [2, 4], [3, 7], [4, 1]];
    assert_eq!(smooth(&data, 2), data);
    assert_eq!(smooth(&data, 3), data);
    assert_eq!(smooth(&data, 255), data);
    let one: Vec<[u64; 2]> = vec![[1, 9]];
    assert_eq!(smooth(&one, 1), one);
}

#[test]
fn smooth_of_nothing_is_nothing() {
    let data: Vec<[u64; 2]> = vec![];
    assert_eq!(smooth(&data, 3), data);
}

#[test]
fn smooth_does_not_overflow_on_large_heights() {
    let top = u64::MAX;
    let data: Vec<[u64; 2]> = vec![[1, top], [2, top], [3, top]];
    assert_eq!(smooth(&data, 1), data);
}
