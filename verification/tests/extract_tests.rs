use chromascope::error::EngineError;
use chromascope::extract::{
    extract_bpc, extract_tic, extract_xic, Centroiding, Peak, Sample, Scan, ScanPolarity,
};
use chromascope::plotting_parameters::PlotType;
use chromascope::sorting::sort_by_time;

fn scan(index: usize, start_time: u64, polarity: ScanPolarity, ms_level: u8, centroiding: Centroiding) -> Scan {
    Scan {
        index,
        start_time,
        polarity,
        ms_level,
        total_intensity: 1000 + index as u64,
        base_peak: Peak { mz: 400 + index as u64, intensity: 100 + index as u64, index: 3 },
        centroiding,
    }
}

fn peak(intensity: u64, index: u32) -> Peak {
    Peak { mz: 722, intensity, index }
}

fn run() -> Vec<Scan> {
    vec![
        scan(0, 100, ScanPolarity::Positive, 1, Centroiding::Matched(vec![peak(11, 4)])),
        scan(1, 110, ScanPolarity::Negative, 1, Centroiding::Matched(vec![peak(99, 1)])),
        scan(2, 120, ScanPolarity::Positive, 2, Centroiding::Failed),
        scan(3, 130, ScanPolarity::Positive, 1, Centroiding::Matched(vec![peak(31, 2), peak(32, 9)])),
        scan(4, 140, ScanPolarity::Positive, 1, Centroiding::Matched(vec![])),
    ]
}

#[test]
fn tic_takes_the_total_of_each_scan_of_the_polarity() {
    let series = extract_tic(&run(), ScanPolarity::Positive);
    assert_eq!(series.retention_times, vec![100, 120, 130, 140]);
    assert_eq!(series.intensities, vec![1000, 1002, 1003, 1004]);
    assert_eq!(series.indices, vec![0, 2, 3, 4]);
    assert!(series.mz.is_empty());
    let negative = extract_tic(&run(), ScanPolarity::Negative);
    assert_eq!(negative.retention_times, vec![110]);
    assert_eq!(negative.intensities, vec![1001]);
    assert_eq!(negative.indices, vec![1]);
}

#[test]
fn bpc_takes_the_base_peak_of_each_scan_of_the_polarity() {
    let series = extract_bpc(&run(), ScanPolarity::Positive);
    assert_eq!(series.retention_times, vec![100, 120, 130, 140]);
    assert_eq!(series.intensities, vec![100, 102, 103, 104]);
    assert_eq!(series.indices, vec![0, 2, 3, 4]);
    assert_eq!(series.mz, vec![400, 402, 403, 404]);
}

#[test]
fn extraction_of_an_empty_run_is_empty() {
    let none: Vec<Scan> = vec![];
    let series = extract_tic(&none, ScanPolarity::Positive);
    assert!(series.retention_times.is_empty());
    assert!(series.intensities.is_empty());
    assert!(series.indices.is_empty());
    let series = extract_bpc(&none, ScanPolarity::Unknown);
    assert!(series.retention_times.is_empty());
    assert!(series.mz.is_empty());
}

#[test]
fn xic_takes_one_sample_per_matched_peak() {
    let series = extract_xic(&run(), 722, ScanPolarity::Positive, 10).unwrap();
    assert_eq!(series.retention_times, vec![100, 130, 130]);
    assert_eq!(series.intensities, vec![11, 31, 32]);
    assert_eq!(series.indices, vec![4, 2, 9]);
    assert!(series.mz.is_empty());
}

#[test]
fn xic_skips_scans_of_other_levels_and_polarities() {
    // The scan on which centroiding failed is of the second level.
    assert!(extract_xic(&run(), 722, ScanPolarity::Positive, 10).is_ok());
    let series = extract_xic(&run(), 722, ScanPolarity::Negative, 10).unwrap();
    assert_eq!(series.retention_times, vec![110]);
    assert_eq!(series.intensities, vec![99]);
}

#[test]
fn xic_without_any_match_says_so() {
    let scans = vec![
        scan(0, 100, ScanPolarity::Positive, 1, Centroiding::Matched(vec![])),
        scan(1, 110, ScanPolarity::Positive, 1, Centroiding::Matched(vec![])),
    ];
    assert_eq!(extract_xic(&scans, 9_000_000, ScanPolarity::Positive, 10), Err(EngineError::NoMatchingPeaks));
    assert_eq!(extract_xic(&run(), 722, ScanPolarity::Unknown, 10), Err(EngineError::NoMatchingPeaks));
    let none: Vec<Scan> = vec![];
    assert_eq!(extract_xic(&none, 722, ScanPolarity::Positive, 10), Err(EngineError::NoMatchingPeaks));
}

#[test]
fn xic_refuses_a_mass_or_tolerance_that_is_not_positive() {
    assert_eq!(extract_xic(&run(), 0, ScanPolarity::Positive, 10), Err(EngineError::InvalidParameter));
    assert_eq!(extract_xic(&run(), 722, ScanPolarity::Positive, 0), Err(EngineError::InvalidParameter));
}

#[test]
fn xic_fails_when_centroiding_failed_on_a_scan_that_takes_part() {
    let mut scans = run();
    scans[3].centroiding = Centroiding::Failed;
    assert_eq!(extract_xic(&scans, 722, ScanPolarity::Positive, 10), Err(EngineError::CentroidingFailed));
    // A bad parameter is found before the scans are looked at.
    assert_eq!(extract_xic(&scans, 0, ScanPolarity::Positive, 10), Err(EngineError::InvalidParameter));
}

#[test]
fn xic_fails_when_a_scan_that_takes_part_was_not_centroided() {
    let mut scans = run();
    scans[3].centroiding = Centroiding::NotAttempted;
    assert_eq!(extract_xic(&scans, 722, ScanPolarity::Positive, 10), Err(EngineError::CentroidingFailed));
    // Scans that do not take part need not be centroided.
    let mut scans = run();
    scans[1].centroiding = Centroiding::NotAttempted;
    scans[2].centroiding = Centroiding::NotAttempted;
    let series = extract_xic(&scans, 722, ScanPolarity::Positive, 10).unwrap();
    assert_eq!(series.retention_times, vec![100, 130, 130]);
}

#[test]
fn xic_orders_its_samples_by_retention_time() {
    let scans = vec![
        scan(0, 300, ScanPolarity::Positive, 1, Centroiding::Matched(vec![peak(1, 0), peak(2, 1)])),
        scan(1, 100, ScanPolarity::Positive, 1, Centroiding::Matched(vec![peak(3, 5)])),
        scan(2, 300, ScanPolarity::Positive, 1, Centroiding::Matched(vec![peak(4, 7)])),
        scan(3, 200, ScanPolarity::Positive, 1, Centroiding::Matched(vec![peak(5, 8)])),
    ];
    let series = extract_xic(&scans, 722, ScanPolarity::Positive, 10).unwrap();
    assert_eq!(series.retention_times, vec![100, 200, 300, 300, 300]);
    assert_eq!(series.intensities, vec![3, 5, 1, 2, 4]);
    assert_eq!(series.indices, vec![5, 8, 0, 1, 7]);
}

#[test]
fn scans_are_selected_by_polarity_and_for_xic_by_level() {
    let first = scan(0, 100, ScanPolarity::Positive, 1, Centroiding::NotAttempted);
    let second = scan(1, 100, ScanPolarity::Positive, 2, Centroiding::NotAttempted);
    assert!(first.is_selected(PlotType::Xic, ScanPolarity::Positive));
    assert!(!second.is_selected(PlotType::Xic, ScanPolarity::Positive));
    assert!(second.is_selected(PlotType::Tic, ScanPolarity::Positive));
    assert!(second.is_selected(PlotType::Bpc, ScanPolarity::Positive));
    assert!(!first.is_selected(PlotType::Tic, ScanPolarity::Negative));
    assert!(!first.is_selected(PlotType::Xic, ScanPolarity::Unknown));
}

fn sample(retention_time: u64, intensity: u64) -> Sample {
    Sample { retention_time, intensity, index: intensity as usize }
}

#[test]
fn sorting_is_stable() {
    let rows = vec![sample(5, 1), sample(3, 2), sample(5, 3), sample(3, 4), sample(1, 5), sample(5, 6)];
    let sorted = sort_by_time(&rows);
    assert_eq!(
        sorted,
        vec![sample(1, 5), sample(3, 2), sample(3, 4), sample(5, 1), sample(5, 3), sample(5, 6)]
    );
}

#[test]
fn sorting_leaves_ordered_samples_alone() {
    let rows = vec![sample(1, 9), sample(1, 8), sample(2, 7), sample(9, 6)];
    assert_eq!(sort_by_time(&rows), rows);
    let none: Vec<Sample> = vec![];
    assert_eq!(sort_by_time(&none), none);
}
