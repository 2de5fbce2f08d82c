use chromascope::error::EngineError;
use chromascope::extract::{Centroiding, Peak, Scan, ScanPolarity};
use chromascope::file_gate::{file_validity, has_file_format, FileValidity};
use chromascope::parser::{MzData, RunFile, SessionState};
use chromascope::plotting_parameters::{LineColor, LineType, PlotType};
use chromascope::spectrum::{locate_by_index, PeakData};

fn scan(index: usize, start_time: u64, total: u64, matched: Vec<Peak>) -> Scan {
    Scan {
        index,
        start_time,
        polarity: ScanPolarity::Positive,
        ms_level: 1,
        total_intensity: total,
        base_peak: Peak { mz: 500 + index as u64, intensity: total / 2, index: 0 },
        centroiding: Centroiding::Matched(matched),
    }
}

fn run_a() -> Vec<Scan> {
    vec![
        scan(10, 100, 30, vec![Peak { mz: 722, intensity: 6, index: 1 }]),
        scan(20, 300, 60, vec![]),
        scan(30, 500, 90, vec![Peak { mz: 722, intensity: 8, index: 2 }, Peak { mz: 723, intensity: 10, index: 3 }]),
    ]
}

fn opened() -> MzData {
    let mut data = MzData::new();
    data.open_msfile("a.mzML", Some(RunFile { spectrum_count: 31 })).unwrap();
    data
}

#[test]
fn a_new_session_is_unopened() {
    let data = MzData::new();
    assert_eq!(data.state(), SessionState::Unopened);
    assert!(data.file_name.is_none());
    assert!(data.index.is_none());
    assert_eq!(data.msfile, Err(EngineError::ReaderUnavailable));
    let data = MzData::default();
    assert_eq!(data.state(), SessionState::Unopened);
    assert!(data.plot_data.is_none());
}

#[test]
fn opening_records_the_file() {
    let data = opened();
    assert_eq!(data.state(), SessionState::Opened);
    assert_eq!(data.file_name.as_deref(), Some("a.mzML"));
    assert_eq!(data.msfile, Ok(RunFile { spectrum_count: 31 }));
}

#[test]
fn a_failed_open_leaves_nothing_behind() {
    let mut data = opened();
    data.extract(&run_a(), PlotType::Tic, ScanPolarity::Positive, 0, 0, 0).unwrap();
    assert_eq!(data.open_msfile("b.mzML", None), Err(EngineError::OpenError));
    assert_eq!(data.state(), SessionState::Unopened);
    assert_eq!(data.msfile, Err(EngineError::OpenError));
    assert!(data.file_name.is_none());
    assert!(data.retention_time.is_none());
    assert!(data.plot_data.is_none());
}

#[test]
fn opening_another_file_leaves_nothing_of_the_first() {
    let mut data = opened();
    data.extract(&run_a(), PlotType::Bpc, ScanPolarity::Positive, 0, 0, 1).unwrap();
    data.get_mass_spectrum_by_index(10, Some(PeakData::Missing)).unwrap();
    assert_eq!(data.state(), SessionState::Extracted);
    assert!(data.index.is_some());
    assert!(data.mass_spectrum.is_some());

    data.open_msfile("b.mzML", Some(RunFile { spectrum_count: 2 })).unwrap();
    assert_eq!(data.state(), SessionState::Opened);
    assert_eq!(data.file_name.as_deref(), Some("b.mzML"));
    assert!(data.index.is_none());
    assert!(data.retention_time.is_none());
    assert!(data.intensity.is_none());
    assert!(data.mz.is_none());
    assert!(data.plot_data.is_none());
    assert!(data.current_plot_series().is_none());
    assert!(data.mass_spectrum.is_none());
    assert_eq!(data.find_closest_spectrum(300), Err(EngineError::NoIndexAvailable));
}

#[test]
fn reset_forgets_everything() {
    let mut data = opened();
    data.extract(&run_a(), PlotType::Tic, ScanPolarity::Positive, 0, 0, 0).unwrap();
    data.reset_state();
    assert_eq!(data.state(), SessionState::Unopened);
    assert!(data.file_name.is_none());
    assert!(data.retention_time.is_none());
    assert!(data.plot_data.is_none());
    assert_eq!(data.msfile, Err(EngineError::ReaderUnavailable));
}

#[test]
fn extraction_needs_an_open_file() {
    let mut data = MzData::new();
    assert_eq!(data.get_tic(&run_a(), ScanPolarity::Positive), Err(EngineError::ReaderUnavailable));
    assert_eq!(data.get_bpic(&run_a(), ScanPolarity::Positive), Err(EngineError::ReaderUnavailable));
    assert_eq!(data.get_xic(&run_a(), 722, ScanPolarity::Positive, 5), Err(EngineError::ReaderUnavailable));
    assert_eq!(
        data.extract(&run_a(), PlotType::Tic, ScanPolarity::Positive, 0, 0, 0),
        Err(EngineError::ReaderUnavailable)
    );
    assert!(data.retention_time.is_none());
    assert!(data.plot_data.is_none());
}

#[test]
fn extract_runs_the_whole_pipeline() {
    let mut data = opened();
    data.extract(&run_a(), PlotType::Tic, ScanPolarity::Positive, 0, 0, 1).unwrap();
    assert_eq!(data.retention_time, Some(vec![100, 300, 500]));
    assert_eq!(data.intensity, Some(vec![30, 60, 90]));
    assert_eq!(data.index, Some(vec![10, 20, 30]));
    assert_eq!(data.mz, Some(vec![]));
    assert_eq!(data.plot_data, Some(vec![[100, 30], [300, 60], [500, 90]]));

    data.extract(&run_a(), PlotType::Bpc, ScanPolarity::Positive, 0, 0, 0).unwrap();
    assert_eq!(data.intensity, Some(vec![15, 30, 45]));
    assert_eq!(data.mz, Some(vec![510, 520, 530]));
    assert_eq!(data.plot_data, Some(vec![[100, 15], [300, 30], [500, 45]]));

    data.extract(&run_a(), PlotType::Xic, ScanPolarity::Positive, 722, 5, 0).unwrap();
    assert_eq!(data.retention_time, Some(vec![100, 500, 500]));
    assert_eq!(data.intensity, Some(vec![6, 8, 10]));
    assert_eq!(data.index, Some(vec![1, 2, 3]));
    assert_eq!(data.mz, Some(vec![]));
    assert_eq!(data.plot_data, Some(vec![[100, 6], [500, 9]]));
    assert_eq!(data.state(), SessionState::Extracted);
}

#[test]
fn a_failed_extraction_keeps_the_last_result() {
    let mut data = opened();
    data.extract(&run_a(), PlotType::Tic, ScanPolarity::Positive, 0, 0, 0).unwrap();
    let mut broken = run_a();
    broken[1].centroiding = Centroiding::Failed;
    assert_eq!(
        data.extract(&broken, PlotType::Xic, ScanPolarity::Positive, 722, 5, 0),
        Err(EngineError::CentroidingFailed)
    );
    assert_eq!(
        data.extract(&run_a(), PlotType::Xic, ScanPolarity::Negative, 722, 5, 0),
        Err(EngineError::NoMatchingPeaks)
    );
    assert_eq!(
        data.extract(&run_a(), PlotType::Xic, ScanPolarity::Positive, 722, 0, 0),
        Err(EngineError::InvalidParameter)
    );
    assert_eq!(data.retention_time, Some(vec![100, 300, 500]));
    assert_eq!(data.intensity, Some(vec![30, 60, 90]));
    assert_eq!(data.index, Some(vec![10, 20, 30]));
    assert_eq!(data.plot_data, Some(vec![[100, 30], [300, 60], [500, 90]]));
}

#[test]
fn prepare_for_plot_without_a_chromatogram_is_empty() {
    let data = MzData::new();
    assert_eq!(data.prepare_for_plot(), Ok(vec![]));
}

#[test]
fn prepare_for_plot_refuses_columns_that_do_not_pair_up() {
    let mut data = MzData::new();
    data.retention_time = Some(vec![1, 2, 3]);
    data.intensity = Some(vec![1, 2]);
    assert_eq!(data.prepare_for_plot(), Err(EngineError::InsufficientData));
}

#[test]
fn smooth_data_hands_a_failure_back() {
    let mut data = MzData::new();
    data.plot_data = Some(vec![[1, 1]]);
    assert_eq!(data.smooth_data(Err(EngineError::InsufficientData), 2), Err(EngineError::InsufficientData));
    assert_eq!(data.plot_data, Some(vec![[1, 1]]));
}

#[test]
fn the_closest_spectrum_is_found_by_retention_time() {
    let mut data = opened();
    data.get_tic(&run_a(), ScanPolarity::Positive).unwrap();
    assert_eq!(data.find_closest_spectrum(390), Ok(20));
    assert_eq!(data.find_closest_spectrum(410), Ok(30));
    assert_eq!(data.find_closest_spectrum(0), Ok(10));
    let mut fresh = opened();
    assert_eq!(fresh.find_closest_spectrum(390), Err(EngineError::NoIndexAvailable));
    fresh.get_tic(&vec![], ScanPolarity::Positive).unwrap();
    assert_eq!(fresh.find_closest_spectrum(390), Err(EngineError::NoIndexAvailable));
}

#[test]
fn a_spectrum_is_held_as_two_columns() {
    let mut data = opened();
    let raw = PeakData::RawData { mz: vec![100, 200, 300], intensity: vec![5, 6, 7] };
    assert_eq!(data.get_mass_spectrum_by_index(3, Some(raw)), Ok(()));
    assert_eq!(data.mass_spectrum, Some((vec![100, 200, 300], vec![5, 6, 7])));

    let peaks = vec![Peak { mz: 1, intensity: 2, index: 0 }, Peak { mz: 3, intensity: 4, index: 1 }];
    assert_eq!(data.get_mass_spectrum_by_index(4, Some(PeakData::Centroid(peaks.clone()))), Ok(()));
    assert_eq!(data.mass_spectrum, Some((vec![1, 3], vec![2, 4])));
    assert_eq!(data.get_mass_spectrum_by_index(5, Some(PeakData::Deconvoluted(peaks))), Ok(()));
    assert_eq!(data.mass_spectrum, Some((vec![1, 3], vec![2, 4])));
}

#[test]
fn a_spectrum_without_peak_data_is_empty_and_no_failure() {
    let mut data = opened();
    assert_eq!(data.get_mass_spectrum_by_index(3, Some(PeakData::Missing)), Ok(()));
    assert_eq!(data.mass_spectrum, Some((vec![], vec![])));
}

#[test]
fn a_missing_spectrum_gives_an_empty_display() {
    let mut data = opened();
    data.get_mass_spectrum_by_index(3, Some(PeakData::RawData { mz: vec![1], intensity: vec![2] })).unwrap();
    assert_eq!(data.get_mass_spectrum_by_index(4, None), Err(EngineError::SpectrumMissing));
    assert_eq!(data.mass_spectrum, Some((vec![], vec![])));
    // The run file holds 31 spectra.
    let raw = PeakData::RawData { mz: vec![1], intensity: vec![2] };
    assert_eq!(data.get_mass_spectrum_by_index(31, Some(raw)), Err(EngineError::SpectrumMissing));
    assert_eq!(data.mass_spectrum, Some((vec![], vec![])));
    let mut closed = MzData::new();
    assert_eq!(closed.get_mass_spectrum_by_index(0, Some(PeakData::Missing)), Err(EngineError::ReaderUnavailable));
    assert!(closed.mass_spectrum.is_none());
}

#[test]
fn raw_columns_are_cut_to_the_shorter() {
    let raw = PeakData::RawData { mz: vec![100, 200, 300], intensity: vec![5, 6] };
    assert_eq!(locate_by_index(Some(raw)), Ok((vec![100, 200], vec![5, 6])));
    let raw = PeakData::RawData { mz: vec![100], intensity: vec![5, 6] };
    assert_eq!(locate_by_index(Some(raw)), Ok((vec![100], vec![5])));
    assert_eq!(locate_by_index(None), Err(EngineError::SpectrumMissing));
}

#[test]
fn only_paths_ending_in_the_format_are_accepted() {
    assert!(has_file_format("data.mzML"));
    assert!(has_file_format("/runs/2024/sample 01.mzML"));
    assert!(has_file_format("mzML"));
    assert!(!has_file_format("data.mzml"));
    assert!(!has_file_format("data.MZML"));
    assert!(!has_file_format("data.mzML.gz"));
    assert!(!has_file_format("data.mzXML"));
    assert!(!has_file_format("zML"));
    assert!(!has_file_format(""));
    assert!(has_file_format("données/é.mzML"));
    assert_eq!(file_validity("data.mzML"), FileValidity::Valid);
    assert_eq!(file_validity("data.mzml"), FileValidity::Invalid);
    assert_eq!(FileValidity::default(), FileValidity::Invalid);
}

#[test]
fn the_defaults_are_red_solid_and_total_ion() {
    assert_eq!(LineColor::default(), LineColor::Red);
    assert_eq!(LineType::default(), LineType::Solid);
    assert_eq!(PlotType::default(), PlotType::Tic);
    assert_eq!(ScanPolarity::default(), ScanPolarity::Unknown);
}

#[test]
fn a_request_is_checked_before_any_scan_is_read() {
    let closed = MzData::new();
    assert_eq!(closed.check_request(PlotType::Tic, 0, 0), Err(EngineError::ReaderUnavailable));
    assert_eq!(closed.check_request(PlotType::Xic, 0, 0), Err(EngineError::ReaderUnavailable));
    let mut data = opened();
    assert_eq!(data.check_request(PlotType::Tic, 0, 0), Ok(()));
    assert_eq!(data.check_request(PlotType::Bpc, 0, 0), Ok(()));
    assert_eq!(data.check_request(PlotType::Xic, 722, 5), Ok(()));
    assert_eq!(data.check_request(PlotType::Xic, 0, 5), Err(EngineError::InvalidParameter));
    assert_eq!(data.check_request(PlotType::Xic, 722, 0), Err(EngineError::InvalidParameter));
    // What is refused before reading is refused by the extraction too.
    assert_eq!(
        data.extract(&vec![], PlotType::Xic, ScanPolarity::Positive, 0, 5, 0),
        Err(EngineError::InvalidParameter)
    );
    assert_eq!(data.state(), SessionState::Opened);
}
