//! The state kept for one run file: what was extracted from it last, the
//! plot made of that, and the spectrum looked up last.

use vstd::prelude::*;
use crate::error::EngineError;
use crate::extract::{
    base_peak_mzs, collected, columns_to_rows, extract_bpc, extract_tic, extract_xic, in_time_order,
    lemma_collected_in_time_order, lemma_ordered_rows_have_non_decreasing_times,
    lemma_xic_outcome_is_ordered, xic_outcome,
    ChromatogramSeries, Sample, Scan, ScanPolarity,
};
use crate::locate::{closest_position, locate_by_retention_time, non_decreasing};
use crate::plotting_parameters::PlotType;
use crate::prepare::{points, prepare, prepared};
use crate::smooth::{smooth, smoothed};
use crate::spectrum::{intensity_column, locate_by_index, mz_column, PeakData};

verus! {

/// What is known of an open run file.
#[derive(Clone, Copy, Debug, PartialEq, Eq)]
pub struct RunFile {
    /// How many spectra the file holds.
    pub spectrum_count: usize,
}

/// How far work on a run file has come.
#[derive(Clone, Copy, Debug, PartialEq, Eq, Structural)]
pub enum SessionState {
    /// No run file is open.
    Unopened,
    /// A run file is open and no chromatogram has been extracted from it.
    Opened,
    /// A chromatogram has been extracted, so retention times can be looked up.
    Extracted,
}

/// The data of one run file.
#[derive(Debug)]
pub struct MzData {
    /// The path of the open run file.
    pub file_name: Option<String>,
    /// The index column of the chromatogram extracted last.
    pub index: Option<Vec<usize>>,
    /// The retention time column of the chromatogram extracted last.
    pub retention_time: Option<Vec<u64>>,
    /// The intensity column of the chromatogram extracted last.
    pub intensity: Option<Vec<u64>>,
    /// The m/z column of the chromatogram extracted last.
    pub mz: Option<Vec<u64>>,
    /// The open run file, or why there is none.
    pub msfile: Result<RunFile, EngineError>,
    /// The smoothed plot points made last.
    pub plot_data: Option<Vec<[u64; 2]>>,
    /// The m/z and intensity columns of the spectrum looked up last.
    pub mass_spectrum: Option<(Vec<u64>, Vec<u64>)>,
}

/// What extracting a chromatogram of the given kind comes to: its samples,
/// or why there are none.
pub open spec fn extraction_outcome(
    plot_type: PlotType,
    scans: Seq<Scan>,
    polarity: ScanPolarity,
    mass: u64,
    mass_tolerance: u64,
) -> Result<Seq<Sample>, EngineError> {
    match plot_type {
        PlotType::Xic => xic_outcome(scans, mass, polarity, mass_tolerance),
        _ => Ok(collected(plot_type, scans, polarity, scans.len() as int)),
    }
}

/// The m/z column that goes with a chromatogram of the given kind.
pub open spec fn extraction_mz(plot_type: PlotType, scans: Seq<Scan>, polarity: ScanPolarity) -> Seq<
    u64,
> {
    match plot_type {
        PlotType::Bpc => base_peak_mzs(scans, polarity, scans.len() as int),
        _ => Seq::empty(),
    }
}

impl MzData {
    /// Nothing derived from a run file is held: no chromatogram, no plot, no spectrum.
    pub open spec fn holds_nothing(&self) -> bool {
        &&& self.index is None
        &&& self.retention_time is None
        &&& self.intensity is None
        &&& self.mz is None
        &&& self.plot_data is None
        &&& self.mass_spectrum is None
    }

    /// The chromatogram held is made of exactly these samples and this m/z column.
    pub open spec fn holds_series(&self, rows: Seq<Sample>, mz: Seq<u64>) -> bool {
        &&& self.retention_time is Some
        &&& self.intensity is Some
        &&& self.index is Some
        &&& self.mz is Some
        &&& self.retention_time->0@.len() == rows.len()
        &&& self.intensity->0@.len() == rows.len()
        &&& self.index->0@.len() == rows.len()
        &&& columns_to_rows(self.retention_time->0@, self.intensity->0@, self.index->0@) == rows
        &&& self.mz->0@ == mz
    }

    /// The chromatogram columns are those of `other`.
    pub open spec fn same_series(&self, other: &MzData) -> bool {
        &&& self.index == other.index
        &&& self.retention_time == other.retention_time
        &&& self.intensity == other.intensity
        &&& self.mz == other.mz
    }

    /// Whatever is not a chromatogram column is as in `other`.
    pub open spec fn same_beside_series(&self, other: &MzData) -> bool {
        &&& self.file_name == other.file_name
        &&& self.msfile == other.msfile
        &&& self.plot_data == other.plot_data
        &&& self.mass_spectrum == other.mass_spectrum
    }

    /// The m/z column of the spectrum held; empty while none is held.
    pub open spec fn spectrum_mz(&self) -> Seq<u64> {
        match self.mass_spectrum {
            Some(columns) => columns.0@,
            None => Seq::empty(),
        }
    }

    /// The intensity column of the spectrum held; empty while none is held.
    pub open spec fn spectrum_intensity(&self) -> Seq<u64> {
        match self.mass_spectrum {
            Some(columns) => columns.1@,
            None => Seq::empty(),
        }
    }

    /// How far work on the run file has come.
    pub open spec fn session_state(&self) -> SessionState {
        if self.msfile is Err {
            SessionState::Unopened
        } else if self.retention_time is Some && self.index is Some {
            SessionState::Extracted
        } else {
            SessionState::Opened
        }
    }

    /// What asking for a chromatogram of the given kind comes to before any
    /// scan is read: a run file must be open, and for an extracted ion
    /// chromatogram the mass and the tolerance must be positive.
    pub open spec fn request_outcome(
        &self,
        plot_type: PlotType,
        mass: u64,
        mass_tolerance: u64,
    ) -> Result<(), EngineError> {
        if self.msfile is Err {
            Err(EngineError::ReaderUnavailable)
        } else if plot_type == PlotType::Xic && (mass == 0 || mass_tolerance == 0) {
            Err(EngineError::InvalidParameter)
        } else {
            Ok(())
        }
    }

    /// The data before any run file is opened.
    pub fn new() -> (data: Self)
        ensures
            data.file_name is None,
            data.holds_nothing(),
            data.msfile == Err::<RunFile, EngineError>(EngineError::ReaderUnavailable),
            data.session_state() == SessionState::Unopened,
    {
        MzData {
            file_name: None,
            index: None,
            retention_time: None,
            intensity: None,
            mz: None,
            msfile: Err(EngineError::ReaderUnavailable),
            plot_data: None,
            mass_spectrum: None,
        }
    }

    /// Forgets the run file and everything derived from it.
    pub fn reset_state(&mut self)
        ensures
            final(self).file_name is None,
            final(self).holds_nothing(),
            final(self).msfile == Err::<RunFile, EngineError>(EngineError::ReaderUnavailable),
    {
        *self = MzData::new();
    }

    /// How far work on the run file has come.
    pub fn state(&self) -> (state: SessionState)
        ensures
            state == self.session_state(),
    {
        if self.msfile.is_err() {
            SessionState::Unopened
        } else if self.retention_time.is_some() && self.index.is_some() {
            SessionState::Extracted
        } else {
            SessionState::Opened
        }
    }

    /// Whether a chromatogram of the given kind can be asked for. This is
    /// to be asked before the run file is streamed: what is refused here,
    /// `extract` refuses in the same way whatever the scans are.
    pub fn check_request(&self, plot_type: PlotType, mass: u64, mass_tolerance: u64) -> (outcome:
        Result<(), EngineError>)
        ensures
            outcome == self.request_outcome(plot_type, mass, mass_tolerance),
    {
        if self.msfile.is_err() {
            Err(EngineError::ReaderUnavailable)
        } else if plot_type == PlotType::Xic && (mass == 0 || mass_tolerance == 0) {
            Err(EngineError::InvalidParameter)
        } else {
            Ok(())
        }
    }

    /// Takes note of an attempt to open the run file at `path`. Whatever was
    /// held of an earlier run file is dropped first, whether the attempt
    /// succeeded or not. `opened` is what the attempt gave: the run file, or
    /// nothing where it could not be opened.
    pub fn open_msfile(&mut self, path: &str, opened: Option<RunFile>) -> (outcome: Result<
        (),
        EngineError,
    >)
        ensures
            final(self).holds_nothing(),
            match opened {
                Some(run) => {
                    &&& outcome is Ok
                    &&& final(self).msfile == Ok::<RunFile, EngineError>(run)
                    &&& final(self).file_name is Some
                    &&& final(self).file_name->0@ == path@
                    &&& final(self).session_state() == SessionState::Opened
                },
                None => {
                    &&& outcome == Err::<(), EngineError>(EngineError::OpenError)
                    &&& final(self).msfile == Err::<RunFile, EngineError>(EngineError::OpenError)
                    &&& final(self).file_name is None
                    &&& final(self).session_state() == SessionState::Unopened
                },
            },
    {
        *self = MzData::new();
        match opened {
            Some(run) => {
                self.msfile = Ok(run);
                self.file_name = Some(path.to_owned());
                Ok(())
            },
            None => {
                self.msfile = Err(EngineError::OpenError);
                Err(EngineError::OpenError)
            },
        }
    }

    /// Puts a chromatogram in the place of the one held.
    fn replace_series(&mut self, series: ChromatogramSeries)
        requires
            series.wf(),
        ensures
            final(self).holds_series(series.rows(), series.mz@),
            final(self).same_beside_series(old(self)),
    {
        self.retention_time = Some(series.retention_times);
        self.intensity = Some(series.intensities);
        self.index = Some(series.indices);
        self.mz = Some(series.mz);
    }

    /// Extracts the base peak chromatogram of the scans with the polarity and
    /// holds it in place of the last chromatogram. Without an open run file
    /// nothing changes.
    pub fn get_bpic(&mut self, scans: &Vec<Scan>, polarity: ScanPolarity) -> (outcome: Result<
        (),
        EngineError,
    >)
        ensures
            old(self).msfile is Err ==> outcome == Err::<(), EngineError>(
                EngineError::ReaderUnavailable,
            ) && *final(self) == *old(self),
            old(self).msfile is Ok ==> outcome is Ok && final(self).holds_series(
                collected(PlotType::Bpc, scans@, polarity, scans@.len() as int),
                base_peak_mzs(scans@, polarity, scans@.len() as int),
            ) && final(self).same_beside_series(old(self)),
            old(self).msfile is Ok && in_time_order(scans@, polarity) ==> non_decreasing(
                final(self).retention_time->0@,
            ),
    {
        if self.msfile.is_err() {
            return Err(EngineError::ReaderUnavailable);
        }
        let series = extract_bpc(scans, polarity);
        self.replace_series(series);
        proof {
            if in_time_order(scans@, polarity) {
                lemma_collected_in_time_order(PlotType::Bpc, scans@, polarity, scans@.len() as int);
                lemma_ordered_rows_have_non_decreasing_times(
                    self.retention_time->0@,
                    self.intensity->0@,
                    self.index->0@,
                );
            }
        }
        Ok(())
    }

    /// Extracts the total ion chromatogram of the scans with the polarity and
    /// holds it in place of the last chromatogram, with an empty m/z column.
    /// Without an open run file nothing changes.
    pub fn get_tic(&mut self, scans: &Vec<Scan>, polarity: ScanPolarity) -> (outcome: Result<
        (),
        EngineError,
    >)
        ensures
            old(self).msfile is Err ==> outcome == Err::<(), EngineError>(
                EngineError::ReaderUnavailable,
            ) && *final(self) == *old(self),
            old(self).msfile is Ok ==> outcome is Ok && final(self).holds_series(
                collected(PlotType::Tic, scans@, polarity, scans@.len() as int),
                Seq::empty(),
            ) && final(self).same_beside_series(old(self)),
            old(self).msfile is Ok && in_time_order(scans@, polarity) ==> non_decreasing(
                final(self).retention_time->0@,
            ),
    {
        if self.msfile.is_err() {
            return Err(EngineError::ReaderUnavailable);
        }
        let series = extract_tic(scans, polarity);
        assert(series.mz@ =~= Seq::empty());
        self.replace_series(series);
        proof {
            if in_time_order(scans@, polarity) {
                lemma_collected_in_time_order(PlotType::Tic, scans@, polarity, scans@.len() as int);
                lemma_ordered_rows_have_non_decreasing_times(
                    self.retention_time->0@,
                    self.intensity->0@,
                    self.index->0@,
                );
            }
        }
        Ok(())
    }

    /// Extracts the ion chromatogram of the peaks matched near `mass` and
    /// holds it in place of the last chromatogram, with an empty m/z column.
    /// Where the extraction fails, or no run file is open, nothing changes.
    pub fn get_xic(
        &mut self,
        scans: &Vec<Scan>,
        mass: u64,
        polarity: ScanPolarity,
        mass_tolerance: u64,
    ) -> (outcome: Result<(), EngineError>)
        ensures
            old(self).msfile is Err ==> outcome == Err::<(), EngineError>(
                EngineError::ReaderUnavailable,
            ) && *final(self) == *old(self),
            old(self).msfile is Ok ==> match xic_outcome(scans@, mass, polarity, mass_tolerance) {
                Ok(rows) => outcome is Ok && final(self).holds_series(rows, Seq::empty())
                    && final(self).same_beside_series(old(self)) && non_decreasing(
                    final(self).retention_time->0@,
                ),
                Err(error) => outcome == Err::<(), EngineError>(error) && *final(self) == *old(
                    self,
                ),
            },
    {
        if self.msfile.is_err() {
            return Err(EngineError::ReaderUnavailable);
        }
        match extract_xic(scans, mass, polarity, mass_tolerance) {
            Ok(series) => {
                assert(series.mz@ =~= Seq::empty());
                self.replace_series(series);
                proof {
                    lemma_xic_outcome_is_ordered(scans@, mass, polarity, mass_tolerance);
                    lemma_ordered_rows_have_non_decreasing_times(
                        self.retention_time->0@,
                        self.intensity->0@,
                        self.index->0@,
                    );
                }
                Ok(())
            },
            Err(error) => Err(error),
        }
    }

    /// The plot points of the chromatogram held: one point per run of equal
    /// retention times. There are none while no chromatogram is held. Columns
    /// that do not pair up are refused.
    pub fn prepare_for_plot(&self) -> (outcome: Result<Vec<[u64; 2]>, EngineError>)
        ensures
            match (self.retention_time, self.intensity) {
                (Some(times), Some(intensities)) => if times@.len() == intensities@.len() {
                    outcome matches Ok(data) && points(data@) == prepared(times@, intensities@)
                } else {
                    outcome == Err::<Vec<[u64; 2]>, EngineError>(EngineError::InsufficientData)
                },
                _ => outcome matches Ok(data) && data@.len() == 0,
            },
    {
        match (&self.retention_time, &self.intensity) {
            (Some(times), Some(intensities)) => {
                if times.len() == intensities.len() {
                    Ok(prepare(times, intensities))
                } else {
                    Err(EngineError::InsufficientData)
                }
            },
            _ => Ok(Vec::new()),
        }
    }

    /// Smooths plot points with a centered moving average and holds the
    /// result as the plot. A failure handed in is handed back, and the plot
    /// held stays.
    pub fn smooth_data(&mut self, data: Result<Vec<[u64; 2]>, EngineError>, window_size: u8) -> (outcome:
        Result<(), EngineError>)
        ensures
            final(self).same_series(old(self)),
            final(self).file_name == old(self).file_name,
            final(self).msfile == old(self).msfile,
            final(self).mass_spectrum == old(self).mass_spectrum,
            match data {
                Ok(raw) => {
                    &&& outcome is Ok
                    &&& final(self).plot_data is Some
                    &&& points(final(self).plot_data->0@) == smoothed(
                        points(raw@),
                        window_size as int,
                    )
                },
                Err(error) => outcome == Err::<(), EngineError>(error) && final(self).plot_data
                    == old(self).plot_data,
            },
    {
        match data {
            Ok(raw) => {
                self.plot_data = Some(smooth(&raw, window_size));
                Ok(())
            },
            Err(error) => Err(error),
        }
    }

    /// Extracts the chromatogram of the given kind, prepares it for
    /// plotting and smooths it. Where the extraction fails nothing changes:
    /// the chromatogram and the plot held before stay.
    pub fn extract(
        &mut self,
        scans: &Vec<Scan>,
        plot_type: PlotType,
        polarity: ScanPolarity,
        mass: u64,
        mass_tolerance: u64,
        smoothing: u8,
    ) -> (outcome: Result<(), EngineError>)
        ensures
            old(self).msfile is Err ==> outcome == Err::<(), EngineError>(
                EngineError::ReaderUnavailable,
            ) && *final(self) == *old(self),
            old(self).request_outcome(plot_type, mass, mass_tolerance) is Err ==> outcome == old(
                self,
            ).request_outcome(plot_type, mass, mass_tolerance),
            old(self).msfile is Ok ==> match extraction_outcome(
                plot_type,
                scans@,
                polarity,
                mass,
                mass_tolerance,
            ) {
                Ok(rows) => {
                    &&& outcome is Ok
                    &&& final(self).holds_series(rows, extraction_mz(plot_type, scans@, polarity))
                    &&& final(self).plot_data is Some
                    &&& points(final(self).plot_data->0@) == smoothed(
                        prepared(final(self).retention_time->0@, final(self).intensity->0@),
                        smoothing as int,
                    )
                    &&& final(self).file_name == old(self).file_name
                    &&& final(self).msfile == old(self).msfile
                    &&& final(self).mass_spectrum == old(self).mass_spectrum
                    &&& final(self).session_state() == SessionState::Extracted
                    &&& plot_type == PlotType::Xic || in_time_order(scans@, polarity)
                        ==> non_decreasing(final(self).retention_time->0@)
                },
                Err(error) => outcome == Err::<(), EngineError>(error) && *final(self) == *old(
                    self,
                ),
            },
    {
        let extracted = match plot_type {
            PlotType::Tic => self.get_tic(scans, polarity),
            PlotType::Bpc => self.get_bpic(scans, polarity),
            PlotType::Xic => self.get_xic(scans, mass, polarity, mass_tolerance),
        };
        match extracted {
            Err(error) => Err(error),
            Ok(()) => {
                let prepared_data = self.prepare_for_plot();
                self.smooth_data(prepared_data, smoothing)
            },
        }
    }

    /// The smoothed plot points made last, if any.
    pub fn current_plot_series(&self) -> (series: &Option<Vec<[u64; 2]>>)
        ensures
            *series == self.plot_data,
    {
        &self.plot_data
    }

    /// The spectrum index of the sample nearest to `clicked_rt` in the
    /// chromatogram held; of two samples equally near, the earlier. There is
    /// no index to look in while no chromatogram is held, or while it is
    /// empty or its columns do not pair up.
    pub fn find_closest_spectrum(&self, clicked_rt: u64) -> (found: Result<usize, EngineError>)
        ensures
            found is Ok <==> self.retention_time is Some && self.index is Some
                && self.retention_time->0@.len() > 0 && self.retention_time->0@.len()
                == self.index->0@.len(),
            found is Err ==> found == Err::<usize, EngineError>(EngineError::NoIndexAvailable),
            found matches Ok(index) ==> non_decreasing(self.retention_time->0@) ==> index
                == self.index->0@[closest_position(self.retention_time->0@, clicked_rt)],
    {
        match (&self.retention_time, &self.index) {
            (Some(times), Some(indices)) => locate_by_retention_time(times, indices, clicked_rt),
            _ => Err(EngineError::NoIndexAvailable),
        }
    }

    /// Holds the columns of the spectrum fetched at `index` as the spectrum
    /// looked up last. Where the index is beyond the run file, or nothing
    /// was fetched, the spectrum is missing and two empty columns are held.
    /// Without an open run file nothing changes.
    pub fn get_mass_spectrum_by_index(&mut self, index: usize, fetched: Option<PeakData>) -> (outcome:
        Result<(), EngineError>)
        ensures
            final(self).same_series(old(self)),
            final(self).file_name == old(self).file_name,
            final(self).msfile == old(self).msfile,
            final(self).plot_data == old(self).plot_data,
            match old(self).msfile {
                Err(_) => outcome == Err::<(), EngineError>(EngineError::ReaderUnavailable)
                    && final(self).mass_spectrum == old(self).mass_spectrum,
                Ok(run) => {
                    &&& final(self).mass_spectrum is Some
                    &&& if index < run.spectrum_count && fetched is Some {
                        &&& outcome is Ok
                        &&& final(self).spectrum_mz() == mz_column(fetched->0)
                        &&& final(self).spectrum_intensity() == intensity_column(fetched->0)
                    } else {
                        &&& outcome == Err::<(), EngineError>(EngineError::SpectrumMissing)
                        &&& final(self).spectrum_mz().len() == 0
                        &&& final(self).spectrum_intensity().len() == 0
                    }
                },
            },
    {
        let in_range = match &self.msfile {
            Err(_) => {
                return Err(EngineError::ReaderUnavailable);
            },
            Ok(run) => index < run.spectrum_count,
        };
        let located = if in_range {
            locate_by_index(fetched)
        } else {
            Err(EngineError::SpectrumMissing)
        };
        match located {
            Ok(columns) => {
                self.mass_spectrum = Some(columns);
                Ok(())
            },
            Err(error) => {
                self.mass_spectrum = Some((Vec::new(), Vec::new()));
                Err(EngineError::SpectrumMissing)
            },
        }
    }
}

impl Default for MzData {
    fn default() -> (data: Self)
        ensures
            data.file_name is None,
            data.holds_nothing(),
            data.msfile == Err::<RunFile, EngineError>(EngineError::ReaderUnavailable),
    {
        MzData::new()
    }
}

} // verus!
