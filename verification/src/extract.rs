//! Turning the scans of a run into chromatogram samples.

use vstd::prelude::*;
use crate::error::EngineError;
use crate::plotting_parameters::PlotType;
use crate::locate::non_decreasing;
use crate::sorting::{
    lemma_sorted_is_ordered, lemma_sorted_len, ordered_by_time, sort_by_time, sorted_by_time,
};

verus! {

/// The MS level whose scans an extracted ion chromatogram is made of.
pub const MS_LEVEL: u8 = 1;

/// The ion mode of a scan.
#[derive(Clone, Copy, Debug, PartialEq, Eq, Structural)]
pub enum ScanPolarity {
    Unknown,
    Positive,
    Negative,
}

impl Default for ScanPolarity {
    fn default() -> (polarity: Self)
        ensures
            polarity == ScanPolarity::Unknown,
    {
        ScanPolarity::Unknown
    }
}

/// One peak of a spectrum.
#[derive(Clone, Copy, Debug, PartialEq, Eq)]
pub struct Peak {
    pub mz: u64,
    pub intensity: u64,
    /// The peak's place among the peaks of its spectrum.
    pub index: u32,
}

/// What became of centroiding a scan and picking the peaks near the target mass.
#[derive(Clone, Debug, PartialEq, Eq)]
pub enum Centroiding {
    /// The scan was not centroided, as is in order for a scan that does
    /// not take part in an extracted ion chromatogram.
    NotAttempted,
    /// The scan could not be centroided.
    Failed,
    /// The centroided peaks within tolerance of the target mass, in peak order.
    Matched(Vec<Peak>),
}

/// One scan of a run, as the reader reports it.
#[derive(Clone, Debug, PartialEq, Eq)]
pub struct Scan {
    /// The scan's place in the run.
    pub index: usize,
    pub start_time: u64,
    pub polarity: ScanPolarity,
    pub ms_level: u8,
    /// The sum of all intensities of the scan.
    pub total_intensity: u64,
    /// The most intense peak of the scan.
    pub base_peak: Peak,
    pub centroiding: Centroiding,
}

/// One sample of a chromatogram.
#[derive(Clone, Copy, Debug, PartialEq, Eq)]
pub struct Sample {
    pub retention_time: u64,
    pub intensity: u64,
    pub index: usize,
}

/// A chromatogram as parallel columns, one entry per sample.
#[derive(Clone, Debug, PartialEq, Eq)]
pub struct ChromatogramSeries {
    pub retention_times: Vec<u64>,
    pub intensities: Vec<u64>,
    pub indices: Vec<usize>,
    /// The m/z of each sample of a base peak chromatogram; empty for the other kinds.
    pub mz: Vec<u64>,
}

impl ChromatogramSeries {
    /// The three sample columns pair up.
    pub open spec fn wf(&self) -> bool {
        &&& self.retention_times@.len() == self.intensities@.len()
        &&& self.retention_times@.len() == self.indices@.len()
    }

    /// The samples, one per row of the columns.
    pub open spec fn rows(&self) -> Seq<Sample> {
        columns_to_rows(self.retention_times@, self.intensities@, self.indices@)
    }
}

/// The rows of three parallel columns.
pub open spec fn columns_to_rows(
    retention_times: Seq<u64>,
    intensities: Seq<u64>,
    indices: Seq<usize>,
) -> Seq<Sample> {
    Seq::new(
        retention_times.len(),
        |i: int|
            Sample { retention_time: retention_times[i], intensity: intensities[i], index: indices[i] },
    )
}

/// Whether a scan takes part in a chromatogram of the given kind and
/// polarity: its polarity must match, and for an extracted ion chromatogram
/// it must be a scan of the first MS level.
pub open spec fn selects(plot_type: PlotType, scan: Scan, polarity: ScanPolarity) -> bool {
    scan.polarity == polarity && (plot_type == PlotType::Xic ==> scan.ms_level == MS_LEVEL)
}

/// The samples a scan that takes part gives to a chromatogram: its total
/// intensity, its base peak's intensity, or one sample per matched peak, all
/// at the scan's start time.
pub open spec fn contribution(plot_type: PlotType, scan: Scan) -> Seq<Sample> {
    match plot_type {
        PlotType::Tic => seq![
            Sample {
                retention_time: scan.start_time,
                intensity: scan.total_intensity,
                index: scan.index,
            },
        ],
        PlotType::Bpc => seq![
            Sample {
                retention_time: scan.start_time,
                intensity: scan.base_peak.intensity,
                index: scan.index,
            },
        ],
        PlotType::Xic => match scan.centroiding {
            Centroiding::Matched(peaks) => Seq::new(
                peaks@.len(),
                |k: int|
                    Sample {
                        retention_time: scan.start_time,
                        intensity: peaks@[k].intensity,
                        index: peaks@[k].index as usize,
                    },
            ),
            _ => Seq::empty(),
        },
    }
}

/// The samples of the first `n` scans, in scan order.
pub open spec fn collected(plot_type: PlotType, scans: Seq<Scan>, polarity: ScanPolarity, n: int) -> Seq<
    Sample,
>
    decreases n,
{
    if n <= 0 {
        Seq::empty()
    } else if selects(plot_type, scans[n - 1], polarity) {
        collected(plot_type, scans, polarity, n - 1) + contribution(plot_type, scans[n - 1])
    } else {
        collected(plot_type, scans, polarity, n - 1)
    }
}

/// The base peak m/z of those of the first `n` scans that have the polarity.
pub open spec fn base_peak_mzs(scans: Seq<Scan>, polarity: ScanPolarity, n: int) -> Seq<u64>
    decreases n,
{
    if n <= 0 {
        Seq::empty()
    } else if selects(PlotType::Bpc, scans[n - 1], polarity) {
        base_peak_mzs(scans, polarity, n - 1).push(scans[n - 1].base_peak.mz)
    } else {
        base_peak_mzs(scans, polarity, n - 1)
    }
}

/// Whether a scan comes with the peaks matched in it.
pub open spec fn is_centroided(scan: Scan) -> bool {
    scan.centroiding is Matched
}

/// Whether some scan that takes part in an extracted ion chromatogram comes
/// without matched peaks: centroiding it failed, or was not tried.
pub open spec fn centroiding_fails(scans: Seq<Scan>, polarity: ScanPolarity) -> bool {
    exists|i: int|
        0 <= i < scans.len() && selects(PlotType::Xic, #[trigger] scans[i], polarity)
            && !is_centroided(scans[i])
}

/// What extracting an ion chromatogram comes to: the samples of all matched
/// peaks ordered by retention time, unless a parameter is not positive, a
/// scan that takes part comes without matched peaks, or no peak matched at
/// all.
pub open spec fn xic_outcome(
    scans: Seq<Scan>,
    target_mass: u64,
    polarity: ScanPolarity,
    tolerance_ppm: u64,
) -> Result<Seq<Sample>, EngineError> {
    if target_mass == 0 || tolerance_ppm == 0 {
        Err(EngineError::InvalidParameter)
    } else if centroiding_fails(scans, polarity) {
        Err(EngineError::CentroidingFailed)
    } else if collected(PlotType::Xic, scans, polarity, scans.len() as int).len() == 0 {
        Err(EngineError::NoMatchingPeaks)
    } else {
        Ok(sorted_by_time(collected(PlotType::Xic, scans, polarity, scans.len() as int)))
    }
}

/// Whether the scans of the polarity come in the order of their start times.
pub open spec fn in_time_order(scans: Seq<Scan>, polarity: ScanPolarity) -> bool {
    forall|i: int, j: int|
        0 <= i <= j < scans.len() && scans[i].polarity == polarity && scans[j].polarity == polarity
            ==> scans[i].start_time <= scans[j].start_time
}

/// Every sample collected stands at the start time of a scan that takes part.
proof fn lemma_collected_times(
    plot_type: PlotType,
    scans: Seq<Scan>,
    polarity: ScanPolarity,
    n: int,
    k: int,
) -> (i: int)
    requires
        0 <= n <= scans.len(),
        0 <= k < collected(plot_type, scans, polarity, n).len(),
    ensures
        0 <= i < n,
        selects(plot_type, scans[i], polarity),
        collected(plot_type, scans, polarity, n)[k].retention_time == scans[i].start_time,
    decreases n,
{
    let before = collected(plot_type, scans, polarity, n - 1);
    if selects(plot_type, scans[n - 1], polarity) && k >= before.len() {
        n - 1
    } else {
        lemma_collected_times(plot_type, scans, polarity, n - 1, k)
    }
}

/// Where the scans of the polarity come in the order of their start times,
/// the samples collected from them are ordered by retention time.
pub proof fn lemma_collected_in_time_order(
    plot_type: PlotType,
    scans: Seq<Scan>,
    polarity: ScanPolarity,
    n: int,
)
    requires
        0 <= n <= scans.len(),
        in_time_order(scans, polarity),
    ensures
        ordered_by_time(collected(plot_type, scans, polarity, n)),
    decreases n,
{
    if n > 0 {
        lemma_collected_in_time_order(plot_type, scans, polarity, n - 1);
        let before = collected(plot_type, scans, polarity, n - 1);
        let all = collected(plot_type, scans, polarity, n);
        assert forall|a: int, b: int| 0 <= a <= b < all.len() implies all[a].retention_time
            <= all[b].retention_time by {
            if b < before.len() {
                assert(all[a] == before[a]);
                assert(all[b] == before[b]);
            } else {
                assert(all[b].retention_time == scans[n - 1].start_time);
                if a < before.len() {
                    assert(all[a] == before[a]);
                    let i = lemma_collected_times(plot_type, scans, polarity, n - 1, a);
                } else {
                    assert(all[a].retention_time == scans[n - 1].start_time);
                }
            }
        }
    }
}

/// The retention times of samples ordered by time never decrease.
pub proof fn lemma_ordered_rows_have_non_decreasing_times(
    retention_times: Seq<u64>,
    intensities: Seq<u64>,
    indices: Seq<usize>,
)
    requires
        ordered_by_time(columns_to_rows(retention_times, intensities, indices)),
    ensures
        non_decreasing(retention_times),
{
    let rows = columns_to_rows(retention_times, intensities, indices);
    assert forall|i: int, j: int| 0 <= i <= j < retention_times.len() implies retention_times[i]
        <= retention_times[j] by {
        assert(rows[i].retention_time == retention_times[i]);
        assert(rows[j].retention_time == retention_times[j]);
    }
}

/// The samples of an extracted ion chromatogram are ordered by retention
/// time, and there is at least one.
pub proof fn lemma_xic_outcome_is_ordered(
    scans: Seq<Scan>,
    target_mass: u64,
    polarity: ScanPolarity,
    tolerance_ppm: u64,
)
    requires
        xic_outcome(scans, target_mass, polarity, tolerance_ppm) is Ok,
    ensures
        ordered_by_time(xic_outcome(scans, target_mass, polarity, tolerance_ppm)->Ok_0),
        xic_outcome(scans, target_mass, polarity, tolerance_ppm)->Ok_0.len() > 0,
{
    let found = collected(PlotType::Xic, scans, polarity, scans.len() as int);
    lemma_sorted_is_ordered(found);
    lemma_sorted_len(found);
}

impl Scan {
    /// Whether the scan takes part in a chromatogram of the given kind and polarity.
    pub fn is_selected(&self, plot_type: PlotType, polarity: ScanPolarity) -> (taken: bool)
        ensures
            taken == selects(plot_type, *self, polarity),
    {
        self.polarity == polarity && (plot_type != PlotType::Xic || self.ms_level == MS_LEVEL)
    }

    /// Whether the scan has to be centroided for a chromatogram of the given
    /// kind and polarity: only an extracted ion chromatogram asks for it, and
    /// only of the scans that take part in it.
    pub fn wants_centroiding(&self, plot_type: PlotType, polarity: ScanPolarity) -> (wanted: bool)
        ensures
            wanted == (plot_type == PlotType::Xic && selects(PlotType::Xic, *self, polarity)),
    {
        plot_type == PlotType::Xic && self.is_selected(PlotType::Xic, polarity)
    }
}

/// Splits samples into the three parallel columns of a chromatogram.
fn rows_to_series(rows: &Vec<Sample>, mz: Vec<u64>) -> (series: ChromatogramSeries)
    ensures
        series.wf(),
        series.rows() == rows@,
        series.mz@ == mz@,
{
    let mut retention_times: Vec<u64> = Vec::new();
    let mut intensities: Vec<u64> = Vec::new();
    let mut indices: Vec<usize> = Vec::new();
    let mut i: usize = 0;
    while i < rows.len()
        invariant
            0 <= i <= rows@.len(),
            retention_times@.len() == i,
            intensities@.len() == i,
            indices@.len() == i,
            columns_to_rows(retention_times@, intensities@, indices@) == rows@.take(i as int),
        decreases rows@.len() - i,
    {
        let row: Sample = rows[i];
        retention_times.push(row.retention_time);
        intensities.push(row.intensity);
        indices.push(row.index);
        i = i + 1;
        assert(columns_to_rows(retention_times@, intensities@, indices@) =~= rows@.take(i as int));
    }
    assert(rows@.take(i as int) =~= rows@);
    ChromatogramSeries { retention_times, intensities, indices, mz }
}

/// Appends to `rows` the samples of one scan of an extracted ion chromatogram.
fn push_matches(rows: &mut Vec<Sample>, scan: &Scan)
    ensures
        final(rows)@ == old(rows)@ + contribution(PlotType::Xic, *scan),
{
    match &scan.centroiding {
        Centroiding::Matched(peaks) => {
            let mut k: usize = 0;
            while k < peaks.len()
                invariant
                    0 <= k <= peaks@.len(),
                    scan.centroiding == Centroiding::Matched(*peaks),
                    rows@ == old(rows)@ + contribution(PlotType::Xic, *scan).take(k as int),
                decreases peaks@.len() - k,
            {
                let peak: Peak = peaks[k];
                rows.push(
                    Sample {
                        retention_time: scan.start_time,
                        intensity: peak.intensity,
                        index: peak.index as usize,
                    },
                );
                k = k + 1;
                assert(rows@ =~= old(rows)@ + contribution(PlotType::Xic, *scan).take(k as int));
            }
            assert(contribution(PlotType::Xic, *scan).take(k as int) =~= contribution(
                PlotType::Xic,
                *scan,
            ));
        },
        _ => {
            assert(rows@ =~= old(rows)@ + contribution(PlotType::Xic, *scan));
        },
    }
}

/// Total ion chromatogram: for every scan of the polarity, in scan order,
/// its start time, its total intensity and its index. There is no m/z column.
pub fn extract_tic(scans: &Vec<Scan>, polarity: ScanPolarity) -> (series: ChromatogramSeries)
    ensures
        series.wf(),
        series.rows() == collected(PlotType::Tic, scans@, polarity, scans@.len() as int),
        series.mz@.len() == 0,
        in_time_order(scans@, polarity) ==> non_decreasing(series.retention_times@),
{
    let mut rows: Vec<Sample> = Vec::new();
    let mut i: usize = 0;
    while i < scans.len()
        invariant
            0 <= i <= scans@.len(),
            rows@ == collected(PlotType::Tic, scans@, polarity, i as int),
        decreases scans@.len() - i,
    {
        let scan: &Scan = &scans[i];
        if scan.is_selected(PlotType::Tic, polarity) {
            rows.push(
                Sample {
                    retention_time: scan.start_time,
                    intensity: scan.total_intensity,
                    index: scan.index,
                },
            );
            assert(rows@ =~= collected(PlotType::Tic, scans@, polarity, i as int) + contribution(
                PlotType::Tic,
                scans@[i as int],
            ));
        }
        i = i + 1;
    }
    let series = rows_to_series(&rows, Vec::new());
    proof {
        if in_time_order(scans@, polarity) {
            lemma_collected_in_time_order(PlotType::Tic, scans@, polarity, scans@.len() as int);
            lemma_ordered_rows_have_non_decreasing_times(
                series.retention_times@,
                series.intensities@,
                series.indices@,
            );
        }
    }
    series
}

/// Base peak chromatogram: for every scan of the polarity, in scan order,
/// its start time, the intensity and m/z of its most intense peak, and its
/// index.
pub fn extract_bpc(scans: &Vec<Scan>, polarity: ScanPolarity) -> (series: ChromatogramSeries)
    ensures
        series.wf(),
        series.rows() == collected(PlotType::Bpc, scans@, polarity, scans@.len() as int),
        series.mz@ == base_peak_mzs(scans@, polarity, scans@.len() as int),
        series.mz@.len() == series.rows().len(),
        in_time_order(scans@, polarity) ==> non_decreasing(series.retention_times@),
{
    let mut rows: Vec<Sample> = Vec::new();
    let mut mz: Vec<u64> = Vec::new();
    let mut i: usize = 0;
    while i < scans.len()
        invariant
            0 <= i <= scans@.len(),
            rows@ == collected(PlotType::Bpc, scans@, polarity, i as int),
            mz@ == base_peak_mzs(scans@, polarity, i as int),
            mz@.len() == rows@.len(),
        decreases scans@.len() - i,
    {
        let scan: &Scan = &scans[i];
        if scan.is_selected(PlotType::Bpc, polarity) {
            rows.push(
                Sample {
                    retention_time: scan.start_time,
                    intensity: scan.base_peak.intensity,
                    index: scan.index,
                },
            );
            mz.push(scan.base_peak.mz);
            assert(rows@ =~= collected(PlotType::Bpc, scans@, polarity, i as int) + contribution(
                PlotType::Bpc,
                scans@[i as int],
            ));
        }
        i = i + 1;
    }
    let series = rows_to_series(&rows, mz);
    proof {
        if in_time_order(scans@, polarity) {
            lemma_collected_in_time_order(PlotType::Bpc, scans@, polarity, scans@.len() as int);
            lemma_ordered_rows_have_non_decreasing_times(
                series.retention_times@,
                series.intensities@,
                series.indices@,
            );
        }
    }
    series
}

/// Extracted ion chromatogram: one sample per peak matched in a scan of the
/// first MS level and of the polarity, at the scan's start time, the samples
/// ordered by retention time. Fails when the mass or the tolerance is not
/// positive, when a scan that takes part was not centroided or could not
/// be, and when no peak matched in the whole run. There is no m/z column.
pub fn extract_xic(
    scans: &Vec<Scan>,
    target_mass: u64,
    polarity: ScanPolarity,
    tolerance_ppm: u64,
) -> (outcome: Result<ChromatogramSeries, EngineError>)
    ensures
        match outcome {
            Ok(series) => {
                &&& series.wf()
                &&& xic_outcome(scans@, target_mass, polarity, tolerance_ppm) == Ok::<
                    Seq<Sample>,
                    EngineError,
                >(series.rows())
                &&& series.mz@.len() == 0
                &&& non_decreasing(series.retention_times@)
            },
            Err(error) => xic_outcome(scans@, target_mass, polarity, tolerance_ppm) == Err::<
                Seq<Sample>,
                EngineError,
            >(error),
        },
{
    if target_mass == 0 || tolerance_ppm == 0 {
        return Err(EngineError::InvalidParameter);
    }
    let mut rows: Vec<Sample> = Vec::new();
    let mut i: usize = 0;
    while i < scans.len()
        invariant
            0 <= i <= scans@.len(),
            target_mass != 0,
            tolerance_ppm != 0,
            rows@ == collected(PlotType::Xic, scans@, polarity, i as int),
            forall|j: int|
                0 <= j < i ==> !(selects(PlotType::Xic, #[trigger] scans@[j], polarity)
                    && !is_centroided(scans@[j])),
        decreases scans@.len() - i,
    {
        let scan: &Scan = &scans[i];
        if scan.is_selected(PlotType::Xic, polarity) {
            match &scan.centroiding {
                Centroiding::Matched(_) => {
                    push_matches(&mut rows, scan);
                },
                _ => {
                    assert(selects(PlotType::Xic, scans@[i as int], polarity) && !is_centroided(
                        scans@[i as int],
                    ));
                    return Err(EngineError::CentroidingFailed);
                },
            }
        }
        i = i + 1;
    }
    if rows.len() == 0 {
        return Err(EngineError::NoMatchingPeaks);
    }
    let sorted: Vec<Sample> = sort_by_time(&rows);
    let series = rows_to_series(&sorted, Vec::new());
    proof {
        lemma_ordered_rows_have_non_decreasing_times(
            series.retention_times@,
            series.intensities@,
            series.indices@,
        );
    }
    Ok(series)
}

} // verus!
