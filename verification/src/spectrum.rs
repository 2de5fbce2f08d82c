//! One spectrum's peaks as two parallel columns.

use vstd::prelude::*;
use crate::error::EngineError;
use crate::extract::Peak;

verus! {

/// The peaks of one spectrum, in the form in which the run file holds them.
#[derive(Clone, Debug, PartialEq, Eq)]
pub enum PeakData {
    /// Profile signal as two columns.
    RawData { mz: Vec<u64>, intensity: Vec<u64> },
    /// Centroided peaks.
    Centroid(Vec<Peak>),
    /// Deconvoluted peaks.
    Deconvoluted(Vec<Peak>),
    /// The spectrum has no peak data.
    Missing,
}

/// The m/z of each peak.
pub open spec fn peak_mzs(peaks: Seq<Peak>) -> Seq<u64> {
    Seq::new(peaks.len(), |i: int| peaks[i].mz)
}

/// The intensity of each peak.
pub open spec fn peak_intensities(peaks: Seq<Peak>) -> Seq<u64> {
    Seq::new(peaks.len(), |i: int| peaks[i].intensity)
}

/// The shorter of two lengths.
pub open spec fn shorter(a: nat, b: nat) -> int {
    if a <= b {
        a as int
    } else {
        b as int
    }
}

/// The m/z column of a spectrum. Profile columns of different lengths are
/// cut to the shorter one; a spectrum without peak data has an empty column.
pub open spec fn mz_column(data: PeakData) -> Seq<u64> {
    match data {
        PeakData::RawData { mz, intensity } => mz@.take(shorter(mz@.len(), intensity@.len())),
        PeakData::Centroid(peaks) => peak_mzs(peaks@),
        PeakData::Deconvoluted(peaks) => peak_mzs(peaks@),
        PeakData::Missing => Seq::empty(),
    }
}

/// The intensity column of a spectrum, as long as its m/z column.
pub open spec fn intensity_column(data: PeakData) -> Seq<u64> {
    match data {
        PeakData::RawData { mz, intensity } => intensity@.take(
            shorter(mz@.len(), intensity@.len()),
        ),
        PeakData::Centroid(peaks) => peak_intensities(peaks@),
        PeakData::Deconvoluted(peaks) => peak_intensities(peaks@),
        PeakData::Missing => Seq::empty(),
    }
}

/// The two columns of a spectrum are equally long.
pub proof fn lemma_columns_pair_up(data: PeakData)
    ensures
        mz_column(data).len() == intensity_column(data).len(),
{
}

/// Splits peaks into an m/z and an intensity column.
fn peaks_to_columns(peaks: &Vec<Peak>) -> (columns: (Vec<u64>, Vec<u64>))
    ensures
        columns.0@ == peak_mzs(peaks@),
        columns.1@ == peak_intensities(peaks@),
{
    let mut mz: Vec<u64> = Vec::new();
    let mut intensity: Vec<u64> = Vec::new();
    let mut i: usize = 0;
    while i < peaks.len()
        invariant
            0 <= i <= peaks@.len(),
            mz@ == peak_mzs(peaks@).take(i as int),
            intensity@ == peak_intensities(peaks@).take(i as int),
        decreases peaks@.len() - i,
    {
        let peak: Peak = peaks[i];
        mz.push(peak.mz);
        intensity.push(peak.intensity);
        i = i + 1;
        assert(mz@ =~= peak_mzs(peaks@).take(i as int));
        assert(intensity@ =~= peak_intensities(peaks@).take(i as int));
    }
    assert(peak_mzs(peaks@).take(i as int) =~= peak_mzs(peaks@));
    assert(peak_intensities(peaks@).take(i as int) =~= peak_intensities(peaks@));
    (mz, intensity)
}

/// The m/z and intensity columns of a fetched spectrum. A spectrum without
/// peak data gives two empty columns. Where there is no spectrum to fetch,
/// the spectrum is missing.
pub fn locate_by_index(fetched: Option<PeakData>) -> (spectrum: Result<
    (Vec<u64>, Vec<u64>),
    EngineError,
>)
    ensures
        match fetched {
            Some(data) => spectrum matches Ok(columns) && columns.0@ == mz_column(data)
                && columns.1@ == intensity_column(data) && columns.0@.len() == columns.1@.len(),
            None => spectrum == Err::<(Vec<u64>, Vec<u64>), EngineError>(
                EngineError::SpectrumMissing,
            ),
        },
{
    match fetched {
        None => Err(EngineError::SpectrumMissing),
        Some(PeakData::RawData { mz, intensity }) => {
            let mut mz = mz;
            let mut intensity = intensity;
            if mz.len() <= intensity.len() {
                intensity.truncate(mz.len());
                assert(mz@.take(mz@.len() as int) =~= mz@);
            } else {
                mz.truncate(intensity.len());
                assert(intensity@.take(intensity@.len() as int) =~= intensity@);
            }
            Ok((mz, intensity))
        },
        Some(PeakData::Centroid(peaks)) => Ok(peaks_to_columns(&peaks)),
        Some(PeakData::Deconvoluted(peaks)) => Ok(peaks_to_columns(&peaks)),
        Some(PeakData::Missing) => Ok((Vec::new(), Vec::new())),
    }
}

} // verus!
