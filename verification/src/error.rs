//! What can go wrong in the engine.

use vstd::prelude::*;

verus! {

/// Why an engine operation did not succeed.
#[derive(Clone, Copy, Debug, PartialEq, Eq)]
pub enum EngineError {
    /// The run file is missing, unreadable or malformed.
    OpenError,
    /// No run file is open.
    ReaderUnavailable,
    /// A spectrum could not be turned into centroided peaks.
    CentroidingFailed,
    /// No peak in the whole run matched the requested mass.
    NoMatchingPeaks,
    /// No chromatogram has been extracted yet, so there is nothing to look up in.
    NoIndexAvailable,
    /// There is no spectrum at the requested index.
    SpectrumMissing,
    /// The requested mass or tolerance is not positive.
    InvalidParameter,
    /// The retention times and intensities at hand do not pair up.
    InsufficientData,
}

} // verus!
