//! Chromatogram extraction and signal processing for mass-spectrometry runs.
//!
//! The engine turns the scans of a run file into a chromatogram (total ion,
//! base peak or extracted ion), collapses it into plot points, smooths them,
//! and finds the scan nearest to a retention time.
//!
//! Every physical quantity (retention time, intensity, m/z, mass tolerance)
//! is an unsigned fixed-point integer; the caller chooses the scale. Means
//! are rounded down to a whole unit of that scale. Reading run files,
//! centroiding, peak matching and drawing are left to the caller.

pub mod error;
pub mod extract;
pub mod file_gate;
pub mod locate;
pub mod parser;
pub mod plotting_parameters;
pub mod prepare;
pub mod smooth;
pub mod sorting;
pub mod spectrum;
