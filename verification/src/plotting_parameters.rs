//! What the user can choose about a plot: its kind and the look of its line.

use vstd::prelude::*;

verus! {

/// The colour of a plotted line.
#[derive(Clone, Copy, Debug, PartialEq, Eq, Structural)]
pub enum LineColor {
    Red,
    Green,
    Blue,
    Black,
    Yellow,
    White,
}

impl Default for LineColor {
    fn default() -> (color: Self)
        ensures
            color == LineColor::Red,
    {
        LineColor::Red
    }
}

/// The stroke of a plotted line.
#[derive(Clone, Copy, Debug, PartialEq, Eq, Structural)]
pub enum LineType {
    Solid,
    Dotted,
    Dashed,
}

impl Default for LineType {
    fn default() -> (line: Self)
        ensures
            line == LineType::Solid,
    {
        LineType::Solid
    }
}

/// The kind of chromatogram to extract.
#[derive(Clone, Copy, Debug, PartialEq, Eq, Structural)]
pub enum PlotType {
    /// Extracted ion chromatogram: the peaks near one mass.
    Xic,
    /// Base peak chromatogram: the most intense peak of each scan.
    Bpc,
    /// Total ion chromatogram: the summed intensity of each scan.
    Tic,
}

impl Default for PlotType {
    fn default() -> (plot_type: Self)
        ensures
            plot_type == PlotType::Tic,
    {
        PlotType::Tic
    }
}

} // verus!
