//! How plots are made.

use vstd::prelude::*;

verus! {

/// Enum used to select the plotting backend.
#[derive(Debug, Clone, Copy, PartialEq, Eq, Structural)]
pub enum PlottingBackend {
    /// Plotting backend which uses the external `gnuplot` command to render plots. This is the
    /// default if the `gnuplot` command is installed.
    Gnuplot,
    /// Plotting backend which uses the rust 'Plotters' library. This is the default if `gnuplot`
    /// is not installed.
    Plotters,
}

/// What asking `gnuplot` for its version came to.
#[derive(Debug)]
pub enum GnuplotVersion {
    /// It has one.
    Known,
    /// The command could not be executed.
    NotExecuted,
    /// The command was executed, but failed or gave no version. The text tells how.
    Unusable(String),
}

impl GnuplotVersion {
    /// Whether gnuplot can be used.
    pub open spec fn available(&self) -> bool {
        self is Known
    }

    /// Whether gnuplot can be used.
    pub fn is_available(&self) -> (available: bool)
        ensures
            available == self.available(),
    {
        match self {
            GnuplotVersion::Known => true,
            _ => false,
        }
    }

    /// The plotting backend to use unless another is asked for.
    pub fn default_backend(&self) -> (backend: PlottingBackend)
        ensures
            backend == if self.available() {
                PlottingBackend::Gnuplot
            } else {
                PlottingBackend::Plotters
            },
    {
        match self {
            GnuplotVersion::Known => PlottingBackend::Gnuplot,
            _ => PlottingBackend::Plotters,
        }
    }

    /// What to tell the user of the default backend, if anything.
    pub fn notice(&self) -> (notice: Option<String>)
        ensures
            match (*self, notice) {
                (GnuplotVersion::Known, None) => true,
                (GnuplotVersion::NotExecuted, Some(text)) => text@
                    == "Gnuplot not found, using plotters backend"@,
                (GnuplotVersion::Unusable(error), Some(text)) => text@
                    == "Gnuplot not found or not usable, using plotters backend\n"@ + error@,
                _ => false,
            },
    {
        match self {
            GnuplotVersion::Known => None,
            GnuplotVersion::NotExecuted => Some(
                "Gnuplot not found, using plotters backend".to_owned(),
            ),
            GnuplotVersion::Unusable(error) => {
                let mut text =
                    "Gnuplot not found or not usable, using plotters backend\n".to_owned();
                text.append(error.as_str());
                Some(text)
            },
        }
    }
}

/// What draws the plots.
#[derive(Debug, Clone, Copy, PartialEq, Eq, Structural)]
pub enum Plotter {
    /// The gnuplot command.
    Gnuplot,
    /// The plotters library.
    PlottersBackend,
}

/// Axis scaling type
#[derive(Debug, Clone, Copy, PartialEq, Eq, Structural)]
pub enum AxisScale {
    /// Axes scale linearly
    Linear,
    /// Axes scale logarithmically
    Logarithmic,
}

/// Contains the configuration options for the plots generated by a particular benchmark or
/// benchmark group.
#[derive(Debug, Clone)]
pub struct PlotConfiguration {
    /// The scale of the summary plots
    pub summary_scale: AxisScale,
}

impl Default for PlotConfiguration {
    fn default() -> (config: PlotConfiguration)
        ensures
            config.summary_scale == AxisScale::Linear,
    {
        PlotConfiguration { summary_scale: AxisScale::Linear }
    }
}

impl PlotConfiguration {
    /// Set the axis scale (linear or logarithmic) for the summary plots. Typically, you would set
    /// this to logarithmic if benchmarking over a range of inputs which scale exponentially.
    /// Defaults to linear.
    pub fn summary_scale(self, new_scale: AxisScale) -> (config: PlotConfiguration)
        ensures
            config == (PlotConfiguration { summary_scale: new_scale, ..self }),
    {
        let mut config = self;
        config.summary_scale = new_scale;
        config
    }
}

} // verus!
