//! What is reported, and where.

use crate::plotting::{PlotConfiguration, Plotter};
use std::path::PathBuf;
use vstd::prelude::*;

verus! {

/// `std::path::PathBuf`: a path of the file system, carried through unopened.
#[verifier::external_type_specification]
#[verifier::external_body]
pub struct ExPathBuf(std::path::PathBuf);

/// A report on the benchmarks.
#[derive(Debug, Clone, Copy, PartialEq, Eq, Structural)]
pub enum Report {
    /// Text on the command line.
    Cli { enable_text_overwrite: bool, enable_text_coloring: bool, verbose: bool },
    /// Text on the command line, in the format of the `bencher` crate.
    Bencher,
    /// A file of comma-separated values.
    FileCsv,
    /// Pages with plots.
    Html(Plotter),
}

/// Where the results are stored.
#[derive(Debug)]
pub enum OutputDirectory {
    /// In this directory.
    At(PathBuf),
    /// In the directory of the given name within this one.
    Within(PathBuf, &'static str),
    /// In the directory with this path, below the working directory.
    Relative(&'static str),
}

/// What a report needs to know.
pub struct ReportContext<'a> {
    /// Where the results are stored
    pub output_directory: &'a OutputDirectory,
    /// How to plot
    pub plot_config: PlotConfiguration,
}

/// What is to be done at the end of a run: each of the reports summarizes all benchmarks.
pub struct FinalSummary<'a> {
    /// The reports, in order
    pub reports: &'a Vec<Report>,
    /// What they need to know
    pub context: ReportContext<'a>,
}

} // verus!
