//! What a run of the benchmarks is for.

use crate::duration::Duration;
use vstd::prelude::*;

verus! {

/// Baseline describes how the baseline_directory is handled.
#[derive(Debug, Clone, Copy, PartialEq, Eq, Structural)]
pub enum Baseline {
    /// Compare ensures a previous saved version of the baseline exists and runs comparison against
    /// that.
    Compare,
    /// Save writes the benchmark results to the baseline directory, overwriting any results that
    /// were previously there.
    Save,
}

/// Enum representing the execution mode.
#[derive(Debug, Clone)]
pub enum Mode {
    /// Run benchmarks normally
    Benchmark,
    /// List all benchmarks but do not run them.
    List,
    /// Run bennchmarks once to verify that they work, but otherwise do not measure them.
    Test,
    /// Iterate benchmarks for a given length of time but do not analyze or report on them.
    Profile(Duration),
}

/// The execution mode with its time in nanoseconds.
pub enum Purpose {
    Benchmark,
    List,
    Test,
    Profile(nat),
}

impl View for Mode {
    type V = Purpose;

    open spec fn view(&self) -> Purpose {
        match *self {
            Mode::Benchmark => Purpose::Benchmark,
            Mode::List => Purpose::List,
            Mode::Test => Purpose::Test,
            Mode::Profile(time) => Purpose::Profile(time@),
        }
    }
}

impl Mode {
    /// Whether benchmarks are run normally.
    pub fn is_benchmark(&self) -> (result: bool)
        ensures
            result == (self@ is Benchmark),
    {
        match self {
            Mode::Benchmark => true,
            _ => false,
        }
    }
}

} // verus!
