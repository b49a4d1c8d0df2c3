//! The core of a statistics-driven micro-benchmarking library.

pub mod arguments;
pub mod batch_size;
pub mod bencher;
pub mod benchmark;
pub mod black_box;
pub mod clock;
pub mod config;
pub mod configure;
pub mod configure_laws;
pub mod criterion;
pub mod criterion_laws;
pub mod decimal;
pub mod duration;
pub mod environment;
pub mod filter;
pub mod float;
pub mod measurement;
pub mod mode;
pub mod plotting;
pub mod record;
pub mod record_laws;
pub mod report;
pub mod roll_call;
pub mod runner;
pub mod session;
pub mod step_laws;
pub mod throughput;

pub use crate::batch_size::BatchSize;
pub use crate::bencher::Bencher;
pub use crate::benchmark::Fun;
pub use crate::black_box::black_box;
pub use crate::criterion::Criterion;
pub use crate::duration::Duration;
pub use crate::mode::{Baseline, Mode};
pub use crate::plotting::{AxisScale, PlotConfiguration, PlottingBackend};
pub use crate::runner::runner;
pub use crate::throughput::Throughput;
