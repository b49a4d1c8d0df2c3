//! The benchmark manager.

use crate::config::{BenchmarkConfig, Settings};
use crate::duration::Duration;
use crate::environment::{choose_home_directory, home_directory, Environment};
use crate::filter::{occurs_in, regex_error, Filter, FilterError};
use crate::float::Float;
use crate::measurement::{Measurement, WallTime};
use crate::mode::{Baseline, Mode, Purpose};
use crate::plotting::{AxisScale, PlotConfiguration, Plotter, PlottingBackend};
use crate::report::{FinalSummary, OutputDirectory, Report, ReportContext};
use std::collections::HashSet;
use std::path::PathBuf;
use vstd::prelude::*;

verus! {

/// Observes the benchmarks with a profiler that was attached from outside.
#[derive(Debug, Clone, Copy)]
pub struct ExternalProfiler;

/// Something to tell the user.
#[derive(Debug, Clone, Copy, PartialEq, Eq, Structural)]
pub enum Notice {
    /// The number of resamples is low.
    FewResamples,
    /// The confidence level is low.
    LowConfidence,
}

impl Notice {
    /// The words to tell it in.
    pub fn text(self) -> (text: &'static str)
        ensures
            text == match self {
                Notice::FewResamples =>
                    "\nWarning: It is not recommended to reduce nresamples below 1000.",
                Notice::LowConfidence =>
                    "\nWarning: It is not recommended to reduce confidence level below 0.5.",
            },
    {
        match self {
            Notice::FewResamples =>
                "\nWarning: It is not recommended to reduce nresamples below 1000.",
            Notice::LowConfidence =>
                "\nWarning: It is not recommended to reduce confidence level below 0.5.",
        }
    }
}

/// The benchmark manager
///
/// `Criterion` lets you configure and execute benchmarks
///
/// Each benchmark consists of four phases:
///
/// - **Warm-up**: The routine is repeatedly executed, to let the CPU/OS/JIT/interpreter adapt to
/// the new load
/// - **Measurement**: The routine is repeatedly executed, and timing information is collected into
/// a sample
/// - **Analysis**: The sample is analyzed and distiled into meaningful statistics that get
/// reported to stdout, stored in files, and plotted
/// - **Comparison**: The current sample is compared with the sample obtained in the previous
/// benchmark.
pub struct Criterion<M: Measurement = WallTime, P = ExternalProfiler> {
    /// The settings of the measurement and of its analysis
    pub config: BenchmarkConfig,
    /// What the plots are made with
    pub plotting_backend: PlottingBackend,
    /// Are plots made?
    pub plotting_enabled: bool,
    /// Which benchmarks are run; all of them where there is no filter
    pub filter: Option<Filter>,
    /// The reports, in order
    pub reports: Vec<Report>,
    /// Where the results are stored
    pub output_directory: OutputDirectory,
    /// The name of the baseline
    pub baseline_directory: String,
    /// What is done with the baseline
    pub baseline: Baseline,
    /// The baseline that takes the place of a new sample
    pub load_baseline: Option<String>,
    /// The directories that benchmarks have taken
    pub all_directories: HashSet<String>,
    /// The titles that benchmarks have taken
    pub all_titles: HashSet<String>,
    /// What is measured
    pub measurement: M,
    /// What observes the benchmarks
    pub profiler: P,
    /// Is the process connected to a runner?
    pub connected: bool,
    /// What the run is for
    pub mode: Mode,
    /// Can gnuplot be used?
    pub gnuplot_available: bool,
    /// Is debug output asked for?
    pub debug_enabled: bool,
    /// What is still to be told to the user, in order
    pub notices: Vec<Notice>,
}

/// A benchmark manager as mathematical values.
#[verifier::ext_equal]
pub struct State<M, P> {
    pub config: Settings,
    pub plotting_backend: PlottingBackend,
    pub plotting_enabled: bool,
    pub filter: Option<Seq<char>>,
    pub reports: Seq<Report>,
    pub output_directory: OutputDirectory,
    pub baseline_directory: Seq<char>,
    pub baseline: Baseline,
    pub load_baseline: Option<Seq<char>>,
    pub all_directories: Set<String>,
    pub all_titles: Set<String>,
    pub measurement: M,
    pub profiler: P,
    pub connected: bool,
    pub mode: Purpose,
    pub gnuplot_available: bool,
    pub debug_enabled: bool,
    pub notices: Seq<Notice>,
}

/// A text, where there is one.
pub open spec fn text_of(text: Option<String>) -> Option<Seq<char>> {
    match text {
        Some(text) => Some(text@),
        None => None,
    }
}

impl<M: Measurement, P> View for Criterion<M, P> {
    type V = State<M, P>;

    open spec fn view(&self) -> State<M, P> {
        State {
            config: self.config@,
            plotting_backend: self.plotting_backend,
            plotting_enabled: self.plotting_enabled,
            filter: match self.filter {
                Some(filter) => Some(filter@),
                None => None,
            },
            reports: self.reports@,
            output_directory: self.output_directory,
            baseline_directory: self.baseline_directory@,
            baseline: self.baseline,
            load_baseline: text_of(self.load_baseline),
            all_directories: self.all_directories@,
            all_titles: self.all_titles@,
            measurement: self.measurement,
            profiler: self.profiler,
            connected: self.connected,
            mode: self.mode@,
            gnuplot_available: self.gnuplot_available,
            debug_enabled: self.debug_enabled,
            notices: self.notices@,
        }
    }
}

/// The reports unless others are asked for. A runner that the process is connected to does the
/// reporting on the command line.
pub open spec fn standard_reports(connected: bool) -> Seq<Report> {
    if connected {
        seq![Report::FileCsv]
    } else {
        seq![
            Report::Cli {
                enable_text_overwrite: false,
                enable_text_coloring: false,
                verbose: false,
            },
            Report::FileCsv,
        ]
    }
}

/// What draws the plots of a backend.
pub open spec fn plotter_of(backend: PlottingBackend) -> Plotter {
    match backend {
        PlottingBackend::Gnuplot => Plotter::Gnuplot,
        PlottingBackend::Plotters => Plotter::PlottersBackend,
    }
}

/// The benchmark manager in a given environment, before anything else is asked for.
pub open spec fn default_state(environment: Environment) -> State<WallTime, ExternalProfiler> {
    State {
        config: Settings::standard(),
        plotting_backend: if environment.gnuplot.available() {
            PlottingBackend::Gnuplot
        } else {
            PlottingBackend::Plotters
        },
        plotting_enabled: true,
        filter: None,
        reports: standard_reports(environment.connected),
        output_directory: home_directory(
            environment.criterion_home,
            environment.cargo_target_dir,
        ),
        baseline_directory: "base"@,
        baseline: Baseline::Save,
        load_baseline: None,
        all_directories: Set::empty(),
        all_titles: Set::empty(),
        measurement: WallTime,
        profiler: ExternalProfiler,
        connected: environment.connected,
        mode: Purpose::Benchmark,
        gnuplot_available: environment.gnuplot.available(),
        debug_enabled: environment.debug_enabled,
        notices: Seq::empty(),
    }
}

impl<M, P> State<M, P> {
    /// Whether `summary` is what is to be done at the end of a run: nothing unless the run is for
    /// benchmarks, else a summary by each report.
    pub open spec fn summarized_by(self, summary: Option<FinalSummary<'_>>) -> bool {
        match summary {
            None => !(self.mode is Benchmark),
            Some(summary) => {
                &&& self.mode is Benchmark
                &&& summary.reports@ == self.reports
                &&& *summary.context.output_directory == self.output_directory
                &&& summary.context.plot_config.summary_scale == AxisScale::Linear
            },
        }
    }
}

/// The reports unless others are asked for.
fn make_standard_reports(connected: bool) -> (reports: Vec<Report>)
    ensures
        reports@ == standard_reports(connected),
{
    let mut reports: Vec<Report> = Vec::new();
    if !connected {
        reports.push(
            Report::Cli {
                enable_text_overwrite: false,
                enable_text_coloring: false,
                verbose: false,
            },
        );
    }
    reports.push(Report::FileCsv);
    assert(reports@ =~= standard_reports(connected));
    reports
}

impl Criterion {
    /// Creates a benchmark manager with the following default settings:
    ///
    /// - Sample size: 100 measurements
    /// - Warm-up time: 3 s
    /// - Measurement time: 5 s
    /// - Bootstrap size: 100 000 resamples
    /// - Noise threshold: 0.01 (1%)
    /// - Confidence level: 0.95
    /// - Significance level: 0.05
    /// - Plotting: enabled, using gnuplot if available or plotters if gnuplot is not available
    /// - No filter
    pub fn default(environment: Environment) -> (criterion: Criterion)
        ensures
            criterion@ == default_state(environment),
            criterion@.config.valid(),
    {
        Criterion {
            config: BenchmarkConfig::standard(),
            plotting_backend: environment.gnuplot.default_backend(),
            plotting_enabled: true,
            filter: None,
            reports: make_standard_reports(environment.connected),
            output_directory: choose_home_directory(
                environment.criterion_home,
                environment.cargo_target_dir,
            ),
            baseline_directory: "base".to_owned(),
            baseline: Baseline::Save,
            load_baseline: None,
            all_directories: HashSet::new(),
            all_titles: HashSet::new(),
            measurement: WallTime,
            profiler: ExternalProfiler,
            connected: environment.connected,
            mode: Mode::Benchmark,
            gnuplot_available: environment.gnuplot.is_available(),
            debug_enabled: environment.debug_enabled,
            notices: Vec::new(),
        }
    }
}

impl<M: Measurement, P> Criterion<M, P> {
    /// Changes the measurement for the benchmarks run with this runner. See the Measurement trait
    /// for more details
    pub fn with_measurement<M2: Measurement>(self, m: M2) -> (criterion: Criterion<M2, P>)
        ensures
            criterion@ == (State {
                config: self@.config,
                plotting_backend: self@.plotting_backend,
                plotting_enabled: self@.plotting_enabled,
                filter: self@.filter,
                reports: self@.reports,
                output_directory: self@.output_directory,
                baseline_directory: self@.baseline_directory,
                baseline: self@.baseline,
                load_baseline: self@.load_baseline,
                all_directories: self@.all_directories,
                all_titles: self@.all_titles,
                measurement: m,
                profiler: self@.profiler,
                connected: self@.connected,
                mode: self@.mode,
                gnuplot_available: self@.gnuplot_available,
                debug_enabled: self@.debug_enabled,
                notices: self@.notices,
            }),
    {
        Criterion {
            config: self.config,
            plotting_backend: self.plotting_backend,
            plotting_enabled: self.plotting_enabled,
            filter: self.filter,
            reports: self.reports,
            output_directory: self.output_directory,
            baseline_directory: self.baseline_directory,
            baseline: self.baseline,
            load_baseline: self.load_baseline,
            all_directories: self.all_directories,
            all_titles: self.all_titles,
            measurement: m,
            profiler: self.profiler,
            connected: self.connected,
            mode: self.mode,
            gnuplot_available: self.gnuplot_available,
            debug_enabled: self.debug_enabled,
            notices: self.notices,
        }
    }

    /// Changes the internal profiler for benchmarks run with this runner.
    pub fn with_profiler<P2>(self, p: P2) -> (criterion: Criterion<M, P2>)
        ensures
            criterion@ == (State {
                config: self@.config,
                plotting_backend: self@.plotting_backend,
                plotting_enabled: self@.plotting_enabled,
                filter: self@.filter,
                reports: self@.reports,
                output_directory: self@.output_directory,
                baseline_directory: self@.baseline_directory,
                baseline: self@.baseline,
                load_baseline: self@.load_baseline,
                all_directories: self@.all_directories,
                all_titles: self@.all_titles,
                measurement: self@.measurement,
                profiler: p,
                connected: self@.connected,
                mode: self@.mode,
                gnuplot_available: self@.gnuplot_available,
                debug_enabled: self@.debug_enabled,
                notices: self@.notices,
            }),
    {
        Criterion {
            config: self.config,
            plotting_backend: self.plotting_backend,
            plotting_enabled: self.plotting_enabled,
            filter: self.filter,
            reports: self.reports,
            output_directory: self.output_directory,
            baseline_directory: self.baseline_directory,
            baseline: self.baseline,
            load_baseline: self.load_baseline,
            all_directories: self.all_directories,
            all_titles: self.all_titles,
            measurement: self.measurement,
            profiler: p,
            connected: self.connected,
            mode: self.mode,
            gnuplot_available: self.gnuplot_available,
            debug_enabled: self.debug_enabled,
            notices: self.notices,
        }
    }

    /// Set the plotting backend. By default, Criterion will use gnuplot if available, or plotters
    /// if not.
    ///
    /// Gnuplot can only be asked for where it is available.
    pub fn plotting_backend(self, backend: PlottingBackend) -> (criterion: Criterion<M, P>)
        requires
            backend == PlottingBackend::Gnuplot ==> self.gnuplot_available,
        ensures
            criterion@ == (State { plotting_backend: backend, ..self@ }),
    {
        Criterion { plotting_backend: backend, ..self }
    }

    /// Changes the default size of the sample for benchmarks run with this runner.
    ///
    /// A bigger sample should yield more accurate results if paired with a sufficiently large
    /// measurement time.
    ///
    /// Sample size must be at least 10.
    pub fn sample_size(self, n: usize) -> (criterion: Criterion<M, P>)
        requires
            n >= 10,
        ensures
            criterion@ == (State {
                config: Settings { sample_size: n as nat, ..self@.config },
                ..self@
            }),
            self@.config.valid() ==> criterion@.config.valid(),
    {
        let mut criterion = self;
        criterion.config.sample_size = n;
        criterion
    }

    /// Changes the default warm up time for benchmarks run with this runner.
    ///
    /// The time must not be zero.
    pub fn warm_up_time(self, dur: Duration) -> (criterion: Criterion<M, P>)
        requires
            dur@ > 0,
        ensures
            criterion@ == (State {
                config: Settings { warm_up_time: dur@, ..self@.config },
                ..self@
            }),
            self@.config.valid() ==> criterion@.config.valid(),
    {
        let mut criterion = self;
        criterion.config.warm_up_time = dur;
        criterion
    }

    /// Changes the default measurement time for benchmarks run with this runner.
    ///
    /// With a longer time, the measurement will become more resilient to transitory peak loads
    /// caused by external programs
    ///
    /// **Note**: If the measurement time is too "low", Criterion will automatically increase it
    ///
    /// The time must not be zero.
    pub fn measurement_time(self, dur: Duration) -> (criterion: Criterion<M, P>)
        requires
            dur@ > 0,
        ensures
            criterion@ == (State {
                config: Settings { measurement_time: dur@, ..self@.config },
                ..self@
            }),
            self@.config.valid() ==> criterion@.config.valid(),
    {
        let mut criterion = self;
        criterion.config.measurement_time = dur;
        criterion
    }

    /// Changes the default number of resamples for benchmarks run with this runner.
    ///
    /// Number of resamples to use for the
    /// [bootstrap](http://en.wikipedia.org/wiki/Bootstrapping_(statistics)#Case_resampling)
    ///
    /// A larger number of resamples reduces the random sampling errors, which are inherent to the
    /// bootstrap method, but also increases the analysis time
    ///
    /// The number of resamples must not be zero. A warning is due for one of at most 1000.
    pub fn nresamples(self, n: usize) -> (criterion: Criterion<M, P>)
        requires
            n > 0,
        ensures
            criterion@ == (State {
                config: Settings { nresamples: n as nat, ..self@.config },
                notices: if n <= 1000 {
                    self@.notices.push(Notice::FewResamples)
                } else {
                    self@.notices
                },
                ..self@
            }),
            self@.config.valid() ==> criterion@.config.valid(),
    {
        let mut criterion = self;
        if n <= 1000 {
            criterion.notices.push(Notice::FewResamples);
        }
        criterion.config.nresamples = n;
        criterion
    }

    /// Changes the default noise threshold for benchmarks run with this runner. The noise threshold
    /// is used to filter out small changes in performance, even if they are statistically
    /// significant. Sometimes benchmarking the same code twice will result in small but
    /// statistically significant differences solely because of noise. This provides a way to filter
    /// out some of these false positives at the cost of making it harder to detect small changes
    /// to the true performance of the benchmark.
    ///
    /// The default is 0.01, meaning that changes smaller than 1% will be ignored.
    ///
    /// The threshold must not be negative.
    pub fn noise_threshold(self, threshold: Float) -> (criterion: Criterion<M, P>)
        requires
            Float::zero().at_most(threshold),
        ensures
            criterion@ == (State {
                config: Settings { noise_threshold: threshold, ..self@.config },
                ..self@
            }),
            self@.config.valid() ==> criterion@.config.valid(),
    {
        let mut criterion = self;
        criterion.config.noise_threshold = threshold;
        criterion
    }

    /// Changes the default confidence level for benchmarks run with this runner. The confidence
    /// level is the desired probability that the true runtime lies within the estimated
    /// [confidence interval](https://en.wikipedia.org/wiki/Confidence_interval). The default is
    /// 0.95, meaning that the confidence interval should capture the true value 95% of the time.
    ///
    /// The level must lie between zero and one. A warning is due for one below one half.
    pub fn confidence_level(self, cl: Float) -> (criterion: Criterion<M, P>)
        requires
            cl.is_proper_fraction(),
        ensures
            criterion@ == (State {
                config: Settings { confidence_level: cl, ..self@.config },
                notices: if cl.less(Float::half()) {
                    self@.notices.push(Notice::LowConfidence)
                } else {
                    self@.notices
                },
                ..self@
            }),
            self@.config.valid() ==> criterion@.config.valid(),
    {
        let mut criterion = self;
        if cl.is_below_half() {
            criterion.notices.push(Notice::LowConfidence);
        }
        criterion.config.confidence_level = cl;
        criterion
    }

    /// Changes the default [significance level](https://en.wikipedia.org/wiki/Statistical_significance)
    /// for benchmarks run with this runner. This is used to perform a
    /// [hypothesis test](https://en.wikipedia.org/wiki/Statistical_hypothesis_testing) to see if
    /// the measurements from this run are different from the measured performance of the last run.
    /// The significance level is the desired probability that two measurements of identical code
    /// will be considered 'different' due to noise in the measurements. The default value is 0.05,
    /// meaning that approximately 5% of identical benchmarks will register as different due to
    /// noise.
    ///
    /// The level must lie between zero and one.
    pub fn significance_level(self, sl: Float) -> (criterion: Criterion<M, P>)
        requires
            sl.is_proper_fraction(),
        ensures
            criterion@ == (State {
                config: Settings { significance_level: sl, ..self@.config },
                ..self@
            }),
            self@.config.valid() ==> criterion@.config.valid(),
    {
        let mut criterion = self;
        criterion.config.significance_level = sl;
        criterion
    }

    /// What draws the plots.
    pub fn create_plotter(&self) -> (plotter: Plotter)
        ensures
            plotter == plotter_of(self@.plotting_backend),
    {
        match self.plotting_backend {
            PlottingBackend::Gnuplot => Plotter::Gnuplot,
            PlottingBackend::Plotters => Plotter::PlottersBackend,
        }
    }

    /// Enables plotting
    pub fn with_plots(self) -> (criterion: Criterion<M, P>)
        ensures
            criterion@ == (State {
                plotting_enabled: true,
                reports: standard_reports(self@.connected).push(
                    Report::Html(plotter_of(self@.plotting_backend)),
                ),
                ..self@
            }),
    {
        let mut reports = make_standard_reports(self.connected);
        reports.push(Report::Html(self.create_plotter()));
        let mut criterion = self;
        criterion.plotting_enabled = true;
        criterion.reports = reports;
        criterion
    }

    /// Disables plotting
    pub fn without_plots(self) -> (criterion: Criterion<M, P>)
        ensures
            criterion@ == (State {
                plotting_enabled: false,
                reports: standard_reports(self@.connected),
                ..self@
            }),
    {
        let reports = make_standard_reports(self.connected);
        let mut criterion = self;
        criterion.plotting_enabled = false;
        criterion.reports = reports;
        criterion
    }

    /// Return true if generation of the plots is possible.
    pub fn can_plot(&self) -> (possible: bool)
        ensures
            possible,
    {
        true
    }

    /// Names an explicit baseline and enables overwriting the previous results.
    pub fn save_baseline(self, baseline: String) -> (criterion: Criterion<M, P>)
        ensures
            criterion@ == (State {
                baseline_directory: baseline@,
                baseline: Baseline::Save,
                ..self@
            }),
    {
        let mut criterion = self;
        criterion.baseline_directory = baseline;
        criterion.baseline = Baseline::Save;
        criterion
    }

    /// Names an explicit baseline and disables overwriting the previous results.
    pub fn retain_baseline(self, baseline: String) -> (criterion: Criterion<M, P>)
        ensures
            criterion@ == (State {
                baseline_directory: baseline@,
                baseline: Baseline::Compare,
                ..self@
            }),
    {
        let mut criterion = self;
        criterion.baseline_directory = baseline;
        criterion.baseline = Baseline::Compare;
        criterion
    }

    /// Filters the benchmarks. Only benchmarks with names that contain the given string will be
    /// executed.
    ///
    /// A string that is no regular expression is not acceptable; see
    /// [`Criterion::try_with_filter`] for one that may not be.
    pub fn with_filter(self, filter: String) -> (criterion: Criterion<M, P>)
        requires
            regex_error(filter@) is None,
        ensures
            criterion@ == (State { filter: Some(filter@), ..self@ }),
    {
        let mut criterion = self;
        match Filter::new(filter) {
            Ok(filter) => {
                criterion.filter = Some(filter);
            },
            Err(_) => {
                assert(false);
            },
        }
        criterion
    }

    /// Filters the benchmarks, as [`Criterion::with_filter`] does, or tells what is wrong with the
    /// filter.
    pub fn try_with_filter(self, filter: String) -> (criterion: Result<
        Criterion<M, P>,
        FilterError,
    >)
        ensures
            match criterion {
                Ok(criterion) => regex_error(filter@) is None && criterion@ == (State {
                    filter: Some(filter@),
                    ..self@
                }),
                Err(error) => error.pattern@ == filter@ && regex_error(filter@) == Some(
                    error.error@,
                ),
            },
    {
        match Filter::new(filter.clone()) {
            Ok(_) => Ok(self.with_filter(filter)),
            Err(error) => Err(error),
        }
    }

    /// Set the output directory
    pub fn output_directory(self, path: PathBuf) -> (criterion: Criterion<M, P>)
        ensures
            criterion@ == (State { output_directory: OutputDirectory::At(path), ..self@ }),
    {
        let mut criterion = self;
        criterion.output_directory = OutputDirectory::At(path);
        criterion
    }

    /// Set the profile time
    pub fn profile_time(self, profile_time: Option<Duration>) -> (criterion: Criterion<M, P>)
        ensures
            criterion@ == (State {
                mode: match profile_time {
                    Some(time) => Purpose::Profile(time@),
                    None => Purpose::Benchmark,
                },
                ..self@
            }),
    {
        let mut criterion = self;
        match profile_time {
            Some(time) => {
                criterion.mode = Mode::Profile(time);
            },
            None => {
                criterion.mode = Mode::Benchmark;
            },
        }
        criterion
    }

    /// Generate the final summary at the end of a run, unless the run was for something else than
    /// benchmarks.
    pub fn final_summary(&self) -> (summary: Option<FinalSummary<'_>>)
        ensures
            self@.summarized_by(summary),
    {
        if !self.mode.is_benchmark() {
            return None;
        }
        let context = ReportContext {
            output_directory: &self.output_directory,
            plot_config: PlotConfiguration::default(),
        };
        Some(FinalSummary { reports: &self.reports, context })
    }

    /// Whether the benchmark with the name `id` is to be run.
    pub fn filter_matches(&self, id: &str) -> (matches: bool)
        ensures
            self@.filter is None ==> matches,
            self@.filter matches Some(text) ==> matches == occurs_in(text, id@),
    {
        match &self.filter {
            Some(filter) => filter.matches(id),
            None => true,
        }
    }

    /// Whether debug output is asked for.
    pub fn debug_enabled(&self) -> (enabled: bool)
        ensures
            enabled == self@.debug_enabled,
    {
        self.debug_enabled
    }
}

} // verus!
