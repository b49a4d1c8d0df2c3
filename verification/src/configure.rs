//! How the command line configures the benchmark manager.

use crate::arguments::{number_or_text, ArgumentError, Arguments, Options, Problem};
use crate::config::{BenchmarkConfig, Settings};
use crate::criterion::{plotter_of, text_of, Criterion, State};
use crate::decimal::{decimal_within, parse_u64, parse_usize};
use crate::duration::{Duration, NANOS_PER_SEC};
use crate::filter::regex_error;
use crate::float::Float;
use crate::measurement::Measurement;
use crate::mode::{Baseline, Mode, Purpose};
use crate::plotting::PlottingBackend;
use crate::report::Report;
use vstd::prelude::*;

verus! {

/// Whether the benchmarks are only to be tested: `--test` asks for that, and so does a process that
/// was not started as a benchmark.
pub open spec fn is_test(options: Options) -> bool {
    options.test || !options.bench
}

/// The number that an option gives, where it gives one of at most `limit`.
pub open spec fn number(option: Option<Seq<char>>, limit: nat) -> Option<nat> {
    match option {
        Some(text) => decimal_within(text, limit),
        None => None,
    }
}

/// What the run is for. Testing comes before listing, and listing before profiling.
pub open spec fn purpose(options: Options) -> Purpose {
    if is_test(options) {
        Purpose::Test
    } else if options.list {
        Purpose::List
    } else if options.profile_time is Some {
        Purpose::Profile(
            number(options.profile_time, u64::MAX as nat).unwrap() * NANOS_PER_SEC as nat,
        )
    } else {
        Purpose::Benchmark
    }
}

/// The first of two problems.
pub open spec fn or_else(first: Option<Problem>, second: Option<Problem>) -> Option<Problem> {
    if first is Some {
        first
    } else {
        second
    }
}

/// What is wrong with an option that is to give a number from `least` to `limit`: it can be no such
/// number at all, or too small, which is the problem `too_small`.
pub open spec fn number_problem(
    option: Option<Seq<char>>,
    least: nat,
    limit: nat,
    too_small: Problem,
) -> Option<Problem> {
    match option {
        None => None,
        Some(text) => match decimal_within(text, limit) {
            None => Some(Problem::Unreadable(text)),
            Some(n) => if n < least {
                Some(too_small)
            } else {
                None
            },
        },
    }
}

/// What is wrong with the profile time, where the run is for profiling.
pub open spec fn profile_time_problem(options: Options) -> Option<Problem> {
    if is_test(options) || options.list {
        None
    } else {
        number_problem(options.profile_time, 1, u64::MAX as nat, Problem::ProfileTimeTooShort)
    }
}

/// What is wrong with the filter.
pub open spec fn filter_problem(options: Options) -> Option<Problem> {
    match options.filter {
        None => None,
        Some(pattern) => match regex_error(pattern) {
            None => None,
            Some(error) => Some(Problem::BadFilter { pattern, error }),
        },
    }
}

/// What is wrong with the plotting backend.
pub open spec fn backend_problem(
    name: Option<Seq<char>>,
    gnuplot_available: bool,
) -> Option<Problem> {
    match name {
        None => None,
        Some(name) => if name == "gnuplot"@ {
            if gnuplot_available {
                None
            } else {
                Some(Problem::GnuplotUnavailable)
            }
        } else if name == "plotters"@ {
            None
        } else {
            Some(Problem::UnexpectedBackend(name))
        },
    }
}

/// What is wrong with an option that is to give a number for which `fits` holds.
pub open spec fn float_problem(
    option: Option<Result<Float, Seq<char>>>,
    fits: bool,
    misfit: Problem,
) -> Option<Problem> {
    match option {
        None => None,
        Some(Err(text)) => Some(Problem::Unreadable(text)),
        Some(Ok(_)) => if fits {
            None
        } else {
            Some(misfit)
        },
    }
}

/// What is wrong with the noise threshold.
pub open spec fn noise_threshold_problem(options: Options) -> Option<Problem> {
    float_problem(
        options.noise_threshold,
        options.noise_threshold matches Some(Ok(threshold)) && Float::zero().less(threshold),
        Problem::NoiseThresholdNotPositive,
    )
}

/// What is wrong with the confidence level.
pub open spec fn confidence_level_problem(options: Options) -> Option<Problem> {
    float_problem(
        options.confidence_level,
        options.confidence_level matches Some(Ok(level)) && level.is_proper_fraction(),
        Problem::ConfidenceLevelOutOfRange,
    )
}

/// What is wrong with the significance level.
pub open spec fn significance_level_problem(options: Options) -> Option<Problem> {
    float_problem(
        options.significance_level,
        options.significance_level matches Some(Ok(level)) && level.is_proper_fraction(),
        Problem::SignificanceLevelOutOfRange,
    )
}

/// What is wrong with the settings of the measurement and of its analysis, the first problem first.
pub open spec fn settings_problem(options: Options) -> Option<Problem> {
    or_else(
        number_problem(
            options.sample_size,
            10,
            usize::MAX as nat,
            Problem::SampleSizeTooSmall,
        ),
        or_else(
            number_problem(options.warm_up_time, 1, u64::MAX as nat, Problem::NoWarmUpTime),
            or_else(
                number_problem(
                    options.measurement_time,
                    1,
                    u64::MAX as nat,
                    Problem::NoMeasurementTime,
                ),
                or_else(
                    number_problem(
                        options.nresamples,
                        1,
                        usize::MAX as nat,
                        Problem::NoResamples,
                    ),
                    or_else(
                        noise_threshold_problem(options),
                        or_else(
                            confidence_level_problem(options),
                            significance_level_problem(options),
                        ),
                    ),
                ),
            ),
        ),
    )
}

/// What is wrong with a command line, the first problem first.
pub open spec fn problem(options: Options, gnuplot_available: bool) -> Option<Problem> {
    or_else(
        profile_time_problem(options),
        or_else(
            filter_problem(options),
            or_else(
                backend_problem(options.plotting_backend, gnuplot_available),
                settings_problem(options),
            ),
        ),
    )
}

/// The number of an option, or `otherwise` where it is not given.
pub open spec fn number_or(option: Option<Seq<char>>, limit: nat, otherwise: nat) -> nat {
    match number(option, limit) {
        Some(n) => n,
        None => otherwise,
    }
}

/// The nanoseconds in an option that gives seconds, or `otherwise` where it is not given.
pub open spec fn seconds_or(option: Option<Seq<char>>, otherwise: nat) -> nat {
    match number(option, u64::MAX as nat) {
        Some(n) => n * NANOS_PER_SEC as nat,
        None => otherwise,
    }
}

/// The number of an option, or `otherwise` where it is not given.
pub open spec fn float_or(option: Option<Result<Float, Seq<char>>>, otherwise: Float) -> Float {
    match option {
        Some(Ok(number)) => number,
        _ => otherwise,
    }
}

/// The settings of the measurement and of its analysis: those that are asked for, the others as
/// they were.
pub open spec fn settings(before: Settings, options: Options) -> Settings {
    Settings {
        confidence_level: float_or(options.confidence_level, before.confidence_level),
        measurement_time: seconds_or(options.measurement_time, before.measurement_time),
        noise_threshold: float_or(options.noise_threshold, before.noise_threshold),
        nresamples: number_or(options.nresamples, usize::MAX as nat, before.nresamples),
        sample_size: number_or(options.sample_size, usize::MAX as nat, before.sample_size),
        significance_level: float_or(options.significance_level, before.significance_level),
        warm_up_time: seconds_or(options.warm_up_time, before.warm_up_time),
    }
}

/// The report on the command line. Text is overwritten only on a terminal, and not where it is to
/// stay: not in verbose or debug output, nor where colors are never to be used. It is colored where
/// that is asked for, and else on a terminal where the process is compiled for unix.
pub open spec fn cli_report(options: Options, debug_enabled: bool) -> Report {
    if options.output_format == Some("bencher"@) {
        Report::Bencher
    } else {
        Report::Cli {
            enable_text_overwrite: options.stdout_is_terminal && !options.verbose && !debug_enabled
                && options.color != Some("never"@),
            enable_text_coloring: if options.color == Some("always"@) {
                true
            } else if options.color == Some("never"@) {
                false
            } else {
                options.stdout_is_terminal && options.compiled_for_unix
            },
            verbose: options.verbose,
        }
    }
}

/// The reports: none where a runner does the reporting, else the one on the command line, the file
/// of values and, unless plots are not wanted, the pages.
pub open spec fn reports(
    options: Options,
    connected: bool,
    backend: PlottingBackend,
    debug_enabled: bool,
) -> Seq<Report> {
    if connected {
        seq![]
    } else if options.noplot {
        seq![cli_report(options, debug_enabled), Report::FileCsv]
    } else {
        seq![
            cli_report(options, debug_enabled),
            Report::FileCsv,
            Report::Html(plotter_of(backend)),
        ]
    }
}

/// The plotting backend: the one asked for, or the one there was.
pub open spec fn backend(before: PlottingBackend, name: Option<Seq<char>>) -> PlottingBackend {
    if name == Some("gnuplot"@) {
        PlottingBackend::Gnuplot
    } else if name == Some("plotters"@) {
        PlottingBackend::Plotters
    } else {
        before
    }
}

/// The name of the baseline. One to compare to comes before one to save to.
pub open spec fn baseline_name(before: Seq<char>, options: Options) -> Seq<char> {
    match (options.baseline, options.save_baseline) {
        (Some(name), _) => name,
        (None, Some(name)) => name,
        (None, None) => before,
    }
}

/// What is done with the baseline.
pub open spec fn baseline_use(before: Baseline, options: Options) -> Baseline {
    match (options.baseline, options.save_baseline) {
        (Some(_), _) => Baseline::Compare,
        (None, Some(_)) => Baseline::Save,
        (None, None) => before,
    }
}

/// The benchmark manager after the command line was followed. A runner is only kept for benchmarks.
pub open spec fn configured<M, P>(before: State<M, P>, options: Options) -> State<M, P> {
    let connected = before.connected && purpose(options) is Benchmark;
    State {
        config: settings(before.config, options),
        plotting_backend: backend(before.plotting_backend, options.plotting_backend),
        plotting_enabled: !options.noplot,
        filter: if options.filter is Some {
            options.filter
        } else {
            before.filter
        },
        reports: reports(
            options,
            connected,
            backend(before.plotting_backend, options.plotting_backend),
            before.debug_enabled,
        ),
        baseline_directory: baseline_name(before.baseline_directory, options),
        baseline: baseline_use(before.baseline, options),
        load_baseline: if options.load_baseline is Some {
            options.load_baseline
        } else {
            before.load_baseline
        },
        connected,
        mode: purpose(options),
        ..before
    }
}

/// Whether `text` is `word`.
fn is_word(text: &String, word: &str) -> (result: bool)
    ensures
        result == (text@ == word@),
{
    *text == word.to_owned()
}

/// Whether `text` is given and is `word`.
fn gives_word(text: &Option<String>, word: &str) -> (result: bool)
    ensures
        result == (text_of(*text) == Some(word@)),
{
    match text {
        Some(text) => is_word(text, word),
        None => false,
    }
}

/// What the run is for.
fn choose_mode(arguments: &Arguments) -> (mode: Result<Mode, ArgumentError>)
    ensures
        match mode {
            Ok(mode) => profile_time_problem(arguments@) is None && mode@ == purpose(arguments@),
            Err(error) => profile_time_problem(arguments@) == Some(error@),
        },
{
    let test_mode: bool = match (arguments.bench, arguments.test) {
        (true, true) => true,
        (true, false) => false,
        (false, _) => true,
    };
    if test_mode {
        Ok(Mode::Test)
    } else if arguments.list {
        Ok(Mode::List)
    } else {
        match &arguments.profile_time {
            None => Ok(Mode::Benchmark),
            Some(text) => match parse_u64(text.as_str()) {
                None => Err(ArgumentError::Unreadable(text.clone())),
                Some(num_seconds) => if num_seconds < 1 {
                    Err(ArgumentError::ProfileTimeTooShort)
                } else {
                    Ok(Mode::Profile(Duration::from_secs(num_seconds)))
                },
            },
        }
    }
}

/// The plotting backend that is asked for, if any.
fn choose_backend(name: &Option<String>, gnuplot_available: bool) -> (chosen: Result<
    Option<PlottingBackend>,
    ArgumentError,
>)
    ensures
        match chosen {
            Ok(chosen) => {
                &&& backend_problem(text_of(*name), gnuplot_available) is None
                &&& chosen is Some == name is Some
                &&& chosen == Some(PlottingBackend::Gnuplot) ==> gnuplot_available
                &&& forall|before: PlottingBackend| #[trigger]
                    backend(before, text_of(*name)) == match chosen {
                        Some(chosen) => chosen,
                        None => before,
                    }
            },
            Err(error) => backend_problem(text_of(*name), gnuplot_available) == Some(error@),
        },
{
    proof {
        reveal_strlit("gnuplot");
        reveal_strlit("plotters");
        assert("gnuplot"@.len() != "plotters"@.len());
    }
    match name {
        None => Ok(None),
        Some(name) => if is_word(name, "gnuplot") {
            if gnuplot_available {
                Ok(Some(PlottingBackend::Gnuplot))
            } else {
                Err(ArgumentError::GnuplotUnavailable)
            }
        } else if is_word(name, "plotters") {
            Ok(Some(PlottingBackend::Plotters))
        } else {
            Err(ArgumentError::UnexpectedBackend(name.clone()))
        },
    }
}

/// The report on the command line.
fn choose_cli_report(arguments: &Arguments, debug_enabled: bool) -> (report: Report)
    ensures
        report == cli_report(arguments@, debug_enabled),
{
    if gives_word(&arguments.output_format, "bencher") {
        return Report::Bencher;
    }
    proof {
        reveal_strlit("always");
        reveal_strlit("never");
        assert("always"@.len() != "never"@.len());
    }
    let verbose: bool = arguments.verbose;
    let stdout_isatty: bool = arguments.stdout_is_terminal;
    let mut enable_text_overwrite: bool = stdout_isatty && !verbose && !debug_enabled;
    let enable_text_coloring: bool;
    if gives_word(&arguments.color, "always") {
        enable_text_coloring = true;
    } else if gives_word(&arguments.color, "never") {
        enable_text_coloring = false;
        enable_text_overwrite = false;
    } else {
        enable_text_coloring = stdout_isatty && arguments.compiled_for_unix;
    }
    Report::Cli { enable_text_overwrite, enable_text_coloring, verbose }
}

/// The size that an option gives: one of at least `least`, or the error `too_small`.
fn choose_size(
    option: &Option<String>,
    least: usize,
    before: usize,
    too_small: ArgumentError,
) -> (chosen: Result<usize, ArgumentError>)
    ensures
        match chosen {
            Ok(n) => {
                &&& number_problem(
                    text_of(*option),
                    least as nat,
                    usize::MAX as nat,
                    too_small@,
                ) is None
                &&& n == number_or(text_of(*option), usize::MAX as nat, before as nat)
            },
            Err(error) => number_problem(
                text_of(*option),
                least as nat,
                usize::MAX as nat,
                too_small@,
            ) == Some(error@),
        },
{
    match option {
        None => Ok(before),
        Some(text) => match parse_usize(text.as_str()) {
            None => Err(ArgumentError::Unreadable(text.clone())),
            Some(n) => if n < least {
                Err(too_small)
            } else {
                Ok(n)
            },
        },
    }
}

/// The time that an option gives: one of at least a second, or the error `too_small`.
fn choose_time(
    option: &Option<String>,
    before: Duration,
    too_small: ArgumentError,
) -> (chosen: Result<Duration, ArgumentError>)
    ensures
        match chosen {
            Ok(time) => {
                &&& number_problem(text_of(*option), 1, u64::MAX as nat, too_small@) is None
                &&& time@ == seconds_or(text_of(*option), before@)
            },
            Err(error) => number_problem(text_of(*option), 1, u64::MAX as nat, too_small@) == Some(
                error@,
            ),
        },
{
    match option {
        None => Ok(before),
        Some(text) => match parse_u64(text.as_str()) {
            None => Err(ArgumentError::Unreadable(text.clone())),
            Some(num_seconds) => {
                let time = Duration::new(num_seconds, 0);
                if time.is_zero() {
                    Err(too_small)
                } else {
                    Ok(time)
                }
            },
        },
    }
}

/// The level that an option gives: one between zero and one, or the error `misfit`.
fn choose_level(
    option: &Option<Result<Float, String>>,
    before: Float,
    misfit: ArgumentError,
) -> (chosen: Result<Float, ArgumentError>)
    ensures
        match chosen {
            Ok(level) => {
                &&& float_problem(
                    number_or_text(*option),
                    *option matches Some(Ok(level)) && level.is_proper_fraction(),
                    misfit@,
                ) is None
                &&& level == float_or(number_or_text(*option), before)
            },
            Err(error) => float_problem(
                number_or_text(*option),
                *option matches Some(Ok(level)) && level.is_proper_fraction(),
                misfit@,
            ) == Some(error@),
        },
{
    match option {
        None => Ok(before),
        Some(Err(text)) => Err(ArgumentError::Unreadable(text.clone())),
        Some(Ok(level)) => if level.is_between_zero_and_one() {
            Ok(*level)
        } else {
            Err(misfit)
        },
    }
}

/// The noise threshold that an option gives: one greater than zero.
fn choose_threshold(option: &Option<Result<Float, String>>, before: Float) -> (chosen: Result<
    Float,
    ArgumentError,
>)
    ensures
        match chosen {
            Ok(threshold) => {
                &&& float_problem(
                    number_or_text(*option),
                    *option matches Some(Ok(threshold)) && Float::zero().less(threshold),
                    Problem::NoiseThresholdNotPositive,
                ) is None
                &&& threshold == float_or(number_or_text(*option), before)
            },
            Err(error) => float_problem(
                number_or_text(*option),
                *option matches Some(Ok(threshold)) && Float::zero().less(threshold),
                Problem::NoiseThresholdNotPositive,
            ) == Some(error@),
        },
{
    match option {
        None => Ok(before),
        Some(Err(text)) => Err(ArgumentError::Unreadable(text.clone())),
        Some(Ok(threshold)) => if threshold.is_positive() {
            Ok(*threshold)
        } else {
            Err(ArgumentError::NoiseThresholdNotPositive)
        },
    }
}

/// The settings of the measurement and of its analysis.
fn choose_settings(arguments: &Arguments, before: BenchmarkConfig) -> (config: Result<
    BenchmarkConfig,
    ArgumentError,
>)
    ensures
        match config {
            Ok(config) => settings_problem(arguments@) is None && config@ == settings(
                before@,
                arguments@,
            ),
            Err(error) => settings_problem(arguments@) == Some(error@),
        },
{
    let mut config = before;
    match choose_size(
        &arguments.sample_size,
        10,
        before.sample_size,
        ArgumentError::SampleSizeTooSmall,
    ) {
        Ok(n) => {
            config.sample_size = n;
        },
        Err(error) => {
            return Err(error);
        },
    }
    match choose_time(&arguments.warm_up_time, before.warm_up_time, ArgumentError::NoWarmUpTime) {
        Ok(time) => {
            config.warm_up_time = time;
        },
        Err(error) => {
            return Err(error);
        },
    }
    match choose_time(
        &arguments.measurement_time,
        before.measurement_time,
        ArgumentError::NoMeasurementTime,
    ) {
        Ok(time) => {
            config.measurement_time = time;
        },
        Err(error) => {
            return Err(error);
        },
    }
    match choose_size(&arguments.nresamples, 1, before.nresamples, ArgumentError::NoResamples) {
        Ok(n) => {
            config.nresamples = n;
        },
        Err(error) => {
            return Err(error);
        },
    }
    match choose_threshold(&arguments.noise_threshold, before.noise_threshold) {
        Ok(threshold) => {
            config.noise_threshold = threshold;
        },
        Err(error) => {
            return Err(error);
        },
    }
    match choose_level(
        &arguments.confidence_level,
        before.confidence_level,
        ArgumentError::ConfidenceLevelOutOfRange,
    ) {
        Ok(level) => {
            config.confidence_level = level;
        },
        Err(error) => {
            return Err(error);
        },
    }
    match choose_level(
        &arguments.significance_level,
        before.significance_level,
        ArgumentError::SignificanceLevelOutOfRange,
    ) {
        Ok(level) => {
            config.significance_level = level;
        },
        Err(error) => {
            return Err(error);
        },
    }
    Ok(config)
}

impl<M: Measurement, P> Criterion<M, P> {
    /// The reports.
    fn choose_reports(&self, arguments: &Arguments) -> (chosen: Vec<Report>)
        ensures
            chosen@ == reports(
                arguments@,
                self@.connected,
                self@.plotting_backend,
                self@.debug_enabled,
            ),
    {
        let mut chosen: Vec<Report> = Vec::new();
        if !self.connected {
            chosen.push(choose_cli_report(arguments, self.debug_enabled()));
            chosen.push(Report::FileCsv);
            if !arguments.noplot {
                chosen.push(Report::Html(self.create_plotter()));
            }
        }
        assert(chosen@ =~= reports(
            arguments@,
            self@.connected,
            self@.plotting_backend,
            self@.debug_enabled,
        ));
        chosen
    }

    /// Follows the command line in what the run is for.
    fn follow_mode(self, arguments: &Arguments) -> (criterion: Result<Self, ArgumentError>)
        ensures
            match criterion {
                Ok(criterion) => {
                    &&& profile_time_problem(arguments@) is None
                    &&& criterion@ == (State {
                        mode: purpose(arguments@),
                        connected: self@.connected && purpose(arguments@) is Benchmark,
                        ..self@
                    })
                },
                Err(error) => profile_time_problem(arguments@) == Some(error@),
            },
    {
        let mut criterion = self;
        match choose_mode(arguments) {
            Ok(mode) => {
                criterion.mode = mode;
            },
            Err(error) => {
                return Err(error);
            },
        }
        // A runner has no use for anything but benchmarks.
        if !criterion.mode.is_benchmark() {
            criterion.connected = false;
        }
        Ok(criterion)
    }

    /// Follows the command line in which benchmarks to run.
    fn follow_filter(self, arguments: &Arguments) -> (criterion: Result<Self, ArgumentError>)
        ensures
            match criterion {
                Ok(criterion) => {
                    &&& filter_problem(arguments@) is None
                    &&& criterion@ == (State {
                        filter: if arguments@.filter is Some {
                            arguments@.filter
                        } else {
                            self@.filter
                        },
                        ..self@
                    })
                },
                Err(error) => filter_problem(arguments@) == Some(error@),
            },
    {
        match &arguments.filter {
            None => Ok(self),
            Some(filter) => match self.try_with_filter(filter.clone()) {
                Ok(criterion) => Ok(criterion),
                Err(error) => Err(ArgumentError::BadFilter(error)),
            },
        }
    }

    /// Follows the command line in whether and how to plot.
    fn follow_plots(self, arguments: &Arguments) -> (criterion: Result<Self, ArgumentError>)
        ensures
            match criterion {
                Ok(criterion) => {
                    &&& backend_problem(
                        arguments@.plotting_backend,
                        self@.gnuplot_available,
                    ) is None
                    &&& criterion@ == (State {
                        plotting_backend: backend(
                            self@.plotting_backend,
                            arguments@.plotting_backend,
                        ),
                        plotting_enabled: !arguments@.noplot,
                        reports: criterion@.reports,
                        ..self@
                    })
                },
                Err(error) => backend_problem(
                    arguments@.plotting_backend,
                    self@.gnuplot_available,
                ) == Some(error@),
            },
    {
        let mut criterion = self;
        match choose_backend(&arguments.plotting_backend, criterion.gnuplot_available) {
            Ok(Some(backend)) => {
                criterion = criterion.plotting_backend(backend);
            },
            Ok(None) => {},
            Err(error) => {
                return Err(error);
            },
        }
        if arguments.noplot {
            Ok(criterion.without_plots())
        } else {
            Ok(criterion.with_plots())
        }
    }

    /// Follows the command line in which baselines to use. One to compare to comes before one to
    /// save to.
    fn follow_baselines(self, arguments: &Arguments) -> (criterion: Self)
        ensures
            criterion@ == (State {
                baseline_directory: baseline_name(self@.baseline_directory, arguments@),
                baseline: baseline_use(self@.baseline, arguments@),
                load_baseline: if arguments@.load_baseline is Some {
                    arguments@.load_baseline
                } else {
                    self@.load_baseline
                },
                ..self@
            }),
    {
        let mut criterion = self;
        if let Some(name) = &arguments.save_baseline {
            criterion = criterion.save_baseline(name.clone());
        }
        if let Some(name) = &arguments.baseline {
            criterion = criterion.retain_baseline(name.clone());
        }
        if let Some(name) = &arguments.load_baseline {
            criterion.load_baseline = Some(name.clone());
        }
        criterion
    }

    /// Configure this criterion struct based on the command-line arguments to this process.
    pub fn configure_from_args(self, arguments: Arguments) -> (criterion: Result<
        Criterion<M, P>,
        ArgumentError,
    >)
        ensures
            match criterion {
                Ok(criterion) => {
                    &&& problem(arguments@, self@.gnuplot_available) is None
                    &&& criterion@ == configured(self@, arguments@)
                },
                Err(error) => problem(arguments@, self@.gnuplot_available) == Some(error@),
            },
    {
        let criterion = match self.follow_mode(&arguments) {
            Ok(criterion) => criterion,
            Err(error) => {
                return Err(error);
            },
        };
        let criterion = match criterion.follow_filter(&arguments) {
            Ok(criterion) => criterion,
            Err(error) => {
                return Err(error);
            },
        };
        let criterion = match criterion.follow_plots(&arguments) {
            Ok(criterion) => criterion,
            Err(error) => {
                return Err(error);
            },
        };
        let mut criterion = criterion.follow_baselines(&arguments);
        criterion.reports = criterion.choose_reports(&arguments);
        match choose_settings(&arguments, criterion.config) {
            Ok(config) => {
                criterion.config = config;
            },
            Err(error) => {
                return Err(error);
            },
        }
        Ok(criterion)
    }
}

/// A command line without problems turns valid settings into valid settings.
pub proof fn settings_stay_valid(before: Settings, options: Options, gnuplot_available: bool)
    requires
        before.valid(),
        problem(options, gnuplot_available) is None,
    ensures
        settings(before, options).valid(),
{
    if let Some(Ok(threshold)) = options.noise_threshold {
        assert(Float::zero().less(threshold));
    }
}

/// Following a command line again changes nothing any more.
pub proof fn configuring_again_changes_nothing<M, P>(before: State<M, P>, options: Options)
    ensures
        configured(configured(before, options), options) == configured(before, options),
{
    assert(configured(configured(before, options), options) =~= configured(before, options));
}

/// A setting that the command line does not mention stays as it was.
pub proof fn unmentioned_settings_stay(before: Settings, options: Options)
    ensures
        options.sample_size is None ==> settings(before, options).sample_size == before.sample_size,
        options.warm_up_time is None ==> settings(before, options).warm_up_time
            == before.warm_up_time,
        options.measurement_time is None ==> settings(before, options).measurement_time
            == before.measurement_time,
        options.nresamples is None ==> settings(before, options).nresamples == before.nresamples,
        options.noise_threshold is None ==> settings(before, options).noise_threshold
            == before.noise_threshold,
        options.confidence_level is None ==> settings(before, options).confidence_level
            == before.confidence_level,
        options.significance_level is None ==> settings(before, options).significance_level
            == before.significance_level,
{
}

/// `cargo bench` runs benchmarks, unless it is told otherwise; `cargo bench -- --test` and
/// `cargo test --benches` only test them.
pub proof fn cargo_commands_have_their_purpose(options: Options)
    ensures
        options.bench && options.test ==> purpose(options) is Test,
        !options.bench ==> purpose(options) is Test,
        options.bench && !options.test && !options.list && options.profile_time is None
            ==> purpose(options) is Benchmark,
{
}

/// A runner that the process stays connected to does all the reporting, and the process stays
/// connected only to run benchmarks.
pub proof fn runner_does_the_reporting<M, P>(before: State<M, P>, options: Options)
    ensures
        configured(before, options).connected ==> configured(before, options).mode is Benchmark
            && configured(before, options).reports.len() == 0,
        !configured(before, options).connected ==> configured(before, options).reports.len() > 0
            && configured(before, options).reports.contains(Report::FileCsv),
{
    let after = configured(before, options);
    if !after.connected {
        assert(after.reports[1] == Report::FileCsv);
    }
}

/// There are pages with plots exactly where plots are enabled and no runner does the reporting, and
/// the plots are drawn with the chosen backend.
pub proof fn plots_are_drawn_where_enabled<M, P>(before: State<M, P>, options: Options)
    ensures
        configured(before, options).plotting_enabled && !configured(before, options).connected
            <==> configured(before, options).reports.contains(
            Report::Html(plotter_of(configured(before, options).plotting_backend)),
        ),
{
    let after = configured(before, options);
    if after.plotting_enabled && !after.connected {
        assert(after.reports[2] == Report::Html(plotter_of(after.plotting_backend)));
    }
}

} // verus!
