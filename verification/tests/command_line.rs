use criterion_core::arguments::{ArgumentError, Arguments};
use criterion_core::decimal::{parse_u16, parse_u64, parse_usize};
use criterion_core::environment::Environment;
use criterion_core::float::Float;
use criterion_core::plotting::{GnuplotVersion, Plotter};
use criterion_core::report::Report;
use criterion_core::{runner, Baseline, Criterion, Mode, PlottingBackend};
use std::cell::RefCell;

fn environment(gnuplot: bool, connected: bool) -> Environment {
    Environment {
        debug_enabled: false,
        gnuplot: if gnuplot { GnuplotVersion::Known } else { GnuplotVersion::NotExecuted },
        connected,
        criterion_home: None,
        cargo_target_dir: None,
    }
}

/// What `cargo bench` gives.
fn arguments() -> Arguments {
    Arguments {
        bench: true,
        test: false,
        list: false,
        profile_time: None,
        filter: None,
        plotting_backend: None,
        noplot: false,
        save_baseline: Some("base".to_string()),
        baseline: None,
        output_format: Some("criterion".to_string()),
        verbose: false,
        color: Some("auto".to_string()),
        load_baseline: None,
        sample_size: None,
        warm_up_time: None,
        measurement_time: None,
        nresamples: None,
        noise_threshold: None,
        confidence_level: None,
        significance_level: None,
        stdout_is_terminal: true,
        compiled_for_unix: true,
    }
}

fn configure(arguments: Arguments) -> Result<Criterion, ArgumentError> {
    Criterion::default(environment(false, false)).configure_from_args(arguments)
}

fn good(arguments: Arguments) -> Criterion {
    match configure(arguments) {
        Ok(criterion) => criterion,
        Err(error) => panic!("{}", error.message()),
    }
}

fn bad(arguments: Arguments) -> ArgumentError {
    match configure(arguments) {
        Ok(_) => panic!("accepted"),
        Err(error) => error,
    }
}

fn some(text: &str) -> Option<String> {
    Some(text.to_string())
}

fn float(value: f64) -> Float {
    Float { bits: value.to_bits() }
}

fn cli(overwrite: bool, coloring: bool, verbose: bool) -> Report {
    Report::Cli {
        enable_text_overwrite: overwrite,
        enable_text_coloring: coloring,
        verbose,
    }
}

#[test]
fn decimals_are_read_as_by_the_standard_library() {
    for text in [
        "", "+", "-", "0", "7", "+7", "-7", "007", "++7", "7+", " 7", "7 ", "1_000", "0x10", "1.5",
        "18446744073709551615", "18446744073709551616", "00000000000000000000000000000012",
        "65535", "65536", "99999999999999999999999", "\u{0663}", "\u{ff11}", "a",
    ] {
        assert_eq!(parse_u64(text), text.parse::<u64>().ok(), "{}", text);
        assert_eq!(parse_usize(text), text.parse::<usize>().ok(), "{}", text);
        assert_eq!(parse_u16(text), text.parse::<u16>().ok(), "{}", text);
    }
}

#[test]
fn cargo_bench_runs_benchmarks() {
    let c = good(arguments());
    assert!(c.mode.is_benchmark());
    assert_eq!(
        c.reports,
        [cli(true, true, false), Report::FileCsv, Report::Html(Plotter::PlottersBackend)]
    );
    assert_eq!(c.config.sample_size, 100);
    assert_eq!(c.baseline, Baseline::Save);
    assert_eq!(c.baseline_directory, "base");
}

#[test]
fn test_mode() {
    let c = good(Arguments { test: true, ..arguments() });
    assert!(matches!(c.mode, Mode::Test));
    let c = good(Arguments { bench: false, ..arguments() });
    assert!(matches!(c.mode, Mode::Test));
    let c = good(Arguments { bench: false, list: true, profile_time: some("x"), ..arguments() });
    assert!(matches!(c.mode, Mode::Test));
}

#[test]
fn list_mode() {
    let c = good(Arguments { list: true, ..arguments() });
    assert!(matches!(c.mode, Mode::List));
}

#[test]
fn profile_mode() {
    let c = good(Arguments { profile_time: some("5"), ..arguments() });
    match c.mode {
        Mode::Profile(time) => assert_eq!(time.to_nanos(), 5_000_000_000),
        _ => panic!(),
    }
    let error = bad(Arguments { profile_time: some("0"), ..arguments() });
    assert!(matches!(error, ArgumentError::ProfileTimeTooShort));
    assert!(error.is_exit());
    assert_eq!(error.message(), "Profile time must be at least one second.");
    let error = bad(Arguments { profile_time: some("soon"), ..arguments() });
    assert!(error.is_exit());
    assert_eq!(error.message(), "The argument 'soon' isn't a valid value");
}

#[test]
fn only_benchmarks_keep_the_runner() {
    let connected = || Criterion::default(environment(false, true));
    let c = connected().configure_from_args(arguments()).ok().unwrap();
    assert!(c.connected);
    assert!(c.reports.is_empty());
    let c = connected()
        .configure_from_args(Arguments { list: true, ..arguments() })
        .ok()
        .unwrap();
    assert!(!c.connected);
    assert_eq!(c.reports.len(), 3);
}

#[test]
fn filter_argument() {
    let c = good(Arguments { filter: some("fib"), ..arguments() });
    assert!(c.filter_matches("fibonacci"));
    assert!(!c.filter_matches("sort"));
    let error = bad(Arguments { filter: some("["), ..arguments() });
    assert!(matches!(error, ArgumentError::BadFilter(_)));
    assert!(!error.is_exit());
    assert!(error.message().starts_with("Unable to parse '[' as a regular expression: "));
}

#[test]
fn plotting_backend_argument() {
    let c = good(Arguments { plotting_backend: some("plotters"), ..arguments() });
    assert_eq!(c.plotting_backend, PlottingBackend::Plotters);
    let error = bad(Arguments { plotting_backend: some("gnuplot"), ..arguments() });
    assert!(matches!(error, ArgumentError::GnuplotUnavailable));
    assert!(!error.is_exit());
    assert!(error.message().starts_with("Gnuplot plotting backend was requested, but"));
    let error = bad(Arguments { plotting_backend: some("pencil"), ..arguments() });
    assert!(!error.is_exit());
    assert_eq!(error.message(), "Unexpected plotting backend 'pencil'");
    let c = Criterion::default(environment(true, false))
        .configure_from_args(Arguments { plotting_backend: some("plotters"), ..arguments() })
        .ok()
        .unwrap();
    assert_eq!(c.plotting_backend, PlottingBackend::Plotters);
    let c = c
        .configure_from_args(Arguments { plotting_backend: some("gnuplot"), ..arguments() })
        .ok()
        .unwrap();
    assert_eq!(c.plotting_backend, PlottingBackend::Gnuplot);
    assert_eq!(c.reports[2], Report::Html(Plotter::Gnuplot));
}

#[test]
fn noplot_argument() {
    let c = good(Arguments { noplot: true, ..arguments() });
    assert!(!c.plotting_enabled);
    assert_eq!(c.reports, [cli(true, true, false), Report::FileCsv]);
}

#[test]
fn baseline_arguments() {
    let c = good(Arguments { save_baseline: some("mine"), ..arguments() });
    assert_eq!((c.baseline, c.baseline_directory.as_str()), (Baseline::Save, "mine"));
    let c = good(Arguments {
        baseline: some("theirs"),
        load_baseline: some("stored"),
        ..arguments()
    });
    assert_eq!((c.baseline, c.baseline_directory.as_str()), (Baseline::Compare, "theirs"));
    assert_eq!(c.load_baseline, some("stored"));
    let c = Criterion::default(environment(false, false))
        .retain_baseline("kept".to_string())
        .configure_from_args(Arguments { save_baseline: None, ..arguments() })
        .ok()
        .unwrap();
    assert_eq!((c.baseline, c.baseline_directory.as_str()), (Baseline::Compare, "kept"));
}

#[test]
fn command_line_reports() {
    let c = good(Arguments { output_format: some("bencher"), ..arguments() });
    assert_eq!(c.reports[0], Report::Bencher);
    let c = good(Arguments { verbose: true, ..arguments() });
    assert_eq!(c.reports[0], cli(false, true, true));
    let c = good(Arguments { color: some("never"), ..arguments() });
    assert_eq!(c.reports[0], cli(false, false, false));
    let c = good(Arguments { stdout_is_terminal: false, ..arguments() });
    assert_eq!(c.reports[0], cli(false, false, false));
    let c = good(Arguments { stdout_is_terminal: false, color: some("always"), ..arguments() });
    assert_eq!(c.reports[0], cli(false, true, false));
    let c = good(Arguments { compiled_for_unix: false, ..arguments() });
    assert_eq!(c.reports[0], cli(true, false, false));
    let c = good(Arguments { compiled_for_unix: false, color: some("always"), ..arguments() });
    assert_eq!(c.reports[0], cli(true, true, false));
    let mut env = environment(false, false);
    env.debug_enabled = true;
    let c = Criterion::default(env).configure_from_args(arguments()).ok().unwrap();
    assert_eq!(c.reports[0], cli(false, true, false));
}

#[test]
fn settings_arguments() {
    let c = good(Arguments {
        sample_size: some("10"),
        warm_up_time: some("1"),
        measurement_time: some("7"),
        nresamples: some("1"),
        noise_threshold: Some(Ok(float(0.25))),
        confidence_level: Some(Ok(float(0.4))),
        significance_level: Some(Ok(float(0.1))),
        ..arguments()
    });
    assert_eq!(c.config.sample_size, 10);
    assert_eq!(c.config.warm_up_time.as_secs(), 1);
    assert_eq!(c.config.measurement_time.as_secs(), 7);
    assert_eq!(c.config.nresamples, 1);
    assert_eq!(c.config.noise_threshold, float(0.25));
    assert_eq!(c.config.confidence_level, float(0.4));
    assert_eq!(c.config.significance_level, float(0.1));
    assert!(c.notices.is_empty());
}

#[test]
fn long_times_are_accepted() {
    let c = good(Arguments { warm_up_time: some("18446744073709551615"), ..arguments() });
    assert_eq!(c.config.warm_up_time.as_secs(), u64::MAX);
}

#[test]
fn settings_out_of_range() {
    let cases = [
        (Arguments { sample_size: some("9"), ..arguments() }, "assertion failed: num_size >= 10"),
        (
            Arguments { warm_up_time: some("0"), ..arguments() },
            "assertion failed: dur.to_nanos() > 0",
        ),
        (
            Arguments { measurement_time: some("0"), ..arguments() },
            "assertion failed: dur.to_nanos() > 0",
        ),
        (Arguments { nresamples: some("0"), ..arguments() }, "assertion failed: num_resamples > 0"),
        (
            Arguments { noise_threshold: Some(Ok(float(0.0))), ..arguments() },
            "assertion failed: num_noise_threshold > 0.0",
        ),
        (
            Arguments { confidence_level: Some(Ok(float(1.0))), ..arguments() },
            "assertion failed: num_confidence_level > 0.0 && num_confidence_level < 1.0",
        ),
        (
            Arguments { significance_level: Some(Ok(float(f64::NAN))), ..arguments() },
            "assertion failed: num_significance_level > 0.0 && num_significance_level < 1.0",
        ),
    ];
    for (arguments, message) in cases {
        let error = bad(arguments);
        assert!(!error.is_exit());
        assert_eq!(error.message(), message);
    }
}

#[test]
fn unreadable_settings() {
    let unreadable = || Some(Err("many".to_string()));
    for arguments in [
        Arguments { sample_size: some("many"), ..arguments() },
        Arguments { warm_up_time: some("many"), ..arguments() },
        Arguments { measurement_time: some("many"), ..arguments() },
        Arguments { nresamples: some("many"), ..arguments() },
        Arguments { noise_threshold: unreadable(), ..arguments() },
        Arguments { confidence_level: unreadable(), ..arguments() },
        Arguments { significance_level: unreadable(), ..arguments() },
    ] {
        let error = bad(arguments);
        assert!(error.is_exit());
        assert_eq!(error.message(), "The argument 'many' isn't a valid value");
    }
}

#[test]
fn the_first_problem_is_told() {
    let error = bad(Arguments { sample_size: some("9"), nresamples: some("0"), ..arguments() });
    assert!(matches!(error, ArgumentError::SampleSizeTooSmall));
    let error = bad(Arguments { filter: some("("), sample_size: some("9"), ..arguments() });
    assert!(matches!(error, ArgumentError::BadFilter(_)));
    let error = bad(Arguments { profile_time: some("0"), filter: some("("), ..arguments() });
    assert!(matches!(error, ArgumentError::ProfileTimeTooShort));
}

#[test]
fn configuring_again_changes_nothing() {
    let options = || Arguments {
        filter: some("fib"),
        sample_size: some("20"),
        baseline: some("theirs"),
        ..arguments()
    };
    let once = good(options());
    let reports = once.reports.clone();
    let twice = once.configure_from_args(options()).ok().unwrap();
    assert_eq!(twice.reports, reports);
    assert_eq!(twice.config.sample_size, 20);
    assert_eq!(twice.baseline_directory, "theirs");
}

fn look(arguments: Arguments) -> (Environment, Arguments) {
    (environment(false, false), arguments)
}

#[test]
fn runner_looks_around_after_the_benchmarks() {
    let calls = RefCell::new(Vec::new());
    let bench = || calls.borrow_mut().push("bench");
    let finished = runner(
        &[&bench, &bench],
        |_| {
            calls.borrow_mut().push("look");
            look(arguments())
        },
        |_, _| calls.borrow_mut().push("summary"),
    );
    assert!(finished.result.is_ok());
    assert_eq!(*calls.borrow(), ["bench", "bench", "look", "summary"]);
}

#[test]
fn runner_runs_all_and_summarizes() {
    let calls = RefCell::new(Vec::new());
    let first = || calls.borrow_mut().push(1);
    let second = || calls.borrow_mut().push(2);
    let benches: [&dyn Fn(); 3] = [&first, &second, &first];
    let mut summaries = 0;
    let result = runner(&benches, |_| look(arguments()), |_, summary| {
        summaries += 1;
        assert_eq!(*calls.borrow(), [1, 2, 1]);
        assert_eq!(summary.unwrap().reports.len(), 3);
    })
    .result;
    assert!(result.is_ok());
    assert_eq!(*calls.borrow(), [1, 2, 1]);
    assert_eq!(summaries, 1);
}

#[test]
fn runner_has_nothing_to_summarize_after_a_test() {
    let benches: [fn(); 0] = [];
    let options = Arguments { bench: false, ..arguments() };
    let result = runner(&benches, |_| look(options), |_, summary| {
        assert!(summary.is_none())
    })
    .result;
    assert!(result.is_ok());
}

#[test]
fn runner_refuses_a_bad_command_line() {
    let benches: [fn(); 0] = [];
    let options = Arguments { sample_size: some("1"), ..arguments() };
    let result = runner(&benches, |_| look(options), |_, _| panic!()).result;
    assert!(matches!(result, Err(ArgumentError::SampleSizeTooSmall)));
}
