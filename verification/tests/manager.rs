use criterion_core::criterion::Notice;
use criterion_core::environment::{choose_home_directory, runner_port, Environment};
use criterion_core::float::Float;
use criterion_core::measurement::Measurement;
use criterion_core::plotting::{GnuplotVersion, Plotter};
use criterion_core::report::{OutputDirectory, Report};
use criterion_core::{
    AxisScale, Baseline, Criterion, Duration, Mode, PlotConfiguration, PlottingBackend, Throughput,
};
use std::path::PathBuf;

fn environment() -> Environment {
    Environment {
        debug_enabled: false,
        gnuplot: GnuplotVersion::NotExecuted,
        connected: false,
        criterion_home: None,
        cargo_target_dir: None,
    }
}

fn float(value: f64) -> Float {
    Float { bits: value.to_bits() }
}

const PLAIN_CLI: Report =
    Report::Cli { enable_text_overwrite: false, enable_text_coloring: false, verbose: false };

struct Unit;

impl Measurement for Unit {
    type Intermediate = ();
    type Value = ();

    fn start(&self) {}
    fn end(&self, _start: ()) {}
    fn add(&self, _first: &(), _second: &()) {}
    fn zero(&self) {}
}

#[test]
fn default_settings() {
    let c = Criterion::default(environment());
    assert_eq!(c.config.sample_size, 100);
    assert_eq!(c.config.nresamples, 100_000);
    assert_eq!(c.config.warm_up_time.to_nanos(), 3_000_000_000);
    assert_eq!(c.config.measurement_time.to_nanos(), 5_000_000_000);
    assert_eq!(c.config.noise_threshold, float(0.01));
    assert_eq!(c.config.confidence_level, float(0.95));
    assert_eq!(c.config.significance_level, float(0.05));
    assert_eq!(c.plotting_backend, PlottingBackend::Plotters);
    assert!(c.plotting_enabled);
    assert!(c.filter.is_none());
    assert_eq!(c.reports, [PLAIN_CLI, Report::FileCsv]);
    assert_eq!(c.baseline_directory, "base");
    assert_eq!(c.baseline, Baseline::Save);
    assert!(c.load_baseline.is_none());
    assert!(c.all_directories.is_empty());
    assert!(c.all_titles.is_empty());
    assert!(c.mode.is_benchmark());
    assert!(!c.connected);
    assert!(!c.debug_enabled());
    assert!(c.notices.is_empty());
    assert!(c.can_plot());
}

#[test]
fn default_with_gnuplot_and_runner() {
    let mut env = environment();
    env.gnuplot = GnuplotVersion::Known;
    env.connected = true;
    env.debug_enabled = true;
    let c = Criterion::default(env);
    assert_eq!(c.plotting_backend, PlottingBackend::Gnuplot);
    assert!(c.gnuplot_available);
    assert_eq!(c.reports, [Report::FileCsv]);
    assert!(c.connected);
    assert!(c.debug_enabled());
}

#[test]
fn home_directory_preference() {
    let home = Some(PathBuf::from("/home/results"));
    let target = Some(PathBuf::from("/build"));
    match choose_home_directory(home, target.clone()) {
        OutputDirectory::At(path) => assert_eq!(path, PathBuf::from("/home/results")),
        _ => panic!(),
    }
    match choose_home_directory(None, target) {
        OutputDirectory::Within(path, name) => {
            assert_eq!(path.join(name), PathBuf::from("/build/criterion"))
        }
        _ => panic!(),
    }
    match choose_home_directory(None, None) {
        OutputDirectory::Relative(path) => assert_eq!(path, "target/criterion"),
        _ => panic!(),
    }
}

#[test]
fn runner_port_is_a_port_number() {
    assert_eq!(runner_port(None), None);
    assert_eq!(runner_port(Some("8080")), Some(8080));
    assert_eq!(runner_port(Some("+65535")), Some(65535));
    assert_eq!(runner_port(Some("65536")), None);
    assert_eq!(runner_port(Some("port")), None);
    assert_eq!(runner_port(Some("")), None);
}

#[test]
fn gnuplot_notices() {
    assert!(GnuplotVersion::Known.notice().is_none());
    assert_eq!(
        GnuplotVersion::NotExecuted.notice().unwrap(),
        "Gnuplot not found, using plotters backend"
    );
    assert_eq!(
        GnuplotVersion::Unusable("broken".to_string()).notice().unwrap(),
        "Gnuplot not found or not usable, using plotters backend\nbroken"
    );
    assert_eq!(
        GnuplotVersion::Unusable("broken".to_string()).default_backend(),
        PlottingBackend::Plotters
    );
}

#[test]
fn numeric_settings() {
    let c = Criterion::default(environment())
        .sample_size(10)
        .warm_up_time(Duration::new(0, 1))
        .measurement_time(Duration::from_secs(9))
        .nresamples(1001)
        .noise_threshold(float(0.0))
        .confidence_level(float(0.5))
        .significance_level(float(0.999));
    assert_eq!(c.config.sample_size, 10);
    assert_eq!(c.config.warm_up_time.to_nanos(), 1);
    assert_eq!(c.config.measurement_time.to_nanos(), 9_000_000_000);
    assert_eq!(c.config.nresamples, 1001);
    assert_eq!(c.config.noise_threshold, float(0.0));
    assert_eq!(c.config.confidence_level, float(0.5));
    assert_eq!(c.config.significance_level, float(0.999));
    assert!(c.notices.is_empty());
}

#[test]
fn warnings_are_kept_in_order() {
    let c = Criterion::default(environment())
        .nresamples(1000)
        .confidence_level(float(0.49))
        .nresamples(1);
    assert_eq!(c.notices, [Notice::FewResamples, Notice::LowConfidence, Notice::FewResamples]);
    assert_eq!(
        Notice::FewResamples.text(),
        "\nWarning: It is not recommended to reduce nresamples below 1000."
    );
    assert_eq!(
        Notice::LowConfidence.text(),
        "\nWarning: It is not recommended to reduce confidence level below 0.5."
    );
}

#[test]
fn plotting_backends() {
    let mut env = environment();
    env.gnuplot = GnuplotVersion::Known;
    let c = Criterion::default(env).plotting_backend(PlottingBackend::Plotters);
    assert_eq!(c.create_plotter(), Plotter::PlottersBackend);
    let c = c.plotting_backend(PlottingBackend::Gnuplot);
    assert_eq!(c.create_plotter(), Plotter::Gnuplot);
}

#[test]
fn plots_on_and_off() {
    let c = Criterion::default(environment()).with_plots();
    assert!(c.plotting_enabled);
    assert_eq!(c.reports, [PLAIN_CLI, Report::FileCsv, Report::Html(Plotter::PlottersBackend)]);
    let c = c.without_plots();
    assert!(!c.plotting_enabled);
    assert_eq!(c.reports, [PLAIN_CLI, Report::FileCsv]);
    let mut env = environment();
    env.connected = true;
    let c = Criterion::default(env).with_plots();
    assert_eq!(c.reports, [Report::FileCsv, Report::Html(Plotter::PlottersBackend)]);
}

#[test]
fn baselines() {
    let c = Criterion::default(environment()).retain_baseline("old".to_string());
    assert_eq!(c.baseline_directory, "old");
    assert_eq!(c.baseline, Baseline::Compare);
    let c = c.save_baseline("new".to_string());
    assert_eq!(c.baseline_directory, "new");
    assert_eq!(c.baseline, Baseline::Save);
}

#[test]
fn measurement_and_profiler_are_replaced() {
    let c = Criterion::default(environment())
        .sample_size(77)
        .with_measurement(Unit)
        .with_profiler("profiler");
    assert_eq!(c.config.sample_size, 77);
    assert_eq!(c.profiler, "profiler");
    let _: &Unit = &c.measurement;
}

#[test]
fn filters() {
    let c = Criterion::default(environment());
    assert!(c.filter_matches("anything"));
    let c = c.with_filter("sort".to_string());
    assert!(c.filter_matches("quicksort/100"));
    assert!(c.filter_matches("sort"));
    assert!(!c.filter_matches("so/rt"));
    assert!(!c.filter_matches("SORT"));
    let c = c.with_filter("quick_sort/1".to_string());
    assert!(c.filter_matches("a/quick_sort/100"));
    assert!(!c.filter_matches("quick_sort"));
    let c = c.with_filter("a.c".to_string());
    assert!(!c.filter_matches("abc"));
    assert!(c.filter_matches("xa.cy"));
    let c = c.with_filter("^merge.*[0-9]$".to_string());
    assert!(!c.filter_matches("merge/7"));
    assert!(c.filter_matches("a ^merge.*[0-9]$"));
    let c = c.with_filter("\u{e9}t\u{e9} 1-2".to_string());
    assert!(c.filter_matches("un \u{e9}t\u{e9} 1-2"));
    assert!(!c.filter_matches("\u{e9}t\u{e9}"));
    let c = c.with_filter(String::new());
    assert!(c.filter_matches(""));
    assert!(c.filter_matches("anything"));
}

#[test]
fn bad_filters_are_refused() {
    let error = match Criterion::default(environment()).try_with_filter("a(b".to_string()) {
        Ok(_) => panic!(),
        Err(error) => error,
    };
    assert_eq!(error.pattern, "a(b");
    assert!(error.error.contains("unclosed group"));
    assert!(error.message().starts_with("Unable to parse 'a(b' as a regular expression: "));
    assert!(error.message().ends_with(error.error.as_str()));
    let c = Criterion::default(environment()).try_with_filter("a+b".to_string());
    assert!(c.is_ok_and(|c| c.filter_matches("aa+b") && !c.filter_matches("aab")));
}

#[test]
fn output_directory_is_set() {
    let c = Criterion::default(environment()).output_directory(PathBuf::from("/out"));
    match c.output_directory {
        OutputDirectory::At(path) => assert_eq!(path, PathBuf::from("/out")),
        _ => panic!(),
    }
}

#[test]
fn profile_time_sets_the_mode() {
    let c = Criterion::default(environment()).profile_time(Some(Duration::from_secs(2)));
    assert!(!c.mode.is_benchmark());
    match &c.mode {
        Mode::Profile(time) => assert_eq!(time.as_secs(), 2),
        _ => panic!(),
    }
    assert!(c.final_summary().is_none());
    let c = c.profile_time(None);
    assert!(c.mode.is_benchmark());
}

#[test]
fn final_summary_of_benchmarks() {
    let c = Criterion::default(environment()).output_directory(PathBuf::from("/out"));
    let summary = c.final_summary().unwrap();
    assert_eq!(*summary.reports, [PLAIN_CLI, Report::FileCsv]);
    assert_eq!(summary.context.plot_config.summary_scale, AxisScale::Linear);
    match summary.context.output_directory {
        OutputDirectory::At(path) => assert_eq!(*path, PathBuf::from("/out")),
        _ => panic!(),
    }
}

#[test]
fn plot_configuration() {
    let config = PlotConfiguration::default();
    assert_eq!(config.summary_scale, AxisScale::Linear);
    let config = config.summary_scale(AxisScale::Logarithmic);
    assert_eq!(config.summary_scale, AxisScale::Logarithmic);
}

#[test]
fn throughputs_compare() {
    assert_eq!(Throughput::Bytes(3), Throughput::Bytes(3));
    assert_ne!(Throughput::Bytes(3), Throughput::Elements(3));
}

#[test]
fn floats_compare_as_their_values() {
    let samples = [
        0.0,
        -0.0,
        f64::MIN_POSITIVE,
        5e-324,
        -5e-324,
        0.01,
        0.05,
        0.49999999999999994,
        0.5,
        0.95,
        0.9999999999999999,
        1.0,
        1.0000000000000002,
        2.0,
        -0.5,
        -1.0,
        f64::MAX,
        f64::MIN,
        f64::INFINITY,
        f64::NEG_INFINITY,
        f64::NAN,
        -f64::NAN,
    ];
    for x in samples {
        assert_eq!(float(x).is_non_negative(), x >= 0.0);
        assert_eq!(float(x).is_positive(), x > 0.0);
        assert_eq!(float(x).is_between_zero_and_one(), x > 0.0 && x < 1.0);
        if x >= 0.0 {
            assert_eq!(float(x).is_below_half(), x < 0.5);
        }
    }
}
