//! What the benchmark manager is by default, and what its methods do to its fields.

use crate::criterion::Criterion;
use crate::duration::Duration;
use crate::environment::Environment;
use crate::filter::{
    regex_error, texts_are_found_only_where_they_stand, texts_are_found_where_they_are_put,
    FilterError,
};
use crate::measurement::Measurement;
use crate::mode::{Baseline, Mode, Purpose};
use crate::plotting::{AxisScale, GnuplotVersion, Plotter, PlottingBackend};
use crate::report::{FinalSummary, OutputDirectory, Report};
use vstd::prelude::*;

verus! {

/// The results are stored in the value of `CRITERION_HOME`. Without it they are stored in
/// `criterion` within the value of `CARGO_TARGET_DIR`, and without that as well in
/// `target/criterion`.
pub proof fn the_default_directory_follows_the_environment(
    environment: Environment,
    criterion: Criterion,
)
    requires
        call_ensures(Criterion::default, (environment,), criterion),
    ensures
        environment.criterion_home matches Some(home) ==> criterion.output_directory
            == OutputDirectory::At(home),
        environment.criterion_home is None && environment.cargo_target_dir is Some
            ==> criterion.output_directory == OutputDirectory::Within(
            environment.cargo_target_dir.unwrap(),
            "criterion",
        ),
        environment.criterion_home is None && environment.cargo_target_dir is None
            ==> criterion.output_directory == OutputDirectory::Relative("target/criterion"),
{
}

/// By default a sample has 100 measurements, after 3 s of warm-up and for 5 s, with 100 000
/// resamples, and the levels are the numbers closest to 0.01, 0.95 and 0.05.
pub proof fn the_default_settings_are_the_documented_ones(
    environment: Environment,
    criterion: Criterion,
)
    requires
        call_ensures(Criterion::default, (environment,), criterion),
    ensures
        criterion.config.sample_size == 100,
        criterion.config.warm_up_time@ == 3_000_000_000,
        criterion.config.measurement_time@ == 5_000_000_000,
        criterion.config.nresamples == 100_000,
        criterion.config.noise_threshold.bits == 0x3f84_7ae1_47ae_147b,
        criterion.config.confidence_level.bits == 0x3fee_6666_6666_6666,
        criterion.config.significance_level.bits == 0x3fa9_9999_9999_999a,
{
}

/// By default plots are made, with gnuplot where it is available and else with plotters.
pub proof fn plots_are_made_by_default(environment: Environment, criterion: Criterion)
    requires
        call_ensures(Criterion::default, (environment,), criterion),
    ensures
        criterion.plotting_enabled,
        environment.gnuplot is Known <==> criterion.plotting_backend == PlottingBackend::Gnuplot,
        environment.gnuplot is Known <==> criterion.gnuplot_available,
{
}

/// By default the values are reported into a file, and before that on the command line unless a
/// runner does it. The text is plain.
pub proof fn reports_are_plain_by_default(environment: Environment, criterion: Criterion)
    requires
        call_ensures(Criterion::default, (environment,), criterion),
    ensures
        criterion.connected == environment.connected,
        environment.connected ==> criterion.reports@ == seq![Report::FileCsv],
        !environment.connected ==> criterion.reports@ == seq![
            (Report::Cli {
                enable_text_overwrite: false,
                enable_text_coloring: false,
                verbose: false,
            }),
            Report::FileCsv,
        ],
{
}

/// By default all benchmarks are run and saved to the baseline `base`. Nothing has been named,
/// taken or told yet.
pub proof fn nothing_is_left_out_by_default(environment: Environment, criterion: Criterion)
    requires
        call_ensures(Criterion::default, (environment,), criterion),
    ensures
        criterion.filter is None,
        criterion.mode is Benchmark,
        criterion.baseline == Baseline::Save,
        criterion.baseline_directory@ == "base"@,
        criterion.load_baseline is None,
        criterion.all_directories@ == Set::<String>::empty(),
        criterion.all_titles@ == Set::<String>::empty(),
        criterion.debug_enabled == environment.debug_enabled,
        criterion.notices@.len() == 0,
{
}

/// With a filter exactly the benchmarks are run whose names consist of its text with something or
/// nothing before and behind it.
pub proof fn filtered_benchmarks_have_the_text_in_their_names<M: Measurement, P>(
    before: Criterion<M, P>,
    text: String,
    after: Criterion<M, P>,
    id: &str,
    picked: bool,
)
    requires
        call_ensures(Criterion::<M, P>::with_filter, (before, text), after) || call_ensures(
            Criterion::<M, P>::try_with_filter,
            (before, text),
            Ok(after),
        ),
        call_ensures(Criterion::<M, P>::filter_matches, (&after, id), picked),
    ensures
        picked <==> exists|left: Seq<char>, right: Seq<char>|
            id@ == #[trigger] (left + text@ + right),
{
    if picked {
        texts_are_found_only_where_they_stand(text@, id@);
    }
    assert forall|left: Seq<char>, right: Seq<char>|
        id@ == #[trigger] (left + text@ + right) implies picked by {
        texts_are_found_where_they_are_put(left, text@, right);
    }
}

/// Without a filter all benchmarks are run.
pub proof fn without_a_filter_all_benchmarks_are_run<M: Measurement, P>(
    criterion: Criterion<M, P>,
    id: &str,
    picked: bool,
)
    requires
        criterion.filter is None,
        call_ensures(Criterion::<M, P>::filter_matches, (&criterion, id), picked),
    ensures
        picked,
{
}

/// A text is refused as a filter exactly where it is no regular expression, and the error tells the
/// text and what is wrong with it.
pub proof fn only_regular_expressions_are_filters<M: Measurement, P>(
    before: Criterion<M, P>,
    text: String,
    result: Result<Criterion<M, P>, FilterError>,
)
    requires
        call_ensures(Criterion::<M, P>::try_with_filter, (before, text), result),
    ensures
        result is Ok <==> regex_error(text@) is None,
        result is Err ==> result->Err_0.pattern@ == text@,
        result is Err ==> regex_error(text@) == Some(result->Err_0.error@),
{
}

/// Plots that are enabled are drawn with the chosen backend, beside the plain reports; disabled
/// ones are not drawn. Only a process without a runner reports on the command line.
pub proof fn plots_are_drawn_beside_the_plain_reports<M: Measurement, P>(
    before: Criterion<M, P>,
    with: Criterion<M, P>,
    without: Criterion<M, P>,
)
    requires
        call_ensures(Criterion::<M, P>::with_plots, (before,), with),
        call_ensures(Criterion::<M, P>::without_plots, (before,), without),
    ensures
        with.plotting_enabled,
        !without.plotting_enabled,
        before.plotting_backend == PlottingBackend::Gnuplot ==> with.reports@
            == without.reports@.push(Report::Html(Plotter::Gnuplot)),
        before.plotting_backend == PlottingBackend::Plotters ==> with.reports@
            == without.reports@.push(Report::Html(Plotter::PlottersBackend)),
        before.connected ==> without.reports@ == seq![Report::FileCsv],
        !before.connected ==> without.reports@ == seq![
            (Report::Cli {
                enable_text_overwrite: false,
                enable_text_coloring: false,
                verbose: false,
            }),
            Report::FileCsv,
        ],
{
}

/// Plots are drawn by what the backend is named after.
pub proof fn backends_have_their_plotters<M: Measurement, P>(
    criterion: Criterion<M, P>,
    plotter: Plotter,
)
    requires
        call_ensures(Criterion::<M, P>::create_plotter, (&criterion,), plotter),
    ensures
        plotter == Plotter::Gnuplot <==> criterion.plotting_backend == PlottingBackend::Gnuplot,
{
}

/// At the end of a run for benchmarks every report summarizes, in the directory of the results and
/// on linear axes. After any other run none does.
pub proof fn benchmarks_are_summarized_by_every_report<M: Measurement, P>(
    criterion: Criterion<M, P>,
    summary: Option<FinalSummary<'_>>,
)
    requires
        call_ensures(Criterion::<M, P>::final_summary, (&criterion,), summary),
    ensures
        summary is Some <==> criterion.mode is Benchmark,
        summary matches Some(summary) ==> summary.reports@ == criterion.reports@,
        summary matches Some(summary) ==> *summary.context.output_directory
            == criterion.output_directory,
        summary matches Some(summary) ==> summary.context.plot_config.summary_scale
            == AxisScale::Linear,
{
}

/// A profile time makes a run one for profiling, for that time, and none makes it one for
/// benchmarks.
pub proof fn profile_times_make_profiles<M: Measurement, P>(
    before: Criterion<M, P>,
    time: Option<Duration>,
    after: Criterion<M, P>,
)
    requires
        call_ensures(Criterion::<M, P>::profile_time, (before, time), after),
    ensures
        time is None <==> after.mode is Benchmark,
        time is Some <==> after.mode is Profile,
        after.mode matches Mode::Profile(length) ==> length@ == time.unwrap()@,
{
}

/// Managers that look alike hold the same, field by field.
pub proof fn managers_that_look_alike_are_alike<M: Measurement, P>(
    one: Criterion<M, P>,
    other: Criterion<M, P>,
)
    requires
        one@ == other@,
    ensures
        one.config.confidence_level == other.config.confidence_level,
        one.config.measurement_time@ == other.config.measurement_time@,
        one.config.noise_threshold == other.config.noise_threshold,
        one.config.nresamples == other.config.nresamples,
        one.config.sample_size == other.config.sample_size,
        one.config.significance_level == other.config.significance_level,
        one.config.warm_up_time@ == other.config.warm_up_time@,
        one.plotting_backend == other.plotting_backend,
        one.plotting_enabled == other.plotting_enabled,
        one.filter is Some == other.filter is Some,
        one.filter is Some ==> one.filter.unwrap()@ == other.filter.unwrap()@,
        one.reports@ == other.reports@,
        one.output_directory == other.output_directory,
        one.baseline_directory@ == other.baseline_directory@,
        one.baseline == other.baseline,
        one.load_baseline is Some == other.load_baseline is Some,
        one.load_baseline is Some ==> one.load_baseline.unwrap()@ == other.load_baseline.unwrap()@,
        one.all_directories@ == other.all_directories@,
        one.all_titles@ == other.all_titles@,
        one.measurement == other.measurement,
        one.profiler == other.profiler,
        one.connected == other.connected,
        one.mode is Benchmark == other.mode is Benchmark,
        one.mode is List == other.mode is List,
        one.mode is Test == other.mode is Test,
        one.mode is Profile ==> one.mode->Profile_0@ == other.mode->Profile_0@,
        one.gnuplot_available == other.gnuplot_available,
        one.debug_enabled == other.debug_enabled,
        one.notices@ == other.notices@,
{
}

/// What a manager looks like is told by its own fields, each by the one of its name.
pub proof fn managers_look_like_their_fields<M: Measurement, P>(criterion: Criterion<M, P>)
    ensures
        criterion@.config.confidence_level == criterion.config.confidence_level,
        criterion@.config.measurement_time == criterion.config.measurement_time@,
        criterion@.config.noise_threshold == criterion.config.noise_threshold,
        criterion@.config.nresamples == criterion.config.nresamples,
        criterion@.config.sample_size == criterion.config.sample_size,
        criterion@.config.significance_level == criterion.config.significance_level,
        criterion@.config.warm_up_time == criterion.config.warm_up_time@,
        criterion@.plotting_backend == criterion.plotting_backend,
        criterion@.plotting_enabled == criterion.plotting_enabled,
        criterion@.filter is Some == criterion.filter is Some,
        criterion@.filter is Some ==> criterion@.filter.unwrap() == criterion.filter.unwrap()@,
        criterion@.reports == criterion.reports@,
        criterion@.output_directory == criterion.output_directory,
        criterion@.baseline_directory == criterion.baseline_directory@,
        criterion@.baseline == criterion.baseline,
        criterion@.load_baseline is Some == criterion.load_baseline is Some,
        criterion@.load_baseline is Some ==> criterion@.load_baseline.unwrap()
            == criterion.load_baseline.unwrap()@,
        criterion@.all_directories == criterion.all_directories@,
        criterion@.all_titles == criterion.all_titles@,
        criterion@.measurement == criterion.measurement,
        criterion@.profiler == criterion.profiler,
        criterion@.connected == criterion.connected,
        criterion@.mode is Benchmark == criterion.mode is Benchmark,
        criterion@.mode is List == criterion.mode is List,
        criterion@.mode is Test == criterion.mode is Test,
        criterion.mode is Profile ==> criterion@.mode == Purpose::Profile(
            criterion.mode->Profile_0@,
        ),
        criterion@.gnuplot_available == criterion.gnuplot_available,
        criterion@.debug_enabled == criterion.debug_enabled,
        criterion@.notices == criterion.notices@,
{
}

/// A version of gnuplot is usable exactly where it is known, and then it is what draws by default,
/// with nothing to be told.
pub proof fn known_versions_of_gnuplot_are_used(
    version: GnuplotVersion,
    available: bool,
    backend: PlottingBackend,
    notice: Option<String>,
)
    requires
        call_ensures(GnuplotVersion::is_available, (&version,), available),
        call_ensures(GnuplotVersion::default_backend, (&version,), backend),
        call_ensures(GnuplotVersion::notice, (&version,), notice),
    ensures
        available <==> version is Known,
        backend == PlottingBackend::Gnuplot <==> version is Known,
        notice is None <==> version is Known,
{
}

} // verus!
