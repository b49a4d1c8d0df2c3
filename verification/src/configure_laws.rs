//! What the command line does to the benchmark manager, option by option.

use crate::arguments::{ArgumentError, Arguments};
use crate::criterion::Criterion;
use crate::decimal::decimal;
use crate::filter::regex_error;
use crate::float::{lemma_positive, lemma_proper_fraction, Float};
use crate::measurement::Measurement;
use crate::mode::{Baseline, Mode};
use crate::plotting::{Plotter, PlottingBackend};
use crate::report::Report;
use vstd::prelude::*;

verus! {

/// A baseline to compare to is compared to, whatever else is asked for, and so is retained. Only
/// without one are the results saved to the baseline that is named for that.
pub proof fn named_baselines_are_used<M: Measurement, P>(
    before: Criterion<M, P>,
    arguments: Arguments,
    after: Criterion<M, P>,
)
    requires
        call_ensures(Criterion::<M, P>::configure_from_args, (before, arguments), Ok(after)),
    ensures
        arguments.baseline matches Some(name) ==> after.baseline == Baseline::Compare,
        arguments.baseline matches Some(name) ==> after.baseline_directory@ == name@,
        arguments.baseline is None && arguments.save_baseline is Some ==> after.baseline
            == Baseline::Save,
        arguments.baseline is None && arguments.save_baseline is Some
            ==> after.baseline_directory@ == arguments.save_baseline.unwrap()@,
        arguments.baseline is None && arguments.save_baseline is None ==> after.baseline
            == before.baseline,
        arguments.baseline is None && arguments.save_baseline is None
            ==> after.baseline_directory@ == before.baseline_directory@,
{
}

/// A baseline to load is loaded, and without one nothing changes in that.
pub proof fn loaded_baselines_are_named<M: Measurement, P>(
    before: Criterion<M, P>,
    arguments: Arguments,
    after: Criterion<M, P>,
)
    requires
        call_ensures(Criterion::<M, P>::configure_from_args, (before, arguments), Ok(after)),
    ensures
        arguments.load_baseline is Some || before.load_baseline is Some <==> after.load_baseline
            is Some,
        arguments.load_baseline matches Some(name) ==> after.load_baseline.unwrap()@ == name@,
        arguments.load_baseline is None && before.load_baseline is Some
            ==> after.load_baseline.unwrap()@ == before.load_baseline.unwrap()@,
{
}

/// The benchmarks are only tested unless the process is started as a benchmark without `--test`.
/// Then they are listed where that is asked for, else iterated for the profile time where there is
/// one, and else run.
pub proof fn runs_have_the_purpose_asked_for<M: Measurement, P>(
    before: Criterion<M, P>,
    arguments: Arguments,
    after: Criterion<M, P>,
)
    requires
        call_ensures(Criterion::<M, P>::configure_from_args, (before, arguments), Ok(after)),
    ensures
        !arguments.bench || arguments.test ==> after.mode is Test,
        arguments.bench && !arguments.test && arguments.list ==> after.mode is List,
        arguments.bench && !arguments.test && !arguments.list && arguments.profile_time is None
            ==> after.mode is Benchmark,
        arguments.bench && !arguments.test && !arguments.list && arguments.profile_time is Some
            ==> after.mode is Profile,
        after.mode matches Mode::Profile(time) ==> decimal(arguments.profile_time.unwrap()@)
            is Some,
        after.mode matches Mode::Profile(time) ==> time@ == 1_000_000_000 * decimal(
            arguments.profile_time.unwrap()@,
        ).unwrap(),
        after.mode matches Mode::Profile(time) ==> time@ >= 1_000_000_000,
{
}

/// The runner is kept for benchmarks and for nothing else.
pub proof fn the_runner_is_kept_for_benchmarks<M: Measurement, P>(
    before: Criterion<M, P>,
    arguments: Arguments,
    after: Criterion<M, P>,
)
    requires
        call_ensures(Criterion::<M, P>::configure_from_args, (before, arguments), Ok(after)),
    ensures
        after.connected <==> before.connected && after.mode is Benchmark,
{
}

/// A filter on the command line takes the place of the one before, and is a regular expression.
pub proof fn filters_are_replaced<M: Measurement, P>(
    before: Criterion<M, P>,
    arguments: Arguments,
    after: Criterion<M, P>,
)
    requires
        call_ensures(Criterion::<M, P>::configure_from_args, (before, arguments), Ok(after)),
    ensures
        arguments.filter is Some || before.filter is Some <==> after.filter is Some,
        arguments.filter matches Some(text) ==> after.filter.unwrap()@ == text@,
        arguments.filter matches Some(text) ==> regex_error(text@) is None,
        arguments.filter is None && before.filter is Some ==> after.filter.unwrap()@
            == before.filter.unwrap()@,
{
}

/// Plots are made unless they are not wanted, with the backend that is named, or else with the one
/// there was. Gnuplot is only chosen where it is available.
pub proof fn plots_are_made_as_asked_for<M: Measurement, P>(
    before: Criterion<M, P>,
    arguments: Arguments,
    after: Criterion<M, P>,
)
    requires
        call_ensures(Criterion::<M, P>::configure_from_args, (before, arguments), Ok(after)),
    ensures
        after.plotting_enabled <==> !arguments.noplot,
        arguments.plotting_backend is None ==> after.plotting_backend == before.plotting_backend,
        arguments.plotting_backend matches Some(name) ==> name@ == "gnuplot"@ || name@
            == "plotters"@,
        arguments.plotting_backend matches Some(name) ==> name@ == "gnuplot"@
            ==> after.plotting_backend == PlottingBackend::Gnuplot && before.gnuplot_available,
        arguments.plotting_backend matches Some(name) ==> name@ == "plotters"@
            ==> after.plotting_backend == PlottingBackend::Plotters,
{
    reveal_strlit("gnuplot");
    reveal_strlit("plotters");
    assert("gnuplot"@.len() != "plotters"@.len());
}

/// A connected process leaves all reporting to the runner. Any other reports on the command line,
/// into a file of values and, where plots are made, onto pages with plots by the chosen backend.
pub proof fn reports_are_those_asked_for<M: Measurement, P>(
    before: Criterion<M, P>,
    arguments: Arguments,
    after: Criterion<M, P>,
)
    requires
        call_ensures(Criterion::<M, P>::configure_from_args, (before, arguments), Ok(after)),
    ensures
        after.connected ==> after.reports@.len() == 0,
        !after.connected && arguments.noplot ==> after.reports@.len() == 2,
        !after.connected && !arguments.noplot ==> after.reports@.len() == 3,
        !after.connected ==> after.reports@[0] is Bencher || after.reports@[0] is Cli,
        !after.connected ==> after.reports@[1] is FileCsv,
        !after.connected && !arguments.noplot && after.plotting_backend == PlottingBackend::Gnuplot
            ==> after.reports@[2] == Report::Html(Plotter::Gnuplot),
        !after.connected && !arguments.noplot && after.plotting_backend
            == PlottingBackend::Plotters ==> after.reports@[2] == Report::Html(
            Plotter::PlottersBackend,
        ),
{
}

/// The report on the command line has the format that is asked for. Its text is colored always or
/// never where that is asked for, and else on a terminal of a process for unix. Text is overwritten
/// on a terminal, but not where it is verbose, nor with debug output, nor where it is never
/// colored.
pub proof fn command_line_reports_look_as_asked_for<M: Measurement, P>(
    before: Criterion<M, P>,
    arguments: Arguments,
    after: Criterion<M, P>,
    bencher: bool,
    always: bool,
    never: bool,
)
    requires
        call_ensures(Criterion::<M, P>::configure_from_args, (before, arguments), Ok(after)),
        !after.connected,
        bencher == (arguments.output_format is Some && arguments.output_format.unwrap()@
            == "bencher"@),
        always == (arguments.color is Some && arguments.color.unwrap()@ == "always"@),
        never == (arguments.color is Some && arguments.color.unwrap()@ == "never"@),
    ensures
        after.reports@[0] is Bencher <==> bencher,
        !bencher ==> after.reports@[0]->verbose == arguments.verbose,
        !bencher && always ==> after.reports@[0]->enable_text_coloring,
        !bencher && never ==> !after.reports@[0]->enable_text_coloring,
        !bencher && !always && !never ==> after.reports@[0]->enable_text_coloring == (
        arguments.stdout_is_terminal && arguments.compiled_for_unix),
        !bencher ==> after.reports@[0]->enable_text_overwrite == (arguments.stdout_is_terminal
            && !arguments.verbose && !before.debug_enabled && !never),
{
    reveal_strlit("always");
    reveal_strlit("never");
    assert("always"@.len() != "never"@.len());
}

/// A number of measurements or of resamples is the one that is written, which is large enough, and
/// stays where none is written.
pub proof fn sizes_are_those_written<M: Measurement, P>(
    before: Criterion<M, P>,
    arguments: Arguments,
    after: Criterion<M, P>,
)
    requires
        call_ensures(Criterion::<M, P>::configure_from_args, (before, arguments), Ok(after)),
    ensures
        arguments.sample_size matches Some(text) ==> decimal(text@) == Some(
            after.config.sample_size as nat,
        ),
        arguments.sample_size is Some ==> after.config.sample_size >= 10,
        arguments.sample_size is None ==> after.config.sample_size == before.config.sample_size,
        arguments.nresamples matches Some(text) ==> decimal(text@) == Some(
            after.config.nresamples as nat,
        ),
        arguments.nresamples is Some ==> after.config.nresamples > 0,
        arguments.nresamples is None ==> after.config.nresamples == before.config.nresamples,
{
}

/// A time is as many seconds as are written, at least one, and stays where none are written.
pub proof fn times_are_those_written<M: Measurement, P>(
    before: Criterion<M, P>,
    arguments: Arguments,
    after: Criterion<M, P>,
)
    requires
        call_ensures(Criterion::<M, P>::configure_from_args, (before, arguments), Ok(after)),
    ensures
        arguments.warm_up_time matches Some(text) ==> decimal(text@) is Some,
        arguments.warm_up_time matches Some(text) ==> after.config.warm_up_time@ == 1_000_000_000
            * decimal(text@).unwrap(),
        arguments.warm_up_time is Some ==> after.config.warm_up_time@ > 0,
        arguments.warm_up_time is None ==> after.config.warm_up_time@
            == before.config.warm_up_time@,
        arguments.measurement_time matches Some(text) ==> decimal(text@) is Some,
        arguments.measurement_time matches Some(text) ==> after.config.measurement_time@
            == 1_000_000_000 * decimal(text@).unwrap(),
        arguments.measurement_time is Some ==> after.config.measurement_time@ > 0,
        arguments.measurement_time is None ==> after.config.measurement_time@
            == before.config.measurement_time@,
{
}

/// A threshold or a level is the number that is written, within its bounds, and stays where none is
/// written. The bounds are told by the bits, between those of zero, one and infinity.
pub proof fn levels_are_those_written<M: Measurement, P>(
    before: Criterion<M, P>,
    arguments: Arguments,
    after: Criterion<M, P>,
)
    requires
        call_ensures(Criterion::<M, P>::configure_from_args, (before, arguments), Ok(after)),
    ensures
        arguments.noise_threshold is None ==> after.config.noise_threshold
            == before.config.noise_threshold,
        arguments.noise_threshold is Some ==> arguments.noise_threshold == Some(
            Ok::<Float, String>(after.config.noise_threshold),
        ),
        arguments.noise_threshold is Some ==> 0 < after.config.noise_threshold.bits
            <= 0x7ff0_0000_0000_0000,
        arguments.confidence_level is None ==> after.config.confidence_level
            == before.config.confidence_level,
        arguments.confidence_level is Some ==> arguments.confidence_level == Some(
            Ok::<Float, String>(after.config.confidence_level),
        ),
        arguments.confidence_level is Some ==> 0 < after.config.confidence_level.bits
            && after.config.confidence_level.bits < 0x3ff0_0000_0000_0000,
        arguments.significance_level is None ==> after.config.significance_level
            == before.config.significance_level,
        arguments.significance_level is Some ==> arguments.significance_level == Some(
            Ok::<Float, String>(after.config.significance_level),
        ),
        arguments.significance_level is Some ==> 0 < after.config.significance_level.bits
            && after.config.significance_level.bits < 0x3ff0_0000_0000_0000,
{
    lemma_positive(after.config.noise_threshold);
    lemma_proper_fraction(after.config.confidence_level);
    lemma_proper_fraction(after.config.significance_level);
}

/// What the command line cannot ask for stays as it was.
pub proof fn the_rest_stays<M: Measurement, P>(
    before: Criterion<M, P>,
    arguments: Arguments,
    after: Criterion<M, P>,
)
    requires
        call_ensures(Criterion::<M, P>::configure_from_args, (before, arguments), Ok(after)),
    ensures
        after.output_directory == before.output_directory,
        after.all_directories@ == before.all_directories@,
        after.all_titles@ == before.all_titles@,
        after.measurement == before.measurement,
        after.profiler == before.profiler,
        after.gnuplot_available == before.gnuplot_available,
        after.debug_enabled == before.debug_enabled,
        after.notices@ == before.notices@,
{
}

/// A command line is followed exactly where each option is acceptable: where it is not given, or
/// gives a value of its kind and within its bounds. Otherwise the first option that is not, in the
/// order of the parameters, is what the error tells.
pub proof fn the_first_bad_option_is_told<M: Measurement, P>(
    before: Criterion<M, P>,
    arguments: Arguments,
    result: Result<Criterion<M, P>, ArgumentError>,
    profile: bool,
    filter: bool,
    backend: bool,
    samples: bool,
    warm_up: bool,
    measuring: bool,
    resamples: bool,
    noise: bool,
    confidence: bool,
    significance: bool,
)
    requires
        call_ensures(Criterion::<M, P>::configure_from_args, (before, arguments), result),
        profile == (!arguments.bench || arguments.test || arguments.list || arguments.profile_time is None || (
        decimal(arguments.profile_time.unwrap()@) is Some && 1 <= decimal(
            arguments.profile_time.unwrap()@,
        ).unwrap() <= u64::MAX)),
        filter == (arguments.filter is None || regex_error(arguments.filter.unwrap()@) is None),
        backend == (arguments.plotting_backend is None || arguments.plotting_backend.unwrap()@ == "plotters"@
            || (arguments.plotting_backend.unwrap()@ == "gnuplot"@ && before.gnuplot_available)),
        samples == (arguments.sample_size is None || (decimal(arguments.sample_size.unwrap()@) is Some && 10
            <= decimal(arguments.sample_size.unwrap()@).unwrap() <= usize::MAX)),
        warm_up == (arguments.warm_up_time is None || (decimal(arguments.warm_up_time.unwrap()@) is Some && 1
            <= decimal(arguments.warm_up_time.unwrap()@).unwrap() <= u64::MAX)),
        measuring == (arguments.measurement_time is None || (decimal(arguments.measurement_time.unwrap()@)
            is Some && 1 <= decimal(arguments.measurement_time.unwrap()@).unwrap() <= u64::MAX)),
        resamples == (arguments.nresamples is None || (decimal(arguments.nresamples.unwrap()@) is Some && 1
            <= decimal(arguments.nresamples.unwrap()@).unwrap() <= usize::MAX)),
        noise == (arguments.noise_threshold is None || (arguments.noise_threshold.unwrap() is Ok && 0
            < arguments.noise_threshold.unwrap()->Ok_0.bits <= 0x7ff0_0000_0000_0000)),
        confidence == (arguments.confidence_level is None || (arguments.confidence_level.unwrap() is Ok && 0
            < arguments.confidence_level.unwrap()->Ok_0.bits < 0x3ff0_0000_0000_0000)),
        significance == (arguments.significance_level is None || (arguments.significance_level.unwrap() is Ok && 0
            < arguments.significance_level.unwrap()->Ok_0.bits < 0x3ff0_0000_0000_0000)),
    ensures
        result is Ok <==> profile && filter && backend && samples && warm_up
            && measuring && resamples && noise && confidence && significance,
        !profile && (decimal(arguments.profile_time.unwrap()@) is None ||
            decimal(arguments.profile_time.unwrap()@).unwrap() > u64::MAX) ==> result->Err_0 is
            Unreadable && result->Err_0->Unreadable_0@ == arguments.profile_time.unwrap()@,
        !profile && !(decimal(arguments.profile_time.unwrap()@) is None ||
            decimal(arguments.profile_time.unwrap()@).unwrap() > u64::MAX) ==> result->Err_0 is
            ProfileTimeTooShort,
        profile && !filter ==> result->Err_0 is BadFilter && result->Err_0->BadFilter_0.pattern@
            == arguments.filter.unwrap()@ && regex_error(arguments.filter.unwrap()@) ==
            Some(result->Err_0->BadFilter_0.error@),
        profile && filter && !backend && arguments.plotting_backend.unwrap()@ == "gnuplot"@ ==>
            result->Err_0 is GnuplotUnavailable,
        profile && filter && !backend && arguments.plotting_backend.unwrap()@ != "gnuplot"@ ==>
            result->Err_0 is UnexpectedBackend && result->Err_0->UnexpectedBackend_0@ ==
            arguments.plotting_backend.unwrap()@,
        profile && filter && backend && !samples && (decimal(arguments.sample_size.unwrap()@) is
            None || decimal(arguments.sample_size.unwrap()@).unwrap() > usize::MAX) ==>
            result->Err_0 is Unreadable && result->Err_0->Unreadable_0@ ==
            arguments.sample_size.unwrap()@,
        profile && filter && backend && !samples && !(decimal(arguments.sample_size.unwrap()@)
            is None || decimal(arguments.sample_size.unwrap()@).unwrap() > usize::MAX) ==>
            result->Err_0 is SampleSizeTooSmall,
        profile && filter && backend && samples && !warm_up &&
            (decimal(arguments.warm_up_time.unwrap()@) is None ||
            decimal(arguments.warm_up_time.unwrap()@).unwrap() > u64::MAX) ==> result->Err_0 is
            Unreadable && result->Err_0->Unreadable_0@ == arguments.warm_up_time.unwrap()@,
        profile && filter && backend && samples && !warm_up &&
            !(decimal(arguments.warm_up_time.unwrap()@) is None ||
            decimal(arguments.warm_up_time.unwrap()@).unwrap() > u64::MAX) ==> result->Err_0 is
            NoWarmUpTime,
        profile && filter && backend && samples && warm_up && !measuring &&
            (decimal(arguments.measurement_time.unwrap()@) is None ||
            decimal(arguments.measurement_time.unwrap()@).unwrap() > u64::MAX) ==> result->Err_0 is
            Unreadable && result->Err_0->Unreadable_0@ == arguments.measurement_time.unwrap()@,
        profile && filter && backend && samples && warm_up && !measuring &&
            !(decimal(arguments.measurement_time.unwrap()@) is None ||
            decimal(arguments.measurement_time.unwrap()@).unwrap() > u64::MAX) ==> result->Err_0 is
            NoMeasurementTime,
        profile && filter && backend && samples && warm_up && measuring && !resamples &&
            (decimal(arguments.nresamples.unwrap()@) is None ||
            decimal(arguments.nresamples.unwrap()@).unwrap() > usize::MAX) ==> result->Err_0 is
            Unreadable && result->Err_0->Unreadable_0@ == arguments.nresamples.unwrap()@,
        profile && filter && backend && samples && warm_up && measuring && !resamples &&
            !(decimal(arguments.nresamples.unwrap()@) is None ||
            decimal(arguments.nresamples.unwrap()@).unwrap() > usize::MAX) ==> result->Err_0 is
            NoResamples,
        profile && filter && backend && samples && warm_up && measuring && resamples && !noise
            && arguments.noise_threshold.unwrap() is Err ==> result->Err_0 is Unreadable &&
            result->Err_0->Unreadable_0@ == arguments.noise_threshold.unwrap()->Err_0@,
        profile && filter && backend && samples && warm_up && measuring && resamples && !noise
            && arguments.noise_threshold.unwrap() is Ok ==> result->Err_0 is
            NoiseThresholdNotPositive,
        profile && filter && backend && samples && warm_up && measuring && resamples && noise &&
            !confidence && arguments.confidence_level.unwrap() is Err ==> result->Err_0 is
            Unreadable && result->Err_0->Unreadable_0@ ==
            arguments.confidence_level.unwrap()->Err_0@,
        profile && filter && backend && samples && warm_up && measuring && resamples && noise &&
            !confidence && arguments.confidence_level.unwrap() is Ok ==> result->Err_0 is
            ConfidenceLevelOutOfRange,
        profile && filter && backend && samples && warm_up && measuring && resamples && noise &&
            confidence && !significance && arguments.significance_level.unwrap() is Err ==>
            result->Err_0 is Unreadable && result->Err_0->Unreadable_0@ ==
            arguments.significance_level.unwrap()->Err_0@,
        profile && filter && backend && samples && warm_up && measuring && resamples && noise &&
            confidence && !significance && arguments.significance_level.unwrap() is Ok ==>
            result->Err_0 is SignificanceLevelOutOfRange,
{
    reveal_strlit("gnuplot");
    reveal_strlit("plotters");
    assert("gnuplot"@.len() != "plotters"@.len());
    if let Some(Ok(threshold)) = arguments.noise_threshold {
        lemma_positive(threshold);
    }
    if let Some(Ok(level)) = arguments.confidence_level {
        lemma_proper_fraction(level);
    }
    if let Some(Ok(level)) = arguments.significance_level {
        lemma_proper_fraction(level);
    }
}

} // verus!
