//! What the command line asks for.

use crate::criterion::text_of;
use crate::filter::FilterError;
use crate::float::Float;
use vstd::prelude::*;

verus! {

/// What the command line asks for, with the values as they were written, and what is known of the
/// terminal and the process.
#[derive(Debug)]
pub struct Arguments {
    /// `--bench`: run as by `cargo bench`
    pub bench: bool,
    /// `--test`: only see whether the benchmarks work
    pub test: bool,
    /// `--list`: only list the benchmarks
    pub list: bool,
    /// `--profile-time`: only iterate the benchmarks, for that many seconds
    pub profile_time: Option<String>,
    /// Which benchmarks to run
    pub filter: Option<String>,
    /// `--plotting-backend`
    pub plotting_backend: Option<String>,
    /// `--noplot`: make no plots
    pub noplot: bool,
    /// `--save-baseline`: the baseline to save the results to
    pub save_baseline: Option<String>,
    /// `--baseline`: the baseline to compare the results to
    pub baseline: Option<String>,
    /// `--output-format`
    pub output_format: Option<String>,
    /// `--verbose`: print additional statistical information
    pub verbose: bool,
    /// `--color`
    pub color: Option<String>,
    /// `--load-baseline`: the baseline to take instead of new data
    pub load_baseline: Option<String>,
    /// `--sample-size`
    pub sample_size: Option<String>,
    /// `--warm-up-time`, in seconds
    pub warm_up_time: Option<String>,
    /// `--measurement-time`, in seconds
    pub measurement_time: Option<String>,
    /// `--nresamples`
    pub nresamples: Option<String>,
    /// `--noise-threshold`: the number, or what was written where it is none
    pub noise_threshold: Option<Result<Float, String>>,
    /// `--confidence-level`: the number, or what was written where it is none
    pub confidence_level: Option<Result<Float, String>>,
    /// `--significance-level`: the number, or what was written where it is none
    pub significance_level: Option<Result<Float, String>>,
    /// Does the output go to a terminal?
    pub stdout_is_terminal: bool,
    /// Is the process compiled for unix?
    pub compiled_for_unix: bool,
}

/// What the command line asks for as mathematical values.
pub struct Options {
    pub bench: bool,
    pub test: bool,
    pub list: bool,
    pub profile_time: Option<Seq<char>>,
    pub filter: Option<Seq<char>>,
    pub plotting_backend: Option<Seq<char>>,
    pub noplot: bool,
    pub save_baseline: Option<Seq<char>>,
    pub baseline: Option<Seq<char>>,
    pub output_format: Option<Seq<char>>,
    pub verbose: bool,
    pub color: Option<Seq<char>>,
    pub load_baseline: Option<Seq<char>>,
    pub sample_size: Option<Seq<char>>,
    pub warm_up_time: Option<Seq<char>>,
    pub measurement_time: Option<Seq<char>>,
    pub nresamples: Option<Seq<char>>,
    pub noise_threshold: Option<Result<Float, Seq<char>>>,
    pub confidence_level: Option<Result<Float, Seq<char>>>,
    pub significance_level: Option<Result<Float, Seq<char>>>,
    pub stdout_is_terminal: bool,
    pub compiled_for_unix: bool,
}

/// A number or a text, where there is one.
pub open spec fn number_or_text(value: Option<Result<Float, String>>) -> Option<
    Result<Float, Seq<char>>,
> {
    match value {
        Some(Ok(number)) => Some(Ok(number)),
        Some(Err(text)) => Some(Err(text@)),
        None => None,
    }
}

impl View for Arguments {
    type V = Options;

    open spec fn view(&self) -> Options {
        Options {
            bench: self.bench,
            test: self.test,
            list: self.list,
            profile_time: text_of(self.profile_time),
            filter: text_of(self.filter),
            plotting_backend: text_of(self.plotting_backend),
            noplot: self.noplot,
            save_baseline: text_of(self.save_baseline),
            baseline: text_of(self.baseline),
            output_format: text_of(self.output_format),
            verbose: self.verbose,
            color: text_of(self.color),
            load_baseline: text_of(self.load_baseline),
            sample_size: text_of(self.sample_size),
            warm_up_time: text_of(self.warm_up_time),
            measurement_time: text_of(self.measurement_time),
            nresamples: text_of(self.nresamples),
            noise_threshold: number_or_text(self.noise_threshold),
            confidence_level: number_or_text(self.confidence_level),
            significance_level: number_or_text(self.significance_level),
            stdout_is_terminal: self.stdout_is_terminal,
            compiled_for_unix: self.compiled_for_unix,
        }
    }
}

/// Why a command line cannot be followed.
#[derive(Debug)]
pub enum ArgumentError {
    /// The text is not of the kind that its option calls for.
    Unreadable(String),
    /// The profile time is less than a second.
    ProfileTimeTooShort,
    /// The filter is no regular expression.
    BadFilter(FilterError),
    /// Gnuplot was asked for, but is not available.
    GnuplotUnavailable,
    /// There is no plotting backend of that name.
    UnexpectedBackend(String),
    /// The sample size is less than ten.
    SampleSizeTooSmall,
    /// The warm-up time is zero.
    NoWarmUpTime,
    /// The measurement time is zero.
    NoMeasurementTime,
    /// The number of resamples is zero.
    NoResamples,
    /// The noise threshold is not greater than zero.
    NoiseThresholdNotPositive,
    /// The confidence level does not lie between zero and one.
    ConfidenceLevelOutOfRange,
    /// The significance level does not lie between zero and one.
    SignificanceLevelOutOfRange,
}

/// Why a command line cannot be followed, as mathematical values.
pub enum Problem {
    Unreadable(Seq<char>),
    ProfileTimeTooShort,
    BadFilter { pattern: Seq<char>, error: Seq<char> },
    GnuplotUnavailable,
    UnexpectedBackend(Seq<char>),
    SampleSizeTooSmall,
    NoWarmUpTime,
    NoMeasurementTime,
    NoResamples,
    NoiseThresholdNotPositive,
    ConfidenceLevelOutOfRange,
    SignificanceLevelOutOfRange,
}

impl View for ArgumentError {
    type V = Problem;

    open spec fn view(&self) -> Problem {
        match *self {
            ArgumentError::Unreadable(text) => Problem::Unreadable(text@),
            ArgumentError::ProfileTimeTooShort => Problem::ProfileTimeTooShort,
            ArgumentError::BadFilter(error) => Problem::BadFilter {
                pattern: error.pattern@,
                error: error.error@,
            },
            ArgumentError::GnuplotUnavailable => Problem::GnuplotUnavailable,
            ArgumentError::UnexpectedBackend(text) => Problem::UnexpectedBackend(text@),
            ArgumentError::SampleSizeTooSmall => Problem::SampleSizeTooSmall,
            ArgumentError::NoWarmUpTime => Problem::NoWarmUpTime,
            ArgumentError::NoMeasurementTime => Problem::NoMeasurementTime,
            ArgumentError::NoResamples => Problem::NoResamples,
            ArgumentError::NoiseThresholdNotPositive => Problem::NoiseThresholdNotPositive,
            ArgumentError::ConfidenceLevelOutOfRange => Problem::ConfidenceLevelOutOfRange,
            ArgumentError::SignificanceLevelOutOfRange => Problem::SignificanceLevelOutOfRange,
        }
    }
}

impl Problem {
    /// The words to tell it in.
    pub open spec fn words(self) -> Seq<char> {
        match self {
            Problem::Unreadable(text) => "The argument '"@ + text + "' isn't a valid value"@,
            Problem::ProfileTimeTooShort => "Profile time must be at least one second."@,
            Problem::BadFilter { pattern, error } => "Unable to parse '"@ + pattern
                + "' as a regular expression: "@ + error,
            Problem::GnuplotUnavailable =>
                "Gnuplot plotting backend was requested, but gnuplot is not available. To continue, either install Gnuplot or allow Criterion.rs to fall back to using plotters."@,
            Problem::UnexpectedBackend(text) => "Unexpected plotting backend '"@ + text + "'"@,
            Problem::SampleSizeTooSmall => "assertion failed: num_size >= 10"@,
            Problem::NoWarmUpTime => "assertion failed: dur.to_nanos() > 0"@,
            Problem::NoMeasurementTime => "assertion failed: dur.to_nanos() > 0"@,
            Problem::NoResamples => "assertion failed: num_resamples > 0"@,
            Problem::NoiseThresholdNotPositive => "assertion failed: num_noise_threshold > 0.0"@,
            Problem::ConfidenceLevelOutOfRange =>
                "assertion failed: num_confidence_level > 0.0 && num_confidence_level < 1.0"@,
            Problem::SignificanceLevelOutOfRange =>
                "assertion failed: num_significance_level > 0.0 && num_significance_level < 1.0"@,
        }
    }
}

impl ArgumentError {
    /// Whether the process is to tell the error and exit. Any other error is to stop it where it is.
    pub fn is_exit(&self) -> (exit: bool)
        ensures
            exit == (self@ is Unreadable || self@ is ProfileTimeTooShort),
    {
        match self {
            ArgumentError::Unreadable(_) => true,
            ArgumentError::ProfileTimeTooShort => true,
            _ => false,
        }
    }

    /// The words to tell it in.
    pub fn message(&self) -> (text: String)
        ensures
            text@ == self@.words(),
    {
        match self {
            ArgumentError::Unreadable(value) => {
                let mut text = "The argument '".to_owned();
                text.append(value.as_str());
                text.append("' isn't a valid value");
                text
            },
            ArgumentError::ProfileTimeTooShort =>
                "Profile time must be at least one second.".to_owned(),
            ArgumentError::BadFilter(error) => error.message(),
            ArgumentError::GnuplotUnavailable =>
                "Gnuplot plotting backend was requested, but gnuplot is not available. To continue, either install Gnuplot or allow Criterion.rs to fall back to using plotters.".to_owned(),
            ArgumentError::UnexpectedBackend(value) => {
                let mut text = "Unexpected plotting backend '".to_owned();
                text.append(value.as_str());
                text.append("'");
                text
            },
            ArgumentError::SampleSizeTooSmall => "assertion failed: num_size >= 10".to_owned(),
            ArgumentError::NoWarmUpTime => "assertion failed: dur.to_nanos() > 0".to_owned(),
            ArgumentError::NoMeasurementTime => "assertion failed: dur.to_nanos() > 0".to_owned(),
            ArgumentError::NoResamples => "assertion failed: num_resamples > 0".to_owned(),
            ArgumentError::NoiseThresholdNotPositive =>
                "assertion failed: num_noise_threshold > 0.0".to_owned(),
            ArgumentError::ConfidenceLevelOutOfRange =>
                "assertion failed: num_confidence_level > 0.0 && num_confidence_level < 1.0".to_owned(),
            ArgumentError::SignificanceLevelOutOfRange =>
                "assertion failed: num_significance_level > 0.0 && num_significance_level < 1.0".to_owned(),
        }
    }
}

/// A process exits over an option that cannot be read and over a profile time that is too short.
/// Any other error stops it where it is.
pub proof fn unreadable_options_end_the_process(error: ArgumentError, exit: bool)
    requires
        call_ensures(ArgumentError::is_exit, (&error,), exit),
    ensures
        exit <==> error is Unreadable || error is ProfileTimeTooShort,
{
}

/// What is told of an option that cannot be accepted quotes what was written.
pub proof fn errors_quote_what_was_written(error: ArgumentError, message: String)
    requires
        call_ensures(ArgumentError::message, (&error,), message),
    ensures
        error matches ArgumentError::Unreadable(text) ==> message@ == "The argument '"@ + text@
            + "' isn't a valid value"@,
        error matches ArgumentError::BadFilter(bad) ==> message@ == "Unable to parse '"@
            + bad.pattern@ + "' as a regular expression: "@ + bad.error@,
        error matches ArgumentError::UnexpectedBackend(text) ==> message@
            == "Unexpected plotting backend '"@ + text@ + "'"@,
        error is ProfileTimeTooShort ==> message@ == "Profile time must be at least one second."@,
        error is GnuplotUnavailable ==> message@
            == "Gnuplot plotting backend was requested, but gnuplot is not available. To continue, either install Gnuplot or allow Criterion.rs to fall back to using plotters."@,
        error is SampleSizeTooSmall ==> message@ == "assertion failed: num_size >= 10"@,
        error is NoWarmUpTime || error is NoMeasurementTime ==> message@
            == "assertion failed: dur.to_nanos() > 0"@,
        error is NoResamples ==> message@ == "assertion failed: num_resamples > 0"@,
        error is NoiseThresholdNotPositive ==> message@
            == "assertion failed: num_noise_threshold > 0.0"@,
        error is ConfidenceLevelOutOfRange ==> message@
            == "assertion failed: num_confidence_level > 0.0 && num_confidence_level < 1.0"@,
        error is SignificanceLevelOutOfRange ==> message@
            == "assertion failed: num_significance_level > 0.0 && num_significance_level < 1.0"@,
{
}

} // verus!
