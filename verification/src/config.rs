//! The settings of the measurement and of its analysis.

use crate::duration::Duration;
use crate::float::{
    at_most_is_not_greater, lemma_proper_fraction, numbers_are_ordered_by_their_bits, Float, EXPONENT,
};
use vstd::arithmetic::power2::{lemma2_to64_rest, lemma_pow2_adds, pow2};
use vstd::prelude::*;

verus! {

/// The settings of the measurement and of its analysis.
#[derive(Debug, Clone, Copy)]
pub struct BenchmarkConfig {
    /// The desired probability that the true runtime lies within the estimated interval
    pub confidence_level: Float,
    /// How long to measure
    pub measurement_time: Duration,
    /// The smallest relative change that is not taken for noise
    pub noise_threshold: Float,
    /// The number of resamples for the bootstrap
    pub nresamples: usize,
    /// The number of measurements in a sample
    pub sample_size: usize,
    /// The desired probability that identical code is found to differ
    pub significance_level: Float,
    /// How long to run before measuring
    pub warm_up_time: Duration,
}

/// The settings as mathematical values, with times in nanoseconds.
pub struct Settings {
    pub confidence_level: Float,
    pub measurement_time: nat,
    pub noise_threshold: Float,
    pub nresamples: nat,
    pub sample_size: nat,
    pub significance_level: Float,
    pub warm_up_time: nat,
}

impl View for BenchmarkConfig {
    type V = Settings;

    open spec fn view(&self) -> Settings {
        Settings {
            confidence_level: self.confidence_level,
            measurement_time: self.measurement_time@,
            noise_threshold: self.noise_threshold,
            nresamples: self.nresamples as nat,
            sample_size: self.sample_size as nat,
            significance_level: self.significance_level,
            warm_up_time: self.warm_up_time@,
        }
    }
}

impl Settings {
    /// Whether the settings are ones that benchmarks can be run with.
    pub open spec fn valid(self) -> bool {
        &&& self.confidence_level.is_proper_fraction()
        &&& self.measurement_time > 0
        &&& Float::zero().at_most(self.noise_threshold)
        &&& self.nresamples > 0
        &&& self.sample_size >= 10
        &&& self.significance_level.is_proper_fraction()
        &&& self.warm_up_time > 0
    }

    /// The settings unless others are asked for: a sample of 100 measurements, 3 s of warm-up, 5 s
    /// of measurement, 100 000 resamples, a noise threshold of 0.01, a confidence level of 0.95 and
    /// a significance level of 0.05.
    pub open spec fn standard() -> Settings {
        Settings {
            confidence_level: Float { bits: 0x3fee_6666_6666_6666 },
            measurement_time: 5_000_000_000,
            noise_threshold: Float { bits: 0x3f84_7ae1_47ae_147b },
            nresamples: 100_000,
            sample_size: 100,
            significance_level: Float { bits: 0x3fa9_9999_9999_999a },
            warm_up_time: 3_000_000_000,
        }
    }
}

impl BenchmarkConfig {
    /// The settings unless others are asked for.
    pub fn standard() -> (config: BenchmarkConfig)
        ensures
            config@ == Settings::standard(),
            config@.valid(),
    {
        let config = BenchmarkConfig {
            confidence_level: Float { bits: 0x3fee_6666_6666_6666 },
            measurement_time: Duration::new(5, 0),
            noise_threshold: Float { bits: 0x3f84_7ae1_47ae_147b },
            nresamples: 100_000,
            sample_size: 100,
            significance_level: Float { bits: 0x3fa9_9999_9999_999a },
            warm_up_time: Duration::new(3, 0),
        };
        proof {
            standard_settings_are_valid();
        }
        config
    }
}

/// The standard settings are valid.
pub proof fn standard_settings_are_valid()
    ensures
        Settings::standard().valid(),
{
    let standard = Settings::standard();
    lemma_proper_fraction(standard.confidence_level);
    lemma_proper_fraction(standard.noise_threshold);
    lemma_proper_fraction(standard.significance_level);
}

/// The standard levels are the numbers closest to 0.95, 0.01 and 0.05 that can be represented: in
/// hundredths they are off by at most fifty times the weight of their lowest bit, which is half of
/// it in full.
pub proof fn standard_levels_are_closest()
    ensures
        -50 * pow2(1021) <= 100 * Settings::standard().confidence_level.value() - 95 * pow2(1074)
            <= 50 * pow2(1021),
        -50 * pow2(1015) <= 100 * Settings::standard().noise_threshold.value() - 1 * pow2(1074)
            <= 50 * pow2(1015),
        -50 * pow2(1017) <= 100 * Settings::standard().significance_level.value() - 5 * pow2(1074)
            <= 50 * pow2(1017),
{
    let standard = Settings::standard();
    lemma2_to64_rest();
    lemma_pow2_adds(53, 1021);
    lemma_pow2_adds(59, 1015);
    lemma_pow2_adds(57, 1017);
    assert(pow2(1074) == 0x20_0000_0000_0000 * pow2(1021));
    assert(pow2(1074) == 0x800_0000_0000_0000 * pow2(1015));
    assert(pow2(1074) == 0x200_0000_0000_0000 * pow2(1017));
    assert(standard.confidence_level.magnitude() / EXPONENT as nat == 1022);
    assert(standard.confidence_level.magnitude() % EXPONENT as nat == 0xe_6666_6666_6666);
    assert(standard.noise_threshold.magnitude() / EXPONENT as nat == 1016);
    assert(standard.noise_threshold.magnitude() % EXPONENT as nat == 0x4_7ae1_47ae_147b);
    assert(standard.significance_level.magnitude() / EXPONENT as nat == 1018);
    assert(standard.significance_level.magnitude() % EXPONENT as nat == 0x9_9999_9999_999a);
    assert(standard.confidence_level.value() == 0x1e_6666_6666_6666 * pow2(1021));
    assert(standard.noise_threshold.value() == 0x14_7ae1_47ae_147b * pow2(1015));
    assert(standard.significance_level.value() == 0x19_9999_9999_999a * pow2(1017));
}

/// Settings are valid exactly where the sample has at least ten measurements, there is a resample,
/// neither time is zero, the noise threshold is not negative, and both levels lie between zero and
/// one. The last two are told by the bits.
pub proof fn valid_settings_are_within_bounds(settings: Settings)
    ensures
        settings.valid() ==> settings.sample_size >= 10 && settings.nresamples >= 1,
        settings.valid() ==> settings.warm_up_time >= 1 && settings.measurement_time >= 1,
        settings.valid() ==> settings.noise_threshold.bits <= 0x8000_0000_0000_0000,
        settings.valid() ==> 0 < settings.confidence_level.bits && settings.confidence_level.bits
            < 0x3ff0_0000_0000_0000,
        settings.valid() ==> 0 < settings.significance_level.bits
            && settings.significance_level.bits < 0x3ff0_0000_0000_0000,
        settings.sample_size >= 10 && settings.nresamples >= 1 && settings.warm_up_time >= 1
            && settings.measurement_time >= 1 && settings.noise_threshold.bits
            <= 0x7ff0_0000_0000_0000 && 0 < settings.confidence_level.bits
            && settings.confidence_level.bits < 0x3ff0_0000_0000_0000 && 0
            < settings.significance_level.bits && settings.significance_level.bits
            < 0x3ff0_0000_0000_0000 ==> settings.valid(),
{
    lemma_proper_fraction(settings.confidence_level);
    lemma_proper_fraction(settings.significance_level);
    numbers_are_ordered_by_their_bits(settings.noise_threshold, Float::zero());
    at_most_is_not_greater(Float::zero(), settings.noise_threshold);
    at_most_is_not_greater(settings.noise_threshold, Float::zero());
}

} // verus!
