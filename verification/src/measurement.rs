//! What a benchmark measures.

use crate::clock::{elapsed, elapsed_times_are_all_that_the_clock_gave, is_elapsed, time_since};
use crate::duration::{Duration, NANOS_PER_SEC};
use std::time::Instant;
use vstd::prelude::*;

verus! {

/// A quantity that benchmarks can measure, such as the time on the wall clock.
pub trait Measurement {
    /// What is kept between the start and the end of a measurement.
    type Intermediate;

    /// The result of a measurement.
    type Value;

    /// Begins a measurement.
    fn start(&self) -> Self::Intermediate;

    /// Completes the measurement that `start` began.
    fn end(&self, start: Self::Intermediate) -> Self::Value;

    /// Combines two results into one.
    fn add(&self, first: &Self::Value, second: &Self::Value) -> Self::Value;

    /// The result of measuring nothing.
    fn zero(&self) -> Self::Value;
}

/// Measures the time on the wall clock.
#[derive(Debug, Clone, Copy)]
pub struct WallTime;

impl Measurement for WallTime {
    type Intermediate = Instant;

    type Value = Duration;

    /// A reading of the clock, taken now.
    fn start(&self) -> (now: Instant)
        ensures
            call_ensures(Instant::now, (), now),
    {
        Instant::now()
    }

    /// The time that the clock has run since `start`.
    fn end(&self, start: Instant) -> (time: Duration)
        ensures
            is_elapsed(start, time),
    {
        time_since(&start)
    }

    /// The two times together; the longest time there is where they exceed it.
    fn add(&self, first: &Duration, second: &Duration) -> (sum: Duration)
        ensures
            sum@ == if first@ + second@ < (u64::MAX + 1) * NANOS_PER_SEC {
                (first@ + second@) as int
            } else {
                (u64::MAX + 1) * NANOS_PER_SEC - 1
            },
    {
        first.saturating_add(second)
    }

    fn zero(&self) -> (none: Duration)
        ensures
            none@ == 0,
    {
        Duration::from_secs(0)
    }
}

/// A measurement of the wall clock comes to all the seconds and nanoseconds that the clock gave
/// since the reading at its start.
pub(crate) proof fn wall_time_is_what_the_clock_gave(start: Instant, time: Duration)
    requires
        call_ensures(WallTime::end, (&WallTime, start), time),
    ensures
        exists|parts: (u64, u32)|
            {
                &&& #[trigger] call_ensures(elapsed, (&start,), parts)
                &&& time@ == parts.0 * 1_000_000_000 + parts.1
            },
{
    elapsed_times_are_all_that_the_clock_gave(start, time);
}

/// Two wall times come to their sum, where that is a time at all, and measuring nothing takes none.
pub proof fn wall_times_add_up(first: Duration, second: Duration, sum: Duration, none: Duration)
    requires
        call_ensures(WallTime::add, (&WallTime, &first, &second), sum),
        call_ensures(WallTime::zero, (&WallTime,), none),
    ensures
        first@ + second@ < (u64::MAX + 1) * 1_000_000_000 ==> sum@ == first@ + second@,
        none@ == 0,
{
}

} // verus!
