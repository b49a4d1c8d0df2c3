//! The monotonic clock.

use crate::duration::{Duration, NANOS_PER_SEC};
use std::time::Instant;
use vstd::prelude::*;

verus! {

/// `std::time::Instant`: a reading of the monotonic clock, carried through unopened.
#[verifier::external_type_specification]
#[verifier::external_body]
pub struct ExInstant(std::time::Instant);

/// `std::time::Instant::now`. Nothing is claimed of the reading.
pub assume_specification[ std::time::Instant::now ]() -> Instant;

/// `std::time::Instant::elapsed`, its result taken over as whole seconds and the nanoseconds beyond
/// them. How much time has passed depends on the machine, so nothing is claimed of the seconds. The
/// nanoseconds are documented to be fewer than a second has.
#[verifier::external_body]
pub(crate) fn elapsed(since: &Instant) -> (parts: (u64, u32))
    ensures
        parts.1 < NANOS_PER_SEC,
{
    let time = since.elapsed();
    (time.as_secs(), time.subsec_nanos())
}

/// Whether `time` can be what `std::time::Instant::elapsed` gives for the reading `since`.
pub closed spec fn is_elapsed(since: Instant, time: Duration) -> bool {
    exists|parts: (u64, u32)| #[trigger]
        call_ensures(elapsed, (&since,), parts) && time@ == parts.0 * NANOS_PER_SEC + parts.1
}

/// The time that the clock has run since a reading of it.
pub(crate) fn time_since(since: &Instant) -> (time: Duration)
    ensures
        is_elapsed(*since, time),
        exists|parts: (u64, u32)| #[trigger]
            call_ensures(elapsed, (since,), parts) && time@ == parts.0 * 1_000_000_000 + parts.1,
{
    let parts = elapsed(since);
    Duration::new(parts.0, parts.1)
}

/// A time that has run since a reading of the clock is all of what the clock gave: so many whole
/// seconds, and so many nanoseconds beyond them.
pub(crate) proof fn elapsed_times_are_all_that_the_clock_gave(since: Instant, time: Duration)
    requires
        is_elapsed(since, time),
    ensures
        exists|parts: (u64, u32)|
            {
                &&& #[trigger] call_ensures(elapsed, (&since,), parts)
                &&& time@ / 1_000_000_000 == parts.0
                &&& time@ % 1_000_000_000 == parts.1
            },
{
}

} // verus!
