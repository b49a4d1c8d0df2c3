//! Spans of time.

use vstd::prelude::*;

verus! {

/// The number of nanoseconds in one second.
pub const NANOS_PER_SEC: u64 = 1_000_000_000;

/// A span of time, to the nanosecond: whole seconds, and the nanoseconds beyond them.
#[derive(Debug, Clone, Copy)]
pub struct Duration {
    secs: u64,
    nanos: u32,
}

impl View for Duration {
    type V = nat;

    /// The length of the span in nanoseconds.
    closed spec fn view(&self) -> nat {
        (self.secs * NANOS_PER_SEC + self.nanos) as nat
    }
}

impl Duration {
    #[verifier::type_invariant]
    spec fn well_formed(self) -> bool {
        self.nanos < NANOS_PER_SEC
    }

    /// The span of `secs` seconds and `nanos` nanoseconds.
    ///
    /// Nanoseconds beyond a whole second are carried over into the seconds.
    pub fn new(secs: u64, nanos: u32) -> (duration: Duration)
        requires
            secs + nanos as int / NANOS_PER_SEC as int <= u64::MAX,
        ensures
            duration@ == secs * NANOS_PER_SEC + nanos,
    {
        let whole: u64 = nanos as u64 / NANOS_PER_SEC;
        Duration { secs: secs + whole, nanos: (nanos as u64 % NANOS_PER_SEC) as u32 }
    }

    /// The span of `secs` seconds.
    pub fn from_secs(secs: u64) -> (duration: Duration)
        ensures
            duration@ == secs * NANOS_PER_SEC,
    {
        Duration { secs, nanos: 0 }
    }

    /// The number of whole seconds in the span.
    pub fn as_secs(&self) -> (secs: u64)
        ensures
            secs == self@ / NANOS_PER_SEC as nat,
    {
        proof {
            use_type_invariant(self);
        }
        self.secs
    }

    /// The nanoseconds of the span beyond its whole seconds.
    pub fn subsec_nanos(&self) -> (nanos: u32)
        ensures
            nanos == self@ % NANOS_PER_SEC as nat,
    {
        proof {
            use_type_invariant(self);
        }
        self.nanos
    }

    /// The length of the span in nanoseconds.
    pub fn to_nanos(&self) -> (nanos: u64)
        requires
            self@ <= u64::MAX,
        ensures
            nanos == self@,
    {
        self.secs * NANOS_PER_SEC + self.nanos as u64
    }

    /// Whether the span has no length.
    pub fn is_zero(&self) -> (zero: bool)
        ensures
            zero == (self@ == 0),
    {
        self.secs == 0 && self.nanos == 0
    }

    /// The sum of two spans, or the longest span there is where the sum is longer than that.
    pub fn saturating_add(&self, other: &Duration) -> (sum: Duration)
        ensures
            sum@ == if self@ + other@ < (u64::MAX + 1) * NANOS_PER_SEC {
                (self@ + other@) as int
            } else {
                (u64::MAX + 1) * NANOS_PER_SEC - 1
            },
    {
        proof {
            use_type_invariant(self);
            use_type_invariant(other);
        }
        let mut nanos: u32 = self.nanos + other.nanos;
        let mut carry: u64 = 0;
        if nanos as u64 >= NANOS_PER_SEC {
            nanos = nanos - NANOS_PER_SEC as u32;
            carry = 1;
        }
        let longest: Duration = Duration { secs: u64::MAX, nanos: 999_999_999 };
        match self.secs.checked_add(other.secs) {
            None => longest,
            Some(secs) => match secs.checked_add(carry) {
                None => longest,
                Some(secs) => Duration { secs, nanos },
            },
        }
    }
}

/// A span has the seconds and the nanoseconds that it was made of, and its length is a thousand
/// million nanoseconds for every second and one for every nanosecond.
pub proof fn spans_keep_their_parts(
    secs: u64,
    nanos: u32,
    span: Duration,
    whole: u64,
    beyond: u32,
    all: u64,
)
    requires
        nanos < 1_000_000_000,
        call_ensures(Duration::new, (secs, nanos), span),
        call_ensures(Duration::as_secs, (&span,), whole),
        call_ensures(Duration::subsec_nanos, (&span,), beyond),
        call_ensures(Duration::to_nanos, (&span,), all),
    ensures
        whole == secs,
        beyond == nanos,
        all == secs * 1_000_000_000 + nanos,
        span@ == secs * 1_000_000_000 + nanos,
{
}

/// A span of whole seconds is the one with no nanoseconds beyond them, and none but the span of no
/// seconds and no nanoseconds is zero.
pub proof fn whole_seconds_have_nothing_beyond(
    secs: u64,
    nanos: u32,
    whole: Duration,
    span: Duration,
    zero: bool,
)
    requires
        nanos < 1_000_000_000,
        call_ensures(Duration::from_secs, (secs,), whole),
        call_ensures(Duration::new, (secs, nanos), span),
        call_ensures(Duration::is_zero, (&span,), zero),
    ensures
        nanos == 0 ==> whole@ == span@,
        zero <==> secs == 0 && nanos == 0,
{
}

} // verus!
