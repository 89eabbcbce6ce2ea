//! Spans of time, counted in nanoseconds.

use vstd::prelude::*;

verus! {

/// How many nanoseconds one second holds.
pub const NANOS_PER_SEC: u128 = 1_000_000_000;

/// The longest span that addition reaches: `u64::MAX` whole seconds and one
/// nanosecond short of another.
pub const MAX_NANOS: u128 = 18_446_744_073_709_551_615_999_999_999;

/// A span of time, or an instant as its distance from a fixed start.
#[derive(Debug, Clone, Copy, PartialEq, Eq, Structural)]
pub struct Duration {
    /// The whole span.
    pub nanos: u128,
}

/// The deadlines of one request, each where it has one.
#[derive(Debug, Clone, Copy, PartialEq, Eq, Structural)]
pub struct Timeouts {
    /// For a first address.
    pub resolve: Option<Duration>,
    /// For a connection, from the lookup on.
    pub connect: Option<Duration>,
    /// For the head of the response.
    pub first_byte: Option<Duration>,
    /// For each silence of the response body.
    pub between_bytes: Option<Duration>,
}

/// The sum of two spans, held at the longest span.
pub open spec fn sum_of(a: Duration, b: Duration) -> Duration {
    Duration {
        nanos: (if a.nanos + b.nanos <= MAX_NANOS {
            a.nanos + b.nanos
        } else {
            MAX_NANOS as int
        }) as u128,
    }
}

/// What is left of `a` once `b` has passed, and nothing where `b` is longer.
pub open spec fn rest_of(a: Duration, b: Duration) -> Duration {
    Duration {
        nanos: (if a.nanos >= b.nanos {
            a.nanos - b.nanos
        } else {
            0
        }) as u128,
    }
}

/// The span of `secs` whole seconds.
pub open spec fn secs_of(secs: u64) -> Duration {
    Duration { nanos: (secs * 1_000_000_000) as u128 }
}

/// The span of `millis` whole milliseconds.
pub open spec fn millis_of(millis: u64) -> Duration {
    Duration { nanos: (millis * 1_000_000) as u128 }
}

/// The longer of two spans.
pub open spec fn longer_of(a: Duration, b: Duration) -> Duration {
    if a.nanos >= b.nanos {
        a
    } else {
        b
    }
}

/// The shorter of two spans.
pub open spec fn shorter_of(a: Duration, b: Duration) -> Duration {
    if a.nanos <= b.nanos {
        a
    } else {
        b
    }
}

impl Duration {
    /// The span of `secs` whole seconds.
    pub fn from_secs(secs: u64) -> (d: Self)
        ensures
            d == secs_of(secs),
            d.nanos == secs * 1_000_000_000,
    {
        Duration { nanos: secs as u128 * NANOS_PER_SEC }
    }

    /// The span of `millis` whole milliseconds.
    pub fn from_millis(millis: u64) -> (d: Self)
        ensures
            d == millis_of(millis),
            d.nanos == millis * 1_000_000,
    {
        Duration { nanos: millis as u128 * 1_000_000 }
    }

    /// The whole seconds in this span, held at `u64::MAX`.
    pub fn as_secs(self) -> (secs: u64)
        ensures
            secs == if self.nanos / 1_000_000_000 <= u64::MAX {
                self.nanos / 1_000_000_000
            } else {
                u64::MAX as u128
            },
    {
        let whole: u128 = self.nanos / NANOS_PER_SEC;
        if whole <= u64::MAX as u128 {
            whole as u64
        } else {
            u64::MAX
        }
    }

    /// The sum, held at the longest span rather than overflowing.
    pub fn saturating_add(self, other: Self) -> (d: Self)
        ensures
            d == sum_of(self, other),
    {
        match self.nanos.checked_add(other.nanos) {
            Some(nanos) => if nanos <= MAX_NANOS {
                Duration { nanos }
            } else {
                Duration { nanos: MAX_NANOS }
            },
            None => Duration { nanos: MAX_NANOS },
        }
    }

    /// What is left of this span once `other` has passed.
    pub fn saturating_sub(self, other: Self) -> (d: Self)
        ensures
            d == rest_of(self, other),
    {
        if self.nanos >= other.nanos {
            Duration { nanos: self.nanos - other.nanos }
        } else {
            Duration { nanos: 0 }
        }
    }

    /// The longer of the two.
    pub fn longer(self, other: Self) -> (d: Self)
        ensures
            d == longer_of(self, other),
    {
        if self.nanos >= other.nanos {
            self
        } else {
            other
        }
    }
}

/// Spans add up exactly, up to the longest one, and in either order.
pub proof fn law_spans_add_up(a: Duration, b: Duration)
    ensures
        a.nanos + b.nanos <= MAX_NANOS ==> sum_of(a, b).nanos == a.nanos + b.nanos,
        a.nanos + b.nanos > MAX_NANOS ==> sum_of(a, b).nanos == MAX_NANOS,
        sum_of(a, b) == sum_of(b, a),
        b.nanos <= a.nanos ==> rest_of(a, b).nanos + b.nanos == a.nanos,
        b.nanos > a.nanos ==> rest_of(a, b).nanos == 0,
{
}

/// A second is a thousand milliseconds of a million nanoseconds each.
pub proof fn law_seconds_and_milliseconds(secs: u64, millis: u64)
    ensures
        secs_of(secs).nanos == secs * 1_000_000_000,
        millis_of(millis).nanos == millis * 1_000_000,
        millis == 1000 * secs ==> secs_of(secs) == millis_of(millis),
        MAX_NANOS == u64::MAX * 1_000_000_000 + 999_999_999,
{
}

/// The longer of two spans is no shorter than either, the shorter no longer,
/// and each is one of the two.
pub proof fn law_longer_and_shorter(a: Duration, b: Duration)
    ensures
        longer_of(a, b).nanos >= a.nanos && longer_of(a, b).nanos >= b.nanos,
        longer_of(a, b) == a || longer_of(a, b) == b,
        shorter_of(a, b).nanos <= a.nanos && shorter_of(a, b).nanos <= b.nanos,
        shorter_of(a, b) == a || shorter_of(a, b) == b,
{
}

} // verus!
