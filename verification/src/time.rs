//! Spans of time and points in time, in nanoseconds.

use vstd::prelude::*;

verus! {

/// The nanoseconds in one second.
pub const NANOS_PER_SECOND: u128 = 1_000_000_000;

/// The nanoseconds in one millisecond.
pub const NANOS_PER_MILLI: u128 = 1_000_000;

/// The longest span: `u64::MAX` seconds and 999,999,999 nanoseconds.
pub const MAX_SPAN_NANOS: u128 = 18_446_744_073_709_551_615_999_999_999;

/// A span of time in whole nanoseconds.
#[derive(Clone, Copy, Debug, PartialEq, Eq, PartialOrd, Ord, Hash, Structural)]
pub struct Duration {
    pub nanos: u128,
}

impl Duration {
    /// Whether the span is one that can be counted in `u64` seconds.
    pub open spec fn wf(self) -> bool {
        self.nanos <= MAX_SPAN_NANOS
    }

    pub open spec fn secs(s: nat) -> Duration {
        Duration { nanos: (s * 1_000_000_000) as u128 }
    }

    pub open spec fn millis(ms: nat) -> Duration {
        Duration { nanos: (ms * 1_000_000) as u128 }
    }

    pub fn from_nanos(nanos: u64) -> (r: Duration)
        ensures
            r.nanos == nanos,
            r.wf(),
    {
        Duration { nanos: nanos as u128 }
    }

    pub fn from_millis(millis: u64) -> (r: Duration)
        ensures
            r.nanos == millis * 1_000_000,
            r == Duration::millis(millis as nat),
            r.wf(),
    {
        Duration { nanos: millis as u128 * NANOS_PER_MILLI }
    }

    pub fn from_secs(secs: u64) -> (r: Duration)
        ensures
            r.nanos == secs * 1_000_000_000,
            r == Duration::secs(secs as nat),
            r.wf(),
    {
        Duration { nanos: secs as u128 * NANOS_PER_SECOND }
    }

    pub fn as_millis(&self) -> (r: u128)
        ensures
            r == self.nanos / 1_000_000,
    {
        self.nanos / NANOS_PER_MILLI
    }

    pub fn as_secs(&self) -> (r: u64)
        requires
            self.wf(),
        ensures
            r == self.nanos / 1_000_000_000,
    {
        (self.nanos / NANOS_PER_SECOND) as u64
    }

    /// Whether the span can be counted in `u64` seconds.
    pub fn is_valid(&self) -> (r: bool)
        ensures
            r == self.wf(),
    {
        self.nanos <= MAX_SPAN_NANOS
    }

    pub fn is_zero(&self) -> (r: bool)
        ensures
            r == (self.nanos == 0),
    {
        self.nanos == 0
    }

    pub fn saturating_add(self, other: Duration) -> (r: Duration)
        requires
            self.wf(),
            other.wf(),
        ensures
            r.wf(),
            r.nanos == if self.nanos + other.nanos <= MAX_SPAN_NANOS {
                (self.nanos + other.nanos) as u128
            } else {
                MAX_SPAN_NANOS
            },
    {
        let sum: u128 = self.nanos + other.nanos;
        if sum <= MAX_SPAN_NANOS {
            Duration { nanos: sum }
        } else {
            Duration { nanos: MAX_SPAN_NANOS }
        }
    }

    pub fn saturating_sub(self, other: Duration) -> (r: Duration)
        ensures
            r.nanos == if self.nanos >= other.nanos {
                (self.nanos - other.nanos) as u128
            } else {
                0
            },
            self.wf() ==> r.wf(),
    {
        if self.nanos >= other.nanos {
            Duration { nanos: self.nanos - other.nanos }
        } else {
            Duration { nanos: 0 }
        }
    }

    pub fn checked_mul(self, factor: u32) -> (r: Option<Duration>)
        requires
            self.wf(),
        ensures
            r is Some <==> self.nanos * factor <= MAX_SPAN_NANOS,
            r is Some ==> r.unwrap().nanos == self.nanos * factor && r.unwrap().wf(),
    {
        proof {
            assert(self.nanos * factor <= 0x3B9A_CA00_0000_0000_0000_0000 * 0xFFFF_FFFF)
                by (nonlinear_arith)
                requires
                    self.nanos <= 18_446_744_073_709_551_615_999_999_999,
                    factor <= 0xFFFF_FFFF,
            ;
        }
        let product: u128 = self.nanos * factor as u128;
        if product <= MAX_SPAN_NANOS {
            Some(Duration { nanos: product })
        } else {
            None
        }
    }

    pub fn longer(self, other: Duration) -> (r: Duration)
        ensures
            r == if self.nanos >= other.nanos {
                self
            } else {
                other
            },
    {
        if self.nanos >= other.nanos {
            self
        } else {
            other
        }
    }

    pub fn shorter(self, other: Duration) -> (r: Duration)
        ensures
            r == if self.nanos <= other.nanos {
                self
            } else {
                other
            },
    {
        if self.nanos <= other.nanos {
            self
        } else {
            other
        }
    }
}

/// The largest number of nanoseconds that a point in time may lie behind its origin.
pub const MAX_INSTANT_NANOS: u128 = 18_446_744_073_709_551_615_999_999_999;

/// A point in time, in nanoseconds since a fixed origin.
#[derive(Clone, Copy, Debug, PartialEq, Eq, PartialOrd, Ord, Hash, Structural)]
pub struct Instant {
    pub nanos: u128,
}

impl Instant {
    /// Whether the point lies within the range that the clock can give.
    pub open spec fn wf(self) -> bool {
        self.nanos <= MAX_INSTANT_NANOS
    }

    /// Whether `span` can be added to the point.
    pub open spec fn can_add(self, span: Duration) -> bool {
        self.nanos + span.nanos <= MAX_INSTANT_NANOS
    }

    pub open spec fn plus(self, span: Duration) -> Instant {
        Instant { nanos: (self.nanos + span.nanos) as u128 }
    }

    /// Whether `span` can be added to the point.
    pub fn fits(self, span: Duration) -> (r: bool)
        ensures
            r == self.can_add(span),
    {
        self.nanos <= MAX_INSTANT_NANOS && span.nanos <= MAX_INSTANT_NANOS - self.nanos
    }

    pub fn add_span(self, span: Duration) -> (r: Instant)
        requires
            self.can_add(span),
        ensures
            r == self.plus(span),
            r.wf(),
    {
        Instant { nanos: self.nanos + span.nanos }
    }

    /// The time from `earlier` to this point, zero where `earlier` is later.
    pub fn saturating_since(self, earlier: Instant) -> (r: Duration)
        ensures
            r.nanos == if self.nanos >= earlier.nanos {
                (self.nanos - earlier.nanos) as u128
            } else {
                0
            },
            self.wf() ==> r.wf(),
    {
        if self.nanos >= earlier.nanos {
            Duration { nanos: self.nanos - earlier.nanos }
        } else {
            Duration { nanos: 0 }
        }
    }
}

/// The last wall-clock time: the end of the year 9999.
pub const MAX_TIMESTAMP_NANOS: i128 = 253_402_300_799_999_999_999;

/// A wall-clock time, in nanoseconds since the Unix epoch.
#[derive(Clone, Copy, Debug, PartialEq, Eq, PartialOrd, Ord, Hash, Structural)]
pub struct Timestamp {
    pub unix_nanos: i128,
}

impl Timestamp {
    /// Whether `span` can be added to the time.
    pub open spec fn can_add(self, span: Duration) -> bool {
        self.unix_nanos + span.nanos <= MAX_TIMESTAMP_NANOS
    }

    pub fn add_span(self, span: Duration) -> (r: Timestamp)
        requires
            self.can_add(span),
            span.wf(),
        ensures
            r.unix_nanos == self.unix_nanos + span.nanos,
    {
        Timestamp { unix_nanos: self.unix_nanos + span.nanos as i128 }
    }
}

/// A second is a thousand million nanoseconds, a millisecond a million, and adding a span moves a point
/// in time on by it.
pub proof fn what_spans_are_made_of(n: nat, at: Instant, span: Duration)
    requires
        n <= u64::MAX,
    ensures
        Duration::secs(n).nanos == n * 1_000_000_000,
        Duration::millis(n).nanos == n * 1_000_000,
        n * 1000 <= u64::MAX ==> Duration::millis(n * 1000) == Duration::secs(n),
        at.can_add(span) ==> at.plus(span).nanos == at.nanos + span.nanos,
{
}

} // verus!
