//! Spans of time.

use vstd::prelude::*;

verus! {

/// A span of time: whole seconds, and nanoseconds below a second.
#[derive(Clone, Copy, Debug, PartialEq, Eq, Structural)]
pub struct Duration {
    pub secs: u64,
    pub nanos: u32,
}

impl Duration {
    pub open spec fn zero() -> Duration {
        Duration { secs: 0, nanos: 0 }
    }

    /// The span in nanoseconds.
    pub open spec fn total(self) -> int {
        self.secs * 1_000_000_000 + self.nanos
    }

    /// Whether the nanoseconds stay below a second.
    pub open spec fn wf(self) -> bool {
        self.nanos < 1_000_000_000
    }

    /// Whether this span ends before the other; whole seconds decide first.
    pub open spec fn before(self, other: Duration) -> bool {
        self.secs < other.secs || (self.secs == other.secs && self.nanos < other.nanos)
    }

    /// The shorter of two spans.
    pub open spec fn shorter(self, other: Duration) -> Duration {
        if other.before(self) {
            other
        } else {
            self
        }
    }

    pub fn zero_span() -> (span: Duration)
        ensures
            span == Duration::zero(),
    {
        Duration { secs: 0, nanos: 0 }
    }

    pub fn from_secs(secs: u64) -> (span: Duration)
        ensures
            span == (Duration { secs, nanos: 0 }),
    {
        Duration { secs, nanos: 0 }
    }

    pub fn from_millis(millis: u64) -> (span: Duration)
        ensures
            span.wf(),
            span.total() == millis * 1_000_000,
    {
        Duration { secs: millis / 1000, nanos: (millis % 1000) as u32 * 1_000_000 }
    }

    pub fn from_micros(micros: u64) -> (span: Duration)
        ensures
            span.wf(),
            span.total() == micros * 1000,
    {
        Duration { secs: micros / 1_000_000, nanos: (micros % 1_000_000) as u32 * 1000 }
    }

    pub fn as_secs(self) -> (secs: u64)
        ensures
            secs == self.secs,
    {
        self.secs
    }

    pub fn as_micros(self) -> (micros: u128)
        ensures
            micros == self.secs * 1_000_000 + self.nanos / 1000,
    {
        self.secs as u128 * 1_000_000 + (self.nanos / 1000) as u128
    }

    pub fn as_millis(self) -> (millis: u128)
        ensures
            millis == self.secs * 1000 + self.nanos / 1_000_000,
    {
        self.secs as u128 * 1000 + (self.nanos / 1_000_000) as u128
    }

    pub fn is_before(self, other: Duration) -> (before: bool)
        ensures
            before == self.before(other),
    {
        self.secs < other.secs || (self.secs == other.secs && self.nanos < other.nanos)
    }

    pub fn min(self, other: Duration) -> (span: Duration)
        ensures
            span == self.shorter(other),
    {
        if other.is_before(self) {
            other
        } else {
            self
        }
    }
}

} // verus!
