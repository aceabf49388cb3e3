//! Spans of time.
use vstd::prelude::*;

verus! {

/// A span of time in nanoseconds.
#[derive(Debug, Clone, Copy, PartialEq, Eq, Structural)]
pub struct Duration {
    pub nanos: u128,
}

impl Duration {
    /// Whether the whole seconds of the span fit in 64 bits.
    pub open spec fn in_range(self) -> bool {
        self.nanos as int / 1_000_000_000 <= u64::MAX
    }

    /// A span of whole seconds.
    pub fn from_secs(secs: u64) -> (d: Duration)
        ensures
            d.nanos == secs * 1_000_000_000,
            d.in_range(),
    {
        Duration { nanos: secs as u128 * 1_000_000_000 }
    }

    /// A span of whole milliseconds.
    pub fn from_millis(millis: u64) -> (d: Duration)
        ensures
            d.nanos == millis * 1_000_000,
            d.in_range(),
    {
        Duration { nanos: millis as u128 * 1_000_000 }
    }

    /// The whole seconds of the span.
    pub fn as_secs(&self) -> (secs: u64)
        requires
            self.in_range(),
        ensures
            secs == self.nanos as int / 1_000_000_000,
    {
        (self.nanos / 1_000_000_000) as u64
    }

    /// The nanoseconds of the span beyond its whole seconds.
    pub fn subsec_nanos(&self) -> (nanos: u32)
        ensures
            nanos == self.nanos as int % 1_000_000_000,
    {
        (self.nanos % 1_000_000_000) as u32
    }

    /// The whole milliseconds of the span.
    pub fn as_millis(&self) -> (millis: u128)
        ensures
            millis == self.nanos as int / 1_000_000,
    {
        self.nanos / 1_000_000
    }

    /// The shorter of two spans.
    pub fn min(self, other: Duration) -> (d: Duration)
        ensures
            d.nanos == if self.nanos <= other.nanos {
                self.nanos
            } else {
                other.nanos
            },
    {
        if self.nanos <= other.nanos {
            self
        } else {
            other
        }
    }
}

/// A span is in range below 2^64 seconds, and nowhere above.
pub proof fn law_in_range(d: Duration)
    ensures
        d.in_range() <==> d.nanos < 18_446_744_073_709_551_616 * 1_000_000_000,
{
}

} // verus!
