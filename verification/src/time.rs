//! Instants and spans of time, counted in whole nanoseconds.
//!
//! Both types are plain integers, so two of them compare and subtract exactly.

use vstd::prelude::*;

verus! {

/// How many nanoseconds a second has.
pub const NANOS_PER_SECOND: u128 = 1_000_000_000;

/// A span of time.
#[derive(Clone, Copy, Debug, PartialEq, Eq, Structural, PartialOrd, Ord, Hash)]
pub struct Duration {
    /// The whole span, in nanoseconds.
    pub nanos: u128,
}

/// An instant, as its signed distance from 1970-01-01T00:00:00Z.
#[derive(Clone, Copy, Debug, PartialEq, Eq, Structural, PartialOrd, Ord, Hash)]
pub struct SystemTime {
    /// Nanoseconds since the epoch; negative before it.
    pub nanos: i128,
}

impl Duration {
    /// A span of whole seconds.
    pub fn from_secs(seconds: u64) -> (span: Duration)
        ensures
            span.nanos == seconds * NANOS_PER_SECOND,
    {
        assert(seconds * NANOS_PER_SECOND <= u64::MAX * 1_000_000_000) by (nonlinear_arith)
            requires
                seconds <= u64::MAX,
                NANOS_PER_SECOND == 1_000_000_000,
        ;
        Duration { nanos: (seconds as u128) * NANOS_PER_SECOND }
    }

    /// A span of whole milliseconds.
    pub fn from_millis(millis: u64) -> (span: Duration)
        ensures
            span.nanos == millis * 1_000_000,
    {
        Duration { nanos: (millis as u128) * 1_000_000 }
    }

    /// The span's whole seconds, rounded down.
    pub open spec fn secs(self) -> nat {
        self.nanos as nat / 1_000_000_000
    }

    /// The span's whole milliseconds, rounded down.
    pub open spec fn millis(self) -> nat {
        self.nanos as nat / 1_000_000
    }

    /// The span's whole seconds, rounded down.
    pub fn as_secs(&self) -> (seconds: u128)
        ensures
            seconds == self.secs(),
    {
        self.nanos / NANOS_PER_SECOND
    }

    /// The span's whole milliseconds, rounded down.
    pub fn as_millis(&self) -> (millis: u128)
        ensures
            millis == self.millis(),
    {
        self.nanos / 1_000_000
    }

    /// What is left of this span once `other` is taken away, and nothing if `other` is longer.
    pub open spec fn minus(self, other: Duration) -> Duration {
        Duration {
            nanos: if other.nanos >= self.nanos {
                0
            } else {
                (self.nanos - other.nanos) as u128
            },
        }
    }

    /// What is left of this span once `other` is taken away, and nothing if `other` is longer.
    pub fn saturating_sub(self, other: Duration) -> (left: Duration)
        ensures
            left == self.minus(other),
    {
        if other.nanos >= self.nanos {
            Duration { nanos: 0 }
        } else {
            Duration { nanos: self.nanos - other.nanos }
        }
    }
}

/// What `{:?}` prints for a span of whole seconds and a part of one.
pub uninterp spec fn debug_text(seconds: u64, nanos: u32) -> Seq<char>;

/// `<std::time::Duration as Debug>::fmt` through `format!`: the span as `{:?}` prints it, which
/// depends on its seconds and nanoseconds alone.
#[verifier::external_body]
fn print_debug(seconds: u64, nanos: u32) -> (shown: String)
    requires
        nanos < 1_000_000_000,
    ensures
        shown@ == debug_text(seconds, nanos),
{
    format!("{:?}", std::time::Duration::new(seconds, nanos))
}

/// What `{:.1}` prints for the seconds of a span as a floating-point number.
pub uninterp spec fn tenths_text(seconds: u64, nanos: u32) -> Seq<char>;

/// `std::time::Duration::as_secs_f64`, printed by `format!` with one digit behind the point. It depends
/// on the span's seconds and nanoseconds alone.
#[verifier::external_body]
fn print_tenths(seconds: u64, nanos: u32) -> (shown: String)
    requires
        nanos < 1_000_000_000,
    ensures
        shown@ == tenths_text(seconds, nanos),
{
    format!("{:.1}", std::time::Duration::new(seconds, nanos).as_secs_f64())
}

impl Duration {
    /// The whole seconds, as far as 64 bits count them.
    pub open spec fn whole(self) -> u64 {
        if self.secs() > u64::MAX {
            u64::MAX
        } else {
            self.secs() as u64
        }
    }

    /// The part of a second behind the whole ones.
    pub open spec fn part(self) -> u32 {
        (self.nanos % 1_000_000_000) as u32
    }

    /// The whole seconds, as far as 64 bits count them.
    pub fn as_secs_u64(&self) -> (seconds: u64)
        ensures
            seconds == self.whole(),
    {
        let seconds: u128 = self.nanos / NANOS_PER_SECOND;
        if seconds > u64::MAX as u128 {
            u64::MAX
        } else {
            seconds as u64
        }
    }

    /// The span the way a programmer prints it.
    pub fn to_debug(&self) -> (shown: String)
        ensures
            shown@ == debug_text(self.whole(), self.part()),
    {
        print_debug(self.as_secs_u64(), (self.nanos % NANOS_PER_SECOND) as u32)
    }

    /// The seconds of the span with one digit behind the point.
    pub open spec fn tenths(self) -> Seq<char> {
        tenths_text(self.whole(), self.part())
    }

    /// The seconds of the span with one digit behind the point.
    pub fn to_tenths(&self) -> (shown: String)
        ensures
            shown@ == self.tenths(),
    {
        print_tenths(self.as_secs_u64(), (self.nanos % NANOS_PER_SECOND) as u32)
    }
}

impl SystemTime {
    /// How long before `self` the instant `earlier` was, or `None` if it was later.
    pub open spec fn since(self, earlier: SystemTime) -> Option<Duration> {
        if self.nanos >= earlier.nanos {
            Some(Duration { nanos: (self.nanos - earlier.nanos) as u128 })
        } else {
            None
        }
    }

    /// How long before `self` the instant `earlier` was, or `None` if it was later.
    pub fn duration_since(&self, earlier: SystemTime) -> (span: Option<Duration>)
        ensures
            span == self.since(earlier),
            span is Some <==> self.nanos >= earlier.nanos,
            span is Some ==> span->0.nanos == self.nanos - earlier.nanos,
    {
        if self.nanos < earlier.nanos {
            None
        } else if self.nanos < 0 || earlier.nanos >= 0 {
            Some(Duration { nanos: (self.nanos - earlier.nanos) as u128 })
        } else {
            let after: u128 = self.nanos as u128;
            let before: u128 = (-(earlier.nanos + 1)) as u128;
            Some(Duration { nanos: after + before + 1 })
        }
    }
}

} // verus!
