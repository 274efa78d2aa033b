//! Spans of time and points in time, to the nanosecond.

use vstd::prelude::*;

verus! {

/// Nanoseconds in a second.
pub const SECOND: u128 = 1_000_000_000;

/// The longest span: as many seconds as 64 bits count, and one nanosecond less
/// than a second.
pub const LONGEST: u128 = 18_446_744_073_709_551_615_999_999_999;

/// A span of time.
#[derive(Clone, Copy, Debug, PartialEq, Eq, PartialOrd, Ord, Structural)]
pub struct Duration {
    nanos: u128,
}

impl View for Duration {
    type V = int;

    /// The span in nanoseconds.
    closed spec fn view(&self) -> int {
        self.nanos as int
    }
}

pub open spec fn min(a: int, b: int) -> int {
    if a <= b {
        a
    } else {
        b
    }
}

pub open spec fn max(a: int, b: int) -> int {
    if a >= b {
        a
    } else {
        b
    }
}

impl Duration {
    #[verifier::type_invariant]
    spec fn in_range(self) -> bool {
        self.nanos <= LONGEST
    }

    pub fn from_secs(secs: u64) -> (r: Self)
        ensures
            r@ == secs * SECOND,
    {
        Duration { nanos: secs as u128 * SECOND }
    }

    pub fn from_millis(millis: u64) -> (r: Self)
        ensures
            r@ == millis * 1_000_000,
    {
        Duration { nanos: millis as u128 * 1_000_000 }
    }

    /// A span of so many nanoseconds, or the longest one where it is shorter.
    pub fn from_nanos(nanos: u128) -> (r: Self)
        ensures
            r@ == min(nanos as int, LONGEST as int),
    {
        Duration {
            nanos: if nanos <= LONGEST {
                nanos
            } else {
                LONGEST
            },
        }
    }

    pub fn zero() -> (r: Self)
        ensures
            r@ == 0,
    {
        Duration { nanos: 0 }
    }

    pub fn as_nanos(&self) -> (r: u128)
        ensures
            r == self@,
            r <= LONGEST,
    {
        proof {
            use_type_invariant(self);
        }
        self.nanos
    }

    /// The whole seconds of the span.
    pub fn as_secs(&self) -> (r: u64)
        ensures
            r == self@ / SECOND as int,
    {
        proof {
            use_type_invariant(self);
        }
        (self.nanos / SECOND) as u64
    }

    /// The nanoseconds beyond the whole seconds of the span.
    pub fn subsec_nanos(&self) -> (r: u32)
        ensures
            r == self@ % SECOND as int,
    {
        (self.nanos % SECOND) as u32
    }

    /// The whole milliseconds of the span.
    pub fn as_millis(&self) -> (r: u128)
        ensures
            r == self@ / 1_000_000,
    {
        self.nanos / 1_000_000
    }

    pub fn is_zero(&self) -> (r: bool)
        ensures
            r == (self@ == 0),
    {
        self.nanos == 0
    }

    pub fn less(&self, other: &Self) -> (r: bool)
        ensures
            r == (self@ < other@),
    {
        self.nanos < other.nanos
    }

    pub fn at_most(&self, other: &Self) -> (r: bool)
        ensures
            r == (self@ <= other@),
    {
        self.nanos <= other.nanos
    }

    pub fn shorter(self, other: Self) -> (r: Self)
        ensures
            r@ == min(self@, other@),
    {
        if self.nanos <= other.nanos {
            self
        } else {
            other
        }
    }

    pub fn longer(self, other: Self) -> (r: Self)
        ensures
            r@ == max(self@, other@),
    {
        if self.nanos >= other.nanos {
            self
        } else {
            other
        }
    }

    /// The difference, or zero where `other` is longer.
    pub fn saturating_sub(self, other: Self) -> (r: Self)
        ensures
            r@ == max(self@ - other@, 0),
    {
        proof {
            use_type_invariant(&self);
        }
        if self.nanos >= other.nanos {
            Duration { nanos: self.nanos - other.nanos }
        } else {
            Duration { nanos: 0 }
        }
    }

    /// The sum, where it is a span.
    pub fn checked_add(self, other: Self) -> (r: Option<Self>)
        ensures
            match r {
                Some(d) => d@ == self@ + other@ && d@ <= LONGEST,
                None => self@ + other@ > LONGEST,
            },
    {
        proof {
            use_type_invariant(&self);
            use_type_invariant(&other);
        }
        let sum: u128 = self.nanos + other.nanos;
        if sum <= LONGEST {
            Some(Duration { nanos: sum })
        } else {
            None
        }
    }

    /// The span taken `n` times.
    pub fn times(self, n: u32) -> (r: Self)
        requires
            self@ * n <= LONGEST,
        ensures
            r@ == self@ * n,
    {
        proof {
            use_type_invariant(&self);
            let a = self.nanos as int;
            assert(0 <= a * n) by (nonlinear_arith)
                requires
                    0 <= a,
            ;
        }
        Duration { nanos: self.nanos * (n as u128) }
    }

    /// The span taken `n` times, or the longest one where that is shorter.
    pub fn saturating_mul(self, n: u32) -> (r: Self)
        ensures
            r@ == min(self@ * n, LONGEST as int),
    {
        proof {
            use_type_invariant(&self);
            let a = self.nanos as int;
            assert(0 <= a * n <= LONGEST * 0xffff_ffff) by (nonlinear_arith)
                requires
                    0 <= a <= LONGEST,
                    n <= 0xffff_ffff,
            ;
        }
        Self::from_nanos(self.nanos * (n as u128))
    }

    /// One of `n` equal parts of the span.
    pub fn part(self, n: u32) -> (r: Self)
        requires
            n > 0,
        ensures
            r@ == self@ / n as int,
    {
        proof {
            use_type_invariant(&self);
            let a = self.nanos as int;
            assert(a / n as int <= a) by (nonlinear_arith)
                requires
                    0 <= a,
                    n > 0,
            ;
        }
        Duration { nanos: self.nanos / (n as u128) }
    }
}

/// A point in time, as the span since a fixed one.
#[derive(Clone, Copy, Debug, PartialEq, Eq, PartialOrd, Ord, Structural)]
pub struct Instant {
    since: Duration,
}

impl View for Instant {
    type V = int;

    /// The nanoseconds since the fixed point.
    closed spec fn view(&self) -> int {
        self.since@
    }
}

impl Instant {
    pub fn at(since: Duration) -> (r: Self)
        ensures
            r@ == since@,
    {
        Instant { since }
    }

    /// The point a span later, where there is one.
    pub fn checked_add(self, d: Duration) -> (r: Option<Self>)
        ensures
            match r {
                Some(t) => t@ == self@ + d@ && t@ <= LONGEST,
                None => self@ + d@ > LONGEST,
            },
    {
        match self.since.checked_add(d) {
            Some(since) => Some(Instant { since }),
            None => None,
        }
    }

    /// The point a span later.
    pub fn plus(self, d: Duration) -> (r: Self)
        requires
            self@ + d@ <= LONGEST,
        ensures
            r@ == self@ + d@,
    {
        match self.since.checked_add(d) {
            Some(since) => Instant { since },
            None => self,
        }
    }

    /// The span since an earlier point; nothing where that point is later.
    pub fn checked_duration_since(&self, earlier: &Instant) -> (r: Option<Duration>)
        ensures
            match r {
                Some(d) => d@ == self@ - earlier@,
                None => self@ < earlier@,
            },
    {
        if self.since.less(&earlier.since) {
            None
        } else {
            Some(self.since.saturating_sub(earlier.since))
        }
    }

    /// The span since an earlier point, zero where that point is later.
    pub fn saturating_duration_since(&self, earlier: &Instant) -> (r: Duration)
        ensures
            r@ == max(self@ - earlier@, 0),
    {
        self.since.saturating_sub(earlier.since)
    }

    pub fn at_most(&self, other: &Instant) -> (r: bool)
        ensures
            r == (self@ <= other@),
    {
        self.since.at_most(&other.since)
    }
}

/// No span is negative.
pub broadcast proof fn lemma_span_nonnegative(d: Duration)
    ensures
        #[trigger] d@ >= 0,
{
}

/// No point lies before the fixed one.
pub broadcast proof fn lemma_instant_nonnegative(t: Instant)
    ensures
        #[trigger] t@ >= 0,
{
}

pub broadcast group group_time {
    lemma_span_nonnegative,
    lemma_instant_nonnegative,
}

/// The lesser and the greater of two are each one of them, and in order.
pub proof fn law_one_of_two_is_taken(a: int, b: int)
    ensures
        min(a, b) <= a && min(a, b) <= b,
        max(a, b) >= a && max(a, b) >= b,
        min(a, b) == a || min(a, b) == b,
        min(a, b) + max(a, b) == a + b,
{
}

} // verus!
