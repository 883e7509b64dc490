//! Spans of time on the wire: whole seconds plus a nanosecond remainder.
use vstd::prelude::*;

verus! {

pub const NANOS_PER_SEC: u32 = 1_000_000_000;

/// A span of time: `secs` seconds and `nanos` nanoseconds, `nanos` below one
/// second.
#[derive(Debug, Clone, Copy, PartialEq, Eq, Hash, Structural)]
pub struct Duration {
    secs: u64,
    nanos: u32,
}

/// The longest span a [`Duration`] holds, in nanoseconds.
pub open spec fn max_duration_nanos() -> int {
    u64::MAX * NANOS_PER_SEC + (NANOS_PER_SEC - 1)
}

impl Duration {
    #[verifier::type_invariant]
    spec fn nanos_below_a_second(self) -> bool {
        self.nanos < NANOS_PER_SEC
    }

    /// The span in nanoseconds.
    pub closed spec fn total_nanos(self) -> int {
        self.secs * NANOS_PER_SEC + self.nanos
    }

    /// The whole seconds of the span.
    pub closed spec fn whole_secs(self) -> u64 {
        self.secs
    }

    /// `secs` seconds plus `nanos` nanoseconds; nanoseconds beyond a second
    /// carry into the seconds.
    pub fn new(secs: u64, nanos: u32) -> (d: Duration)
        requires
            secs + nanos / NANOS_PER_SEC <= u64::MAX,
        ensures
            d.total_nanos() == secs * NANOS_PER_SEC + nanos,
    {
        let extra = (nanos / NANOS_PER_SEC) as u64;
        let rest = nanos % NANOS_PER_SEC;
        assert(extra * NANOS_PER_SEC + rest == nanos) by (nonlinear_arith)
            requires
                extra == nanos / NANOS_PER_SEC,
                rest == nanos % NANOS_PER_SEC,
        ;
        Duration { secs: secs + extra, nanos: rest }
    }

    pub fn from_secs(secs: u64) -> (d: Duration)
        ensures
            d.total_nanos() == secs * NANOS_PER_SEC,
    {
        Duration { secs, nanos: 0 }
    }

    pub fn from_millis(millis: u64) -> (d: Duration)
        ensures
            d.total_nanos() == millis * 1_000_000,
    {
        let secs = millis / 1000;
        let nanos = ((millis % 1000) as u32) * 1_000_000;
        assert(secs * 1000 + millis % 1000 == millis) by (nonlinear_arith)
            requires
                secs == millis / 1000,
        ;
        Duration { secs, nanos }
    }

    pub fn as_secs(&self) -> (s: u64)
        ensures
            s == self.whole_secs(),
    {
        self.secs
    }

    pub fn subsec_nanos(&self) -> (n: u32)
        ensures
            n == self.total_nanos() - self.whole_secs() * NANOS_PER_SEC,
            n < NANOS_PER_SEC,
    {
        proof {
            use_type_invariant(self);
        }
        self.nanos
    }

    /// The span `rhs` times over, or the longest span if that overflows.
    pub fn saturating_mul(self, rhs: u32) -> (d: Duration)
        ensures
            d.total_nanos() == if self.total_nanos() * rhs <= max_duration_nanos() {
                self.total_nanos() * rhs
            } else {
                max_duration_nanos()
            },
    {
        proof {
            use_type_invariant(self);
        }
        assert(self.nanos as u64 * rhs as u64 <= (NANOS_PER_SEC - 1) * u32::MAX) by (nonlinear_arith)
            requires
                self.nanos < NANOS_PER_SEC,
                rhs <= u32::MAX,
        ;
        let total_nanos = self.nanos as u64 * rhs as u64;
        let extra_secs = total_nanos / (NANOS_PER_SEC as u64);
        let nanos = (total_nanos % (NANOS_PER_SEC as u64)) as u32;
        assert(self.secs as u128 * rhs as u128 <= u64::MAX * u32::MAX) by (nonlinear_arith)
            requires
                self.secs <= u64::MAX,
                rhs <= u32::MAX,
        ;
        assert(extra_secs <= u32::MAX) by (nonlinear_arith)
            requires
                extra_secs == total_nanos / (NANOS_PER_SEC as u64),
                total_nanos <= (NANOS_PER_SEC - 1) * u32::MAX,
        ;
        let secs = self.secs as u128 * rhs as u128 + extra_secs as u128;
        proof {
            let t = self.secs * NANOS_PER_SEC + self.nanos;
            assert(extra_secs * NANOS_PER_SEC + nanos == self.nanos * rhs) by (nonlinear_arith)
                requires
                    extra_secs == total_nanos / (NANOS_PER_SEC as u64),
                    nanos == total_nanos % (NANOS_PER_SEC as u64),
                    total_nanos == self.nanos * rhs,
            ;
            assert(t * rhs == secs * NANOS_PER_SEC + nanos) by (nonlinear_arith)
                requires
                    t == self.secs * NANOS_PER_SEC + self.nanos,
                    secs == self.secs * rhs + extra_secs,
                    extra_secs * NANOS_PER_SEC + nanos == self.nanos * rhs,
            ;
            assert(secs <= u64::MAX ==> t * rhs <= max_duration_nanos()) by (nonlinear_arith)
                requires
                    t * rhs == secs * NANOS_PER_SEC + nanos,
                    nanos < NANOS_PER_SEC,
            ;
            assert(secs > u64::MAX ==> t * rhs > max_duration_nanos()) by (nonlinear_arith)
                requires
                    t * rhs == secs * NANOS_PER_SEC + nanos,
            ;
        }
        if secs <= u64::MAX as u128 {
            Duration { secs: secs as u64, nanos }
        } else {
            Duration { secs: u64::MAX, nanos: NANOS_PER_SEC - 1 }
        }
    }

    /// The longer of two spans (`other` when they are equal).
    pub fn max(self, other: Duration) -> (d: Duration)
        ensures
            d.total_nanos() == if self.total_nanos() <= other.total_nanos() {
                other.total_nanos()
            } else {
                self.total_nanos()
            },
    {
        if self.secs < other.secs || (self.secs == other.secs && self.nanos <= other.nanos) {
            proof {
                use_type_invariant(self);
                use_type_invariant(other);
                if self.secs < other.secs {
                    assert(self.secs * NANOS_PER_SEC + NANOS_PER_SEC <= other.secs * NANOS_PER_SEC)
                        by (nonlinear_arith)
                        requires
                            self.secs < other.secs,
                    ;
                }
            }
            other
        } else {
            proof {
                use_type_invariant(self);
                use_type_invariant(other);
                if other.secs < self.secs {
                    assert(other.secs * NANOS_PER_SEC + NANOS_PER_SEC <= self.secs * NANOS_PER_SEC)
                        by (nonlinear_arith)
                        requires
                            other.secs < self.secs,
                    ;
                }
            }
            self
        }
    }
}

} // verus!
