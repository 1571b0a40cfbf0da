//! Spans of time.

use vstd::prelude::*;

verus! {

pub const NANOS_PER_SEC: u32 = 1_000_000_000;

/// A span of time in whole seconds and nanoseconds below one second.
#[derive(Clone, Copy, Debug, PartialEq, Eq)]
pub struct Duration {
    secs: u64,
    nanos: u32,
}

/// The length of `n` seconds in nanoseconds.
pub open spec fn seconds(n: nat) -> nat {
    n * 1_000_000_000
}

impl View for Duration {
    type V = nat;

    /// The length in nanoseconds.
    closed spec fn view(&self) -> nat {
        seconds(self.secs as nat) + self.nanos as nat
    }
}

impl Duration {
    #[verifier::type_invariant]
    spec fn within_second(self) -> bool {
        self.nanos < NANOS_PER_SEC
    }

    /// `secs` seconds and `nanos` nanoseconds, of which a full second carries over.
    pub fn new(secs: u64, nanos: u32) -> (r: Duration)
        requires
            secs + nanos / NANOS_PER_SEC <= u64::MAX,
        ensures
            r@ == seconds(secs as nat) + nanos as nat,
    {
        let carry: u32 = nanos / NANOS_PER_SEC;
        Duration { secs: secs + carry as u64, nanos: nanos % NANOS_PER_SEC }
    }

    pub fn from_secs(secs: u64) -> (r: Duration)
        ensures
            r@ == seconds(secs as nat),
    {
        Duration { secs, nanos: 0 }
    }

    /// The whole seconds.
    pub fn as_secs(&self) -> (r: u64)
        ensures
            r == self@ / 1_000_000_000,
    {
        proof {
            use_type_invariant(self);
        }
        self.secs
    }

    /// What is left over the whole seconds.
    pub fn subsec_nanos(&self) -> (r: u32)
        ensures
            r == self@ % 1_000_000_000,
    {
        proof {
            use_type_invariant(self);
        }
        self.nanos
    }

    /// The whole milliseconds.
    pub fn as_millis(&self) -> (r: u128)
        ensures
            r == self@ / 1_000_000,
    {
        proof {
            use_type_invariant(self);
        }
        self.secs as u128 * 1000 + (self.nanos / 1_000_000) as u128
    }

    /// How much longer this span is than `earlier`; nothing where it is not longer.
    pub fn saturating_sub(&self, earlier: &Duration) -> (r: Duration)
        ensures
            r@ == if earlier@ <= self@ {
                (self@ - earlier@) as nat
            } else {
                0
            },
    {
        proof {
            use_type_invariant(self);
            use_type_invariant(earlier);
        }
        if self.shorter_than(earlier) {
            Duration { secs: 0, nanos: 0 }
        } else if self.nanos >= earlier.nanos {
            Duration { secs: self.secs - earlier.secs, nanos: self.nanos - earlier.nanos }
        } else {
            Duration {
                secs: self.secs - earlier.secs - 1,
                nanos: self.nanos + (NANOS_PER_SEC - earlier.nanos),
            }
        }
    }

    /// Whether this span is shorter than `other`.
    pub fn shorter_than(&self, other: &Duration) -> (r: bool)
        ensures
            r == (self@ < other@),
    {
        proof {
            use_type_invariant(self);
            use_type_invariant(other);
        }
        self.secs < other.secs || (self.secs == other.secs && self.nanos < other.nanos)
    }

    /// The shorter of two spans.
    pub fn min(self, other: Duration) -> (r: Duration)
        ensures
            r@ == if other@ < self@ {
                other@
            } else {
                self@
            },
    {
        if other.shorter_than(&self) {
            other
        } else {
            self
        }
    }
}

/// The milliseconds of a span, no more than fit in 64 bits.
pub open spec fn saturated_millis(nanos: nat) -> nat {
    if nanos / 1_000_000 > u64::MAX {
        u64::MAX as nat
    } else {
        nanos / 1_000_000
    }
}

/// The milliseconds of a span, or the largest 64-bit number where there are more.
pub fn millis_u64(span: &Duration) -> (r: u64)
    ensures
        r == saturated_millis(span@),
{
    let millis: u128 = span.as_millis();
    if millis > u64::MAX as u128 {
        u64::MAX
    } else {
        millis as u64
    }
}

/// A span of whole seconds has as many seconds as it was made of, and nothing over.
pub proof fn law_seconds(n: nat)
    ensures
        seconds(n) / 1_000_000_000 == n,
        seconds(n) % 1_000_000_000 == 0,
{
}

/// The milliseconds of a span are cut off only where they do not fit.
pub proof fn law_milliseconds_are_exact_while_they_fit(nanos: nat)
    ensures
        nanos / 1_000_000 <= u64::MAX ==> saturated_millis(nanos) == nanos / 1_000_000,
        nanos / 1_000_000 >= u64::MAX ==> saturated_millis(nanos) == u64::MAX,
{
}

} // verus!
