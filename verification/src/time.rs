//! Lengths of time and points in time.

use vstd::prelude::*;

verus! {

/// How many nanoseconds a second has.
pub const NANOS_PER_SEC: u32 = 1_000_000_000;

/// A length of time, to the nanosecond.
#[derive(Clone, Copy, Debug, PartialEq, Eq, Structural)]
pub struct Duration {
    secs: u64,
    nanos: u32,
}

impl View for Duration {
    type V = nat;

    /// The length in nanoseconds.
    closed spec fn view(&self) -> nat {
        (self.secs * 1_000_000_000 + self.nanos) as nat
    }
}

impl Duration {
    #[verifier::type_invariant]
    closed spec fn whole(self) -> bool {
        self.nanos < NANOS_PER_SEC
    }

    /// Whole seconds and the nanoseconds behind them.
    pub fn new(secs: u64, nanos: u32) -> (r: Duration)
        requires
            nanos < NANOS_PER_SEC,
        ensures
            r@ == secs * 1_000_000_000 + nanos,
    {
        Duration { secs, nanos }
    }

    pub fn from_secs(secs: u64) -> (r: Duration)
        ensures
            r@ == secs * 1_000_000_000,
    {
        Duration { secs, nanos: 0 }
    }

    pub fn from_millis(ms: u64) -> (r: Duration)
        ensures
            r@ == ms * 1_000_000,
    {
        Duration { secs: ms / 1000, nanos: (ms % 1000) as u32 * 1_000_000 }
    }

    /// The whole seconds of it.
    pub fn as_secs(&self) -> (r: u64)
        ensures
            r == self@ / 1_000_000_000,
    {
        proof {
            use_type_invariant(self);
        }
        self.secs
    }

    /// What is left of it after `other`, and nothing when `other` is longer.
    pub fn saturating_sub(&self, other: Duration) -> (r: Duration)
        ensures
            r@ == if self@ >= other@ {
                (self@ - other@) as nat
            } else {
                0
            },
    {
        proof {
            use_type_invariant(self);
            use_type_invariant(&other);
        }
        if self.secs < other.secs || (self.secs == other.secs && self.nanos <= other.nanos) {
            Duration { secs: 0, nanos: 0 }
        } else if self.nanos >= other.nanos {
            Duration { secs: self.secs - other.secs, nanos: self.nanos - other.nanos }
        } else {
            Duration {
                secs: self.secs - other.secs - 1,
                nanos: NANOS_PER_SEC - other.nanos + self.nanos,
            }
        }
    }

    /// Whether it is longer than `other`.
    pub fn longer_than(&self, other: Duration) -> (r: bool)
        ensures
            r == (self@ > other@),
    {
        proof {
            use_type_invariant(self);
            use_type_invariant(&other);
        }
        self.secs > other.secs || (self.secs == other.secs && self.nanos > other.nanos)
    }

    /// Whether it is as long as `other`.
    pub fn same_as(&self, other: Duration) -> (r: bool)
        ensures
            r == (self@ == other@),
    {
        proof {
            use_type_invariant(self);
            use_type_invariant(&other);
        }
        self.secs == other.secs && self.nanos == other.nanos
    }
}

/// A point in time, to the nanosecond, counted from the epoch.
#[derive(Clone, Copy, Debug, PartialEq, Eq, Structural)]
pub struct Moment {
    secs: i64,
    nanos: u32,
}

impl View for Moment {
    type V = int;

    /// The nanoseconds since the epoch; negative before it.
    closed spec fn view(&self) -> int {
        self.secs * 1_000_000_000 + self.nanos
    }
}

/// The whole seconds from one point in time to a later one; none when it is
/// not later.
pub open spec fn seconds_between(then: int, now: int) -> nat {
    if then <= now {
        ((now - then) / 1_000_000_000) as nat
    } else {
        0
    }
}

/// The whole milliseconds since the epoch, none before it, as far as 64 bits
/// count them.
pub open spec fn epoch_millis(now: int) -> nat {
    if now < 0 {
        0
    } else {
        ((now / 1_000_000) % 0x1_0000_0000_0000_0000) as nat
    }
}

impl Moment {
    #[verifier::type_invariant]
    closed spec fn whole(self) -> bool {
        self.nanos < NANOS_PER_SEC
    }

    /// Whole seconds since the epoch and the nanoseconds behind them.
    pub fn new(secs: i64, nanos: u32) -> (r: Moment)
        requires
            nanos < NANOS_PER_SEC,
        ensures
            r@ == secs * 1_000_000_000 + nanos,
    {
        Moment { secs, nanos }
    }

    /// Whether it is the same point in time as `other`.
    pub fn same_as(&self, other: Moment) -> (r: bool)
        ensures
            r == (self@ == other@),
    {
        proof {
            use_type_invariant(self);
            use_type_invariant(&other);
        }
        self.secs == other.secs && self.nanos == other.nanos
    }

    /// The whole seconds since `then`, which is none for a time to come.
    pub fn seconds_since(&self, then: Moment) -> (r: u64)
        ensures
            r == seconds_between(then@, self@),
    {
        proof {
            use_type_invariant(self);
            use_type_invariant(&then);
        }
        if self.secs < then.secs || (self.secs == then.secs && self.nanos < then.nanos) {
            return 0;
        }
        let whole: i128 = self.secs as i128 - then.secs as i128;
        if self.nanos >= then.nanos {
            whole as u64
        } else {
            (whole - 1) as u64
        }
    }

    /// The whole milliseconds since the epoch.
    pub fn millis(&self) -> (r: u64)
        ensures
            r == epoch_millis(self@),
    {
        proof {
            use_type_invariant(self);
        }
        if self.secs < 0 {
            return 0;
        }
        let ms: u128 = self.secs as u128 * 1000 + (self.nanos / 1_000_000) as u128;
        assert(ms == self@ / 1_000_000);
        (ms % 0x1_0000_0000_0000_0000) as u64
    }
}

} // verus!
