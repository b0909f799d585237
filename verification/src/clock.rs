//! Points in time and stretches of time.

use vstd::prelude::*;

verus! {

/// Nanoseconds in a second.
pub const NANOS_PER_SEC: u32 = 1_000_000_000;

/// A point in time: seconds since 1970-01-01 00:00 UTC, and nanoseconds on top.
#[derive(Debug, Clone, Copy, PartialEq, Eq)]
pub struct Timestamp {
    pub secs: i64,
    pub nanos: u32,
}

/// A stretch of time: whole seconds, and nanoseconds on top.
#[derive(Debug, Clone, Copy, PartialEq, Eq)]
pub struct Elapsed {
    pub secs: u64,
    pub nanos: u32,
}

impl Timestamp {
    /// Nanoseconds since 1970-01-01 00:00 UTC.
    pub open spec fn total(self) -> int {
        self.secs * NANOS_PER_SEC + self.nanos
    }
}

impl Elapsed {
    /// The stretch in nanoseconds.
    pub open spec fn total(self) -> int {
        self.secs * NANOS_PER_SEC + self.nanos
    }

    /// The nanoseconds make less than a second.
    pub open spec fn wf(self) -> bool {
        self.nanos < NANOS_PER_SEC
    }

    /// No time at all.
    pub open spec fn zero_spec() -> Elapsed {
        Elapsed { secs: 0, nanos: 0 }
    }

    /// No time at all.
    pub fn zero() -> (r: Elapsed)
        ensures
            r == Elapsed::zero_spec(),
            r.wf(),
            r.total() == 0,
    {
        Elapsed { secs: 0, nanos: 0 }
    }

    /// A stretch of whole seconds.
    pub fn from_secs(secs: u64) -> (r: Elapsed)
        ensures
            r == (Elapsed { secs, nanos: 0 }),
            r.wf(),
    {
        Elapsed { secs, nanos: 0 }
    }

    /// A stretch of milliseconds.
    pub fn from_millis(millis: u64) -> (r: Elapsed)
        ensures
            r.wf(),
            r.total() == millis * 1_000_000,
    {
        let secs: u64 = millis / 1000;
        let rest: u32 = (millis % 1000) as u32;
        Elapsed { secs, nanos: rest * 1_000_000 }
    }

    /// Whether this stretch is shorter than `other`.
    pub fn is_less(&self, other: &Elapsed) -> (r: bool)
        requires
            self.wf(),
            other.wf(),
        ensures
            r == (self.total() < other.total()),
    {
        self.secs < other.secs || (self.secs == other.secs && self.nanos < other.nanos)
    }

    /// The shorter of the two stretches.
    pub fn min(self, other: Elapsed) -> (r: Elapsed)
        requires
            self.wf(),
            other.wf(),
        ensures
            r.wf(),
            r == if other.total() < self.total() {
                other
            } else {
                self
            },
    {
        if other.is_less(&self) {
            other
        } else {
            self
        }
    }

    /// What is left of this stretch after `other`; nothing if `other` is longer.
    pub fn saturating_sub(self, other: Elapsed) -> (r: Elapsed)
        requires
            self.wf(),
            other.wf(),
        ensures
            r.wf(),
            r.total() == if self.total() < other.total() {
                0
            } else {
                self.total() - other.total()
            },
    {
        if self.is_less(&other) {
            Elapsed::zero()
        } else if self.nanos >= other.nanos {
            Elapsed { secs: self.secs - other.secs, nanos: self.nanos - other.nanos }
        } else {
            Elapsed {
                secs: self.secs - other.secs - 1,
                nanos: self.nanos + (NANOS_PER_SEC - other.nanos),
            }
        }
    }
}

/// The stretch from `start` to `end`; none if `end` comes first.
pub open spec fn span_between(start: Timestamp, end: Timestamp) -> Elapsed {
    let d = end.total() - start.total();
    if d <= 0 {
        Elapsed { secs: 0, nanos: 0 }
    } else {
        Elapsed { secs: (d / 1_000_000_000) as u64, nanos: (d % 1_000_000_000) as u32 }
    }
}

/// The stretch from `start` to `end`; none if `end` comes first.
pub fn between(start: Timestamp, end: Timestamp) -> (r: Elapsed)
    requires
        start.nanos < NANOS_PER_SEC,
        end.nanos < NANOS_PER_SEC,
    ensures
        r == span_between(start, end),
        r.wf(),
        r.total() == if end.total() < start.total() {
            0
        } else {
            end.total() - start.total()
        },
{
    let s: i128 = start.secs as i128 * 1_000_000_000i128 + start.nanos as i128;
    let e: i128 = end.secs as i128 * 1_000_000_000i128 + end.nanos as i128;
    if e <= s {
        return Elapsed::zero();
    }
    let d: i128 = e - s;
    let secs: i128 = d / 1_000_000_000i128;
    let nanos: i128 = d % 1_000_000_000i128;
    assert(0 <= secs <= u64::MAX) by {
        assert(d < 18_446_744_073_709_551_616 * 1_000_000_000);
    }
    Elapsed { secs: secs as u64, nanos: nanos as u32 }
}

/// `chrono::Utc::now`, as its `timestamp` and `timestamp_subsec_nanos`: the
/// present time, of which nothing is known but that the nanoseconds, taken from
/// the system's clock, make less than a second.
#[verifier::external_body]
pub(crate) fn now() -> (r: Timestamp)
    ensures
        r.nanos < NANOS_PER_SEC,
{
    let t = chrono::Utc::now();
    Timestamp { secs: t.timestamp(), nanos: t.timestamp_subsec_nanos() }
}

} // verus!
