//! A span of time, as whole seconds plus nanoseconds.

use vstd::prelude::*;

verus! {

/// Nanoseconds in one second.
pub const NANOS_PER_SEC: u32 = 1_000_000_000;

/// A span of time: `secs` whole seconds and `nanos` (< one second) nanoseconds.
#[derive(Clone, Copy, Debug, PartialEq, Eq, Structural)]
pub struct Duration {
    secs: u64,
    nanos: u32,
}

impl Duration {
    /// The span in nanoseconds.
    pub open spec fn total_nanos(self) -> int {
        self.spec_secs() * 1_000_000_000 + self.spec_subsec_nanos()
    }

    /// The whole seconds.
    pub closed spec fn spec_secs(self) -> u64 {
        self.secs
    }

    /// The nanoseconds past the whole seconds.
    pub closed spec fn spec_subsec_nanos(self) -> u32 {
        self.nanos
    }

    /// The nanosecond part is below one second.
    pub closed spec fn wf(self) -> bool {
        self.nanos < NANOS_PER_SEC
    }

    /// The zero span.
    pub fn zero() -> (d: Self)
        ensures
            d.wf(),
            d.total_nanos() == 0,
            d.spec_secs() == 0,
            d.spec_subsec_nanos() == 0,
    {
        Duration { secs: 0, nanos: 0 }
    }

    /// A span of `secs` seconds.
    pub fn from_secs(secs: u64) -> (d: Self)
        ensures
            d.wf(),
            d.spec_secs() == secs,
            d.spec_subsec_nanos() == 0,
    {
        Duration { secs, nanos: 0 }
    }

    /// A span of `millis` milliseconds.
    pub fn from_millis(millis: u64) -> (d: Self)
        ensures
            d.wf(),
            d.total_nanos() == millis * 1_000_000,
            d.spec_secs() == millis / 1000,
            d.spec_subsec_nanos() == (millis % 1000) * 1_000_000,
    {
        let secs = millis / 1000;
        let rest: u32 = (millis % 1000) as u32;
        let nanos: u32 = rest * 1_000_000;
        Duration { secs, nanos }
    }

    /// A span of `secs` seconds and `nanos` nanoseconds, carrying whole
    /// seconds out of `nanos`; `None` when the seconds overflow.
    pub fn new(secs: u64, nanos: u32) -> (d: Option<Self>)
        ensures
            match d {
                Some(d) => d.wf() && d.total_nanos() == secs * 1_000_000_000 + nanos,
                None => secs + nanos / 1_000_000_000 > u64::MAX,
            },
    {
        let carry: u64 = (nanos / NANOS_PER_SEC) as u64;
        match secs.checked_add(carry) {
            Some(s) => Some(Duration { secs: s, nanos: nanos % NANOS_PER_SEC }),
            None => None,
        }
    }

    /// Returns the whole seconds.
    pub fn as_secs(&self) -> (secs: u64)
        ensures
            secs == self.spec_secs(),
    {
        self.secs
    }

    /// Returns the nanoseconds past the whole seconds.
    pub fn subsec_nanos(&self) -> (nanos: u32)
        ensures
            nanos == self.spec_subsec_nanos(),
    {
        self.nanos
    }

    /// Returns `true` for the zero span.
    pub fn is_zero(&self) -> (zero: bool)
        ensures
            zero == (self.spec_secs() == 0 && self.spec_subsec_nanos() == 0),
    {
        self.secs == 0 && self.nanos == 0
    }
}

} // verus!
