//! A length of time, in whole seconds and nanoseconds.
use vstd::prelude::*;

verus! {

/// A non-negative length of time: `secs` seconds and `nanos` nanoseconds
/// (`nanos < 1_000_000_000`).
#[derive(Debug, Clone, Copy, PartialEq, Eq, Structural)]
pub struct TimeSpan {
    pub secs: u64,
    pub nanos: u32,
}

impl TimeSpan {
    pub open spec fn wf(self) -> bool {
        self.nanos < 1_000_000_000
    }

    /// The length in nanoseconds.
    pub open spec fn total_nanos(self) -> int {
        self.secs * 1_000_000_000 + self.nanos
    }

    pub fn from_secs(secs: u64) -> (r: TimeSpan)
        ensures
            r.secs == secs,
            r.nanos == 0,
    {
        TimeSpan { secs, nanos: 0 }
    }

    pub fn from_millis(ms: u64) -> (r: TimeSpan)
        ensures
            r.secs == ms / 1000,
            r.nanos == (ms % 1000) * 1_000_000,
            r.wf(),
    {
        TimeSpan { secs: ms / 1000, nanos: ((ms % 1000) * 1_000_000) as u32 }
    }

    pub fn is_zero(self) -> (r: bool)
        ensures
            r == (self.secs == 0 && self.nanos == 0),
    {
        self.secs == 0 && self.nanos == 0
    }
}

} // verus!
