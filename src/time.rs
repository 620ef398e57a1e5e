//! Epochs and durations, to the nanosecond.
use vstd::prelude::*;

verus! {

/// Distance light travels in one nanosecond, in nanometers.
pub const SPEED_OF_LIGHT_NM_PER_NS: i64 = 299792458;

/// An instant, as nanoseconds elapsed since the reference epoch of its timescale.
#[derive(Clone, Copy, Debug, PartialEq, Eq, Structural)]
pub struct Epoch {
    pub nanos: i128,
}

/// A signed span of time, in nanoseconds.
#[derive(Clone, Copy, Debug, PartialEq, Eq, Structural)]
pub struct Duration {
    pub nanos: i64,
}

impl Epoch {
    /// Epoch `nanos` nanoseconds after the reference epoch.
    pub fn from_nanoseconds(nanos: i128) -> (r: Epoch)
        ensures
            r.nanos == nanos,
    {
        Epoch { nanos }
    }
}

impl Duration {
    /// Duration of `nanos` nanoseconds.
    pub fn from_nanoseconds(nanos: i64) -> (r: Duration)
        ensures
            r.nanos == nanos,
    {
        Duration { nanos }
    }
}

} // verus!
