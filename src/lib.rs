//! Per-epoch GNSS position-velocity-time solving: candidate admission,
//! signal transmission time, dual-frequency combinations and the
//! bookkeeping that feeds the navigation system.
//!
//! Quantities are held as integers: epochs and durations in nanoseconds,
//! lengths in nanometers (one light-nanosecond is exactly 299 792 458 nm),
//! frequencies in Hz, SNR in thousandths of a dB and angles in thousandths
//! of a degree.
use vstd::prelude::*;

pub mod time;
pub mod candidate;
pub mod cfg;
pub mod solutions;
pub mod solver;

verus! {

} // verus!
