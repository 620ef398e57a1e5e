//! Solver configuration.
use vstd::prelude::*;

use crate::solutions::PVTSolutionType;
use crate::solver::Vector3D;
use crate::time::Duration;

verus! {

/// Positioning strategy.
#[derive(Clone, Copy, Debug, PartialEq, Eq, Structural)]
pub enum Mode {
    /// Single point positioning: one pseudo-range per space vehicle.
    SPP,
    /// Precise point positioning: dual-frequency ionosphere-free combinations.
    PPP,
}

impl Mode {
    /// Short name of the strategy.
    pub fn name(&self) -> (r: &'static str)
        ensures
            *self == Mode::SPP ==> r@ == "SPP"@,
            *self == Mode::PPP ==> r@ == "PPP"@,
    {
        match self {
            Mode::SPP => "SPP",
            Mode::PPP => "PPP",
        }
    }
}

/// Which physical effects are compensated for.
#[derive(Clone, Copy, Debug, PartialEq, Eq, Structural)]
pub struct Modeling {
    /// Subtract the space vehicle clock correction.
    pub sv_clock_bias: bool,
    /// Subtract the total group delay.
    pub sv_total_group_delay: bool,
    /// Compensate the tropospheric delay.
    pub tropo_delay: bool,
    /// Compensate the ionospheric delay.
    pub iono_delay: bool,
    /// Reserved: not compensated.
    pub earth_rotation: bool,
    /// Reserved: not compensated.
    pub relativistic_clock_corr: bool,
}

/// A compensation that is asked for but not applied.
#[derive(Clone, Copy, Debug, PartialEq, Eq, Structural)]
pub enum UnsupportedFlag {
    EarthRotation,
    RelativisticClockCorr,
}

/// Flags of `m` that ask for a compensation that is not applied, in order.
pub open spec fn unsupported_of(m: Modeling) -> Seq<UnsupportedFlag> {
    (if m.earth_rotation { seq![UnsupportedFlag::EarthRotation] } else { Seq::empty() })
        + (if m.relativistic_clock_corr { seq![UnsupportedFlag::RelativisticClockCorr] } else { Seq::empty() })
}

impl Modeling {
    /// Flags that ask for a compensation that is not applied, which deserve
    /// a warning when a solver is built.
    pub fn unsupported_flags(&self) -> (r: Vec<UnsupportedFlag>)
        ensures
            r@ == unsupported_of(*self),
    {
        let mut r: Vec<UnsupportedFlag> = Vec::new();
        if self.earth_rotation {
            r.push(UnsupportedFlag::EarthRotation);
        }
        if self.relativistic_clock_corr {
            r.push(UnsupportedFlag::RelativisticClockCorr);
        }
        assert(r@ =~= unsupported_of(*self));
        r
    }
}

/// Hardware delay that applies to one carrier frequency.
#[derive(Clone, Copy, Debug, PartialEq, Eq, Structural)]
pub struct InternalDelay {
    /// Carrier frequency, in Hz.
    pub frequency: u64,
    /// Delay.
    pub delay: Duration,
}

/// Solver configuration.
#[derive(Clone, Debug)]
pub struct Config {
    /// Positioning strategy.
    pub method: Mode,
    /// Kind of solution sought.
    pub sol_type: PVTSolutionType,
    /// Order handed to the state interpolator.
    pub interp_order: usize,
    /// Compensated effects.
    pub modeling: Modeling,
    /// Elevation mask, in thousandths of a degree.
    pub min_sv_elev: Option<i64>,
    /// Eclipse admission threshold, in millionths of full sunlight.
    pub min_sv_sunlight_rate: Option<u32>,
    /// SNR mask, in thousandths of a dB.
    pub min_snr: Option<i64>,
    /// Expected number of space vehicles.
    pub max_sv: usize,
    /// Antenna reference point offset, east, north and up, in nanometers.
    pub arp_enu: Option<Vector3D>,
    /// Delay of the external reference clock.
    pub externalref_delay: Option<Duration>,
    /// Hardware delays, by carrier frequency.
    pub int_delay: Vec<InternalDelay>,
}

} // verus!
