//! Per space vehicle data attached to a solution.
use vstd::prelude::*;

verus! {

/// Kind of solution, which sets how many space vehicles are needed.
#[derive(Clone, Copy, Debug, PartialEq, Eq, Structural)]
pub enum PVTSolutionType {
    /// Position, velocity and time.
    PositionVelocityTime,
    /// Time only.
    TimeOnly,
}

impl PVTSolutionType {
    /// Short name of the solution kind.
    pub fn name(&self) -> (r: &'static str)
        ensures
            *self == PVTSolutionType::PositionVelocityTime ==> r@ == "PVT"@,
            *self == PVTSolutionType::TimeOnly ==> r@ == "TimeOnly"@,
    {
        match self {
            PVTSolutionType::PositionVelocityTime => "PVT",
            PVTSolutionType::TimeOnly => "TimeOnly",
        }
    }

    /// Fewest space vehicles that this kind of solution needs.
    pub open spec fn min_sv_spec(&self) -> usize {
        match self {
            PVTSolutionType::PositionVelocityTime => 4,
            PVTSolutionType::TimeOnly => 1,
        }
    }

    /// Fewest space vehicles that this kind of solution needs.
    pub fn min_sv(&self) -> (r: usize)
        ensures
            r == self.min_sv_spec(),
    {
        match self {
            PVTSolutionType::PositionVelocityTime => 4,
            PVTSolutionType::TimeOnly => 1,
        }
    }
}

/// Modeled or measured delay, in nanometers.
#[derive(Clone, Copy, Debug, PartialEq, Eq, Structural)]
pub struct PVTBias {
    /// Measured delay.
    pub measured: Option<i64>,
    /// Modeled delay.
    pub modeled: Option<i64>,
}

impl PVTBias {
    /// The delay, measured if it was measured, else modeled.
    pub fn value(&self) -> (r: Option<i64>)
        ensures
            r == if self.measured.is_some() { self.measured } else { self.modeled },
    {
        if self.measured.is_none() {
            self.modeled
        } else {
            self.measured
        }
    }

    /// A measured delay.
    pub fn measured(measurement: i64) -> (r: PVTBias)
        ensures
            r.measured == Some(measurement),
            r.modeled.is_none(),
    {
        PVTBias { measured: Some(measurement), modeled: None }
    }

    /// A modeled delay.
    pub fn modeled(model: i64) -> (r: PVTBias)
        ensures
            r.modeled == Some(model),
            r.measured.is_none(),
    {
        PVTBias { measured: None, modeled: Some(model) }
    }

    /// No delay at all.
    pub fn none() -> (r: PVTBias)
        ensures
            r.modeled.is_none(),
            r.measured.is_none(),
    {
        PVTBias { measured: None, modeled: None }
    }
}

/// Data attached to each space vehicle that helped form a solution.
#[derive(Clone, Copy, Debug, PartialEq, Eq, Structural)]
pub struct PVTSVData {
    /// Azimuth, in thousandths of a degree.
    pub azimuth: Option<i64>,
    /// Elevation, in thousandths of a degree.
    pub elevation: Option<i64>,
    /// Tropospheric delay.
    pub tropo_bias: PVTBias,
    /// Ionospheric delay.
    pub iono_bias: PVTBias,
}

} // verus!
