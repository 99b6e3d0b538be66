use vstd::prelude::*;

pub mod assembly;
pub mod decimal;
pub mod elevation;
pub mod encoded_polyline;
pub mod error;
pub mod geodesy;
pub mod geom;
pub mod osrm_api;
pub mod otp_api;
pub mod plan;
pub mod util;
pub mod valhalla_api;

verus! {

/// The travel mode a caller may request and an itinerary is tagged with.
#[derive(Debug, PartialEq, Eq, Clone, Copy, Structural)]
pub enum TravelMode {
    Transit,
    Bicycle,
    Car,
    Walk,
}

/// The unit every distance of one itinerary is expressed in.
#[derive(Debug, Clone, PartialEq, Eq, Copy, Structural)]
pub enum DistanceUnit {
    Meters,
    Kilometers,
    Miles,
}

/// The measurement system a distance unit belongs to, used to pick the
/// phrasing of spoken distances.
#[derive(Debug, Clone, PartialEq, Eq, Copy, Structural)]
pub enum MeasurementSystem {
    Metric,
    Imperial,
}

impl DistanceUnit {
    /// Metric units share one spoken phrasing; miles get the imperial one.
    pub fn measurement_system(&self) -> (r: MeasurementSystem)
        ensures
            r == self.spec_measurement_system(),
    {
        match self {
            DistanceUnit::Meters | DistanceUnit::Kilometers => MeasurementSystem::Metric,
            DistanceUnit::Miles => MeasurementSystem::Imperial,
        }
    }

    pub open spec fn spec_measurement_system(self) -> MeasurementSystem {
        match self {
            DistanceUnit::Meters | DistanceUnit::Kilometers => MeasurementSystem::Metric,
            DistanceUnit::Miles => MeasurementSystem::Imperial,
        }
    }
}

} // verus!
