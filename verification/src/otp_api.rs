//! The already-decoded shape of the transit engine's plan response, with
//! every measure held as a plain integer: distances in millimeters,
//! timestamps in epoch milliseconds, coordinates in millionths of a degree.

use crate::geom::Coordinate;
use crate::TravelMode;
use vstd::prelude::*;

verus! {

/// The modes the transit engine tags its legs with.
#[derive(Debug, PartialEq, Eq, Clone, Copy, Structural)]
pub enum TransitMode {
    Walk,
    Bicycle,
    Car,
    Tram,
    Subway,
    Rail,
    Bus,
    Ferry,
    CableCar,
    Gondola,
    Funicular,
    Transit,
}

impl TransitMode {
    /// Folds the transit engine's mode vocabulary onto the service's: the
    /// three self-propelled modes map across, everything else is transit.
    pub fn to_travel_mode(self) -> (r: TravelMode)
        ensures
            r == self.spec_travel_mode(),
    {
        match self {
            TransitMode::Walk => TravelMode::Walk,
            TransitMode::Bicycle => TravelMode::Bicycle,
            TransitMode::Car => TravelMode::Car,
            TransitMode::Tram => TravelMode::Transit,
            TransitMode::Subway => TravelMode::Transit,
            TransitMode::Rail => TravelMode::Transit,
            TransitMode::Bus => TravelMode::Transit,
            TransitMode::Ferry => TravelMode::Transit,
            TransitMode::CableCar => TravelMode::Transit,
            TransitMode::Gondola => TravelMode::Transit,
            TransitMode::Funicular => TravelMode::Transit,
            TransitMode::Transit => TravelMode::Transit,
        }
    }

    pub open spec fn spec_travel_mode(self) -> TravelMode {
        match self {
            TransitMode::Walk => TravelMode::Walk,
            TransitMode::Bicycle => TravelMode::Bicycle,
            TransitMode::Car => TravelMode::Car,
            _ => TravelMode::Transit,
        }
    }

    /// A leg of this mode is decomposed into maneuvers; other modes pass
    /// through opaquely.
    pub open spec fn is_self_propelled(self) -> bool {
        self == TransitMode::Walk || self == TransitMode::Bicycle || self == TransitMode::Car
    }
}

/// The direction of one step relative to the previous one.
#[derive(Debug, PartialEq, Eq, Clone, Copy, Structural)]
pub enum RelativeDirection {
    Depart,
    HardLeft,
    Left,
    SlightlyLeft,
    Continue,
    SlightlyRight,
    Right,
    HardRight,
    CircleClockwise,
    CircleCounterclockwise,
    Elevator,
    UturnLeft,
    UturnRight,
}

/// A compass direction.
#[derive(Debug, PartialEq, Eq, Clone, Copy, Structural)]
pub enum AbsoluteDirection {
    North,
    Northeast,
    East,
    Southeast,
    South,
    Southwest,
    West,
    Northwest,
}

/// A named location.
#[derive(Debug, PartialEq, Eq, Clone)]
pub struct Place {
    pub location: Coordinate,
    pub name: Option<String>,
}

/// One walking/cycling/driving action within a leg.
#[derive(Debug, PartialEq, Eq, Clone)]
pub struct Step {
    /// Millimeters.
    pub distance_mm: u64,
    pub relative_direction: RelativeDirection,
    pub absolute_direction: Option<AbsoluteDirection>,
    pub street_name: String,
    /// The street name was synthesized upstream rather than taken from a
    /// real street.
    pub bogus_name: Option<bool>,
    pub point: Coordinate,
}

/// A leg's geometry as the transit engine ships it: compact polyline text
/// at 1e-5 precision.
#[derive(Debug, PartialEq, Eq, Clone)]
pub struct LegGeometry {
    pub length: u64,
    pub points: String,
}

#[derive(Debug, PartialEq, Eq, Clone)]
pub struct Leg {
    pub mode: TransitMode,
    /// Millimeters; the transit engine always reports meters.
    pub distance_mm: u64,
    pub leg_geometry: LegGeometry,
    pub route_color: Option<String>,
    pub from: Place,
    pub to: Place,
    /// Epoch milliseconds.
    pub start_time: u64,
    /// Epoch milliseconds.
    pub end_time: u64,
    pub steps: Vec<Step>,
}

impl Leg {
    /// How long the leg takes, in milliseconds; a leg that ends before it
    /// starts counts as instantaneous.
    pub fn duration_ms(&self) -> (r: u64)
        ensures
            r == self.spec_duration_ms(),
    {
        if self.end_time >= self.start_time {
            self.end_time - self.start_time
        } else {
            0
        }
    }

    pub open spec fn spec_duration_ms(self) -> int {
        if self.end_time >= self.start_time {
            self.end_time - self.start_time
        } else {
            0
        }
    }
}

impl Step {
    /// Distances small enough to sum and convert within machine range, on a
    /// point that lies on the globe.
    pub open spec fn wf(self) -> bool {
        self.distance_mm <= 10000000000000 && self.point.valid()
    }
}

impl Place {
    pub open spec fn wf(self) -> bool {
        self.location.valid()
    }
}

impl Leg {
    /// The numeric bounds a sane upstream response stays within: no leg
    /// longer than ten thousand kilometers, no more than a thousand steps,
    /// timestamps within the epoch-millisecond range of the next thousand
    /// years.
    pub open spec fn wf(self) -> bool {
        &&& self.distance_mm <= 10000000000000
        &&& self.steps@.len() <= 1000
        &&& forall|i: int| 0 <= i < self.steps@.len() ==> (#[trigger] self.steps@[i]).wf()
        &&& self.from.wf()
        &&& self.to.wf()
        &&& self.start_time <= 100000000000000
        &&& self.end_time <= 100000000000000
    }
}

#[derive(Debug, PartialEq, Eq, Clone)]
pub struct Itinerary {
    /// Seconds.
    pub duration: u64,
    pub legs: Vec<Leg>,
    /// Epoch milliseconds.
    pub start_time: u64,
    /// Epoch milliseconds.
    pub end_time: u64,
}

impl Itinerary {
    /// A sane itinerary: a bounded number of well-formed legs and
    /// timestamps within range.
    pub open spec fn wf(self) -> bool {
        &&& self.legs@.len() <= 100
        &&& forall|i: int| 0 <= i < self.legs@.len() ==> (#[trigger] self.legs@[i]).wf()
        &&& self.duration <= 10000000000
        &&& self.start_time <= 100000000000000
        &&& self.end_time <= 100000000000000
    }
}

#[derive(Debug, PartialEq, Eq, Clone)]
pub struct Plan {
    pub itineraries: Vec<Itinerary>,
}

impl Plan {
    pub open spec fn wf(self) -> bool {
        &&& self.itineraries@.len() <= 100
        &&& forall|i: int|
            0 <= i < self.itineraries@.len() ==> (#[trigger] self.itineraries@[i]).wf()
    }
}

/// The error record the transit engine reports in place of a plan.
#[derive(Debug, PartialEq, Eq, Clone)]
pub struct PlanError {
    pub id: u32,
    /// Readable English message text.
    pub msg: String,
    /// A stable message key.
    pub message: String,
}

/// The plan is present even when an error is; an erroneous response simply
/// carries no itineraries.
#[derive(Debug, PartialEq, Eq, Clone)]
pub struct PlanResponse {
    pub plan: Plan,
    pub error: Option<PlanError>,
}

impl PlanResponse {
    pub open spec fn wf(self) -> bool {
        self.plan.wf()
    }
}

} // verus!
