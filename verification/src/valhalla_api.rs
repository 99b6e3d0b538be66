//! The already-decoded shape of the road/multimodal engine's route
//! response, with every measure held as a plain integer: lengths in
//! thousandths of the trip's unit, times in milliseconds, coordinates in
//! millionths of a degree.

use crate::geom::Coordinate;
use crate::DistanceUnit;
use vstd::prelude::*;

verus! {

/// The cost models the road engine can route with.
#[derive(Debug, Clone, Copy, PartialEq, Eq, Structural)]
pub enum ModeCosting {
    Auto,
    Bicycle,
    Pedestrian,
}

/// The parameters of one route query.
#[derive(Debug, Clone, PartialEq, Eq)]
pub struct ValhallaRouteQuery {
    pub locations: Vec<Coordinate>,
    pub costing: ModeCosting,
    pub alternates: u32,
    pub units: DistanceUnit,
}

/// The error record the road engine reports in place of a route.
#[derive(Debug, Clone, PartialEq, Eq)]
pub struct RouteResponseError {
    pub status_code: u16,
    pub error_code: u32,
    pub error: String,
}

impl RouteResponseError {
    /// The engine's error codes stay far under the offset ceiling of the
    /// unified code space.
    pub open spec fn wf(self) -> bool {
        self.error_code <= 1000000
    }
}

#[derive(Debug, Clone, PartialEq, Eq)]
pub struct RouteResponse {
    pub trip: Trip,
    pub alternates: Option<Vec<Alternate>>,
}

impl RouteResponse {
    pub open spec fn wf(self) -> bool {
        &&& self.trip.wf()
        &&& match self.alternates {
            Some(alts) => alts@.len() <= 100 && forall|i: int|
                0 <= i < alts@.len() ==> (#[trigger] alts@[i]).trip.wf(),
            None => true,
        }
    }
}

/// A route response is either a trip or the engine's error record.
#[derive(Debug, Clone, PartialEq, Eq)]
pub enum ValhallaRouteResponseResult {
    Response(RouteResponse),
    Failure(RouteResponseError),
}

#[derive(Debug, Clone, PartialEq, Eq)]
pub struct Trip {
    pub locations: Vec<Coordinate>,
    pub summary: Summary,
    pub units: DistanceUnit,
    pub legs: Vec<Leg>,
}

#[derive(Debug, Clone, PartialEq, Eq)]
pub struct Alternate {
    pub trip: Trip,
}

#[derive(Debug, Clone, PartialEq, Eq)]
pub struct Summary {
    /// Thousandths of the trip's unit.
    pub length_milli: u64,
    /// Milliseconds.
    pub time_ms: u64,
    pub min_lat_e6: i64,
    pub min_lon_e6: i64,
    pub max_lat_e6: i64,
    pub max_lon_e6: i64,
}

#[derive(Debug, Clone, PartialEq, Eq)]
pub struct Leg {
    pub summary: Summary,
    pub maneuvers: Vec<Maneuver>,
    /// Compact polyline text at 1e-6 precision.
    pub shape: String,
}

#[derive(Debug, Clone, PartialEq, Eq)]
pub struct Maneuver {
    pub instruction: String,
    pub begin_shape_index: u64,
    pub end_shape_index: u64,
    pub highway: Option<bool>,
    /// Thousandths of the trip's unit.
    pub length_milli: u64,
    pub street_names: Option<Vec<String>>,
    /// Milliseconds.
    pub time_ms: u64,
    pub travel_mode: String,
    pub travel_type: String,
    pub maneuver_type: ManeuverType,
    pub verbal_post_transition_instruction: Option<String>,
    pub verbal_pre_transition_instruction: Option<String>,
    pub verbal_succinct_transition_instruction: Option<String>,
}

impl Summary {
    /// Lengths within ten thousand kilometers and times within a thousand
    /// years, so sums and conversions stay in machine range.
    pub open spec fn wf(self) -> bool {
        self.length_milli <= 10000000000 && self.time_ms <= 100000000000000
    }
}

impl Maneuver {
    pub open spec fn wf(self) -> bool {
        &&& self.length_milli <= 10000000000
        &&& self.time_ms <= 100000000000000
        &&& match self.street_names {
            Some(names) => names@.len() <= 100,
            None => true,
        }
    }
}

impl Leg {
    pub open spec fn wf(self) -> bool {
        &&& self.summary.wf()
        &&& self.maneuvers@.len() <= 100000
        &&& forall|i: int| 0 <= i < self.maneuvers@.len() ==> (#[trigger] self.maneuvers@[i]).wf()
    }
}

impl Trip {
    pub open spec fn wf(self) -> bool {
        &&& self.summary.wf()
        &&& self.legs@.len() <= 100
        &&& forall|i: int| 0 <= i < self.legs@.len() ==> (#[trigger] self.legs@[i]).wf()
    }
}

/// The road engine's maneuver vocabulary: a closed set that every upstream
/// maneuver code must land in.
#[derive(Clone, Copy, Debug, PartialEq, Eq, Structural)]
pub enum ManeuverType {
    Unspecified,
    Start,
    StartRight,
    StartLeft,
    Destination,
    DestinationRight,
    DestinationLeft,
    Becomes,
    Continue,
    SlightRight,
    Right,
    SharpRight,
    UturnRight,
    UturnLeft,
    SharpLeft,
    Left,
    SlightLeft,
    RampStraight,
    RampRight,
    RampLeft,
    ExitRight,
    ExitLeft,
    StayStraight,
    StayRight,
    StayLeft,
    Merge,
    RoundaboutEnter,
    RoundaboutExit,
    FerryEnter,
    FerryExit,
    Transit,
    TransitTransfer,
    TransitRemainOn,
    TransitConnectionStart,
    TransitConnectionTransfer,
    TransitConnectionDestination,
    PostTransitConnectionDestination,
    MergeRight,
    MergeLeft,
    ElevatorEnter,
    StepsEnter,
    EscalatorEnter,
    BuildingEnter,
    BuildingExit,
}

impl ManeuverType {
    /// The numeric code the road engine writes this maneuver type as.
    pub fn code(self) -> (r: u8)
        ensures
            r == self.spec_code(),
            r <= 43,
    {
        match self {
            ManeuverType::Unspecified => 0,
            ManeuverType::Start => 1,
            ManeuverType::StartRight => 2,
            ManeuverType::StartLeft => 3,
            ManeuverType::Destination => 4,
            ManeuverType::DestinationRight => 5,
            ManeuverType::DestinationLeft => 6,
            ManeuverType::Becomes => 7,
            ManeuverType::Continue => 8,
            ManeuverType::SlightRight => 9,
            ManeuverType::Right => 10,
            ManeuverType::SharpRight => 11,
            ManeuverType::UturnRight => 12,
            ManeuverType::UturnLeft => 13,
            ManeuverType::SharpLeft => 14,
            ManeuverType::Left => 15,
            ManeuverType::SlightLeft => 16,
            ManeuverType::RampStraight => 17,
            ManeuverType::RampRight => 18,
            ManeuverType::RampLeft => 19,
            ManeuverType::ExitRight => 20,
            ManeuverType::ExitLeft => 21,
            ManeuverType::StayStraight => 22,
            ManeuverType::StayRight => 23,
            ManeuverType::StayLeft => 24,
            ManeuverType::Merge => 25,
            ManeuverType::RoundaboutEnter => 26,
            ManeuverType::RoundaboutExit => 27,
            ManeuverType::FerryEnter => 28,
            ManeuverType::FerryExit => 29,
            ManeuverType::Transit => 30,
            ManeuverType::TransitTransfer => 31,
            ManeuverType::TransitRemainOn => 32,
            ManeuverType::TransitConnectionStart => 33,
            ManeuverType::TransitConnectionTransfer => 34,
            ManeuverType::TransitConnectionDestination => 35,
            ManeuverType::PostTransitConnectionDestination => 36,
            ManeuverType::MergeRight => 37,
            ManeuverType::MergeLeft => 38,
            ManeuverType::ElevatorEnter => 39,
            ManeuverType::StepsEnter => 40,
            ManeuverType::EscalatorEnter => 41,
            ManeuverType::BuildingEnter => 42,
            ManeuverType::BuildingExit => 43,
        }
    }

    pub open spec fn spec_code(self) -> u8 {
        match self {
            ManeuverType::Unspecified => 0,
            ManeuverType::Start => 1,
            ManeuverType::StartRight => 2,
            ManeuverType::StartLeft => 3,
            ManeuverType::Destination => 4,
            ManeuverType::DestinationRight => 5,
            ManeuverType::DestinationLeft => 6,
            ManeuverType::Becomes => 7,
            ManeuverType::Continue => 8,
            ManeuverType::SlightRight => 9,
            ManeuverType::Right => 10,
            ManeuverType::SharpRight => 11,
            ManeuverType::UturnRight => 12,
            ManeuverType::UturnLeft => 13,
            ManeuverType::SharpLeft => 14,
            ManeuverType::Left => 15,
            ManeuverType::SlightLeft => 16,
            ManeuverType::RampStraight => 17,
            ManeuverType::RampRight => 18,
            ManeuverType::RampLeft => 19,
            ManeuverType::ExitRight => 20,
            ManeuverType::ExitLeft => 21,
            ManeuverType::StayStraight => 22,
            ManeuverType::StayRight => 23,
            ManeuverType::StayLeft => 24,
            ManeuverType::Merge => 25,
            ManeuverType::RoundaboutEnter => 26,
            ManeuverType::RoundaboutExit => 27,
            ManeuverType::FerryEnter => 28,
            ManeuverType::FerryExit => 29,
            ManeuverType::Transit => 30,
            ManeuverType::TransitTransfer => 31,
            ManeuverType::TransitRemainOn => 32,
            ManeuverType::TransitConnectionStart => 33,
            ManeuverType::TransitConnectionTransfer => 34,
            ManeuverType::TransitConnectionDestination => 35,
            ManeuverType::PostTransitConnectionDestination => 36,
            ManeuverType::MergeRight => 37,
            ManeuverType::MergeLeft => 38,
            ManeuverType::ElevatorEnter => 39,
            ManeuverType::StepsEnter => 40,
            ManeuverType::EscalatorEnter => 41,
            ManeuverType::BuildingEnter => 42,
            ManeuverType::BuildingExit => 43,
        }
    }

    /// The maneuver type a code names; every code up to 43 names one, and
    /// codes name types one-to-one.
    pub fn from_code(code: u8) -> (r: Option<ManeuverType>)
        ensures
            r is Some <==> code <= 43,
            r is Some ==> r.unwrap().spec_code() == code,
    {
        match code {
            0 => Some(ManeuverType::Unspecified),
            1 => Some(ManeuverType::Start),
            2 => Some(ManeuverType::StartRight),
            3 => Some(ManeuverType::StartLeft),
            4 => Some(ManeuverType::Destination),
            5 => Some(ManeuverType::DestinationRight),
            6 => Some(ManeuverType::DestinationLeft),
            7 => Some(ManeuverType::Becomes),
            8 => Some(ManeuverType::Continue),
            9 => Some(ManeuverType::SlightRight),
            10 => Some(ManeuverType::Right),
            11 => Some(ManeuverType::SharpRight),
            12 => Some(ManeuverType::UturnRight),
            13 => Some(ManeuverType::UturnLeft),
            14 => Some(ManeuverType::SharpLeft),
            15 => Some(ManeuverType::Left),
            16 => Some(ManeuverType::SlightLeft),
            17 => Some(ManeuverType::RampStraight),
            18 => Some(ManeuverType::RampRight),
            19 => Some(ManeuverType::RampLeft),
            20 => Some(ManeuverType::ExitRight),
            21 => Some(ManeuverType::ExitLeft),
            22 => Some(ManeuverType::StayStraight),
            23 => Some(ManeuverType::StayRight),
            24 => Some(ManeuverType::StayLeft),
            25 => Some(ManeuverType::Merge),
            26 => Some(ManeuverType::RoundaboutEnter),
            27 => Some(ManeuverType::RoundaboutExit),
            28 => Some(ManeuverType::FerryEnter),
            29 => Some(ManeuverType::FerryExit),
            30 => Some(ManeuverType::Transit),
            31 => Some(ManeuverType::TransitTransfer),
            32 => Some(ManeuverType::TransitRemainOn),
            33 => Some(ManeuverType::TransitConnectionStart),
            34 => Some(ManeuverType::TransitConnectionTransfer),
            35 => Some(ManeuverType::TransitConnectionDestination),
            36 => Some(ManeuverType::PostTransitConnectionDestination),
            37 => Some(ManeuverType::MergeRight),
            38 => Some(ManeuverType::MergeLeft),
            39 => Some(ManeuverType::ElevatorEnter),
            40 => Some(ManeuverType::StepsEnter),
            41 => Some(ManeuverType::EscalatorEnter),
            42 => Some(ManeuverType::BuildingEnter),
            43 => Some(ManeuverType::BuildingExit),
            _ => None,
        }
    }
}

} // verus!
