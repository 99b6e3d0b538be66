//! Itinerary normalization, substantial street names, instruction text,
//! the banner mapping, and the turn-by-turn projection.

use travelmux::encoded_polyline::encode_coordinates;
use travelmux::geom::{Coordinate, Rect};
use travelmux::osrm_api::{banner_maneuver, ManeuverDirection, OSRMManeuverType, Route};
use travelmux::otp_api;
use travelmux::plan::{
    maneuver_instruction, substantial_street_names, Itinerary, Maneuver, ModeLeg, PlanResponseOk,
};
use travelmux::valhalla_api::{self, ManeuverType};
use travelmux::{DistanceUnit, TravelMode};

fn coord(lon_e6: i64, lat_e6: i64) -> Coordinate {
    Coordinate { lon_e6, lat_e6 }
}

fn named_maneuver(street: &str, distance_e6: u64) -> Maneuver {
    Maneuver {
        instruction: None,
        geometry: vec![],
        distance_e6,
        street_names: Some(vec![street.to_string()]),
        duration_ms: 0,
        maneuver_type: ManeuverType::Continue,
        verbal_post_transition_instruction: None,
        start_point: coord(0, 0),
    }
}

#[test]
fn substantial_street_names_keep_the_top_streets() {
    // streets contributing 700, 450, 400 and 40: the first three stay,
    // and the last is dropped - it is under half of the top score, and
    // outside the top three besides
    let maneuvers = vec![
        named_maneuver("A", 700),
        named_maneuver("B", 450),
        named_maneuver("C", 400),
        named_maneuver("D", 40),
    ];
    let names = substantial_street_names(&maneuvers);
    assert_eq!(names, vec!["A", "B", "C"]);
}

#[test]
fn substantial_street_names_drop_streets_under_half_the_top_score() {
    let maneuvers = vec![
        named_maneuver("A", 700),
        named_maneuver("B", 250),
        named_maneuver("C", 200),
    ];
    let names = substantial_street_names(&maneuvers);
    assert_eq!(names, vec!["A"]);
}

#[test]
fn substantial_street_names_accumulate_per_street() {
    let maneuvers = vec![
        named_maneuver("A", 100),
        named_maneuver("B", 150),
        named_maneuver("A", 100),
    ];
    let names = substantial_street_names(&maneuvers);
    // A accumulates 200 and comes first
    assert_eq!(names, vec!["A", "B"]);
}

#[test]
fn substantial_street_names_of_unnamed_maneuvers_are_empty() {
    let mut unnamed = named_maneuver("", 0);
    unnamed.street_names = None;
    let names = substantial_street_names(&vec![unnamed]);
    assert!(names.is_empty());
}

#[test]
fn maneuver_instruction_text() {
    assert_eq!(
        maneuver_instruction(
            otp_api::TransitMode::Walk,
            otp_api::RelativeDirection::Depart,
            Some(otp_api::AbsoluteDirection::South),
            "East Marginal Way South",
        ),
        Some("Walk south on East Marginal Way South.".to_string())
    );
    assert_eq!(
        maneuver_instruction(
            otp_api::TransitMode::Bicycle,
            otp_api::RelativeDirection::HardLeft,
            None,
            "Main Street",
        ),
        Some("Turn sharp left onto Main Street.".to_string())
    );
    assert_eq!(
        maneuver_instruction(
            otp_api::TransitMode::Walk,
            otp_api::RelativeDirection::Depart,
            None,
            "anywhere",
        ),
        Some("Depart.".to_string())
    );
    assert_eq!(
        maneuver_instruction(
            otp_api::TransitMode::Car,
            otp_api::RelativeDirection::UturnRight,
            None,
            "anywhere",
        ),
        Some("Make a U-turn.".to_string())
    );
}

fn all_maneuver_types() -> Vec<ManeuverType> {
    let mut types = Vec::new();
    for code in 0u8..=43 {
        types.push(ManeuverType::from_code(code).unwrap());
    }
    types
}

#[test]
fn banner_mapping_is_total_and_deterministic() {
    let types = all_maneuver_types();
    assert_eq!(types.len(), 44);
    for t in types {
        let first = banner_maneuver(t);
        let second = banner_maneuver(t);
        assert_eq!(first, second);
        // the code space and the mapping agree on the vocabulary
        assert_eq!(ManeuverType::from_code(t.code()), Some(t));
    }
    assert!(ManeuverType::from_code(44).is_none());
    assert_eq!(
        banner_maneuver(ManeuverType::SlightRight),
        (
            Some(OSRMManeuverType::Turn),
            Some(ManeuverDirection::SlightRight)
        )
    );
    assert_eq!(banner_maneuver(ManeuverType::Unspecified), (None, None));
}

fn walking_trip(length_milli: u64, time_ms: u64, shape: &[Coordinate]) -> valhalla_api::Trip {
    let encoded_shape = encode_coordinates(&shape.to_vec(), 6).unwrap();
    let maneuvers = vec![
        valhalla_api::Maneuver {
            instruction: "Walk south on East Marginal Way South.".to_string(),
            begin_shape_index: 0,
            end_shape_index: 1,
            highway: None,
            length_milli: 2_218,
            street_names: Some(vec!["East Marginal Way South".to_string()]),
            time_ms: 198_858,
            travel_mode: "pedestrian".to_string(),
            travel_type: "foot".to_string(),
            maneuver_type: ManeuverType::Start,
            verbal_post_transition_instruction: Some("Continue for 2 miles.".to_string()),
            verbal_pre_transition_instruction: None,
            verbal_succinct_transition_instruction: None,
        },
        valhalla_api::Maneuver {
            instruction: "Turn right onto the walkway.".to_string(),
            begin_shape_index: 1,
            end_shape_index: 2,
            highway: None,
            length_milli: 3_000,
            street_names: None,
            time_ms: 300_000,
            travel_mode: "pedestrian".to_string(),
            travel_type: "foot".to_string(),
            maneuver_type: ManeuverType::Right,
            verbal_post_transition_instruction: None,
            verbal_pre_transition_instruction: None,
            verbal_succinct_transition_instruction: None,
        },
        valhalla_api::Maneuver {
            instruction: "Arrive at your destination.".to_string(),
            begin_shape_index: 2,
            end_shape_index: 2,
            highway: None,
            length_milli: 0,
            street_names: None,
            time_ms: 0,
            travel_mode: "pedestrian".to_string(),
            travel_type: "foot".to_string(),
            maneuver_type: ManeuverType::Destination,
            verbal_post_transition_instruction: None,
            verbal_pre_transition_instruction: None,
            verbal_succinct_transition_instruction: None,
        },
    ];
    let summary = valhalla_api::Summary {
        length_milli,
        time_ms,
        min_lat_e6: 47_575_663,
        min_lon_e6: -122_347_201,
        max_lat_e6: 47_651_047,
        max_lon_e6: -122_335_618,
    };
    valhalla_api::Trip {
        locations: vec![shape[0], shape[shape.len() - 1]],
        summary: summary.clone(),
        units: DistanceUnit::Miles,
        legs: vec![valhalla_api::Leg {
            summary,
            maneuvers,
            shape: encoded_shape,
        }],
    }
}

fn walking_response() -> valhalla_api::RouteResponse {
    let shape = [
        coord(-122_339_216, 47_575_836),
        coord(-122_340_000, 47_580_120),
        coord(-122_335_618, 47_651_047),
    ];
    let trip = walking_trip(5_684, 6_488_443, &shape);
    let alternate_1 = valhalla_api::Alternate {
        trip: walking_trip(5_900, 6_600_000, &shape),
    };
    let alternate_2 = valhalla_api::Alternate {
        trip: walking_trip(6_100, 6_700_000, &shape),
    };
    valhalla_api::RouteResponse {
        trip,
        alternates: Some(vec![alternate_1, alternate_2]),
    }
}

#[test]
fn normalizes_a_road_engine_walking_response() {
    // a fixed walking response with three trips in all
    let response = walking_response();
    let result = valhalla_api::ValhallaRouteResponseResult::Response(response);
    let plan = PlanResponseOk::from_valhalla(TravelMode::Walk, result, 1_715_974_501_000).unwrap();

    assert_eq!(plan.plan.itineraries.len(), 3);

    let first = &plan.plan.itineraries[0];
    assert_eq!(first.mode, TravelMode::Walk);
    // 5.684 miles, in millionths of a mile
    assert_eq!(first.distance_e6, 5_684_000);
    assert_eq!(first.distance_units, DistanceUnit::Miles);
    assert_eq!(first.duration_ms, 6_488_443);
    assert_eq!(
        first.bounds,
        Rect {
            min: coord(-122_347_201, 47_575_663),
            max: coord(-122_335_618, 47_651_047),
        }
    );

    assert_eq!(first.legs.len(), 1);
    let first_leg = &first.legs[0];
    assert_eq!(first_leg.mode, TravelMode::Walk);
    let ModeLeg::NonTransit(non_transit) = &first_leg.mode_leg else {
        panic!("expected a non-transit leg");
    };
    assert_eq!(non_transit.maneuvers.len(), 3);
    assert_eq!(non_transit.maneuvers[0].maneuver_type, ManeuverType::Start);
    assert_eq!(non_transit.maneuvers[1].maneuver_type, ManeuverType::Right);
    assert_eq!(
        non_transit.maneuvers[0].instruction,
        Some("Walk south on East Marginal Way South.".to_string())
    );
    assert_eq!(
        non_transit.substantial_street_names,
        vec!["East Marginal Way South"]
    );
}

#[test]
fn parse_error_from_valhalla() {
    let valhalla_error = valhalla_api::RouteResponseError {
        status_code: 400,
        error_code: 154,
        error: "Path distance exceeds the max distance limit: 200000 meters".to_string(),
    };
    let result = valhalla_api::ValhallaRouteResponseResult::Failure(valhalla_error);
    let plan_error = PlanResponseOk::from_valhalla(TravelMode::Car, result, 0).unwrap_err();
    assert_eq!(plan_error.error.status_code, 400);
    assert_eq!(plan_error.error.error_code, 2154);
}

#[test]
fn directions_from_a_walking_response() {
    let response = walking_response();
    let result = valhalla_api::ValhallaRouteResponseResult::Response(response);
    let plan = PlanResponseOk::from_valhalla(TravelMode::Walk, result, 0).unwrap();
    let itinerary = plan.plan.itineraries.into_iter().next().unwrap();

    let route = Route::from_itinerary(itinerary);
    // directions distances are meters regardless of the itinerary's unit:
    // 5.684 miles in millimeters
    assert_eq!(route.distance_mm, 9_147_489);
    assert_eq!(route.duration_ms, 6_488_443);
    assert_eq!(route.legs.len(), 1);

    let leg = &route.legs[0];
    assert_eq!(leg.summary, "East Marginal Way South");
    assert_eq!(leg.steps.len(), 3);

    let first_step = &leg.steps[0];
    assert_eq!(first_step.name, "East Marginal Way South");
    assert_eq!(first_step.mode, TravelMode::Walk);
    // the banner for the first step shows the next maneuver's instruction,
    // since the next maneuver has no street names
    let banners = first_step.banner_instructions.as_ref().unwrap();
    assert_eq!(banners.len(), 1);
    assert_eq!(banners[0].primary.text, "Turn right onto the walkway.");
    // bearing-before of the first step is copied from bearing-after
    assert_eq!(
        first_step.maneuver.bearing_before,
        first_step.maneuver.bearing_after
    );
    assert!(first_step.maneuver.bearing_after < 360);
}

fn walk_leg(start_time: u64, end_time: u64, points: &[Coordinate]) -> otp_api::Leg {
    let encoded = encode_coordinates(&points.to_vec(), 5).unwrap();
    otp_api::Leg {
        mode: otp_api::TransitMode::Walk,
        distance_mm: 19_150,
        leg_geometry: otp_api::LegGeometry {
            length: points.len() as u64,
            points: encoded,
        },
        route_color: None,
        from: otp_api::Place {
            location: points[0],
            name: None,
        },
        to: otp_api::Place {
            location: points[points.len() - 1],
            name: Some("1st Ave S & S Hanford St".to_string()),
        },
        start_time,
        end_time,
        steps: vec![otp_api::Step {
            distance_mm: 19_150,
            relative_direction: otp_api::RelativeDirection::Depart,
            absolute_direction: Some(otp_api::AbsoluteDirection::South),
            street_name: "East Marginal Way South".to_string(),
            bogus_name: None,
            point: points[0],
        }],
    }
}

#[test]
fn normalizes_a_transit_engine_response_sorted_by_arrival() {
    let points = [
        coord(-122_339_220, 47_575_830),
        coord(-122_339_220, 47_575_000),
    ];
    let later = otp_api::Itinerary {
        duration: 2_400,
        legs: vec![walk_leg(1_715_974_501_000, 1_715_974_870_000, &points)],
        start_time: 1_715_974_501_000,
        end_time: 1_715_976_901_000,
    };
    let earlier = otp_api::Itinerary {
        duration: 2_347,
        legs: vec![walk_leg(1_715_974_501_000, 1_715_974_870_000, &points)],
        start_time: 1_715_974_501_000,
        end_time: 1_715_976_848_000,
    };
    let response = otp_api::PlanResponse {
        plan: otp_api::Plan {
            itineraries: vec![later, earlier],
        },
        error: None,
    };
    let plan =
        PlanResponseOk::from_otp(TravelMode::Walk, response, DistanceUnit::Miles).unwrap();
    let itineraries = plan.plan.itineraries;
    assert_eq!(itineraries.len(), 2);
    // sorted by arrival, earliest first
    assert_eq!(itineraries[0].end_time, 1_715_976_848_000);
    assert_eq!(itineraries[1].end_time, 1_715_976_901_000);
    assert_eq!(itineraries[0].duration_ms, 2_347_000);

    let leg = &itineraries[0].legs[0];
    assert_eq!(leg.mode, TravelMode::Walk);
    assert_eq!(leg.to_place.name.as_deref(), Some("1st Ave S & S Hanford St"));
    let ModeLeg::NonTransit(non_transit) = &leg.mode_leg else {
        panic!("expected a non-transit leg");
    };
    // one step plus the synthesized arrival on the final leg
    assert_eq!(non_transit.maneuvers.len(), 2);
    assert_eq!(
        non_transit.maneuvers[0].instruction,
        Some("Walk south on East Marginal Way South.".to_string())
    );
    assert_eq!(non_transit.maneuvers[0].maneuver_type, ManeuverType::Start);
    assert_eq!(
        non_transit.maneuvers[1].maneuver_type,
        ManeuverType::Destination
    );
    assert_eq!(
        non_transit.maneuvers[1].instruction,
        Some("Arrive at your destination.".to_string())
    );
    assert_eq!(
        non_transit.substantial_street_names,
        vec!["East Marginal Way South"]
    );
    // spoken distance for a 19.15 meter step
    assert_eq!(
        non_transit.maneuvers[0].verbal_post_transition_instruction,
        Some("Continue for 60 feet.".to_string())
    );
}

#[test]
fn transit_legs_pass_through_opaquely() {
    let points = [coord(-122_339_220, 47_575_830), coord(-122_334_106, 47_575_924)];
    let mut leg = walk_leg(0, 1_000, &points);
    leg.mode = otp_api::TransitMode::Bus;
    let upstream = leg.clone();
    let itinerary = otp_api::Itinerary {
        duration: 1,
        legs: vec![leg],
        start_time: 0,
        end_time: 1_000,
    };
    let response = otp_api::PlanResponse {
        plan: otp_api::Plan {
            itineraries: vec![itinerary],
        },
        error: None,
    };
    let plan =
        PlanResponseOk::from_otp(TravelMode::Transit, response, DistanceUnit::Meters).unwrap();
    let leg = &plan.plan.itineraries[0].legs[0];
    assert_eq!(leg.mode, TravelMode::Transit);
    let ModeLeg::Transit(boxed) = &leg.mode_leg else {
        panic!("expected a transit leg");
    };
    assert_eq!(**boxed, upstream);
}

#[test]
fn transit_engine_errors_surface_as_plan_errors() {
    let response = otp_api::PlanResponse {
        plan: otp_api::Plan { itineraries: vec![] },
        error: Some(otp_api::PlanError {
            id: 406,
            msg: "No transit times available.".to_string(),
            message: "NO_TRANSIT_TIMES".to_string(),
        }),
    };
    let err =
        PlanResponseOk::from_otp(TravelMode::Transit, response, DistanceUnit::Meters).unwrap_err();
    assert_eq!(err.error.status_code, 400);
    assert_eq!(err.error.error_code, 406);
    assert_eq!(err.error.message, "No transit times available.");
}

#[test]
fn malformed_leg_geometry_is_a_server_error() {
    let points = [coord(0, 0), coord(1_000, 1_000)];
    let mut leg = walk_leg(0, 1_000, &points);
    // '!' is below the printable polyline chunk range
    leg.leg_geometry.points = "!!!".to_string();
    let itinerary = otp_api::Itinerary {
        duration: 1,
        legs: vec![leg],
        start_time: 0,
        end_time: 1_000,
    };
    let response = otp_api::PlanResponse {
        plan: otp_api::Plan {
            itineraries: vec![itinerary],
        },
        error: None,
    };
    let err =
        PlanResponseOk::from_otp(TravelMode::Walk, response, DistanceUnit::Meters).unwrap_err();
    assert_eq!(err.error.status_code, 500);
    assert_eq!(err.error.message, "failed to parse legs");
}

#[test]
fn an_itinerary_without_legs_is_a_server_error() {
    let empty = otp_api::Itinerary {
        duration: 1,
        legs: vec![],
        start_time: 0,
        end_time: 1_000,
    };
    let err = Itinerary::from_otp(empty, TravelMode::Walk, DistanceUnit::Meters).unwrap_err();
    assert_eq!(err.message, "itinerary had no legs");
}

#[test]
fn maneuver_indices_outside_the_shape_are_a_server_error() {
    let shape = [coord(-122_339_216, 47_575_836), coord(-122_340_000, 47_580_120)];
    let mut trip = walking_trip(5_684, 6_488_443, &shape);
    trip.legs[0].maneuvers[0].end_shape_index = 99;
    let response = valhalla_api::RouteResponse {
        trip,
        alternates: None,
    };
    let err = PlanResponseOk::from_valhalla(
        TravelMode::Walk,
        valhalla_api::ValhallaRouteResponseResult::Response(response),
        0,
    )
    .unwrap_err();
    assert_eq!(err.error.status_code, 500);
    assert_eq!(err.error.message, "maneuver outside leg shape");
}
