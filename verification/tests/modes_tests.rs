//! Travel modes, engine selection, and the transit-mode folding.

use travelmux::otp_api::TransitMode;
use travelmux::plan::{
    mode_costing, resolve_transit_outcome, select_engines, EngineSelection, TransitOutcomeAction,
    TravelModes,
};
use travelmux::valhalla_api::ModeCosting;
use travelmux::{DistanceUnit, MeasurementSystem, TravelMode};

#[test]
fn transit_modes_fold_onto_travel_modes() {
    assert_eq!(TransitMode::Walk.to_travel_mode(), TravelMode::Walk);
    assert_eq!(TransitMode::Bicycle.to_travel_mode(), TravelMode::Bicycle);
    assert_eq!(TransitMode::Car.to_travel_mode(), TravelMode::Car);
    for transit in [
        TransitMode::Tram,
        TransitMode::Subway,
        TransitMode::Rail,
        TransitMode::Bus,
        TransitMode::Ferry,
        TransitMode::CableCar,
        TransitMode::Gondola,
        TransitMode::Funicular,
        TransitMode::Transit,
    ] {
        assert_eq!(transit.to_travel_mode(), TravelMode::Transit);
    }
}

#[test]
fn engine_selection_follows_the_fallback_policy() {
    assert_eq!(select_engines(TravelMode::Transit), EngineSelection::TransitOnly);
    assert_eq!(select_engines(TravelMode::Walk), EngineSelection::TransitThenRoad);
    assert_eq!(select_engines(TravelMode::Bicycle), EngineSelection::TransitThenRoad);
    assert_eq!(select_engines(TravelMode::Car), EngineSelection::RoadOnly);
}

#[test]
fn road_engine_cost_models() {
    assert_eq!(mode_costing(TravelMode::Car), Some(ModeCosting::Auto));
    assert_eq!(mode_costing(TravelMode::Bicycle), Some(ModeCosting::Bicycle));
    assert_eq!(mode_costing(TravelMode::Walk), Some(ModeCosting::Pedestrian));
    assert_eq!(mode_costing(TravelMode::Transit), None);
}

#[test]
fn travel_modes_list() {
    let modes = TravelModes(vec![TravelMode::Transit, TravelMode::Bicycle]);
    assert_eq!(modes.len(), 2);
    assert!(!modes.is_empty());
    assert_eq!(modes.first(), Some(&TravelMode::Transit));

    let empty = TravelModes(vec![]);
    assert!(empty.is_empty());
    assert_eq!(empty.first(), None);
}

#[test]
fn measurement_systems() {
    assert_eq!(DistanceUnit::Meters.measurement_system(), MeasurementSystem::Metric);
    assert_eq!(DistanceUnit::Kilometers.measurement_system(), MeasurementSystem::Metric);
    assert_eq!(DistanceUnit::Miles.measurement_system(), MeasurementSystem::Imperial);
}

#[test]
fn transit_outcomes_resolve_by_policy() {
    assert_eq!(
        resolve_transit_outcome(EngineSelection::TransitOnly, false),
        TransitOutcomeAction::UseTransitPlan
    );
    assert_eq!(
        resolve_transit_outcome(EngineSelection::TransitOnly, true),
        TransitOutcomeAction::SurfaceError
    );
    assert_eq!(
        resolve_transit_outcome(EngineSelection::TransitThenRoad, false),
        TransitOutcomeAction::UseTransitPlan
    );
    // a failed transit plan for walking or cycling falls back silently
    assert_eq!(
        resolve_transit_outcome(EngineSelection::TransitThenRoad, true),
        TransitOutcomeAction::QueryRoadEngine
    );
    assert_eq!(
        resolve_transit_outcome(EngineSelection::RoadOnly, false),
        TransitOutcomeAction::QueryRoadEngine
    );
}
