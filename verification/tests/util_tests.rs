//! Bearings, unit conversion, distance formatting and fixed-point text.

use travelmux::decimal::{format_scaled, parse_scaled};
use travelmux::geom::Coordinate;
use travelmux::util::format::format_meters;
use travelmux::util::{bearing_at_end, bearing_at_start, convert_from_meters, convert_to_meters};
use travelmux::{DistanceUnit, MeasurementSystem};

fn coord(lon_e6: i64, lat_e6: i64) -> Coordinate {
    Coordinate { lon_e6, lat_e6 }
}

#[test]
fn maneuver_bearing() {
    let a = vec![coord(0, 0), coord(1_000_000, 0), coord(1_000_000, 1_000_000)];
    let b = vec![coord(1_000_000, 1_000_000), coord(0, 1_000_000), coord(0, 0)];

    assert_eq!(90, bearing_at_start(&a).unwrap());
    assert_eq!(0, bearing_at_end(&a).unwrap());

    assert_eq!(270, bearing_at_start(&b).unwrap());
    assert_eq!(180, bearing_at_end(&b).unwrap());
}

#[test]
fn bearings_round_to_the_nearest_degree() {
    // one degree east and north of the origin: the great-circle bearing is
    // just under 45 degrees, so it rounds up rather than truncating down
    let diagonal = vec![coord(0, 0), coord(1_000_000, 1_000_000)];
    assert_eq!(45, bearing_at_start(&diagonal).unwrap());
}

#[test]
fn bearing_of_short_geometry_is_nothing() {
    assert!(bearing_at_start(&vec![]).is_none());
    assert!(bearing_at_end(&vec![coord(1, 2)]).is_none());
}

#[test]
fn meter_formatting() {
    assert_eq!(format_meters(1_000, MeasurementSystem::Metric), "1 meter");
    assert_eq!(format_meters(2_600, MeasurementSystem::Metric), "3 meters");
    assert_eq!(format_meters(99_000, MeasurementSystem::Metric), "100 meters");
    assert_eq!(format_meters(599_000, MeasurementSystem::Metric), "600 meters");
    assert_eq!(format_meters(600_000, MeasurementSystem::Metric), "600 meters");
    assert_eq!(format_meters(900_000, MeasurementSystem::Metric), "900 meters");
    assert_eq!(format_meters(960_000, MeasurementSystem::Metric), "1 kilometer");
    assert_eq!(format_meters(1_049_000, MeasurementSystem::Metric), "1 kilometer");
    assert_eq!(format_meters(1_100_000, MeasurementSystem::Metric), "1.1 kilometers");
    assert_eq!(format_meters(9_940_000, MeasurementSystem::Metric), "9.9 kilometers");
    assert_eq!(format_meters(9_999_000, MeasurementSystem::Metric), "10 kilometers");
    assert_eq!(format_meters(10_000_000, MeasurementSystem::Metric), "10 kilometers");
    assert_eq!(format_meters(100_000_000, MeasurementSystem::Metric), "100 kilometers");
}

#[test]
fn format_miles_from_meters() {
    assert_eq!(format_meters(1_000, MeasurementSystem::Imperial), "10 feet");
    assert_eq!(format_meters(10_000, MeasurementSystem::Imperial), "30 feet");
    assert_eq!(format_meters(50_000, MeasurementSystem::Imperial), "160 feet");
    assert_eq!(format_meters(100_000, MeasurementSystem::Imperial), "300 feet");
    assert_eq!(format_meters(500_000, MeasurementSystem::Imperial), "a quarter mile");
    assert_eq!(format_meters(1_000_000, MeasurementSystem::Imperial), "a half mile");
    assert_eq!(format_meters(1_100_000, MeasurementSystem::Imperial), "0.7 miles");
    assert_eq!(format_meters(1_300_000, MeasurementSystem::Imperial), "0.8 miles");
    assert_eq!(format_meters(1_700_000, MeasurementSystem::Imperial), "1 mile");
    assert_eq!(format_meters(1_800_000, MeasurementSystem::Imperial), "1.1 miles");
    assert_eq!(format_meters(2_000_000, MeasurementSystem::Imperial), "1.2 miles");
    assert_eq!(format_meters(16_000_000, MeasurementSystem::Imperial), "9.9 miles");
    assert_eq!(format_meters(16_500_000, MeasurementSystem::Imperial), "10 miles");
    assert_eq!(format_meters(20_000_000, MeasurementSystem::Imperial), "12 miles");
}

#[test]
fn unit_conversion_round_trips() {
    let samples: [u64; 6] = [0, 1, 19_150, 1_609_340, 9_147_488, 123_456_789_012];
    for &mm in samples.iter() {
        for unit in [DistanceUnit::Meters, DistanceUnit::Kilometers, DistanceUnit::Miles] {
            let converted = convert_from_meters(mm, unit);
            let back = convert_to_meters(converted, unit);
            let diff = back as i64 - mm as i64;
            assert!(
                diff.abs() <= 1,
                "round trip through {unit:?} moved {mm} to {back}"
            );
            if unit != DistanceUnit::Miles {
                assert_eq!(back, mm);
            }
        }
    }
}

#[test]
fn unit_conversion_exact_values() {
    // one mile of millimeters reads as one mile
    assert_eq!(convert_from_meters(1_609_340, DistanceUnit::Miles), 1_000_000);
    // a kilometer of millimeters reads as one kilometer
    assert_eq!(convert_from_meters(1_000_000, DistanceUnit::Kilometers), 1_000_000);
    // 5.684 miles back to millimeters
    assert_eq!(convert_to_meters(5_684_000, DistanceUnit::Miles), 9_147_489);
}

#[test]
fn fixed_point_text_round_trips() {
    assert_eq!(format_scaled(-1_234_567, 6), "-1.234567");
    assert_eq!(format_scaled(47_620_500, 6), "47.620500");
    assert_eq!(format_scaled(0, 3), "0.000");
    assert_eq!(parse_scaled("47.620500", 6), Some(47_620_500));
    assert_eq!(parse_scaled("-1.234567", 6), Some(-1_234_567));
    assert_eq!(parse_scaled("12345.678", 3), Some(12_345_678));
    assert_eq!(parse_scaled("nonsense", 3), None);
    assert_eq!(parse_scaled("12.34", 3), None);
    assert_eq!(parse_scaled("", 6), None);
}
