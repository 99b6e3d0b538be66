//! Tile addressing, climb/fall aggregation and geometry densification.

use travelmux::elevation::{calculate_climb_and_fall, densify, ElevationService, TiffId};
use travelmux::geodesy::haversine_mm;
use travelmux::geom::Coordinate;

fn coord(lon_e6: i64, lat_e6: i64) -> Coordinate {
    Coordinate { lon_e6, lat_e6 }
}

#[test]
fn for_point() {
    let id = TiffId::for_point(coord(1_000_000, 2_000_000));
    assert_eq!(id.as_string(), "N02E001");

    let id = TiffId::for_point(coord(-1_000_000, -2_000_000));
    assert_eq!(id.as_string(), "S02W001");

    let id = TiffId::for_point(coord(1_100_000, 2_100_000));
    assert_eq!(id.as_string(), "N02E001");

    let id = TiffId::for_point(coord(-1_100_000, -2_100_000));
    assert_eq!(id.as_string(), "S03W002");
}

#[test]
fn tile_of_seattle() {
    let id = TiffId::for_point(coord(-122_349_300, 47_620_500));
    assert_eq!(id.as_string(), "N47W123");
    let service = ElevationService::new("tiles".to_string());
    assert_eq!(service.tile_name(coord(-122_349_300, 47_620_500)), "N47W123.tif");
}

#[test]
fn climb_and_fall_of_sampled_elevations() {
    let elevations: Vec<i16> = vec![
        37, 37, 42, 32, 32, 32, 46, 46, 46, 99, 99, 111, 139, 139, 139, 129, 129,
    ];
    let (climb, fall) = calculate_climb_and_fall(&elevations);
    assert_eq!(climb, 112);
    assert_eq!(fall, 20);
}

#[test]
fn climb_and_fall_of_short_samples_is_zero() {
    assert_eq!(calculate_climb_and_fall(&vec![]), (0, 0));
    assert_eq!(calculate_climb_and_fall(&vec![42]), (0, 0));
}

#[test]
fn densify_inserts_points_along_long_segments() {
    // the space needle to upper queen anne, about 1.6 km
    let a = coord(-122_349_300, 47_620_500);
    let b = coord(-122_354_610, 47_634_370);
    let d = haversine_mm(a, b);
    assert!(d > 1_550_000 && d < 1_600_000);

    let sampled = densify(&vec![a, b], 100_000);
    // a ~1.6 km segment sampled every 100 m has 17 points, as the segment
    // is cut into sixteen even pieces
    assert_eq!(sampled.len(), 17);
    assert_eq!(sampled[0], a);
    assert_eq!(*sampled.last().unwrap(), b);
    for pair in sampled.windows(2) {
        let step = haversine_mm(pair[0], pair[1]);
        assert!(step <= 101_000, "a sampled step of {step} mm is over the interval");
    }
}

#[test]
fn densify_keeps_short_geometries() {
    let a = coord(0, 0);
    let b = coord(100, 100);
    assert_eq!(densify(&vec![a, b], 100_000), vec![a, b]);
    assert_eq!(densify(&vec![], 100_000), Vec::<Coordinate>::new());
    assert_eq!(densify(&vec![a], 100_000), vec![a]);
}
