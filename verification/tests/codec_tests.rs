//! The compact polyline codec, cross-checked against the `polyline` crate.

use travelmux::encoded_polyline::{decode_polyline, encode_coordinates, PolylineError};
use travelmux::geom::Coordinate;

fn coord(lon_e6: i64, lat_e6: i64) -> Coordinate {
    Coordinate { lon_e6, lat_e6 }
}

fn sample() -> Vec<Coordinate> {
    vec![
        coord(-122_339_216, 47_575_836),
        coord(-122_340_000, 47_580_120),
        coord(-122_335_618, 47_651_047),
        coord(2_351_400, 48_857_500),
    ]
}

#[test]
fn round_trip_at_full_precision() {
    let coords = sample();
    let text = encode_coordinates(&coords, 6).unwrap();
    let decoded = decode_polyline(&text, 6).unwrap();
    assert_eq!(decoded, coords);
}

#[test]
fn round_trip_at_reduced_precision() {
    let coords = sample();
    let text = encode_coordinates(&coords, 5).unwrap();
    let decoded = decode_polyline(&text, 5).unwrap();
    assert_eq!(decoded.len(), coords.len());
    for (got, want) in decoded.iter().zip(coords.iter()) {
        assert!((got.lon_e6 - want.lon_e6).abs() <= 5);
        assert!((got.lat_e6 - want.lat_e6).abs() <= 5);
        // the reduced-precision reading sits on the 1e-5 grid
        assert_eq!(got.lon_e6 % 10, 0);
        assert_eq!(got.lat_e6 % 10, 0);
    }
}

#[test]
fn encoding_matches_the_polyline_crate() {
    let coords = sample();
    for precision in [5u32, 6u32] {
        let ours = encode_coordinates(&coords, precision).unwrap();
        let float_coords: Vec<geo::Coord> = coords
            .iter()
            .map(|c| geo::Coord {
                x: c.lon_e6 as f64 / 1.0e6,
                y: c.lat_e6 as f64 / 1.0e6,
            })
            .collect();
        let theirs = polyline::encode_coordinates(float_coords, precision).unwrap();
        assert_eq!(ours, theirs, "precision {precision}");
    }
}

#[test]
fn decoding_matches_the_polyline_crate() {
    let text = "_p~iF~ps|U_ulLnnqC_mqNvxq`@";
    let ours = decode_polyline(text, 5).unwrap();
    let theirs = polyline::decode_polyline(text, 5).unwrap();
    assert_eq!(ours.len(), theirs.0.len());
    for (got, want) in ours.iter().zip(theirs.0.iter()) {
        assert_eq!(got.lon_e6 as f64 / 1.0e6, want.x);
        assert_eq!(got.lat_e6 as f64 / 1.0e6, want.y);
    }
}

#[test]
fn malformed_text_is_rejected() {
    // '!' is below the printable chunk range
    assert_eq!(decode_polyline("_p~iF!", 5), Err(PolylineError::InvalidText));
    // a dangling continuation chunk
    assert_eq!(decode_polyline("_", 5), Err(PolylineError::InvalidText));
}

#[test]
fn off_globe_coordinates_are_rejected_by_the_encoder() {
    let coords = vec![coord(200_000_000, 0)];
    assert_eq!(
        encode_coordinates(&coords, 6),
        Err(PolylineError::InvalidCoordinate)
    );
}

#[test]
fn empty_geometry_encodes_to_empty_text() {
    let text = encode_coordinates(&vec![], 6).unwrap();
    assert_eq!(text, "");
    assert_eq!(decode_polyline("", 6).unwrap(), Vec::<Coordinate>::new());
}
