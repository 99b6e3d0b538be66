//! The haversine segmenter: carving a geometry into sub-sequences of
//! requested great-circle length.

use travelmux::geodesy::haversine_mm;
use travelmux::geom::Coordinate;
use travelmux::util::haversine_segmenter::HaversineSegmenter;

fn coord(lon_e6: i64, lat_e6: i64) -> Coordinate {
    Coordinate { lon_e6, lat_e6 }
}

fn path_length_mm(coords: &[Coordinate]) -> u64 {
    let mut total = 0u64;
    for pair in coords.windows(2) {
        total += haversine_mm(pair[0], pair[1]);
    }
    total
}

#[test]
fn test_happy_path() {
    // paris to berlin (878km) to prague
    let paris = coord(2_351_400, 48_857_500);
    let berlin = coord(13_405_000, 52_520_000);
    let prague = coord(14_437_800, 50_075_500);

    let paris_to_berlin = haversine_mm(paris, berlin);
    assert!((paris_to_berlin as i64 - 877_461_000).abs() <= 1_000);

    let total = path_length_mm(&[paris, berlin, prague]);
    assert!((total as i64 - 1_158_595_000).abs() <= 1_500);

    let mut segmenter = HaversineSegmenter::new(vec![paris, berlin, prague]);

    let segment_1 = segmenter.next_segment(10_000_000).unwrap();
    assert_eq!(segment_1[0], paris);
    let east_of_paris = *segment_1.last().unwrap();
    assert!((east_of_paris.lon_e6 - 2_467_660).abs() <= 3);
    assert!((east_of_paris.lat_e6 - 48_904_854).abs() <= 3);
    let len_1 = path_length_mm(&segment_1);
    assert!((len_1 as i64 - 10_000_000).abs() <= 500);

    // the next one picks up where the last one left off
    let segment_2 = segmenter.next_segment(10_000_000).unwrap();
    assert_eq!(segment_1.last().unwrap(), segment_2.first().unwrap());

    let segment_3 = segmenter.next_segment(paris_to_berlin).unwrap();
    assert_eq!(segment_3[0], *segment_2.last().unwrap());
    // the segment passes through the original berlin vertex
    assert!(segment_3.contains(&berlin));
    let east_of_berlin = *segment_3.last().unwrap();
    assert!((east_of_berlin.lon_e6 - 13_482_210).abs() <= 5);
    assert!((east_of_berlin.lat_e6 - 52_346_405).abs() <= 5);

    // overshoot it
    let next = segmenter.next_segment(total).unwrap();
    assert_eq!(next[0], east_of_berlin);
    assert_eq!(*next.last().unwrap(), prague);

    let next = segmenter.next_segment(4_000);
    assert!(next.is_none());
}

#[test]
fn degenerate_empty_line_string() {
    let mut segmenter = HaversineSegmenter::new(vec![]);
    assert!(segmenter.next_segment(10_000).is_none());
}

#[test]
fn degenerate_line_string_with_1_pt() {
    let mut segmenter = HaversineSegmenter::new(vec![coord(1_000_000, 2_000_000)]);
    assert!(segmenter.next_segment(10_000).is_none());
}

#[test]
fn overshooting_request_returns_exactly_the_remainder() {
    let a = coord(2_351_400, 48_857_500);
    let b = coord(13_405_000, 52_520_000);
    let c = coord(14_437_800, 50_075_500);
    let total = path_length_mm(&[a, b, c]);

    let mut segmenter = HaversineSegmenter::new(vec![a, b, c]);
    let whole = segmenter.next_segment(total + 1).unwrap();
    assert_eq!(whole, vec![a, b, c]);
    // exhausted: every later call returns nothing
    assert!(segmenter.next_segment(1).is_none());
    assert!(segmenter.next_segment(1_000_000).is_none());
}

#[test]
fn consecutive_segments_reconstruct_the_geometry() {
    let a = coord(2_351_400, 48_857_500);
    let b = coord(13_405_000, 52_520_000);
    let c = coord(14_437_800, 50_075_500);
    let total = path_length_mm(&[a, b, c]);

    let mut segmenter = HaversineSegmenter::new(vec![a, b, c]);
    let mut rebuilt: Vec<Coordinate> = Vec::new();
    let request = total / 5;
    while let Some(segment) = segmenter.next_segment(request) {
        if rebuilt.is_empty() {
            rebuilt.extend(&segment);
        } else {
            // the shared endpoint is dropped
            assert_eq!(rebuilt.last(), segment.first().as_ref().map(|c| *c));
            rebuilt.extend(&segment[1..]);
        }
    }
    // the rebuilt path starts and ends with the original endpoints and
    // walks the original vertices in order
    assert_eq!(rebuilt[0], a);
    assert_eq!(*rebuilt.last().unwrap(), c);
    let pos_b = rebuilt.iter().position(|p| *p == b).unwrap();
    assert!(0 < pos_b && pos_b < rebuilt.len() - 1);
    // and its length matches the original path
    let rebuilt_len = path_length_mm(&rebuilt);
    assert!((rebuilt_len as i64 - total as i64).abs() <= 2_000);
}

#[test]
fn test_segmenter() {
    // the same walk as the happy path, exercised through a fresh cursor
    let paris = coord(2_351_400, 48_857_500);
    let berlin = coord(13_405_000, 52_520_000);
    let prague = coord(14_437_800, 50_075_500);
    let paris_to_berlin = haversine_mm(paris, berlin);
    let total = path_length_mm(&[paris, berlin, prague]);

    let mut segmenter = HaversineSegmenter::new(vec![paris, berlin, prague]);
    let segment_1 = segmenter.next_segment(10_000_000).unwrap();
    assert_eq!(segment_1[0], paris);
    let segment_2 = segmenter.next_segment(10_000_000).unwrap();
    assert_eq!(segment_1.last(), segment_2.first());
    let segment_3 = segmenter.next_segment(paris_to_berlin).unwrap();
    assert!(segment_3.contains(&berlin));
    let rest = segmenter.next_segment(total).unwrap();
    assert_eq!(*rest.last().unwrap(), prague);
    assert!(segmenter.next_segment(4_000).is_none());
}
