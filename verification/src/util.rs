use vstd::prelude::*;

pub mod format;
pub mod haversine_segmenter;

use crate::geodesy::{bearing_degrees, haversine_mm, spec_bearing_deg, spec_haversine_mm};
use crate::geom::{valid_geometry, Coordinate, Rect};
use crate::util::haversine_segmenter::{spec_walk, HaversineSegmenter};
use crate::DistanceUnit;

verus! {

/// A meter measures 1609.34 thousandths of a mile.
pub open spec fn mm_per_mile() -> int {
    1609340
}

/// Division rounding halves up, for non-negative operands.
pub open spec fn div_round(a: int, b: int) -> int
    recommends
        a >= 0,
        b > 0,
{
    (2 * a + b) / (2 * b)
}

/// A distance in millimeters re-expressed in millionths of the requested
/// unit.
pub open spec fn spec_from_meters(mm: int, output_units: DistanceUnit) -> int {
    match output_units {
        DistanceUnit::Meters => mm * 1000,
        DistanceUnit::Kilometers => mm,
        DistanceUnit::Miles => div_round(mm * 50000, 80467),
    }
}

/// A count of millionths of a unit re-expressed in millimeters.
pub open spec fn spec_to_meters(value_e6: int, input_units: DistanceUnit) -> int {
    match input_units {
        DistanceUnit::Meters => div_round(value_e6, 1000),
        DistanceUnit::Kilometers => value_e6,
        DistanceUnit::Miles => div_round(value_e6 * 80467, 50000),
    }
}

/// Re-expresses a distance, given in millimeters, in millionths of the
/// requested unit.
pub fn convert_from_meters(distance_mm: u64, output_units: DistanceUnit) -> (r: u64)
    requires
        distance_mm <= 1000000000000000,
    ensures
        r == spec_from_meters(distance_mm as int, output_units),
{
    match output_units {
        DistanceUnit::Meters => distance_mm * 1000,
        DistanceUnit::Kilometers => distance_mm,
        DistanceUnit::Miles => {
            let n: u128 = 2 * (distance_mm as u128) * 50000 + 80467;
            (n / (2 * 80467)) as u64
        },
    }
}

/// Re-expresses a distance, given in millionths of a unit, in millimeters.
pub fn convert_to_meters(distance_e6: u64, input_units: DistanceUnit) -> (r: u64)
    requires
        distance_e6 <= 1000000000000000000,
    ensures
        r == spec_to_meters(distance_e6 as int, input_units),
{
    match input_units {
        DistanceUnit::Meters => (2 * distance_e6 + 1000) / 2000,
        DistanceUnit::Kilometers => distance_e6,
        DistanceUnit::Miles => {
            let n: u128 = 2 * (distance_e6 as u128) * 80467 + 50000;
            (n / (2 * 50000)) as u64
        },
    }
}

/// Converting a distance into any supported unit and back returns it within
/// one millimeter, and exactly for the metric units.
pub proof fn lemma_unit_conversion_round_trip(mm: int, unit: DistanceUnit)
    requires
        0 <= mm <= 1000000000000000,
    ensures
        unit == DistanceUnit::Meters || unit == DistanceUnit::Kilometers ==> spec_to_meters(
            spec_from_meters(mm, unit),
            unit,
        ) == mm,
        spec_to_meters(spec_from_meters(mm, unit), unit) - mm <= 1,
        mm - spec_to_meters(spec_from_meters(mm, unit), unit) <= 1,
{
    match unit {
        DistanceUnit::Meters => {
            assert(div_round(mm * 1000, 1000) == mm) by (nonlinear_arith);
        },
        DistanceUnit::Kilometers => {
        },
        DistanceUnit::Miles => {
            let v = div_round(mm * 50000, 80467);
            let back = div_round(v * 80467, 50000);
            assert(100000 * mm - 80467 <= 2 * 80467 * v <= 100000 * mm + 80467)
                by (nonlinear_arith)
                requires
                    v == (2 * (mm * 50000) + 80467) / (2 * 80467int),
                    mm >= 0,
            ;
            assert(100000 * back >= 2 * 80467 * v - 100000 && 100000 * back <= 2 * 80467 * v
                + 100000) by (nonlinear_arith)
                requires
                    back == (2 * (v * 80467) + 50000) / (2 * 50000int),
                    v >= 0,
            ;
            assert(100000 * (back - mm) <= 80467 + 100000 && 100000 * (mm - back) <= 80467
                + 100000) by (nonlinear_arith)
                requires
                    100000 * mm - 80467 <= 2 * 80467 * v <= 100000 * mm + 80467,
                    100000 * back >= 2 * 80467 * v - 100000,
                    100000 * back <= 2 * 80467 * v + 100000,
            ;
            assert(back - mm <= 1 && mm - back <= 1) by (nonlinear_arith)
                requires
                    100000 * (back - mm) <= 180467,
                    100000 * (mm - back) <= 180467,
            ;
        },
    }
}

/// Widens `bounds` so that it also holds `extension`.
pub fn extend_bounds(bounds: &mut Rect, extension: &Rect)
    ensures
        *final(bounds) == crate::geom::spec_rect_union(*old(bounds), *extension),
{
    let min_lon = if bounds.min.lon_e6 <= extension.min.lon_e6 {
        bounds.min.lon_e6
    } else {
        extension.min.lon_e6
    };
    let min_lat = if bounds.min.lat_e6 <= extension.min.lat_e6 {
        bounds.min.lat_e6
    } else {
        extension.min.lat_e6
    };
    let max_lon = if bounds.max.lon_e6 >= extension.max.lon_e6 {
        bounds.max.lon_e6
    } else {
        extension.max.lon_e6
    };
    let max_lat = if bounds.max.lat_e6 >= extension.max.lat_e6 {
        bounds.max.lat_e6
    } else {
        extension.max.lat_e6
    };
    *bounds = Rect {
        min: Coordinate { lon_e6: min_lon, lat_e6: min_lat },
        max: Coordinate { lon_e6: max_lon, lat_e6: max_lat },
    };
}

/// The compass bearing from the first point toward the second: north 0,
/// east 90, south 180, west 270.
pub fn bearing_between(start: Coordinate, end: Coordinate) -> (r: Option<u16>)
    requires
        start.valid(),
        end.valid(),
    ensures
        r is Some && r.unwrap() == spec_bearing_deg(start, end),
        r.unwrap() < 360,
{
    Some(bearing_degrees(start, end))
}

/// The bearing at which a geometry sets off: the bearing between its first
/// two points.  Nothing for a geometry of fewer than two points.
pub fn bearing_at_start(line_string: &Vec<Coordinate>) -> (r: Option<u16>)
    requires
        valid_geometry(line_string@),
    ensures
        line_string@.len() < 2 ==> r is None,
        line_string@.len() >= 2 ==> r is Some && r.unwrap() == spec_bearing_deg(line_string@[0], line_string@[1]),
        r is Some ==> r.unwrap() < 360,
{
    if line_string.len() < 2 {
        return None;
    }
    bearing_between(line_string[0], line_string[1])
}

/// The bearing at which a geometry arrives: the bearing between its last
/// two points.
///
/// Upstream per-maneuver distances rarely line up exactly with the leg
/// geometry, so the final two points can sit within a meter of each other
/// and give a noisy direction.  In that case the geometry is walked one
/// meter twice from the reversed end, and the bearing is taken from the end
/// of the second walked span back toward its start, which gives a stable
/// direction vector; a reversed geometry too short to walk twice gives
/// nothing.
#[verifier::loop_isolation(false)]
pub fn bearing_at_end(line_string: &Vec<Coordinate>) -> (r: Option<u16>)
    requires
        valid_geometry(line_string@),
    ensures
        line_string@.len() < 2 ==> r is None,
        line_string@.len() >= 2 && spec_haversine_mm(
            line_string@[line_string@.len() - 2],
            line_string@[line_string@.len() - 1],
        ) >= 1000 ==> r is Some && r.unwrap() == spec_bearing_deg(
            line_string@[line_string@.len() - 2],
            line_string@[line_string@.len() - 1],
        ),
        line_string@.len() >= 2 && spec_haversine_mm(
            line_string@[line_string@.len() - 2],
            line_string@[line_string@.len() - 1],
        ) < 1000 ==> ({
            let rev = line_string@.reverse();
            let first_walk = spec_walk(rev, 0, 1000);
            if first_walk.2 == rev.len() - 1 {
                r is None
            } else {
                let second_walk = spec_walk(first_walk.1, first_walk.2, 1000);
                r is Some && r.unwrap() == spec_bearing_deg(
                    second_walk.0.last(),
                    second_walk.0[0],
                )
            }
        }),
        r is Some ==> r.unwrap() < 360,
{
    if line_string.len() < 2 {
        return None;
    }
    let n = line_string.len();
    let last = line_string[n - 1];
    let second_to_last = line_string[n - 2];
    let distance = haversine_mm(second_to_last, last);
    if distance < 1000 {
        let mut reversed: Vec<Coordinate> = Vec::new();
        let mut i: usize = n;
        while i > 0
            invariant
                i <= n == line_string@.len(),
                reversed@.len() == n - i,
                forall|j: int|
                    0 <= j < reversed@.len() ==> #[trigger] reversed@[j] == line_string@[n - 1
                        - j],
            decreases i,
        {
            i = i - 1;
            reversed.push(line_string[i]);
        }
        proof {
            assert(reversed@ =~= line_string@.reverse());
            assert(valid_geometry(reversed@));
        }
        let mut segmenter = HaversineSegmenter::new(reversed);
        let Some(_discard) = segmenter.next_segment(1000) else {
            proof {
                // a geometry of two or more points always yields a first
                // span from its start
                assert(false);
            }
            return None;
        };
        let Some(segment) = segmenter.next_segment(1000) else {
            return None;
        };
        bearing_between(segment[segment.len() - 1], segment[0])
    } else {
        bearing_between(second_to_last, last)
    }
}

} // verus!
