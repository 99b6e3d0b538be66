//! The boundary to the spherical-geometry routines of the `geo` crate.
//!
//! The library keeps every coordinate as integer millionths of a degree and
//! every distance as integer millimeters.  A great-circle quantity is
//! obtained by writing the coordinates as decimal text, handing them to
//! `geo`, and reading the answer back from decimal text; the text on both
//! sides is produced and consumed by the verified fixed-point routines of
//! `crate::decimal`, so only the calls themselves are trusted.

use crate::decimal::{format_scaled, parse_scaled, spec_format_scaled, spec_parse_scaled};
use crate::geom::Coordinate;
use geo::{Bearing, Distance, InterpolatePoint};
use vstd::prelude::*;

verus! {

/// The text that `geo`'s haversine distance writes, in meters with three
/// fraction digits, for the two points the argument texts describe.
pub uninterp spec fn hav_text(
    a_lon: Seq<char>,
    a_lat: Seq<char>,
    b_lon: Seq<char>,
    b_lat: Seq<char>,
) -> Seq<char>;

/// The text that `geo`'s haversine bearing writes, in degrees from north
/// with six fraction digits, for the two points the argument texts describe.
pub uninterp spec fn bearing_text(
    a_lon: Seq<char>,
    a_lat: Seq<char>,
    b_lon: Seq<char>,
    b_lat: Seq<char>,
) -> Seq<char>;

/// The lon/lat texts, six fraction digits each, of the point that `geo`
/// places on the great circle between two points at the given ratio.
pub uninterp spec fn interp_text(
    a_lon: Seq<char>,
    a_lat: Seq<char>,
    b_lon: Seq<char>,
    b_lat: Seq<char>,
    ratio: Seq<char>,
) -> (Seq<char>, Seq<char>);

/// Decimal degree text of a coordinate component that lies on the globe.
pub open spec fn is_degree_text(s: Seq<char>) -> bool {
    exists|v: int| -180000000 <= v <= 180000000 && s == spec_format_scaled(v, 6)
}

/// Decimal text of a ratio between zero and one, nine fraction digits.
pub open spec fn is_ratio_text(s: Seq<char>) -> bool {
    exists|v: int| 0 <= v <= 1000000000 && s == spec_format_scaled(v, 9)
}

/// Relies on `geo::Haversine.distance`: the great-circle distance in meters
/// between two lon/lat points, a pure function of the coordinates, here
/// written with three fraction digits.
#[verifier::external_body]
fn geo_distance_text(a_lon: &str, a_lat: &str, b_lon: &str, b_lat: &str) -> (r: String)
    requires
        is_degree_text(a_lon@),
        is_degree_text(a_lat@),
        is_degree_text(b_lon@),
        is_degree_text(b_lat@),
    ensures
        r@ == hav_text(a_lon@, a_lat@, b_lon@, b_lat@),
{
    let a: geo::Point = geo::Point::new(a_lon.parse().unwrap(), a_lat.parse().unwrap());
    let b: geo::Point = geo::Point::new(b_lon.parse().unwrap(), b_lat.parse().unwrap());
    format!("{:.3}", geo::Haversine.distance(a, b))
}

/// Relies on `geo::Haversine.bearing`: the bearing in degrees clockwise from
/// north, in `[0, 360)`, a pure function of the coordinates, here written
/// with six fraction digits.
#[verifier::external_body]
fn geo_bearing_text(a_lon: &str, a_lat: &str, b_lon: &str, b_lat: &str) -> (r: String)
    requires
        is_degree_text(a_lon@),
        is_degree_text(a_lat@),
        is_degree_text(b_lon@),
        is_degree_text(b_lat@),
    ensures
        r@ == bearing_text(a_lon@, a_lat@, b_lon@, b_lat@),
{
    let a: geo::Point = geo::Point::new(a_lon.parse().unwrap(), a_lat.parse().unwrap());
    let b: geo::Point = geo::Point::new(b_lon.parse().unwrap(), b_lat.parse().unwrap());
    format!("{:.6}", geo::Haversine.bearing(a, b))
}

/// Relies on `geo::Haversine.point_at_ratio_between`: the point the given
/// ratio of the way along the great circle from the first point to the
/// second, a pure function of its arguments.
#[verifier::external_body]
fn geo_interp_text(a_lon: &str, a_lat: &str, b_lon: &str, b_lat: &str, ratio: &str) -> (r: (
    String,
    String,
))
    requires
        is_degree_text(a_lon@),
        is_degree_text(a_lat@),
        is_degree_text(b_lon@),
        is_degree_text(b_lat@),
        is_ratio_text(ratio@),
    ensures
        (r.0@, r.1@) == interp_text(a_lon@, a_lat@, b_lon@, b_lat@, ratio@),
{
    let a: geo::Point = geo::Point::new(a_lon.parse().unwrap(), a_lat.parse().unwrap());
    let b: geo::Point = geo::Point::new(b_lon.parse().unwrap(), b_lat.parse().unwrap());
    let p = geo::Haversine.point_at_ratio_between(a, b, ratio.parse().unwrap());
    (format!("{:.6}", p.x()), format!("{:.6}", p.y()))
}

/// The millimeter reading of a meters-with-three-digits text; text of any
/// other shape, or a negative reading, counts as zero.
pub open spec fn mm_of_text(s: Seq<char>) -> nat {
    match spec_parse_scaled(s, 3) {
        Some(v) => if v >= 0 {
            v as nat
        } else {
            0
        },
        None => 0,
    }
}

pub open spec fn degree_text_of(v: int) -> Seq<char> {
    spec_format_scaled(v, 6)
}

/// The great-circle distance in millimeters between two coordinates, as the
/// haversine text for them reads.
pub open spec fn spec_haversine_mm(a: Coordinate, b: Coordinate) -> nat {
    mm_of_text(
        hav_text(
            degree_text_of(a.lon_e6 as int),
            degree_text_of(a.lat_e6 as int),
            degree_text_of(b.lon_e6 as int),
            degree_text_of(b.lat_e6 as int),
        ),
    )
}

/// The great-circle distance in millimeters between two coordinates.
pub fn haversine_mm(a: Coordinate, b: Coordinate) -> (r: u64)
    requires
        a.valid(),
        b.valid(),
    ensures
        r == spec_haversine_mm(a, b),
{
    let a_lon = format_scaled(a.lon_e6, 6);
    let a_lat = format_scaled(a.lat_e6, 6);
    let b_lon = format_scaled(b.lon_e6, 6);
    let b_lat = format_scaled(b.lat_e6, 6);
    proof {
        lemma_degree_text(a.lon_e6 as int);
        lemma_degree_text(a.lat_e6 as int);
        lemma_degree_text(b.lon_e6 as int);
        lemma_degree_text(b.lat_e6 as int);
    }
    let t = geo_distance_text(a_lon.as_str(), a_lat.as_str(), b_lon.as_str(), b_lat.as_str());
    match parse_scaled(t.as_str(), 3) {
        Some(v) => if v >= 0 {
            v as u64
        } else {
            0
        },
        None => 0,
    }
}

/// The whole-degree bearing, in `[0, 360)`, that the bearing text for two
/// coordinates reads, rounded to the nearest degree (the full circle wraps
/// back to north); unexpected text counts as zero.
pub open spec fn spec_bearing_deg(a: Coordinate, b: Coordinate) -> nat {
    let t = bearing_text(
        degree_text_of(a.lon_e6 as int),
        degree_text_of(a.lat_e6 as int),
        degree_text_of(b.lon_e6 as int),
        degree_text_of(b.lat_e6 as int),
    );
    match spec_parse_scaled(t, 6) {
        Some(v) => if 0 <= v < 360000000 {
            let rounded = (v + 500000) / 1000000;
            if rounded == 360 {
                0
            } else {
                rounded as nat
            }
        } else {
            0
        },
        None => 0,
    }
}

/// The bearing from the first coordinate toward the second, in whole
/// degrees clockwise from north.
pub fn bearing_degrees(a: Coordinate, b: Coordinate) -> (r: u16)
    requires
        a.valid(),
        b.valid(),
    ensures
        r == spec_bearing_deg(a, b),
        r < 360,
{
    let a_lon = format_scaled(a.lon_e6, 6);
    let a_lat = format_scaled(a.lat_e6, 6);
    let b_lon = format_scaled(b.lon_e6, 6);
    let b_lat = format_scaled(b.lat_e6, 6);
    proof {
        lemma_degree_text(a.lon_e6 as int);
        lemma_degree_text(a.lat_e6 as int);
        lemma_degree_text(b.lon_e6 as int);
        lemma_degree_text(b.lat_e6 as int);
    }
    let t = geo_bearing_text(a_lon.as_str(), a_lat.as_str(), b_lon.as_str(), b_lat.as_str());
    match parse_scaled(t.as_str(), 6) {
        Some(v) => if 0 <= v && v < 360000000 {
            let rounded = (v + 500000) / 1000000;
            if rounded == 360 {
                0
            } else {
                rounded as u16
            }
        } else {
            0
        },
        None => 0,
    }
}

/// The coordinate read from a pair of lon/lat texts, clamped onto the
/// globe; text of another shape falls back to the given coordinate.
pub open spec fn coordinate_of_texts(t: (Seq<char>, Seq<char>), fallback: Coordinate) -> Coordinate {
    match (spec_parse_scaled(t.0, 6), spec_parse_scaled(t.1, 6)) {
        (Some(lon), Some(lat)) => Coordinate {
            lon_e6: clamp_e6(lon, 180000000),
            lat_e6: clamp_e6(lat, 90000000),
        },
        _ => fallback,
    }
}

pub open spec fn clamp_e6(v: int, bound: int) -> i64 {
    if v < -bound {
        (-bound) as i64
    } else if v > bound {
        bound as i64
    } else {
        v as i64
    }
}

/// The point `num_mm / den_mm` of the way along the great circle from `a`
/// to `b`, as `geo` places it, at canonical precision.
pub open spec fn spec_point_between(a: Coordinate, b: Coordinate, num_mm: int, den_mm: int)
    -> Coordinate {
    coordinate_of_texts(
        interp_text(
            degree_text_of(a.lon_e6 as int),
            degree_text_of(a.lat_e6 as int),
            degree_text_of(b.lon_e6 as int),
            degree_text_of(b.lat_e6 as int),
            spec_format_scaled(ratio_e9(num_mm, den_mm), 9),
        ),
        a,
    )
}

/// The ratio written with nine fraction digits, rounded down.
pub open spec fn ratio_e9(num: int, den: int) -> int {
    num * 1000000000 / den
}

/// Interpolates a point along the great circle from `a` to `b`, the given
/// fraction (in millimeters of consumed over total length) of the way.
pub fn point_between(a: Coordinate, b: Coordinate, num_mm: u64, den_mm: u64) -> (r: Coordinate)
    requires
        a.valid(),
        b.valid(),
        0 < den_mm,
        num_mm <= den_mm,
    ensures
        r == spec_point_between(a, b, num_mm as int, den_mm as int),
        r.valid(),
{
    let a_lon = format_scaled(a.lon_e6, 6);
    let a_lat = format_scaled(a.lat_e6, 6);
    let b_lon = format_scaled(b.lon_e6, 6);
    let b_lat = format_scaled(b.lat_e6, 6);
    let r128: u128 = (num_mm as u128) * 1000000000u128 / (den_mm as u128);
    let ratio_scaled: i64 = r128 as i64;
    proof {
        assert((num_mm as int) * 1000000000 <= (den_mm as int) * 1000000000) by (nonlinear_arith)
            requires
                num_mm <= den_mm,
        ;
        assert((num_mm as int) * 1000000000 / (den_mm as int) <= 1000000000) by (nonlinear_arith)
            requires
                0 < den_mm,
                (num_mm as int) * 1000000000 <= (den_mm as int) * 1000000000,
        ;
        assert(ratio_scaled == ratio_e9(num_mm as int, den_mm as int));
        lemma_degree_text(a.lon_e6 as int);
        lemma_degree_text(a.lat_e6 as int);
        lemma_degree_text(b.lon_e6 as int);
        lemma_degree_text(b.lat_e6 as int);
        lemma_ratio_text(ratio_scaled as int);
    }
    let ratio = format_scaled(ratio_scaled, 9);
    let t = geo_interp_text(
        a_lon.as_str(),
        a_lat.as_str(),
        b_lon.as_str(),
        b_lat.as_str(),
        ratio.as_str(),
    );
    let lon = parse_scaled(t.0.as_str(), 6);
    let lat = parse_scaled(t.1.as_str(), 6);
    match (lon, lat) {
        (Some(lon), Some(lat)) => Coordinate {
            lon_e6: clamp_i64(lon, 180000000),
            lat_e6: clamp_i64(lat, 90000000),
        },
        _ => a,
    }
}

fn clamp_i64(v: i64, bound: i64) -> (r: i64)
    requires
        bound > 0,
    ensures
        r == clamp_e6(v as int, bound as int),
{
    if v < -bound {
        -bound
    } else if v > bound {
        bound
    } else {
        v
    }
}

proof fn lemma_degree_text(v: int)
    requires
        -180000000 <= v <= 180000000,
    ensures
        is_degree_text(spec_format_scaled(v, 6)),
{
    assert(-180000000 <= v <= 180000000 && spec_format_scaled(v, 6) == spec_format_scaled(v, 6));
}

proof fn lemma_ratio_text(v: int)
    requires
        0 <= v <= 1000000000,
    ensures
        is_ratio_text(spec_format_scaled(v, 9)),
{
    assert(0 <= v <= 1000000000 && spec_format_scaled(v, 9) == spec_format_scaled(v, 9));
}

} // verus!
