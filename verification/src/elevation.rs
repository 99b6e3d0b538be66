//! The elevation subsystem's logic: tile addressing for the 1°×1° DEM
//! grid, densification of a route geometry to a sampling interval, and the
//! climb/fall aggregate over sampled elevations.  Opening raster files and
//! reading pixels is I/O and lives outside the library; the values read
//! come back in as plain integers.

use crate::decimal::{dec_digits_padded, format_u64_padded};
use crate::geodesy::{haversine_mm, point_between, spec_haversine_mm, spec_point_between};
use crate::geom::{floor_div_e6, valid_geometry, Coordinate};
use vstd::prelude::*;

verus! {

/// The 1°×1° grid cell a point falls in, addressed by the floor of its
/// coordinates.
#[derive(Debug, PartialEq, Eq, Clone, Copy, Structural)]
pub struct TiffId {
    /// Whole degrees of longitude, positive east.
    pub lng: i16,
    /// Whole degrees of latitude, positive north.
    pub lat: i8,
}

/// The compass-prefixed zero-padded name of a grid cell, e.g. `N47W122`.
pub open spec fn spec_tiff_name(id: TiffId) -> Seq<char> {
    let lat_dir: Seq<char> = if id.lat > 0 {
        "N"@
    } else {
        "S"@
    };
    let lng_dir: Seq<char> = if id.lng > 0 {
        "E"@
    } else {
        "W"@
    };
    lat_dir + dec_digits_padded(abs_int(id.lat as int), 2) + lng_dir + dec_digits_padded(
        abs_int(id.lng as int),
        3,
    )
}

pub open spec fn abs_int(v: int) -> nat {
    if v >= 0 {
        v as nat
    } else {
        (-v) as nat
    }
}

impl TiffId {
    /// The grid cell holding a point: coordinates floored to whole
    /// degrees.
    pub fn for_point(point: Coordinate) -> (r: TiffId)
        requires
            point.valid(),
        ensures
            r.lng == (point.lon_e6 as int) / 1000000,
            r.lat == (point.lat_e6 as int) / 1000000,
    {
        TiffId {
            lng: floor_div_e6(point.lon_e6) as i16,
            lat: floor_div_e6(point.lat_e6) as i8,
        }
    }

    /// Writes the cell's name: compass letter and zero-padded whole
    /// degrees, latitude first.
    pub fn as_string(&self) -> (r: String)
        requires
            -90 <= self.lat <= 90,
            -180 <= self.lng <= 180,
        ensures
            r@ == spec_tiff_name(*self),
    {
        let mut s = if self.lat > 0 {
            String::from_str("N")
        } else {
            String::from_str("S")
        };
        let lat_abs: u64 = if self.lat >= 0 {
            self.lat as u64
        } else {
            (-(self.lat as i64)) as u64
        };
        let lat_digits = format_u64_padded(lat_abs, 2);
        s.append(lat_digits.as_str());
        if self.lng > 0 {
            s.append("E");
        } else {
            s.append("W");
        }
        let lng_abs: u64 = if self.lng >= 0 {
            self.lng as u64
        } else {
            (-(self.lng as i64)) as u64
        };
        let lng_digits = format_u64_padded(lng_abs, 3);
        s.append(lng_digits.as_str());
        proof {
            assert(s@ =~= spec_tiff_name(*self));
        }
        s
    }
}

/// The sum of the positive elevation changes along consecutive samples.
pub open spec fn spec_climb(s: Seq<i16>) -> int
    decreases s.len(),
{
    if s.len() < 2 {
        0
    } else {
        let d = s.last() - s[s.len() - 2];
        spec_climb(s.drop_last()) + (if d > 0 {
            d
        } else {
            0
        })
    }
}

/// The negated sum of the negative elevation changes along consecutive
/// samples.
pub open spec fn spec_fall(s: Seq<i16>) -> int
    decreases s.len(),
{
    if s.len() < 2 {
        0
    } else {
        let d = s.last() - s[s.len() - 2];
        spec_fall(s.drop_last()) + (if d > 0 {
            0
        } else {
            -d
        })
    }
}

proof fn lemma_climb_fall_mono(s: Seq<i16>, i: int)
    requires
        2 <= i <= s.len(),
    ensures
        spec_climb(s.subrange(0, i - 1)) <= spec_climb(s.subrange(0, i)),
        spec_fall(s.subrange(0, i - 1)) <= spec_fall(s.subrange(0, i)),
        spec_climb(s.subrange(0, i)) >= 0,
        spec_fall(s.subrange(0, i)) >= 0,
    decreases i,
{
    assert(s.subrange(0, i).drop_last() =~= s.subrange(0, i - 1));
    if i > 2 {
        lemma_climb_fall_mono(s, i - 1);
    } else {
        assert(s.subrange(0, i - 1).len() == 1);
        assert(spec_climb(s.subrange(0, i - 1)) == 0);
        assert(spec_fall(s.subrange(0, i - 1)) == 0);
    }
}

/// Walks consecutive sample pairs, summing positive deltas into total
/// climb and the negated negative deltas into total fall; fewer than two
/// samples yield none of either.
pub fn calculate_climb_and_fall(elevations: &Vec<i16>) -> (r: (i16, i16))
    requires
        spec_climb(elevations@) <= i16::MAX,
        spec_fall(elevations@) <= i16::MAX,
    ensures
        r.0 == spec_climb(elevations@),
        r.1 == spec_fall(elevations@),
{
    if elevations.len() < 2 {
        proof {
            assert(elevations@.len() < 2);
        }
        return (0, 0);
    }
    let mut total_climb: i32 = 0;
    let mut total_fall: i32 = 0;
    let mut i: usize = 1;
    proof {
        assert(elevations@.subrange(0, 1).len() < 2);
    }
    while i < elevations.len()
        invariant
            1 <= i <= elevations@.len(),
            2 <= elevations@.len(),
            spec_climb(elevations@) <= i16::MAX,
            spec_fall(elevations@) <= i16::MAX,
            total_climb == spec_climb(elevations@.subrange(0, i as int)),
            total_fall == spec_fall(elevations@.subrange(0, i as int)),
            0 <= total_climb <= i16::MAX,
            0 <= total_fall <= i16::MAX,
        decreases elevations@.len() - i,
    {
        let d: i32 = elevations[i] as i32 - elevations[i - 1] as i32;
        proof {
            assert(elevations@.subrange(0, i + 1).drop_last() =~= elevations@.subrange(
                0,
                i as int,
            ));
            assert(elevations@.subrange(0, i + 1).last() == elevations@[i as int]);
            assert(elevations@.subrange(0, i + 1)[i - 1] == elevations@[i - 1]);
            lemma_climb_fall_mono(elevations@, i + 1);
            lemma_climb_fall_prefix_bound(elevations@, i + 1);
        }
        if d > 0 {
            total_climb = total_climb + d;
        } else {
            total_fall = total_fall - d;
        }
        i = i + 1;
    }
    proof {
        assert(elevations@.subrange(0, elevations@.len() as int) =~= elevations@);
    }
    (total_climb as i16, total_fall as i16)
}

/// Every prefix's climb and fall stay under the whole sequence's.
proof fn lemma_climb_fall_prefix_bound(s: Seq<i16>, i: int)
    requires
        2 <= i <= s.len(),
    ensures
        spec_climb(s.subrange(0, i)) <= spec_climb(s),
        spec_fall(s.subrange(0, i)) <= spec_fall(s),
    decreases s.len() - i,
{
    if i == s.len() {
        assert(s.subrange(0, i) =~= s);
    } else {
        lemma_climb_fall_prefix_bound(s, i + 1);
        lemma_climb_fall_mono(s, i + 1);
    }
}

/// The evenly spaced interpolated cut points of one segment cut into
/// `pieces` even pieces, from the `k`-th cut on.
pub open spec fn spec_cut_points(a: Coordinate, b: Coordinate, pieces: int, k: int) -> Seq<
    Coordinate,
>
    decreases pieces - k,
{
    if k < 1 || k >= pieces {
        Seq::empty()
    } else {
        seq![spec_point_between(a, b, k, pieces)] + spec_cut_points(a, b, pieces, k + 1)
    }
}

/// The points a densified geometry carries after its first vertex: each
/// segment contributes its evenly spaced cut points where it is longer than
/// the sampling interval, then its end vertex.  A segment of length `d` is
/// cut into `1 + (d - 1) / max` even pieces, the least count that brings
/// every piece under the interval.
pub open spec fn spec_densified_tail(g: Seq<Coordinate>, i: int, max: int) -> Seq<Coordinate>
    decreases g.len() - i,
{
    if i < 1 || i >= g.len() {
        Seq::empty()
    } else {
        let d = spec_haversine_mm(g[i - 1], g[i]) as int;
        let inserted: Seq<Coordinate> = if d > max {
            spec_cut_points(g[i - 1], g[i], 1 + (d - 1) / max, 1)
        } else {
            Seq::empty()
        };
        inserted + seq![g[i]] + spec_densified_tail(g, i + 1, max)
    }
}

/// A geometry densified to a sampling interval: the original vertices in
/// order, with the cut points of each over-long segment inserted between
/// its endpoints.
pub open spec fn spec_densify(g: Seq<Coordinate>, max: int) -> Seq<Coordinate> {
    if g.len() == 0 {
        Seq::empty()
    } else {
        seq![g[0]] + spec_densified_tail(g, 1, max)
    }
}

/// Densifies a geometry so that no two consecutive points are meant to
/// exceed the sampling interval: each over-long segment has evenly-spaced
/// interpolated points inserted along the great circle, exactly as
/// `spec_densify` lays them out.
#[verifier::loop_isolation(false)]
pub fn densify(geometry: &Vec<Coordinate>, max_sample_mm: u64) -> (r: Vec<Coordinate>)
    requires
        valid_geometry(geometry@),
        max_sample_mm > 0,
    ensures
        r@ == spec_densify(geometry@, max_sample_mm as int),
        valid_geometry(r@),
{
    let ghost g = geometry@;
    let ghost max = max_sample_mm as int;
    let mut out: Vec<Coordinate> = Vec::new();
    if geometry.len() == 0 {
        return out;
    }
    out.push(geometry[0]);
    proof {
        assert(out@ =~= seq![g[0]]);
        assert(spec_densify(g, max) =~= out@ + spec_densified_tail(g, 1, max));
    }
    let mut i: usize = 1;
    while i < geometry.len()
        invariant
            1 <= i <= g.len(),
            valid_geometry(out@),
            spec_densify(g, max) == out@ + spec_densified_tail(g, i as int, max),
        decreases g.len() - i,
    {
        let prev = geometry[i - 1];
        let next = geometry[i];
        let d = haversine_mm(prev, next);
        let ghost entry_out = out@;
        let ghost tail = spec_densified_tail(g, i as int, max);
        if d > max_sample_mm {
            // the count of even sub-segments this segment is cut into
            let pieces = 1 + (d - 1) / max_sample_mm;
            proof {
                assert(tail =~= spec_cut_points(prev, next, pieces as int, 1) + seq![next]
                    + spec_densified_tail(g, i + 1, max));
            }
            let mut k: u64 = 1;
            while k < pieces
                invariant
                    1 <= k <= pieces,
                    valid_geometry(out@),
                    prev.valid(),
                    next.valid(),
                    entry_out + spec_cut_points(prev, next, pieces as int, 1) == out@
                        + spec_cut_points(prev, next, pieces as int, k as int),
                decreases pieces - k,
            {
                let ghost before = out@;
                let cut = point_between(prev, next, k, pieces);
                out.push(cut);
                proof {
                    assert(spec_cut_points(prev, next, pieces as int, k as int) =~= seq![cut]
                        + spec_cut_points(prev, next, pieces as int, k as int + 1));
                    assert(before + spec_cut_points(prev, next, pieces as int, k as int)
                        =~= out@ + spec_cut_points(prev, next, pieces as int, k as int + 1));
                }
                k = k + 1;
            }
            proof {
                assert(spec_cut_points(prev, next, pieces as int, pieces as int)
                    =~= Seq::<Coordinate>::empty());
                assert(out@ =~= entry_out + spec_cut_points(prev, next, pieces as int, 1));
            }
        } else {
            proof {
                assert(tail =~= seq![next] + spec_densified_tail(g, i + 1, max));
            }
        }
        out.push(next);
        i = i + 1;
        proof {
            assert(spec_densify(g, max) == out@ + spec_densified_tail(g, i as int, max));
        }
    }
    proof {
        assert(spec_densified_tail(g, g.len() as int, max) =~= Seq::<Coordinate>::empty());
        assert(out@ =~= spec_densify(g, max));
    }
    out
}

/// The elevation service's configuration: where the DEM tiles live.  The
/// tile files themselves are opened and read outside the library.
#[derive(Debug, Clone, PartialEq, Eq)]
pub struct ElevationService {
    pub tif_dir: String,
}

impl ElevationService {
    pub fn new(tif_dir: String) -> (r: Self)
        ensures
            r.tif_dir == tif_dir,
    {
        Self { tif_dir }
    }

    /// The file name of the tile covering a point, under the service's
    /// tile directory.
    pub fn tile_name(&self, point: Coordinate) -> (r: String)
        requires
            point.valid(),
        ensures
            r@ == spec_tiff_name(
                TiffId {
                    lng: ((point.lon_e6 as int) / 1000000) as i16,
                    lat: ((point.lat_e6 as int) / 1000000) as i8,
                },
            ) + ".tif"@,
    {
        let id = TiffId::for_point(point);
        let mut s = id.as_string();
        s.append(".tif");
        s
    }
}

} // verus!
