//! Plain geometry: coordinates at the canonical precision of one millionth
//! of a degree, bounding rectangles, and the small integer helpers the rest
//! of the library builds on.

use vstd::prelude::*;

verus! {

/// A longitude/latitude pair in millionths of a degree.
#[derive(Clone, Copy, Debug, PartialEq, Eq, Structural)]
pub struct Coordinate {
    /// Longitude in millionths of a degree, positive east.
    pub lon_e6: i64,
    /// Latitude in millionths of a degree, positive north.
    pub lat_e6: i64,
}

impl Coordinate {
    /// A coordinate that lies on the globe.
    pub open spec fn valid(self) -> bool {
        -180000000 <= self.lon_e6 <= 180000000 && -90000000 <= self.lat_e6 <= 90000000
    }

    pub fn new(lon_e6: i64, lat_e6: i64) -> (r: Coordinate)
        ensures
            r == (Coordinate { lon_e6, lat_e6 }),
    {
        Coordinate { lon_e6, lat_e6 }
    }
}

/// Every coordinate of a geometry lies on the globe.
pub open spec fn valid_geometry(s: Seq<Coordinate>) -> bool {
    forall|i: int| 0 <= i < s.len() ==> (#[trigger] s[i]).valid()
}

/// An axis-aligned bounding rectangle over coordinates.
#[derive(Clone, Copy, Debug, PartialEq, Eq, Structural)]
pub struct Rect {
    pub min: Coordinate,
    pub max: Coordinate,
}

impl Rect {
    pub open spec fn wf(self) -> bool {
        self.min.lon_e6 <= self.max.lon_e6 && self.min.lat_e6 <= self.max.lat_e6
    }

    pub open spec fn spec_contains(self, c: Coordinate) -> bool {
        self.min.lon_e6 <= c.lon_e6 <= self.max.lon_e6 && self.min.lat_e6 <= c.lat_e6
            <= self.max.lat_e6
    }

    /// Builds the rectangle spanned by two corner points, whichever way
    /// around they are given.
    pub fn new(a: Coordinate, b: Coordinate) -> (r: Rect)
        ensures
            r == spec_rect_from_corners(a, b),
            r.wf(),
            r.spec_contains(a),
            r.spec_contains(b),
    {
        Rect {
            min: Coordinate {
                lon_e6: if a.lon_e6 <= b.lon_e6 {
                    a.lon_e6
                } else {
                    b.lon_e6
                },
                lat_e6: if a.lat_e6 <= b.lat_e6 {
                    a.lat_e6
                } else {
                    b.lat_e6
                },
            },
            max: Coordinate {
                lon_e6: if a.lon_e6 <= b.lon_e6 {
                    b.lon_e6
                } else {
                    a.lon_e6
                },
                lat_e6: if a.lat_e6 <= b.lat_e6 {
                    b.lat_e6
                } else {
                    a.lat_e6
                },
            },
        }
    }
}

pub open spec fn spec_rect_from_corners(a: Coordinate, b: Coordinate) -> Rect {
    Rect {
        min: Coordinate {
            lon_e6: if a.lon_e6 <= b.lon_e6 {
                a.lon_e6
            } else {
                b.lon_e6
            },
            lat_e6: if a.lat_e6 <= b.lat_e6 {
                a.lat_e6
            } else {
                b.lat_e6
            },
        },
        max: Coordinate {
            lon_e6: if a.lon_e6 <= b.lon_e6 {
                b.lon_e6
            } else {
                a.lon_e6
            },
            lat_e6: if a.lat_e6 <= b.lat_e6 {
                b.lat_e6
            } else {
                a.lat_e6
            },
        },
    }
}

/// The smallest rectangle that holds both arguments.
pub open spec fn spec_rect_union(a: Rect, b: Rect) -> Rect {
    Rect {
        min: Coordinate {
            lon_e6: if a.min.lon_e6 <= b.min.lon_e6 {
                a.min.lon_e6
            } else {
                b.min.lon_e6
            },
            lat_e6: if a.min.lat_e6 <= b.min.lat_e6 {
                a.min.lat_e6
            } else {
                b.min.lat_e6
            },
        },
        max: Coordinate {
            lon_e6: if a.max.lon_e6 >= b.max.lon_e6 {
                a.max.lon_e6
            } else {
                b.max.lon_e6
            },
            lat_e6: if a.max.lat_e6 >= b.max.lat_e6 {
                a.max.lat_e6
            } else {
                b.max.lat_e6
            },
        },
    }
}

/// The bounding rectangle of a non-empty geometry: the single-point
/// rectangle of the first coordinate, widened point by point.
pub open spec fn spec_bounding_rect(s: Seq<Coordinate>) -> Rect
    recommends
        s.len() > 0,
    decreases s.len(),
{
    if s.len() <= 1 {
        Rect { min: s[0], max: s[0] }
    } else {
        spec_rect_union(
            spec_bounding_rect(s.drop_last()),
            Rect { min: s.last(), max: s.last() },
        )
    }
}

/// Computes the bounding rectangle of a geometry; `None` exactly on an
/// empty geometry.
pub fn bounding_rect(geometry: &Vec<Coordinate>) -> (r: Option<Rect>)
    ensures
        r is Some <==> geometry@.len() > 0,
        geometry@.len() > 0 ==> r == Some(spec_bounding_rect(geometry@)),
{
    if geometry.len() == 0 {
        return None;
    }
    let first = geometry[0];
    let mut rect = Rect { min: first, max: first };
    let mut i: usize = 1;
    proof {
        assert(geometry@.subrange(0, 1).drop_last() =~= Seq::<Coordinate>::empty());
        assert(rect == spec_bounding_rect(geometry@.subrange(0, 1)));
    }
    while i < geometry.len()
        invariant
            1 <= i <= geometry@.len(),
            rect == spec_bounding_rect(geometry@.subrange(0, i as int)),
        decreases geometry@.len() - i,
    {
        let p = geometry[i];
        rect = Rect {
            min: Coordinate {
                lon_e6: if rect.min.lon_e6 <= p.lon_e6 {
                    rect.min.lon_e6
                } else {
                    p.lon_e6
                },
                lat_e6: if rect.min.lat_e6 <= p.lat_e6 {
                    rect.min.lat_e6
                } else {
                    p.lat_e6
                },
            },
            max: Coordinate {
                lon_e6: if rect.max.lon_e6 >= p.lon_e6 {
                    rect.max.lon_e6
                } else {
                    p.lon_e6
                },
                lat_e6: if rect.max.lat_e6 >= p.lat_e6 {
                    rect.max.lat_e6
                } else {
                    p.lat_e6
                },
            },
        };
        i = i + 1;
        proof {
            assert(geometry@.subrange(0, i as int).drop_last() =~= geometry@.subrange(
                0,
                i - 1,
            ));
            assert(geometry@.subrange(0, i as int).last() == geometry@[i - 1]);
        }
    }
    proof {
        assert(geometry@.subrange(0, geometry@.len() as int) =~= geometry@);
    }
    Some(rect)
}

/// The bounding rectangle holds every point of its geometry.
pub proof fn lemma_bounding_rect_contains(s: Seq<Coordinate>, i: int)
    requires
        0 <= i < s.len(),
    ensures
        spec_bounding_rect(s).spec_contains(s[i]),
        spec_bounding_rect(s).wf(),
    decreases s.len(),
{
    if s.len() > 1 {
        if i < s.len() - 1 {
            lemma_bounding_rect_contains(s.drop_last(), i);
        } else {
            lemma_bounding_rect_contains(s.drop_last(), 0);
        }
    }
}

/// The whole-degree cell a scaled value falls in: division by a million,
/// rounded toward negative infinity as a grid must be.
pub fn floor_div_e6(v: i64) -> (r: i64)
    requires
        -1000000000000 <= v <= 1000000000000,
    ensures
        r == (v as int) / 1000000,
{
    if v >= 0 {
        v / 1000000
    } else {
        -((-v + 999999) / 1000000)
    }
}

} // verus!
