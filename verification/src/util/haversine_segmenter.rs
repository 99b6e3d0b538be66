//! A forward cursor that carves an ordered coordinate sequence into
//! consecutive sub-sequences of requested great-circle length.
//!
//! The transit engine reports per-maneuver distances but only one geometry
//! for the whole leg; this cursor reconstructs per-maneuver geometry by
//! allocating consecutive spans of the leg polyline in maneuver order.

use crate::geodesy::{haversine_mm, point_between, spec_haversine_mm, spec_point_between};
use crate::geom::{valid_geometry, Coordinate};
use vstd::prelude::*;

verus! {

/// The great-circle length in millimeters of the path along `g` from vertex
/// `i` to vertex `j`.
pub open spec fn path_dist_mm(g: Seq<Coordinate>, i: int, j: int) -> int
    decreases j - i,
{
    if i >= j {
        0
    } else {
        path_dist_mm(g, i, j - 1) + spec_haversine_mm(g[j - 1], g[j])
    }
}

/// What consuming up to `remaining` millimeters of `g` from vertex `i`
/// yields: the consumed sub-sequence, the geometry afterwards, and the new
/// cursor vertex.
///
/// Whole segments that fit are consumed one by one.  A segment longer than
/// what is left is cut at the interpolated point, which overwrites the
/// cursor vertex so the next pass starts exactly there; a cut that lands
/// on the cursor point itself would stall, so it overwrites the following
/// vertex instead.  A request that outlasts the geometry consumes the
/// whole remainder.
pub open spec fn spec_walk(g: Seq<Coordinate>, i: int, remaining: int) -> (
    Seq<Coordinate>,
    Seq<Coordinate>,
    int,
)
    decreases g.len() - i,
{
    if i < 0 || i >= g.len() - 1 {
        (Seq::empty(), g, i)
    } else {
        let start = g[i];
        let end = g[i + 1];
        let segment_length = spec_haversine_mm(start, end) as int;
        if segment_length > remaining {
            let cut = spec_point_between(start, end, remaining, segment_length);
            if cut == start {
                (seq![start, cut], g.update(i + 1, cut), i + 1)
            } else {
                (seq![start, cut], g.update(i, cut), i)
            }
        } else if i + 1 == g.len() - 1 {
            (seq![start, end], g, i + 1)
        } else {
            let tail = spec_walk(g, i + 1, remaining - segment_length);
            (seq![start] + tail.0, tail.1, tail.2)
        }
    }
}

/// The geometry slices that one forward pass hands out for a run of
/// requested distances: each request consumes the next span, and a request
/// against an exhausted cursor gets the empty slice.
pub open spec fn spec_slices(g: Seq<Coordinate>, i: int, distances: Seq<int>) -> Seq<
    Seq<Coordinate>,
>
    decreases distances.len(),
{
    if distances.len() == 0 {
        Seq::empty()
    } else if g.len() == 0 || i >= g.len() - 1 {
        seq![Seq::<Coordinate>::empty()] + spec_slices(g, i, distances.drop_first())
    } else {
        let walked = spec_walk(g, i, distances[0]);
        seq![walked.0] + spec_slices(walked.1, walked.2, distances.drop_first())
    }
}

/// The shape of one walk: it begins at the cursor vertex, all its points
/// but the last are consecutive original vertices, it ends at the new
/// cursor vertex, and the geometry changes nowhere but there.
pub proof fn lemma_spec_walk_shape(g: Seq<Coordinate>, i: int, remaining: int)
    requires
        0 <= i < g.len() - 1,
    ensures
        ({
            let walked = spec_walk(g, i, remaining);
            &&& 2 <= walked.0.len()
            &&& walked.0[0] == g[i]
            &&& (forall|j: int| 0 <= j < walked.0.len() - 1 ==> walked.0[j] == g[i + j])
            &&& walked.1.len() == g.len()
            &&& i <= walked.2 < g.len()
            &&& walked.0.last() == walked.1[walked.2]
            &&& (forall|j: int| 0 <= j < g.len() && j != walked.2 ==> walked.1[j] == g[j])
        }),
    decreases g.len() - i,
{
    let start = g[i];
    let end = g[i + 1];
    let segment_length = spec_haversine_mm(start, end) as int;
    if segment_length > remaining {
    } else if i + 1 == g.len() - 1 {
    } else {
        lemma_spec_walk_shape(g, i + 1, remaining - segment_length);
        let tail = spec_walk(g, i + 1, remaining - segment_length);
        let walked = spec_walk(g, i, remaining);
        assert(walked.0 =~= seq![start] + tail.0);
        assert forall|j: int| 0 <= j < walked.0.len() - 1 implies walked.0[j] == g[i + j] by {
            if j > 0 {
                assert(walked.0[j] == tail.0[j - 1]);
            }
        }
    }
}

/// Consecutive sub-sequences of one forward pass chain: each slice after
/// the first begins exactly where its predecessor ended.  Concatenating
/// the returned sub-sequences with every duplicated shared endpoint
/// dropped therefore yields one continuous path, whose interior vertices
/// the shape facts of `lemma_spec_walk_shape` place on the original
/// geometry in order.
pub proof fn lemma_slices_chain(g: Seq<Coordinate>, i: int, distances: Seq<int>, j: int)
    requires
        0 <= i,
        g.len() == 0 || i < g.len(),
        0 <= j < distances.len() - 1,
        spec_slices(g, i, distances)[j].len() > 0,
        spec_slices(g, i, distances)[j + 1].len() > 0,
    ensures
        spec_slices(g, i, distances)[j + 1][0] == spec_slices(g, i, distances)[j].last(),
    decreases j,
{
    let slices = spec_slices(g, i, distances);
    lemma_spec_slices_len(g, i, distances);
    if g.len() == 0 || i >= g.len() - 1 {
        let tail = spec_slices(g, i, distances.drop_first());
        lemma_spec_slices_len(g, i, distances.drop_first());
        assert(slices =~= seq![Seq::<Coordinate>::empty()] + tail);
        if j == 0 {
            assert(slices[0].len() == 0);
        } else {
            assert(slices[j] == tail[j - 1] && slices[j + 1] == tail[j]);
            lemma_slices_chain(g, i, distances.drop_first(), j - 1);
        }
    } else {
        lemma_spec_walk_shape(g, i, distances[0]);
        let walked = spec_walk(g, i, distances[0]);
        let tail = spec_slices(walked.1, walked.2, distances.drop_first());
        lemma_spec_slices_len(walked.1, walked.2, distances.drop_first());
        assert(slices =~= seq![walked.0] + tail);
        if j == 0 {
            assert(slices[1] == tail[0]);
            if walked.1.len() == 0 || walked.2 >= walked.1.len() - 1 {
                assert(tail[0].len() == 0);
            } else {
                lemma_spec_walk_shape(walked.1, walked.2, distances.drop_first()[0]);
                let second = spec_walk(walked.1, walked.2, distances.drop_first()[0]);
                assert(tail =~= seq![second.0] + spec_slices(
                    second.1,
                    second.2,
                    distances.drop_first().drop_first(),
                ));
                assert(second.0[0] == walked.1[walked.2]);
            }
        } else {
            assert(slices[j] == tail[j - 1] && slices[j + 1] == tail[j]);
            lemma_slices_chain(walked.1, walked.2, distances.drop_first(), j - 1);
        }
    }
}

/// One slice per requested distance.
pub proof fn lemma_spec_slices_len(g: Seq<Coordinate>, i: int, distances: Seq<int>)
    ensures
        spec_slices(g, i, distances).len() == distances.len(),
    decreases distances.len(),
{
    if distances.len() > 0 {
        if g.len() == 0 || i >= g.len() - 1 {
            lemma_spec_slices_len(g, i, distances.drop_first());
        } else {
            let walked = spec_walk(g, i, distances[0]);
            lemma_spec_slices_len(walked.1, walked.2, distances.drop_first());
        }
    }
}

pub struct HaversineSegmenter {
    /// The geometry being consumed; on an interpolating cut the cursor
    /// vertex is overwritten with the cut point, so the next call starts
    /// exactly there.
    pub geometry: Vec<Coordinate>,
    /// The vertex the cursor stands on.
    pub next_index: usize,
}

impl HaversineSegmenter {
    /// The cursor stands on a vertex, and every vertex lies on the globe.
    pub open spec fn wf(self) -> bool {
        &&& valid_geometry(self.geometry@)
        &&& if self.geometry@.len() == 0 {
            self.next_index == 0
        } else {
            self.next_index < self.geometry@.len()
        }
    }

    pub fn new(geometry: Vec<Coordinate>) -> (r: Self)
        requires
            valid_geometry(geometry@),
        ensures
            r.geometry == geometry,
            r.next_index == 0,
            r.wf(),
    {
        Self { geometry, next_index: 0 }
    }

    /// Consumes up to `distance_mm` of great-circle length starting at the
    /// cursor and returns the consumed sub-sequence, exactly as `spec_walk`
    /// describes.
    ///
    /// The contract also carries the reconstruction reading directly: a
    /// returned sub-sequence starts at the cursor point (so consecutive
    /// calls share their endpoint), all its points but the last are
    /// consecutive original vertices, and a request beyond the remaining
    /// length returns exactly the remainder, after which every later call
    /// returns nothing.
    #[verifier::loop_isolation(false)]
    #[verifier::rlimit(80)]
    pub fn next_segment(&mut self, distance_mm: u64) -> (r: Option<Vec<Coordinate>>)
        requires
            old(self).wf(),
        ensures
            final(self).wf(),
            final(self).geometry@.len() == old(self).geometry@.len(),
            r is None <==> (old(self).geometry@.len() == 0 || old(self).next_index
                == old(self).geometry@.len() - 1),
            r is None ==> *final(self) == *old(self),
            r is Some ==> (r.unwrap()@, final(self).geometry@, final(self).next_index as int)
                == spec_walk(
                old(self).geometry@,
                old(self).next_index as int,
                distance_mm as int,
            ),
            r is Some ==> ({
                let seg = r.unwrap()@;
                let g = old(self).geometry@;
                let g2 = final(self).geometry@;
                let i0 = old(self).next_index as int;
                let i2 = final(self).next_index as int;
                &&& 2 <= seg.len()
                &&& seg[0] == g[i0]
                &&& forall|j: int| 0 <= j < seg.len() - 1 ==> seg[j] == g[i0 + j]
                &&& seg.last() == g2[i2]
                &&& i0 <= i2 < g.len()
                &&& (i2 == i0 + seg.len() - 2 || i2 == i0 + seg.len() - 1)
                &&& forall|j: int| 0 <= j < g.len() && j != i2 ==> g2[j] == g[j]
                &&& valid_geometry(seg)
                &&& (path_dist_mm(g, i0, g.len() - 1) <= distance_mm ==> (seg
                    =~= g.subrange(i0, g.len() as int) && i2 == g.len() - 1 && g2 =~= g))
            }),
    {
        if self.geometry.len() == 0 {
            return None;
        }
        if self.next_index == self.geometry.len() - 1 {
            return None;
        }
        let ghost g = self.geometry@;
        let ghost i0 = self.next_index as int;
        let ghost walked = spec_walk(g, i0, distance_mm as int);
        let mut remaining = distance_mm;
        let mut start = self.geometry[self.next_index];
        let mut output: Vec<Coordinate> = Vec::new();
        output.push(start);
        let mut interpolated = false;
        proof {
            assert(output@ =~= g.subrange(i0, i0 + 1));
            assert(output@.drop_last() =~= Seq::<Coordinate>::empty());
            assert(Seq::<Coordinate>::empty() + spec_walk(g, i0, distance_mm as int).0
                =~= spec_walk(g, i0, distance_mm as int).0);
        }
        while self.next_index < self.geometry.len() - 1 && !interpolated
            invariant
                self.geometry@.len() == g.len() > 1,
                valid_geometry(self.geometry@),
                i0 <= self.next_index < g.len(),
                valid_geometry(output@),
                !interpolated ==> {
                    &&& self.geometry@ =~= g
                    &&& output@ =~= g.subrange(i0, self.next_index + 1)
                    &&& start == g[self.next_index as int]
                    &&& remaining == distance_mm - path_dist_mm(g, i0, self.next_index as int)
                    &&& path_dist_mm(g, i0, self.next_index as int) <= distance_mm
                },
                !interpolated && self.next_index < g.len() - 1 ==> {
                    let rest = spec_walk(g, self.next_index as int, remaining as int);
                    &&& walked.0 == output@.drop_last() + rest.0
                    &&& walked.1 == rest.1
                    &&& walked.2 == rest.2
                },
                (interpolated || self.next_index == g.len() - 1) ==> walked == (
                    output@,
                    self.geometry@,
                    self.next_index as int,
                ),
                interpolated ==> {
                    let i2 = self.next_index as int;
                    &&& 2 <= output@.len()
                    &&& output@[0] == g[i0]
                    &&& (forall|j: int| 0 <= j < output@.len() - 1 ==> output@[j] == g[i0 + j])
                    &&& output@.last() == self.geometry@[i2]
                    &&& i0 <= i2 < g.len()
                    &&& (i2 == i0 + output@.len() - 2 || i2 == i0 + output@.len() - 1)
                    &&& (forall|j: int|
                        0 <= j < g.len() && j != i2 ==> self.geometry@[j] == g[j])
                    &&& path_dist_mm(g, i0, g.len() - 1) > distance_mm
                },
            decreases g.len() - self.next_index, (if interpolated { 0int } else { 1int }),
        {
            let ghost entry_idx = self.next_index as int;
            let ghost entry_output = output@;
            let ghost entry_remaining = remaining as int;
            let end = self.geometry[self.next_index + 1];
            proof {
                assert(self.geometry@ == g);
                assert(end == g[entry_idx + 1]);
                assert(entry_output == g.subrange(i0, entry_idx + 1));
                assert(entry_output.last() == g[entry_idx]);
                assert(entry_output.drop_last() + seq![g[entry_idx]] =~= entry_output);
            }
            let segment_length = haversine_mm(start, end);
            if segment_length > remaining {
                // take whatever portion of the segment fits
                let intermediate = point_between(start, end, remaining, segment_length);
                output.push(intermediate);
                proof {
                    lemma_path_dist_step(g, i0, entry_idx + 1);
                    lemma_path_dist_suffix_bound(g, i0, g.len() - 1);
                    assert(output@ =~= entry_output + seq![intermediate]);
                    assert(spec_walk(g, entry_idx, entry_remaining).0 =~= seq![
                        g[entry_idx],
                        intermediate,
                    ]);
                    assert(entry_output.drop_last() + seq![g[entry_idx], intermediate]
                        =~= output@);
                }
                if self.geometry[self.next_index] == intermediate {
                    // an interpolation that lands exactly on the cursor point
                    // would stall; skip one vertex instead
                    self.next_index = self.next_index + 1;
                }
                let idx = self.next_index;
                self.geometry[idx] = intermediate;
                interpolated = true;
                proof {
                    assert(self.geometry@ =~= g.update(idx as int, intermediate));
                }
            } else {
                output.push(end);
                remaining = remaining - segment_length;
                start = end;
                self.next_index = self.next_index + 1;
                proof {
                    lemma_path_dist_step(g, i0, self.next_index as int);
                    assert(output@ == entry_output.push(end));
                    assert(entry_idx + 2 <= g.len());
                    lemma_subrange_push(g, i0, entry_idx + 1);
                    assert(output@ =~= g.subrange(i0, entry_idx + 2));
                    if self.next_index < g.len() - 1 {
                        // one more whole segment was consumed: peel it off
                        // the walk
                        let rest = spec_walk(g, self.next_index as int, remaining as int);
                        assert(spec_walk(g, entry_idx, entry_remaining).0 =~= seq![g[entry_idx]]
                            + rest.0);
                        assert(output@.drop_last() =~= entry_output);
                        assert(entry_output.drop_last() + (seq![g[entry_idx]] + rest.0)
                            =~= output@.drop_last() + rest.0);
                    } else {
                        // the walk ends at the final vertex
                        assert(spec_walk(g, entry_idx, entry_remaining) == (
                            seq![g[entry_idx], end],
                            g,
                            entry_idx + 1,
                        ));
                        assert(entry_output.drop_last() + seq![g[entry_idx], end] =~= output@);
                    }
                }
            }
        }
        proof {
            if !interpolated {
                assert(self.next_index == g.len() - 1);
                lemma_path_dist_suffix_bound(g, g.len() - 1, g.len() - 1);
            }
        }
        Some(output)
    }
}

/// Appending the next vertex extends a subrange by one.
proof fn lemma_subrange_push(g: Seq<Coordinate>, i: int, j: int)
    requires
        0 <= i <= j < g.len(),
    ensures
        g.subrange(i, j).push(g[j]) =~= g.subrange(i, j + 1),
{
}

/// Splitting one segment off the end of a path.
proof fn lemma_path_dist_step(g: Seq<Coordinate>, i: int, j: int)
    requires
        i < j,
    ensures
        path_dist_mm(g, i, j) == path_dist_mm(g, i, j - 1) + spec_haversine_mm(g[j - 1], g[j]),
{
}

/// A path length is no less than the length of any of its prefixes.
proof fn lemma_path_dist_suffix_bound(g: Seq<Coordinate>, i: int, j: int)
    requires
        i <= j,
    ensures
        path_dist_mm(g, i, j) >= 0,
        forall|k: int| i <= k <= j ==> #[trigger] path_dist_mm(g, i, k) <= path_dist_mm(g, i, j),
    decreases j - i,
{
    if i < j {
        lemma_path_dist_suffix_bound(g, i, j - 1);
    }
}

} // verus!
