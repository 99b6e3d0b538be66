//! Itinerary normalization: the canonical Itinerary → Leg → Maneuver tree,
//! built from either routing engine's response, with derived bounds,
//! per-maneuver geometry and substantial street names.
//!
//! Every distance of the tree is held in millionths of the itinerary's
//! declared unit, every duration in milliseconds, every coordinate in
//! millionths of a degree.

use crate::error::{Error, ErrorType};
use crate::geom::{spec_bounding_rect, spec_rect_union, valid_geometry, Coordinate, Rect};
use crate::otp_api;
use crate::util::format::{format_meters, spec_format_meters};
use crate::util::haversine_segmenter::{spec_slices, spec_walk, HaversineSegmenter};
use crate::util::{convert_from_meters, convert_to_meters, div_round, spec_from_meters, spec_to_meters};
use crate::valhalla_api;
use crate::valhalla_api::ManeuverType;
use crate::{DistanceUnit, TravelMode};
use vstd::prelude::*;

verus! {

/// A named location.
#[derive(Debug, Clone, PartialEq, Eq)]
pub struct Place {
    pub location: Coordinate,
    pub name: Option<String>,
}

/// One action taken by the traveler - a turn, an exit, a departure.
#[derive(Debug, Clone, PartialEq, Eq)]
pub struct Maneuver {
    pub instruction: Option<String>,
    /// The slice of the parent leg's geometry this maneuver covers.
    pub geometry: Vec<Coordinate>,
    /// Millionths of the itinerary's distance unit.
    pub distance_e6: u64,
    pub street_names: Option<Vec<String>>,
    pub duration_ms: u64,
    pub maneuver_type: ManeuverType,
    pub verbal_post_transition_instruction: Option<String>,
    pub start_point: Coordinate,
}

impl Maneuver {
    /// Small enough that distances can be summed and re-expressed without
    /// leaving the machine's range, with a street list no longer than any
    /// real maneuver carries.
    pub open spec fn bounded(self) -> bool {
        &&& self.distance_e6 <= 1000000000000000000
        &&& valid_geometry(self.geometry@)
        &&& match self.street_names {
            Some(names) => names@.len() <= 100,
            None => true,
        }
    }

    /// This maneuver's distance in millimeters.
    pub fn distance_meters(&self, distance_unit: DistanceUnit) -> (r: u64)
        requires
            self.bounded(),
        ensures
            r == spec_to_meters(self.distance_e6 as int, distance_unit),
    {
        convert_to_meters(self.distance_e6, distance_unit)
    }
}

pub open spec fn bounded_maneuvers(ms: Seq<Maneuver>) -> bool {
    ms.len() <= 100000 && forall|i: int| 0 <= i < ms.len() ==> (#[trigger] ms[i]).bounded()
}

/// The view of an executable score list: each street name's text paired
/// with its accumulated distance.
pub open spec fn view_scores(s: Seq<(String, u128)>) -> Seq<(Seq<char>, int)> {
    s.map_values(|p: (String, u128)| (p.0@, p.1 as int))
}

pub open spec fn view_strings(s: Seq<String>) -> Seq<Seq<char>> {
    s.map_values(|p: String| p@)
}

/// The accumulated scores after crediting one street name with a distance:
/// an existing entry grows, a new name is appended.
pub open spec fn add_score(scores: Seq<(Seq<char>, int)>, name: Seq<char>, d: int) -> Seq<
    (Seq<char>, int),
>
    decreases scores.len(),
{
    if scores.len() == 0 {
        seq![(name, d)]
    } else if scores[0].0 == name {
        seq![(scores[0].0, scores[0].1 + d)] + scores.drop_first()
    } else {
        seq![scores[0]] + add_score(scores.drop_first(), name, d)
    }
}

/// Credits every name of one maneuver's street list.
pub open spec fn add_names(scores: Seq<(Seq<char>, int)>, names: Seq<Seq<char>>, d: int) -> Seq<
    (Seq<char>, int),
>
    decreases names.len(),
{
    if names.len() == 0 {
        scores
    } else {
        add_score(add_names(scores, names.drop_last(), d), names.last(), d)
    }
}

/// The distance each street name accumulates over a maneuver sequence, in
/// first-seen order.
pub open spec fn street_scores(ms: Seq<Maneuver>) -> Seq<(Seq<char>, int)>
    decreases ms.len(),
{
    if ms.len() == 0 {
        Seq::empty()
    } else {
        let prev = street_scores(ms.drop_last());
        match ms.last().street_names {
            Some(names) => add_names(prev, view_strings(names@), ms.last().distance_e6 as int),
            None => prev,
        }
    }
}

/// A score list ordered by descending score; insertion behind equal scores
/// keeps the first-seen order of equals.
pub open spec fn insert_desc(x: (Seq<char>, int), s: Seq<(Seq<char>, int)>) -> Seq<(Seq<char>, int)>
    decreases s.len(),
{
    if s.len() == 0 {
        seq![x]
    } else if x.1 > s[0].1 {
        seq![x] + s
    } else {
        seq![s[0]] + insert_desc(x, s.drop_first())
    }
}

pub open spec fn sort_desc(s: Seq<(Seq<char>, int)>) -> Seq<(Seq<char>, int)>
    decreases s.len(),
{
    if s.len() == 0 {
        Seq::empty()
    } else {
        insert_desc(s.last(), sort_desc(s.drop_last()))
    }
}

/// Up to three names off the top of the sorted scores, dropping any whose
/// score is under half of the best one.
pub open spec fn select_substantial(sorted: Seq<(Seq<char>, int)>) -> Seq<Seq<char>> {
    if sorted.len() == 0 {
        Seq::empty()
    } else {
        let top = sorted[0].1;
        let first = seq![sorted[0].0];
        let second: Seq<Seq<char>> = if sorted.len() > 1 && 2 * sorted[1].1 > top {
            seq![sorted[1].0]
        } else {
            Seq::empty()
        };
        let third: Seq<Seq<char>> = if sorted.len() > 2 && 2 * sorted[2].1 > top {
            seq![sorted[2].0]
        } else {
            Seq::empty()
        };
        first + second + third
    }
}

/// The substantial street names of a maneuver sequence: accumulate distance
/// per street name, order by descending distance, keep at most the top
/// three, and drop any name under half the top score.
pub open spec fn spec_substantial_street_names(ms: Seq<Maneuver>) -> Seq<Seq<char>> {
    select_substantial(sort_desc(street_scores(ms)))
}

fn add_score_exec(scores: Vec<(String, u128)>, name: String, d: u64, Ghost(bound): Ghost<int>) -> (r:
    Vec<(String, u128)>)
    requires
        forall|i: int| 0 <= i < scores@.len() ==> (#[trigger] scores@[i]).1 <= bound,
        bound + d <= u128::MAX,
        0 <= bound,
    ensures
        view_scores(r@) == add_score(view_scores(scores@), name@, d as int),
        forall|i: int| 0 <= i < r@.len() ==> (#[trigger] r@[i]).1 <= bound + d,
    decreases scores@.len(),
{
    let mut scores = scores;
    if scores.len() == 0 {
        scores.push((name, d as u128));
        proof {
            assert(view_scores(scores@) =~= add_score(view_scores(Seq::empty()), name@, d as int));
        }
        scores
    } else {
        let ghost whole = scores@;
        let first = scores.remove(0);
        let ghost rest = scores@;
        proof {
            assert(view_scores(whole).drop_first() =~= view_scores(rest));
        }
        if first.0 == name {
            let updated = (first.0, first.1 + d as u128);
            scores.insert(0, updated);
            proof {
                assert(view_scores(scores@) =~= seq![
                    (view_scores(whole)[0].0, view_scores(whole)[0].1 + d),
                ] + view_scores(whole).drop_first());
            }
            scores
        } else {
            let mut r = add_score_exec(scores, name, d, Ghost(bound));
            r.insert(0, first);
            proof {
                assert(view_scores(r@) =~= seq![view_scores(whole)[0]] + add_score(
                    view_scores(rest),
                    name@,
                    d as int,
                ));
            }
            r
        }
    }
}

/// A clone of a `String` whose text is known to be the same.
pub fn clone_string_of(s: &String) -> (r: String)
    ensures
        r@ == s@,
{
    String::from_str(s.as_str())
}

fn insert_desc_exec(x: (String, u128), s: Vec<(String, u128)>) -> (r: Vec<(String, u128)>)
    ensures
        view_scores(r@) == insert_desc((x.0@, x.1 as int), view_scores(s@)),
    decreases s@.len(),
{
    let mut s = s;
    if s.len() == 0 {
        s.push(x);
        proof {
            assert(view_scores(s@) =~= insert_desc((x.0@, x.1 as int), view_scores(Seq::empty())));
        }
        s
    } else if x.1 > s[0].1 {
        let ghost whole = s@;
        s.insert(0, x);
        proof {
            assert(view_scores(s@) =~= seq![(x.0@, x.1 as int)] + view_scores(whole));
        }
        s
    } else {
        let ghost whole = s@;
        let first = s.remove(0);
        let ghost rest = s@;
        proof {
            assert(view_scores(whole).drop_first() =~= view_scores(rest));
        }
        let mut r = insert_desc_exec(x, s);
        let ghost inserted = r@;
        r.insert(0, first);
        proof {
            assert(view_scores(r@) =~= seq![view_scores(whole)[0]] + view_scores(inserted));
            assert(view_scores(r@) =~= insert_desc((x.0@, x.1 as int), view_scores(whole)));
        }
        r
    }
}

fn sort_desc_exec(s: Vec<(String, u128)>) -> (r: Vec<(String, u128)>)
    ensures
        view_scores(r@) == sort_desc(view_scores(s@)),
    decreases s@.len(),
{
    let mut s = s;
    if s.len() == 0 {
        proof {
            assert(view_scores(s@) =~= sort_desc(view_scores(s@)));
        }
        s
    } else {
        let ghost whole = s@;
        let last = s.pop().unwrap();
        proof {
            assert(s@ =~= whole.drop_last());
            assert(view_scores(s@) =~= view_scores(whole).drop_last());
            assert((last.0@, last.1 as int) == view_scores(whole).last());
        }
        let sorted = sort_desc_exec(s);
        insert_desc_exec(last, sorted)
    }
}

/// Accumulates the street scores of a maneuver sequence, in first-seen
/// order.
#[verifier::loop_isolation(false)]
fn street_scores_exec(maneuvers: &Vec<Maneuver>) -> (r: Vec<(String, u128)>)
    requires
        bounded_maneuvers(maneuvers@),
    ensures
        view_scores(r@) == street_scores(maneuvers@),
        forall|i: int|
            0 <= i < r@.len() ==> (#[trigger] r@[i]).1 <= 10000000000000000000000000,
{
    let mut scores: Vec<(String, u128)> = Vec::new();
    let mut i: usize = 0;
    proof {
        assert(street_scores(maneuvers@.subrange(0, 0)) =~= Seq::empty());
        assert(view_scores(scores@) =~= Seq::empty());
    }
    while i < maneuvers.len()
        invariant
            i <= maneuvers@.len(),
            view_scores(scores@) == street_scores(maneuvers@.subrange(0, i as int)),
            forall|j: int|
                0 <= j < scores@.len() ==> (#[trigger] scores@[j]).1 <= (i as int) * 100
                    * 1000000000000000000,
        decreases maneuvers@.len() - i,
    {
        let ghost prefix = maneuvers@.subrange(0, i as int);
        let m = &maneuvers[i];
        proof {
            assert(maneuvers@[i as int].bounded());
            assert(maneuvers@.subrange(0, i + 1).drop_last() =~= prefix);
            assert(maneuvers@.subrange(0, i + 1).last() == maneuvers@[i as int]);
        }
        match &m.street_names {
            Some(names) => {
                let d = m.distance_e6;
                let mut k: usize = 0;
                let ghost names0 = view_strings(names@);
                proof {
                    assert(names0.subrange(0, 0) =~= Seq::<Seq<char>>::empty());
                }
                while k < names.len()
                    invariant
                        k <= names0.len() == names@.len(),
                        view_scores(scores@) == add_names(
                            street_scores(prefix),
                            names0.subrange(0, k as int),
                            d as int,
                        ),
                        forall|j: int|
                            0 <= j < scores@.len() ==> (#[trigger] scores@[j]).1 <= ((i as int)
                                * 100 + k as int) * 1000000000000000000,
                    decreases names0.len() - k,
                {
                    let name = clone_string_of(&names[k]);
                    proof {
                        assert(names0.subrange(0, k + 1).drop_last() =~= names0.subrange(
                            0,
                            k as int,
                        ));
                        assert(names0.subrange(0, k + 1).last() == names0[k as int]);
                        assert(name@ == names0[k as int]);
                        assert(((i as int) * 100 + k as int) * 1000000000000000000
                            + 1000000000000000000 <= u128::MAX && (((i as int) * 100 + k as int)
                            * 1000000000000000000 + 1000000000000000000) == ((i as int) * 100 + (
                        k as int + 1)) * 1000000000000000000 && ((i as int) * 100 + (k as int + 1))
                            * 1000000000000000000 <= ((i as int + 1) * 100)
                            * 1000000000000000000) by (nonlinear_arith)
                            requires
                                0 <= i < 100000,
                                0 <= k < names0.len() <= 100,
                        ;
                    }
                    scores = add_score_exec(
                        scores,
                        name,
                        d,
                        Ghost(((i as int) * 100 + k as int) * 1000000000000000000),
                    );
                    k = k + 1;
                }
                proof {
                    assert(names0.subrange(0, names0.len() as int) =~= names0);
                }
            },
            None => {
            },
        }
        i = i + 1;
        proof {
            assert(view_scores(scores@) == street_scores(maneuvers@.subrange(0, i as int)));
            assert(forall|j: int|
                0 <= j < scores@.len() ==> (#[trigger] scores@[j]).1 <= (i as int) * 100
                    * 1000000000000000000) by (nonlinear_arith)
                requires
                    0 < i <= 100000,
                    forall|j: int|
                        0 <= j < scores@.len() ==> (#[trigger] scores@[j]).1 <= ((i as int - 1)
                            * 100 + 100) * 1000000000000000000,
            ;
        }
    }
    proof {
        assert(maneuvers@.subrange(0, maneuvers@.len() as int) =~= maneuvers@);
        assert(forall|j: int|
            0 <= j < scores@.len() ==> (#[trigger] scores@[j]).1 <= 10000000000000000000000000)
            by (nonlinear_arith)
            requires
                i <= 100000,
                forall|j: int|
                    0 <= j < scores@.len() ==> (#[trigger] scores@[j]).1 <= (i as int) * 100
                        * 1000000000000000000,
        ;
    }
    scores
}

/// The substantial street names along a maneuver sequence: the roads it
/// spends real distance on, as a short leg summary.
pub fn substantial_street_names(maneuvers: &Vec<Maneuver>) -> (r: Vec<String>)
    requires
        bounded_maneuvers(maneuvers@),
    ensures
        view_strings(r@) == spec_substantial_street_names(maneuvers@),
        r@.len() <= 3,
{
    let scores = street_scores_exec(maneuvers);
    let sorted = sort_desc_exec(scores);
    let ghost sv = sort_desc(street_scores(maneuvers@));
    let mut names: Vec<String> = Vec::new();
    if sorted.len() == 0 {
        proof {
            assert(view_strings(names@) =~= spec_substantial_street_names(maneuvers@));
        }
        return names;
    }
    let top = sorted[0].1;
    let half = top / 2;
    proof {
        assert(top as int == sv[0].1);
        assert(top == 2 * half + top % 2 && top % 2 < 2);
    }
    names.push(clone_string_of(&sorted[0].0));
    if sorted.len() > 1 && sorted[1].1 > half {
        names.push(clone_string_of(&sorted[1].0));
    }
    if sorted.len() > 2 && sorted[2].1 > half {
        names.push(clone_string_of(&sorted[2].0));
    }
    proof {
        if sv.len() > 1 {
            assert(sorted@[1].1 as int == sv[1].1);
            assert((sorted@[1].1 > half) == (2 * sv[1].1 > sv[0].1));
        }
        if sv.len() > 2 {
            assert(sorted@[2].1 as int == sv[2].1);
            assert((sorted@[2].1 > half) == (2 * sv[2].1 > sv[0].1));
        }
        assert(view_strings(names@) =~= spec_substantial_street_names(maneuvers@));
    }
    names
}

/// Clones a list of street names, text for text.
pub fn clone_strings(names: &Vec<String>) -> (r: Vec<String>)
    ensures
        view_strings(r@) == view_strings(names@),
        r@.len() == names@.len(),
{
    let mut r: Vec<String> = Vec::new();
    let mut i: usize = 0;
    while i < names.len()
        invariant
            i <= names@.len(),
            r@.len() == i,
            forall|j: int| 0 <= j < i ==> (#[trigger] r@[j])@ == names@[j]@,
        decreases names@.len() - i,
    {
        r.push(clone_string_of(&names[i]));
        i = i + 1;
    }
    proof {
        assert(view_strings(r@) =~= view_strings(names@));
    }
    r
}

/// Copies a slice of a geometry.
fn slice_geometry(geometry: &Vec<Coordinate>, from: usize, to: usize) -> (r: Vec<Coordinate>)
    requires
        from <= to <= geometry@.len(),
    ensures
        r@ == geometry@.subrange(from as int, to as int),
{
    let mut r: Vec<Coordinate> = Vec::new();
    let mut i: usize = from;
    while i < to
        invariant
            from <= i <= to <= geometry@.len(),
            r@ == geometry@.subrange(from as int, i as int),
        decreases to - i,
    {
        r.push(geometry[i]);
        i = i + 1;
        proof {
            assert(r@ =~= geometry@.subrange(from as int, i as int));
        }
    }
    r
}

/// The text of a compass direction, as spoken in an instruction.
pub open spec fn spec_direction_text(d: otp_api::AbsoluteDirection) -> Seq<char> {
    match d {
        otp_api::AbsoluteDirection::North => "north"@,
        otp_api::AbsoluteDirection::Northeast => "northeast"@,
        otp_api::AbsoluteDirection::East => "east"@,
        otp_api::AbsoluteDirection::Southeast => "southeast"@,
        otp_api::AbsoluteDirection::South => "south"@,
        otp_api::AbsoluteDirection::Southwest => "southwest"@,
        otp_api::AbsoluteDirection::West => "west"@,
        otp_api::AbsoluteDirection::Northwest => "northwest"@,
    }
}

fn direction_text(d: otp_api::AbsoluteDirection) -> (r: &'static str)
    ensures
        r@ == spec_direction_text(d),
{
    match d {
        otp_api::AbsoluteDirection::North => "north",
        otp_api::AbsoluteDirection::Northeast => "northeast",
        otp_api::AbsoluteDirection::East => "east",
        otp_api::AbsoluteDirection::Southeast => "southeast",
        otp_api::AbsoluteDirection::South => "south",
        otp_api::AbsoluteDirection::Southwest => "southwest",
        otp_api::AbsoluteDirection::West => "west",
        otp_api::AbsoluteDirection::Northwest => "northwest",
    }
}

/// The verb a departure instruction opens with, by mode.
pub open spec fn spec_mode_verb(mode: otp_api::TransitMode) -> Seq<char> {
    match mode {
        otp_api::TransitMode::Walk => "Walk"@,
        otp_api::TransitMode::Bicycle => "Bike"@,
        otp_api::TransitMode::Car => "Drive"@,
        _ => "Transit"@,
    }
}

fn mode_verb(mode: otp_api::TransitMode) -> (r: &'static str)
    ensures
        r@ == spec_mode_verb(mode),
{
    match mode {
        otp_api::TransitMode::Walk => "Walk",
        otp_api::TransitMode::Bicycle => "Bike",
        otp_api::TransitMode::Car => "Drive",
        _ => "Transit",
    }
}

/// The natural-language instruction of one transit-engine step: a pure
/// function of mode, relative direction, compass direction and street name.
pub open spec fn spec_maneuver_instruction(
    mode: otp_api::TransitMode,
    maneuver_type: otp_api::RelativeDirection,
    absolute_direction: Option<otp_api::AbsoluteDirection>,
    street_name: Seq<char>,
) -> Option<Seq<char>> {
    match maneuver_type {
        otp_api::RelativeDirection::Depart => match absolute_direction {
            Some(d) => Some(
                spec_mode_verb(mode) + " "@ + spec_direction_text(d) + " on "@ + street_name
                    + "."@,
            ),
            None => Some("Depart."@),
        },
        otp_api::RelativeDirection::HardLeft => Some(
            "Turn sharp left onto "@ + street_name + "."@,
        ),
        otp_api::RelativeDirection::Left => Some("Turn left onto "@ + street_name + "."@),
        otp_api::RelativeDirection::SlightlyLeft => Some(
            "Turn slightly left onto "@ + street_name + "."@,
        ),
        otp_api::RelativeDirection::Continue => Some("Continue onto "@ + street_name + "."@),
        otp_api::RelativeDirection::SlightlyRight => Some(
            "Turn slightly right onto "@ + street_name + "."@,
        ),
        otp_api::RelativeDirection::Right => Some("Turn right onto "@ + street_name + "."@),
        otp_api::RelativeDirection::HardRight => Some(
            "Turn sharp right onto "@ + street_name + "."@,
        ),
        otp_api::RelativeDirection::CircleClockwise
        | otp_api::RelativeDirection::CircleCounterclockwise => Some("Enter the roundabout."@),
        otp_api::RelativeDirection::Elevator => Some("Enter the elevator."@),
        otp_api::RelativeDirection::UturnLeft | otp_api::RelativeDirection::UturnRight => Some(
            "Make a U-turn."@,
        ),
    }
}

/// Writes the natural-language description of one transit-engine maneuver.
pub fn maneuver_instruction(
    mode: otp_api::TransitMode,
    maneuver_type: otp_api::RelativeDirection,
    absolute_direction: Option<otp_api::AbsoluteDirection>,
    street_name: &str,
) -> (r: Option<String>)
    ensures
        match spec_maneuver_instruction(mode, maneuver_type, absolute_direction, street_name@) {
            Some(text) => r is Some && r.unwrap()@ == text,
            None => r is None,
        },
{
    match maneuver_type {
        otp_api::RelativeDirection::Depart => {
            if let Some(d) = absolute_direction {
                let mut s = String::from_str(mode_verb(mode));
                s.append(" ");
                s.append(direction_text(d));
                s.append(" on ");
                s.append(street_name);
                s.append(".");
                Some(s)
            } else {
                Some(String::from_str("Depart."))
            }
        },
        otp_api::RelativeDirection::HardLeft => {
            let mut s = String::from_str("Turn sharp left onto ");
            s.append(street_name);
            s.append(".");
            Some(s)
        },
        otp_api::RelativeDirection::Left => {
            let mut s = String::from_str("Turn left onto ");
            s.append(street_name);
            s.append(".");
            Some(s)
        },
        otp_api::RelativeDirection::SlightlyLeft => {
            let mut s = String::from_str("Turn slightly left onto ");
            s.append(street_name);
            s.append(".");
            Some(s)
        },
        otp_api::RelativeDirection::Continue => {
            let mut s = String::from_str("Continue onto ");
            s.append(street_name);
            s.append(".");
            Some(s)
        },
        otp_api::RelativeDirection::SlightlyRight => {
            let mut s = String::from_str("Turn slightly right onto ");
            s.append(street_name);
            s.append(".");
            Some(s)
        },
        otp_api::RelativeDirection::Right => {
            let mut s = String::from_str("Turn right onto ");
            s.append(street_name);
            s.append(".");
            Some(s)
        },
        otp_api::RelativeDirection::HardRight => {
            let mut s = String::from_str("Turn sharp right onto ");
            s.append(street_name);
            s.append(".");
            Some(s)
        },
        otp_api::RelativeDirection::CircleClockwise
        | otp_api::RelativeDirection::CircleCounterclockwise => Some(
            String::from_str("Enter the roundabout."),
        ),
        otp_api::RelativeDirection::Elevator => Some(String::from_str("Enter the elevator.")),
        otp_api::RelativeDirection::UturnLeft | otp_api::RelativeDirection::UturnRight => Some(
            String::from_str("Make a U-turn."),
        ),
    }
}

/// The spoken post-transition text: how far to continue after the maneuver.
/// A zero-length maneuver gets none.
pub open spec fn spec_verbal_post_transition(distance_mm: int, unit: DistanceUnit) -> Option<
    Seq<char>,
> {
    if distance_mm == 0 {
        None
    } else {
        Some(
            "Continue for "@ + spec_format_meters(distance_mm, unit.spec_measurement_system())
                + "."@,
        )
    }
}

pub fn build_verbal_post_transition_instruction(distance_mm: u64, distance_unit: DistanceUnit) -> (r:
    Option<String>)
    requires
        distance_mm <= 1000000000000000,
    ensures
        match spec_verbal_post_transition(distance_mm as int, distance_unit) {
            Some(text) => r is Some && r.unwrap()@ == text,
            None => r is None,
        },
{
    if distance_mm == 0 {
        None
    } else {
        let mut s = String::from_str("Continue for ");
        let formatted = format_meters(distance_mm, distance_unit.measurement_system());
        s.append(formatted.as_str());
        s.append(".");
        Some(s)
    }
}

/// The internal maneuver type a transit-engine relative direction maps to;
/// the mapping is total over the upstream vocabulary.
pub open spec fn spec_maneuver_type_of(d: otp_api::RelativeDirection) -> ManeuverType {
    match d {
        otp_api::RelativeDirection::Depart => ManeuverType::Start,
        otp_api::RelativeDirection::HardLeft => ManeuverType::SharpLeft,
        otp_api::RelativeDirection::Left => ManeuverType::Left,
        otp_api::RelativeDirection::SlightlyLeft => ManeuverType::SlightLeft,
        otp_api::RelativeDirection::Continue => ManeuverType::Continue,
        otp_api::RelativeDirection::SlightlyRight => ManeuverType::SlightRight,
        otp_api::RelativeDirection::Right => ManeuverType::Right,
        otp_api::RelativeDirection::HardRight => ManeuverType::SharpRight,
        otp_api::RelativeDirection::CircleClockwise => ManeuverType::RoundaboutEnter,
        otp_api::RelativeDirection::CircleCounterclockwise => ManeuverType::RoundaboutEnter,
        otp_api::RelativeDirection::Elevator => ManeuverType::ElevatorEnter,
        otp_api::RelativeDirection::UturnLeft => ManeuverType::UturnLeft,
        otp_api::RelativeDirection::UturnRight => ManeuverType::UturnRight,
    }
}

pub fn maneuver_type_from_relative_direction(d: otp_api::RelativeDirection) -> (r: ManeuverType)
    ensures
        r == spec_maneuver_type_of(d),
{
    match d {
        otp_api::RelativeDirection::Depart => ManeuverType::Start,
        otp_api::RelativeDirection::HardLeft => ManeuverType::SharpLeft,
        otp_api::RelativeDirection::Left => ManeuverType::Left,
        otp_api::RelativeDirection::SlightlyLeft => ManeuverType::SlightLeft,
        otp_api::RelativeDirection::Continue => ManeuverType::Continue,
        otp_api::RelativeDirection::SlightlyRight => ManeuverType::SlightRight,
        otp_api::RelativeDirection::Right => ManeuverType::Right,
        otp_api::RelativeDirection::HardRight => ManeuverType::SharpRight,
        otp_api::RelativeDirection::CircleClockwise => ManeuverType::RoundaboutEnter,
        otp_api::RelativeDirection::CircleCounterclockwise => ManeuverType::RoundaboutEnter,
        otp_api::RelativeDirection::Elevator => ManeuverType::ElevatorEnter,
        otp_api::RelativeDirection::UturnLeft => ManeuverType::UturnLeft,
        otp_api::RelativeDirection::UturnRight => ManeuverType::UturnRight,
    }
}

/// The payload that distinguishes a transit leg from a maneuver leg.
#[derive(Debug, Clone, PartialEq, Eq)]
pub enum ModeLeg {
    /// An opaque pass-through of the transit engine's leg record, never
    /// decomposed into maneuvers.
    Transit(Box<otp_api::Leg>),
    NonTransit(Box<NonTransitLeg>),
}

/// A leg the traveler moves through under their own power: its maneuvers
/// and a short summary of the substantial roads along it.
#[derive(Debug, Clone, PartialEq, Eq)]
pub struct NonTransitLeg {
    pub maneuvers: Vec<Maneuver>,
    /// The substantial road names along the route.
    pub substantial_street_names: Vec<String>,
}

impl NonTransitLeg {
    pub fn new(maneuvers: Vec<Maneuver>) -> (r: Self)
        requires
            bounded_maneuvers(maneuvers@),
        ensures
            r.maneuvers == maneuvers,
            view_strings(r.substantial_street_names@) == spec_substantial_street_names(
                maneuvers@,
            ),
            r.substantial_street_names@.len() <= 3,
    {
        let substantial = substantial_street_names(&maneuvers);
        Self { maneuvers, substantial_street_names: substantial }
    }
}

/// One mode-homogeneous segment of an itinerary.
#[derive(Debug, Clone, PartialEq, Eq)]
pub struct Leg {
    /// The leg's geometry at canonical precision.
    pub geometry: Vec<Coordinate>,
    pub mode: TravelMode,
    pub mode_leg: ModeLeg,
    pub from_place: Place,
    pub to_place: Place,
    /// Epoch milliseconds.
    pub start_time: u64,
    /// Epoch milliseconds.
    pub end_time: u64,
    /// Millionths of the itinerary's distance unit.
    pub distance_e6: u64,
    pub duration_ms: u64,
}

impl Leg {
    pub open spec fn bounded(self) -> bool {
        &&& valid_geometry(self.geometry@)
        &&& self.distance_e6 <= 1000000000000000000
        &&& match self.mode_leg {
            ModeLeg::NonTransit(leg) => bounded_maneuvers(leg.maneuvers@),
            ModeLeg::Transit(_) => true,
        }
    }

    /// The bounding rectangle of the leg's geometry, defined whenever the
    /// geometry is non-empty.
    pub fn bounding_rect(&self) -> (r: Option<Rect>)
        ensures
            r is Some <==> self.geometry@.len() > 0,
            self.geometry@.len() > 0 ==> r == Some(spec_bounding_rect(self.geometry@)),
    {
        crate::geom::bounding_rect(&self.geometry)
    }

    /// This leg's distance in millimeters.
    pub fn distance_meters(&self, itinerary_units: DistanceUnit) -> (r: u64)
        requires
            self.bounded(),
        ensures
            r == spec_to_meters(self.distance_e6 as int, itinerary_units),
    {
        convert_to_meters(self.distance_e6, itinerary_units)
    }
}

/// How long a step lasts: its share, by distance, of the whole leg's
/// duration, capped at the machine range.
pub open spec fn spec_step_duration_ms(step_mm: int, leg_duration_ms: int, leg_mm: int) -> int {
    if leg_mm == 0 {
        0
    } else if step_mm * leg_duration_ms / leg_mm > u64::MAX {
        u64::MAX as int
    } else {
        step_mm * leg_duration_ms / leg_mm
    }
}

fn step_duration_ms(step_mm: u64, leg_duration_ms: u64, leg_mm: u64) -> (r: u64)
    ensures
        r == spec_step_duration_ms(step_mm as int, leg_duration_ms as int, leg_mm as int),
{
    if leg_mm == 0 {
        return 0;
    }
    proof {
        assert((step_mm as int) * (leg_duration_ms as int) <= (u64::MAX as int) * (
        u64::MAX as int) && (u64::MAX as int) * (u64::MAX as int) < u128::MAX)
            by (nonlinear_arith)
            requires
                step_mm <= u64::MAX,
                leg_duration_ms <= u64::MAX,
        ;
    }
    let q: u128 = (step_mm as u128) * (leg_duration_ms as u128) / (leg_mm as u128);
    if q > u64::MAX as u128 {
        u64::MAX
    } else {
        q as u64
    }
}

/// A re-expressed distance is at most a thousand times its millimeter
/// count, so every conversion of a sane distance stays in machine range.
pub proof fn lemma_from_meters_bound(mm: int, unit: DistanceUnit)
    requires
        0 <= mm,
    ensures
        0 <= spec_from_meters(mm, unit) <= 1000 * mm + 1,
{
    match unit {
        DistanceUnit::Meters => {
        },
        DistanceUnit::Kilometers => {
        },
        DistanceUnit::Miles => {
            assert(0 <= div_round(mm * 50000, 80467) <= 1000 * mm + 1) by (nonlinear_arith)
                requires
                    mm >= 0,
                    div_round(mm * 50000, 80467) == (2 * (mm * 50000) + 80467) / (2 * 80467int),
            ;
        },
    }
}

/// What the canonical maneuver built from one road-engine maneuver holds:
/// the upstream instruction and street names, the geometry slice between
/// the upstream shape indices, and the upstream measures.
pub open spec fn valhalla_maneuver_matches(
    m: Maneuver,
    v: valhalla_api::Maneuver,
    leg_geometry: Seq<Coordinate>,
) -> bool {
    &&& m.instruction is Some && m.instruction.unwrap()@ == v.instruction@
    &&& m.geometry@ == leg_geometry.subrange(
        v.begin_shape_index as int,
        v.end_shape_index + 1,
    )
    &&& m.distance_e6 == v.length_milli * 1000
    &&& (match v.street_names {
        Some(names) => m.street_names is Some && view_strings(m.street_names.unwrap()@)
            == view_strings(names@),
        None => m.street_names is None,
    })
    &&& m.duration_ms == v.time_ms
    &&& m.maneuver_type == v.maneuver_type
    &&& (match v.verbal_post_transition_instruction {
        Some(text) => m.verbal_post_transition_instruction is Some
            && m.verbal_post_transition_instruction.unwrap()@ == text@,
        None => m.verbal_post_transition_instruction is None,
    })
    &&& m.start_point == leg_geometry[v.begin_shape_index as int]
}

/// What the canonical maneuver built from one transit-engine step holds:
/// synthesized instruction, mapped maneuver type, the step's street name
/// (unless synthetic), spoken distance text, converted distance, and the
/// step's share of the leg's duration.
pub open spec fn otp_maneuver_matches(
    m: Maneuver,
    step: otp_api::Step,
    mode: otp_api::TransitMode,
    leg_duration_ms: int,
    leg_mm: int,
    unit: DistanceUnit,
) -> bool {
    &&& match spec_maneuver_instruction(
        mode,
        step.relative_direction,
        step.absolute_direction,
        step.street_name@,
    ) {
        Some(text) => m.instruction is Some && m.instruction.unwrap()@ == text,
        None => m.instruction is None,
    }
    &&& m.maneuver_type == spec_maneuver_type_of(step.relative_direction)
    &&& (match step.bogus_name {
        Some(true) => m.street_names is None,
        _ => m.street_names is Some && view_strings(m.street_names.unwrap()@) == seq![
            step.street_name@,
        ],
    })
    &&& match spec_verbal_post_transition(step.distance_mm as int, unit) {
        Some(text) => m.verbal_post_transition_instruction is Some
            && m.verbal_post_transition_instruction.unwrap()@ == text,
        None => m.verbal_post_transition_instruction is None,
    }
    &&& m.distance_e6 == spec_from_meters(step.distance_mm as int, unit)
    &&& m.duration_ms == spec_step_duration_ms(step.distance_mm as int, leg_duration_ms, leg_mm)
    &&& m.start_point == step.point
}

impl Maneuver {
    /// The canonical maneuver of one transit-engine step, over the geometry
    /// slice the segmenter allotted to it.
    pub fn from_otp(
        step: &otp_api::Step,
        geometry: Vec<Coordinate>,
        mode: otp_api::TransitMode,
        leg_duration_ms: u64,
        leg_mm: u64,
        distance_unit: DistanceUnit,
    ) -> (r: Maneuver)
        requires
            step.wf(),
            valid_geometry(geometry@),
        ensures
            otp_maneuver_matches(
                r,
                *step,
                mode,
                leg_duration_ms as int,
                leg_mm as int,
                distance_unit,
            ),
            r.geometry == geometry,
            r.bounded(),
    {
        let instruction = maneuver_instruction(
            mode,
            step.relative_direction,
            step.absolute_direction,
            step.street_name.as_str(),
        );
        let verbal_post_transition_instruction = build_verbal_post_transition_instruction(
            step.distance_mm,
            distance_unit,
        );
        let street_names = match step.bogus_name {
            Some(true) => None,
            _ => {
                let mut names: Vec<String> = Vec::new();
                names.push(clone_string_of(&step.street_name));
                proof {
                    assert(view_strings(names@) =~= seq![step.street_name@]);
                }
                Some(names)
            },
        };
        let duration_ms = step_duration_ms(step.distance_mm, leg_duration_ms, leg_mm);
        proof {
            lemma_from_meters_bound(step.distance_mm as int, distance_unit);
        }
        Maneuver {
            instruction,
            geometry,
            distance_e6: convert_from_meters(step.distance_mm, distance_unit),
            street_names,
            duration_ms,
            maneuver_type: maneuver_type_from_relative_direction(step.relative_direction),
            verbal_post_transition_instruction,
            start_point: step.point,
        }
    }

    /// The canonical maneuver of one road-engine maneuver: its geometry is
    /// the slice of the leg geometry between its shape indices.
    pub fn from_valhalla(maneuver: &valhalla_api::Maneuver, leg_geometry: &Vec<Coordinate>) -> (r:
        Maneuver)
        requires
            maneuver.wf(),
            valid_geometry(leg_geometry@),
            maneuver.begin_shape_index <= maneuver.end_shape_index,
            maneuver.end_shape_index < leg_geometry@.len(),
        ensures
            valhalla_maneuver_matches(r, *maneuver, leg_geometry@),
            r.bounded(),
    {
        let n = leg_geometry.len();
        let begin = maneuver.begin_shape_index as usize;
        let end = maneuver.end_shape_index as usize;
        proof {
            assert(begin == maneuver.begin_shape_index && end == maneuver.end_shape_index);
        }
        let geometry = slice_geometry(leg_geometry, begin, end + 1);
        proof {
            assert(forall|i: int|
                0 <= i < geometry@.len() ==> (#[trigger] geometry@[i]) == leg_geometry@[
                begin + i]);
        }
        let street_names = match &maneuver.street_names {
            Some(names) => Some(clone_strings(names)),
            None => None,
        };
        let verbal_post_transition_instruction =
            match &maneuver.verbal_post_transition_instruction {
            Some(text) => Some(clone_string_of(text)),
            None => None,
        };
        Maneuver {
            instruction: Some(clone_string_of(&maneuver.instruction)),
            geometry,
            distance_e6: maneuver.length_milli * 1000,
            street_names,
            duration_ms: maneuver.time_ms,
            maneuver_type: maneuver.maneuver_type,
            verbal_post_transition_instruction,
            start_point: leg_geometry[begin],
        }
    }
}

/// A place of the canonical tree built from a transit-engine place.
fn place_from_otp(p: &otp_api::Place) -> (r: Place)
    ensures
        r.location == p.location,
        match p.name {
            Some(n) => r.name is Some && r.name.unwrap()@ == n@,
            None => r.name is None,
        },
{
    Place {
        location: p.location,
        name: match &p.name {
            Some(n) => Some(clone_string_of(n)),
            None => None,
        },
    }
}

/// The declared distances of a leg's steps, in millimeters.
pub open spec fn step_distances(steps: Seq<otp_api::Step>) -> Seq<int> {
    steps.map_values(|s: otp_api::Step| s.distance_mm as int)
}

/// Whether a transit-engine leg's geometry text is well-formed polyline at
/// the engine's 1e-5 precision.
pub open spec fn otp_leg_decodes(leg: otp_api::Leg) -> bool {
    crate::encoded_polyline::spec_decode(vstd::utf8::encode_utf8(leg.leg_geometry.points@), 5) is Some
}

pub open spec fn spec_otp_leg_geometry(leg: otp_api::Leg) -> Seq<Coordinate> {
    crate::encoded_polyline::spec_decode(vstd::utf8::encode_utf8(leg.leg_geometry.points@), 5).unwrap()
}

/// What a canonical leg built from a transit-engine leg holds.
pub open spec fn otp_leg_matches(
    leg: Leg,
    otp: otp_api::Leg,
    is_destination_leg: bool,
    unit: DistanceUnit,
) -> bool {
    &&& leg.geometry@ == spec_otp_leg_geometry(otp)
    &&& leg.mode == otp.mode.spec_travel_mode()
    &&& leg.from_place.location == otp.from.location
    &&& leg.to_place.location == otp.to.location
    &&& (match (leg.from_place.name, otp.from.name) {
        (Some(a), Some(b)) => a@ == b@,
        (None, None) => true,
        _ => false,
    })
    &&& (match (leg.to_place.name, otp.to.name) {
        (Some(a), Some(b)) => a@ == b@,
        (None, None) => true,
        _ => false,
    })
    &&& leg.start_time == otp.start_time
    &&& leg.end_time == otp.end_time
    &&& leg.distance_e6 == spec_from_meters(otp.distance_mm as int, unit)
    &&& leg.duration_ms == otp.spec_duration_ms()
    &&& if otp.mode.is_self_propelled() {
        match leg.mode_leg {
            ModeLeg::NonTransit(nt) => {
                let extra: int = if is_destination_leg {
                    1
                } else {
                    0
                };
                &&& nt.maneuvers@.len() == otp.steps@.len() + extra
                &&& (forall|j: int|
                    0 <= j < otp.steps@.len() ==> otp_maneuver_matches(
                        #[trigger] nt.maneuvers@[j],
                        otp.steps@[j],
                        otp.mode,
                        otp.spec_duration_ms(),
                        otp.distance_mm as int,
                        unit,
                    ))
                &&& (forall|j: int|
                    0 <= j < otp.steps@.len() ==> (#[trigger] nt.maneuvers@[j]).geometry@
                        == spec_slices(
                        spec_otp_leg_geometry(otp),
                        0,
                        step_distances(otp.steps@),
                    )[j])
                &&& (is_destination_leg ==> {
                    let last = nt.maneuvers@.last();
                    &&& last.maneuver_type == ManeuverType::Destination
                    &&& last.instruction is Some && last.instruction.unwrap()@
                        == "Arrive at your destination."@
                    &&& last.distance_e6 == 0
                    &&& last.street_names is None
                    &&& last.duration_ms == 0
                    &&& last.verbal_post_transition_instruction is None
                    &&& last.start_point == otp.to.location
                    &&& last.geometry@ == seq![otp.to.location]
                })
                &&& view_strings(nt.substantial_street_names@)
                    == spec_substantial_street_names(nt.maneuvers@)
            },
            ModeLeg::Transit(_) => false,
        }
    } else {
        match leg.mode_leg {
            ModeLeg::Transit(boxed) => *boxed == otp,
            ModeLeg::NonTransit(_) => false,
        }
    }
}

impl Leg {
    /// Builds a canonical leg from a transit-engine leg.  A walking,
    /// cycling or driving leg is decomposed into maneuvers by walking the
    /// leg geometry with the segmenter, one step's distance at a time; the
    /// final leg of an itinerary gets a synthesized arrival maneuver.  Any
    /// other mode passes through as an opaque transit leg.  Rejected
    /// exactly when the leg geometry text is not well-formed.
    #[verifier::loop_isolation(false)]
    pub fn from_otp(otp: otp_api::Leg, is_destination_leg: bool, distance_unit: DistanceUnit) -> (r:
        Result<Leg, Error>)
        requires
            otp.wf(),
        ensures
            r is Ok <==> otp_leg_decodes(otp),
            r is Ok ==> otp_leg_matches(r.unwrap(), otp, is_destination_leg, distance_unit)
                && r.unwrap().bounded(),
            r is Err ==> r.unwrap_err().error_type == ErrorType::Server,
    {
        let geometry = match crate::encoded_polyline::decode_polyline(
            otp.leg_geometry.points.as_str(),
            5,
        ) {
            Ok(g) => g,
            Err(_) => {
                return Err(Error::server(String::from_str("failed to decode leg geometry")));
            },
        };
        let from_place = place_from_otp(&otp.from);
        let to_place = place_from_otp(&otp.to);
        let leg_duration_ms = otp.duration_ms();
        let n = geometry.len();
        let geometry_copy = slice_geometry(&geometry, 0, n);
        proof {
            assert(geometry_copy@ =~= geometry@);
            lemma_from_meters_bound(otp.distance_mm as int, distance_unit);
        }
        let is_self_propelled = match otp.mode {
            otp_api::TransitMode::Walk | otp_api::TransitMode::Bicycle
            | otp_api::TransitMode::Car => true,
            _ => false,
        };
        if !is_self_propelled {
            let distance_e6 = convert_from_meters(otp.distance_mm, distance_unit);
            let leg = Leg {
                geometry,
                mode: otp.mode.to_travel_mode(),
                from_place,
                to_place,
                start_time: otp.start_time,
                end_time: otp.end_time,
                distance_e6,
                duration_ms: leg_duration_ms,
                mode_leg: ModeLeg::Transit(Box::new(otp)),
            };
            return Ok(leg);
        }
        let mut segmenter = HaversineSegmenter::new(geometry_copy);
        let ghost g0 = geometry@;
        let ghost ds = step_distances(otp.steps@);
        let ghost slices = spec_slices(g0, 0, ds);
        proof {
            crate::util::haversine_segmenter::lemma_spec_slices_len(g0, 0, ds);
            assert(ds.skip(0) =~= ds);
            assert(slices.skip(0) =~= slices);
        }
        let mut maneuvers: Vec<Maneuver> = Vec::new();
        let mut i: usize = 0;
        while i < otp.steps.len()
            invariant
                i <= otp.steps@.len(),
                segmenter.wf(),
                segmenter.geometry@.len() == g0.len(),
                spec_slices(segmenter.geometry@, segmenter.next_index as int, ds.skip(i as int))
                    == slices.skip(i as int),
                maneuvers@.len() == i,
                forall|j: int|
                    0 <= j < i ==> otp_maneuver_matches(
                        #[trigger] maneuvers@[j],
                        otp.steps@[j],
                        otp.mode,
                        otp.spec_duration_ms(),
                        otp.distance_mm as int,
                        distance_unit,
                    ),
                forall|j: int| 0 <= j < i ==> (#[trigger] maneuvers@[j]).geometry@ == slices[j],
                forall|j: int| 0 <= j < i ==> (#[trigger] maneuvers@[j]).bounded(),
            decreases otp.steps@.len() - i,
        {
            let step = &otp.steps[i];
            let ghost pre_g = segmenter.geometry@;
            let ghost pre_i = segmenter.next_index as int;
            proof {
                assert(ds[i as int] == otp.steps@[i as int].distance_mm as int);
                assert(ds.skip(i as int)[0] == ds[i as int]);
                assert(ds.skip(i as int).drop_first() =~= ds.skip(i + 1));
                assert(slices.skip(i as int)[0] == slices[i as int]);
            }
            let step_geometry = match segmenter.next_segment(step.distance_mm) {
                Some(g) => {
                    proof {
                        assert(pre_g.len() > 0 && pre_i < pre_g.len() - 1);
                        assert(spec_slices(pre_g, pre_i, ds.skip(i as int)) =~= seq![
                            spec_walk(pre_g, pre_i, ds[i as int]).0,
                        ] + spec_slices(
                            segmenter.geometry@,
                            segmenter.next_index as int,
                            ds.skip(i + 1),
                        ));
                        assert(g@ == slices[i as int]);
                        assert(spec_slices(
                            segmenter.geometry@,
                            segmenter.next_index as int,
                            ds.skip(i + 1),
                        ) =~= slices.skip(i as int).drop_first());
                        assert(slices.skip(i as int).drop_first() =~= slices.skip(i + 1));
                    }
                    g
                },
                None => {
                    let empty: Vec<Coordinate> = Vec::new();
                    proof {
                        assert(pre_g.len() == 0 || pre_i >= pre_g.len() - 1);
                        assert(spec_slices(pre_g, pre_i, ds.skip(i as int)) =~= seq![
                            Seq::<Coordinate>::empty(),
                        ] + spec_slices(pre_g, pre_i, ds.skip(i as int).drop_first()));
                        assert(empty@ == slices[i as int]);
                        assert(spec_slices(
                            segmenter.geometry@,
                            segmenter.next_index as int,
                            ds.skip(i + 1),
                        ) =~= slices.skip(i as int).drop_first());
                        assert(slices.skip(i as int).drop_first() =~= slices.skip(i + 1));
                    }
                    empty
                },
            };
            let m = Maneuver::from_otp(
                step,
                step_geometry,
                otp.mode,
                leg_duration_ms,
                otp.distance_mm,
                distance_unit,
            );
            maneuvers.push(m);
            i = i + 1;
        }
        if is_destination_leg {
            let mut arrive_geometry: Vec<Coordinate> = Vec::new();
            arrive_geometry.push(to_place.location);
            proof {
                assert(arrive_geometry@ =~= seq![otp.to.location]);
            }
            let arrive = Maneuver {
                instruction: Some(String::from_str("Arrive at your destination.")),
                geometry: arrive_geometry,
                distance_e6: 0,
                street_names: None,
                duration_ms: 0,
                maneuver_type: ManeuverType::Destination,
                verbal_post_transition_instruction: None,
                start_point: to_place.location,
            };
            maneuvers.push(arrive);
        }
        let non_transit = NonTransitLeg::new(maneuvers);
        let distance_e6 = convert_from_meters(otp.distance_mm, distance_unit);
        Ok(
            Leg {
                geometry,
                mode: otp.mode.to_travel_mode(),
                from_place,
                to_place,
                start_time: otp.start_time,
                end_time: otp.end_time,
                distance_e6,
                duration_ms: leg_duration_ms,
                mode_leg: ModeLeg::NonTransit(Box::new(non_transit)),
            },
        )
    }
}

/// Whether a road-engine leg is well-formed: its shape text decodes and
/// every maneuver's shape indices slice into the decoded geometry.
pub open spec fn valhalla_leg_ok(leg: valhalla_api::Leg) -> bool {
    &&& crate::encoded_polyline::spec_decode(vstd::utf8::encode_utf8(leg.shape@), 6) is Some
    &&& {
        let geometry = spec_valhalla_leg_geometry(leg);
        forall|i: int|
            0 <= i < leg.maneuvers@.len() ==> ((#[trigger] leg.maneuvers@[i]).begin_shape_index
                <= leg.maneuvers@[i].end_shape_index && leg.maneuvers@[i].end_shape_index
                < geometry.len())
    }
}

pub open spec fn spec_valhalla_leg_geometry(leg: valhalla_api::Leg) -> Seq<Coordinate> {
    crate::encoded_polyline::spec_decode(vstd::utf8::encode_utf8(leg.shape@), 6).unwrap()
}

/// What a canonical leg built from a road-engine leg holds.
pub open spec fn valhalla_leg_matches(
    leg: Leg,
    v: valhalla_api::Leg,
    mode: TravelMode,
    start_time: int,
    end_time: int,
    from: Coordinate,
    to: Coordinate,
) -> bool {
    &&& leg.geometry@ == spec_valhalla_leg_geometry(v)
    &&& leg.mode == mode
    &&& leg.from_place == (Place { location: from, name: None::<String> })
    &&& leg.to_place == (Place { location: to, name: None::<String> })
    &&& leg.start_time == start_time
    &&& leg.end_time == end_time
    &&& leg.distance_e6 == v.summary.length_milli * 1000
    &&& leg.duration_ms == v.summary.time_ms
    &&& match leg.mode_leg {
        ModeLeg::NonTransit(nt) => {
            &&& nt.maneuvers@.len() == v.maneuvers@.len()
            &&& (forall|j: int|
                0 <= j < v.maneuvers@.len() ==> valhalla_maneuver_matches(
                    #[trigger] nt.maneuvers@[j],
                    v.maneuvers@[j],
                    spec_valhalla_leg_geometry(v),
                ))
            &&& view_strings(nt.substantial_street_names@) == spec_substantial_street_names(
                nt.maneuvers@,
            )
        },
        ModeLeg::Transit(_) => false,
    }
}

impl Leg {
    /// Builds a canonical leg from a road-engine leg: the engine already
    /// supplies exact per-maneuver shape indices, so each maneuver's
    /// geometry is sliced straight out of the decoded leg shape.  Rejected
    /// exactly when the shape text is malformed or an index does not fit
    /// the shape.
    pub fn from_valhalla(
        valhalla: &valhalla_api::Leg,
        travel_mode: TravelMode,
        start_time: u64,
        end_time: u64,
        from_place: Coordinate,
        to_place: Coordinate,
    ) -> (r: Result<Leg, Error>)
        requires
            valhalla.wf(),
        ensures
            r is Ok <==> valhalla_leg_ok(*valhalla),
            r is Ok ==> valhalla_leg_matches(
                r.unwrap(),
                *valhalla,
                travel_mode,
                start_time as int,
                end_time as int,
                from_place,
                to_place,
            ) && r.unwrap().bounded(),
            r is Err ==> r.unwrap_err().error_type == ErrorType::Server,
    {
        let geometry = match crate::encoded_polyline::decode_polyline(valhalla.shape.as_str(), 6) {
            Ok(g) => g,
            Err(_) => {
                return Err(Error::server(String::from_str("failed to decode leg shape")));
            },
        };
        let mut maneuvers: Vec<Maneuver> = Vec::new();
        let mut i: usize = 0;
        while i < valhalla.maneuvers.len()
            invariant
                i <= valhalla.maneuvers@.len(),
                valhalla.wf(),
                valid_geometry(geometry@),
                geometry@ == spec_valhalla_leg_geometry(*valhalla),
                maneuvers@.len() == i,
                forall|j: int|
                    0 <= j < i ==> ((#[trigger] valhalla.maneuvers@[j]).begin_shape_index
                        <= valhalla.maneuvers@[j].end_shape_index
                        && valhalla.maneuvers@[j].end_shape_index < geometry@.len()),
                forall|j: int|
                    0 <= j < i ==> valhalla_maneuver_matches(
                        #[trigger] maneuvers@[j],
                        valhalla.maneuvers@[j],
                        geometry@,
                    ),
                forall|j: int| 0 <= j < i ==> (#[trigger] maneuvers@[j]).bounded(),
            decreases valhalla.maneuvers@.len() - i,
        {
            let vm = &valhalla.maneuvers[i];
            if vm.begin_shape_index > vm.end_shape_index || vm.end_shape_index >= geometry.len()
                as u64 {
                return Err(Error::server(String::from_str("maneuver outside leg shape")));
            }
            let m = Maneuver::from_valhalla(vm, &geometry);
            maneuvers.push(m);
            i = i + 1;
        }
        let non_transit = NonTransitLeg::new(maneuvers);
        Ok(
            Leg {
                geometry,
                mode: travel_mode,
                from_place: Place { location: from_place, name: None },
                to_place: Place { location: to_place, name: None },
                start_time,
                end_time,
                distance_e6: valhalla.summary.length_milli * 1000,
                duration_ms: valhalla.summary.time_ms,
                mode_leg: ModeLeg::NonTransit(Box::new(non_transit)),
            },
        )
    }
}

/// One candidate trip: the canonical itinerary.
#[derive(Debug, Clone, PartialEq, Eq)]
pub struct Itinerary {
    pub mode: TravelMode,
    pub duration_ms: u64,
    /// Epoch milliseconds.
    pub start_time: u64,
    /// Epoch milliseconds.
    pub end_time: u64,
    /// Millionths of `distance_units`.
    pub distance_e6: u64,
    pub distance_units: DistanceUnit,
    /// The union of the bounding rectangles of every leg.
    pub bounds: Rect,
    pub legs: Vec<Leg>,
}

/// The union of the bounding rectangles of a non-empty run of legs.
pub open spec fn legs_bounds(legs: Seq<Leg>) -> Rect
    recommends
        legs.len() > 0,
    decreases legs.len(),
{
    if legs.len() <= 1 {
        spec_bounding_rect(legs[0].geometry@)
    } else {
        spec_rect_union(legs_bounds(legs.drop_last()), spec_bounding_rect(legs.last().geometry@))
    }
}

pub open spec fn total_otp_distance_mm(legs: Seq<otp_api::Leg>) -> int
    decreases legs.len(),
{
    if legs.len() == 0 {
        0
    } else {
        total_otp_distance_mm(legs.drop_last()) + legs.last().distance_mm
    }
}

/// Every leg of a transit-engine itinerary decodes to a non-empty
/// geometry.
pub open spec fn otp_itinerary_ok(itin: otp_api::Itinerary) -> bool {
    &&& itin.legs@.len() > 0
    &&& forall|i: int|
        0 <= i < itin.legs@.len() ==> (otp_leg_decodes(#[trigger] itin.legs@[i])
            && spec_otp_leg_geometry(itin.legs@[i]).len() > 0)
}

/// What a canonical itinerary built from a transit-engine itinerary holds.
pub open spec fn otp_itinerary_matches(
    it: Itinerary,
    o: otp_api::Itinerary,
    mode: TravelMode,
    unit: DistanceUnit,
) -> bool {
    &&& it.mode == mode
    &&& it.duration_ms == o.duration * 1000
    &&& it.start_time == o.start_time
    &&& it.end_time == o.end_time
    &&& it.distance_e6 == spec_from_meters(total_otp_distance_mm(o.legs@), unit)
    &&& it.distance_units == unit
    &&& it.legs@.len() == o.legs@.len()
    &&& (forall|i: int|
        0 <= i < o.legs@.len() ==> otp_leg_matches(
            #[trigger] it.legs@[i],
            o.legs@[i],
            i == o.legs@.len() - 1,
            unit,
        ))
    &&& it.legs@.len() > 0 ==> it.bounds == legs_bounds(it.legs@)
}

impl Itinerary {
    pub open spec fn bounded(self) -> bool {
        &&& self.distance_e6 <= 1000000000000000000
        &&& forall|i: int| 0 <= i < self.legs@.len() ==> (#[trigger] self.legs@[i]).bounded()
    }

    /// This itinerary's total distance in millimeters.
    pub fn distance_meters(&self) -> (r: u64)
        requires
            self.bounded(),
        ensures
            r == spec_to_meters(self.distance_e6 as int, self.distance_units),
    {
        convert_to_meters(self.distance_e6, self.distance_units)
    }

    /// All leg geometries appended in order.
    pub fn combined_geometry(&self) -> (r: Vec<Coordinate>)
        ensures
            r@ == spec_combined_geometry(self.legs@),
    {
        let mut combined: Vec<Coordinate> = Vec::new();
        let mut i: usize = 0;
        proof {
            assert(combined@ =~= spec_combined_geometry(self.legs@.subrange(0, 0)));
        }
        while i < self.legs.len()
            invariant
                i <= self.legs@.len(),
                combined@ == spec_combined_geometry(self.legs@.subrange(0, i as int)),
            decreases self.legs@.len() - i,
        {
            let ghost before = combined@;
            let leg = &self.legs[i];
            let mut k: usize = 0;
            while k < leg.geometry.len()
                invariant
                    k <= leg.geometry@.len(),
                    leg == self.legs@[i as int],
                    combined@ == before + leg.geometry@.subrange(0, k as int),
                decreases leg.geometry@.len() - k,
            {
                combined.push(leg.geometry[k]);
                k = k + 1;
                proof {
                    assert(combined@ =~= before + leg.geometry@.subrange(0, k as int));
                }
            }
            i = i + 1;
            proof {
                assert(leg.geometry@.subrange(0, leg.geometry@.len() as int) =~= leg.geometry@);
                assert(self.legs@.subrange(0, i as int).drop_last() =~= self.legs@.subrange(
                    0,
                    i - 1,
                ));
                assert(combined@ =~= spec_combined_geometry(self.legs@.subrange(0, i as int)));
            }
        }
        proof {
            assert(self.legs@.subrange(0, self.legs@.len() as int) =~= self.legs@);
        }
        combined
    }

    /// Builds a canonical itinerary from a transit-engine itinerary.  The
    /// transit engine reports meters; distances are re-expressed in the
    /// requested unit, and the bounds are folded from every leg's bounding
    /// rectangle.  Rejected exactly when the itinerary has no legs or some
    /// leg has a malformed or empty geometry.
    pub fn from_otp(itinerary: otp_api::Itinerary, mode: TravelMode, distance_unit: DistanceUnit)
        -> (r: Result<Itinerary, Error>)
        requires
            itinerary.wf(),
        ensures
            r is Ok <==> otp_itinerary_ok(itinerary),
            r is Ok ==> otp_itinerary_matches(r.unwrap(), itinerary, mode, distance_unit)
                && r.unwrap().bounded(),
            r is Err ==> r.unwrap_err().error_type == ErrorType::Server,
    {
        let mut total_mm: u64 = 0;
        let mut i: usize = 0;
        while i < itinerary.legs.len()
            invariant
                i <= itinerary.legs@.len(),
                itinerary.wf(),
                total_mm == total_otp_distance_mm(itinerary.legs@.subrange(0, i as int)),
                total_mm <= (i as int) * 10000000000000,
            decreases itinerary.legs@.len() - i,
        {
            proof {
                assert(itinerary.legs@.subrange(0, i + 1).drop_last() =~= itinerary.legs@.subrange(
                    0,
                    i as int,
                ));
                assert(itinerary.legs@[i as int].wf());
            }
            total_mm = total_mm + itinerary.legs[i].distance_mm;
            i = i + 1;
        }
        proof {
            assert(itinerary.legs@.subrange(0, itinerary.legs@.len() as int) =~= itinerary.legs@);
            lemma_from_meters_bound(total_mm as int, distance_unit);
        }
        let mut legs: Vec<Leg> = Vec::new();
        let mut i: usize = 0;
        let n = itinerary.legs.len();
        let mut legs_in = itinerary.legs;
        let ghost legs0 = legs_in@;
        while i < n
            invariant
                i <= n == legs0.len(),
                legs_in@ == legs0.skip(i as int),
                itinerary.wf(),
                itinerary.legs@ == legs0,
                legs@.len() == i,
                forall|j: int|
                    0 <= j < i ==> otp_leg_matches(
                        #[trigger] legs@[j],
                        legs0[j],
                        j == n - 1,
                        distance_unit,
                    ),
                forall|j: int| 0 <= j < i ==> (#[trigger] legs@[j]).bounded(),
                forall|j: int| 0 <= j < i ==> otp_leg_decodes(#[trigger] legs0[j]),
            decreases n - i,
        {
            let otp_leg = legs_in.remove(0);
            let is_destination_leg = i == n - 1;
            proof {
                assert(otp_leg == legs0[i as int]);
                assert(legs0[i as int].wf());
                assert(legs_in@ =~= legs0.skip(i + 1));
            }
            match Leg::from_otp(otp_leg, is_destination_leg, distance_unit) {
                Ok(leg) => {
                    legs.push(leg);
                },
                Err(_) => {
                    return Err(Error::server(String::from_str("failed to parse legs")));
                },
            }
            i = i + 1;
        }
        if legs.len() == 0 {
            return Err(Error::server(String::from_str("itinerary had no legs")));
        }
        let mut bounds = match legs[0].bounding_rect() {
            Some(b) => b,
            None => {
                return Err(Error::server(String::from_str("first leg has no bounding_rect")));
            },
        };
        let mut i: usize = 1;
        proof {
            assert(bounds == legs_bounds(legs@.subrange(0, 1)));
        }
        while i < legs.len()
            invariant
                1 <= i <= legs@.len(),
                legs@.len() == itinerary.legs@.len(),
                itinerary.wf(),
                forall|j: int|
                    0 <= j < legs@.len() ==> otp_leg_matches(
                        #[trigger] legs@[j],
                        itinerary.legs@[j],
                        j == legs@.len() - 1,
                        distance_unit,
                    ),
                forall|j: int| 0 <= j < legs@.len() ==> (#[trigger] legs@[j]).bounded(),
                forall|j: int|
                    0 <= j < legs@.len() ==> otp_leg_decodes(#[trigger] itinerary.legs@[j]),
                forall|j: int|
                    0 <= j < i ==> spec_otp_leg_geometry(#[trigger] itinerary.legs@[j]).len()
                        > 0,
                bounds == legs_bounds(legs@.subrange(0, i as int)),
            decreases legs@.len() - i,
        {
            let leg_bounds = match legs[i].bounding_rect() {
                Some(b) => b,
                None => {
                    return Err(Error::server(String::from_str("leg has no bounding_rect")));
                },
            };
            crate::util::extend_bounds(&mut bounds, &leg_bounds);
            i = i + 1;
            proof {
                assert(legs@.subrange(0, i as int).drop_last() =~= legs@.subrange(0, i - 1));
                assert(legs@.subrange(0, i as int).last() == legs@[i - 1]);
            }
        }
        proof {
            assert(legs@.subrange(0, legs@.len() as int) =~= legs@);
        }
        Ok(
            Itinerary {
                mode,
                duration_ms: itinerary.duration * 1000,
                start_time: itinerary.start_time,
                end_time: itinerary.end_time,
                distance_e6: convert_from_meters(total_mm, distance_unit),
                distance_units: distance_unit,
                bounds,
                legs,
            },
        )
    }
}

pub open spec fn spec_combined_geometry(legs: Seq<Leg>) -> Seq<Coordinate>
    decreases legs.len(),
{
    if legs.len() == 0 {
        Seq::empty()
    } else {
        spec_combined_geometry(legs.drop_last()) + legs.last().geometry@
    }
}

/// Every leg of a road-engine trip is well-formed, and the trip carries
/// one more location than it has legs (a start and an end per leg).
pub open spec fn valhalla_trip_ok(trip: valhalla_api::Trip) -> bool {
    &&& trip.locations@.len() == trip.legs@.len() + 1
    &&& trip.legs@.len() > 0
    &&& forall|i: int| 0 <= i < trip.legs@.len() ==> valhalla_leg_ok(#[trigger] trip.legs@[i])
}

/// When leg `i` of a road-engine trip begins, walking the legs back to
/// back from the request time.
pub open spec fn valhalla_leg_start_ms(trip: valhalla_api::Trip, i: int, now_ms: int) -> int
    decreases i,
{
    if i <= 0 {
        now_ms
    } else {
        valhalla_leg_start_ms(trip, i - 1, now_ms) + trip.legs@[i - 1].summary.time_ms
    }
}

/// What a canonical itinerary built from a road-engine trip holds.
pub open spec fn valhalla_itinerary_matches(
    it: Itinerary,
    trip: valhalla_api::Trip,
    mode: TravelMode,
    now_ms: int,
) -> bool {
    &&& it.mode == mode
    &&& it.duration_ms == trip.summary.time_ms
    &&& it.start_time == now_ms
    &&& it.end_time == now_ms + trip.summary.time_ms
    &&& it.distance_e6 == trip.summary.length_milli * 1000
    &&& it.distance_units == trip.units
    &&& it.bounds == crate::geom::spec_rect_from_corners(
        Coordinate { lon_e6: trip.summary.min_lon_e6, lat_e6: trip.summary.min_lat_e6 },
        Coordinate { lon_e6: trip.summary.max_lon_e6, lat_e6: trip.summary.max_lat_e6 },
    )
    &&& it.legs@.len() == trip.legs@.len()
    &&& (forall|i: int|
        0 <= i < trip.legs@.len() ==> valhalla_leg_matches(
            #[trigger] it.legs@[i],
            trip.legs@[i],
            mode,
            valhalla_leg_start_ms(trip, i, now_ms),
            valhalla_leg_start_ms(trip, i + 1, now_ms),
            trip.locations@[i],
            trip.locations@[i + 1],
        ))
}

impl Itinerary {
    /// Builds a canonical itinerary from a road-engine trip.  The trip's
    /// own unit is kept; the legs get consecutive time windows starting at
    /// the caller's clock reading.  Rejected exactly when a leg's shape is
    /// malformed, a maneuver's indices fall outside its shape, or the
    /// location list does not pair off with the legs.
    pub fn from_valhalla(trip: &valhalla_api::Trip, mode: TravelMode, now_ms: u64) -> (r: Result<
        Itinerary,
        Error,
    >)
        requires
            trip.wf(),
            now_ms <= 100000000000000,
        ensures
            r is Ok <==> valhalla_trip_ok(*trip),
            r is Ok ==> valhalla_itinerary_matches(r.unwrap(), *trip, mode, now_ms as int)
                && r.unwrap().bounded(),
            r is Err ==> r.unwrap_err().error_type == ErrorType::Server,
    {
        if trip.locations.len() != trip.legs.len() + 1 || trip.legs.len() == 0 {
            return Err(Error::server(String::from_str("malformed trip locations")));
        }
        let bounds = Rect::new(
            Coordinate { lon_e6: trip.summary.min_lon_e6, lat_e6: trip.summary.min_lat_e6 },
            Coordinate { lon_e6: trip.summary.max_lon_e6, lat_e6: trip.summary.max_lat_e6 },
        );
        let mut legs: Vec<Leg> = Vec::new();
        let mut start_time = now_ms;
        let mut i: usize = 0;
        while i < trip.legs.len()
            invariant
                i <= trip.legs@.len(),
                trip.wf(),
                now_ms <= 100000000000000,
                trip.locations@.len() == trip.legs@.len() + 1,
                legs@.len() == i,
                start_time == valhalla_leg_start_ms(*trip, i as int, now_ms as int),
                start_time <= now_ms + (i as int) * 100000000000000,
                forall|j: int|
                    0 <= j < i ==> valhalla_leg_matches(
                        #[trigger] legs@[j],
                        trip.legs@[j],
                        mode,
                        valhalla_leg_start_ms(*trip, j, now_ms as int),
                        valhalla_leg_start_ms(*trip, j + 1, now_ms as int),
                        trip.locations@[j],
                        trip.locations@[j + 1],
                    ),
                forall|j: int| 0 <= j < i ==> (#[trigger] legs@[j]).bounded(),
                forall|j: int| 0 <= j < i ==> valhalla_leg_ok(#[trigger] trip.legs@[j]),
            decreases trip.legs@.len() - i,
        {
            let v_leg = &trip.legs[i];
            proof {
                assert(trip.legs@[i as int].wf());
                assert((i as int + 1) * 100000000000000 == (i as int) * 100000000000000
                    + 100000000000000) by (nonlinear_arith);
                assert((i as int) * 100000000000000 <= 100 * 100000000000000)
                    by (nonlinear_arith)
                    requires
                        0 <= i <= 100,
                ;
            }
            let leg_end_time = start_time + v_leg.summary.time_ms;
            match Leg::from_valhalla(
                v_leg,
                mode,
                start_time,
                leg_end_time,
                trip.locations[i],
                trip.locations[i + 1],
            ) {
                Ok(leg) => {
                    legs.push(leg);
                },
                Err(e) => {
                    return Err(e);
                },
            }
            start_time = leg_end_time;
            i = i + 1;
        }
        Ok(
            Itinerary {
                mode,
                duration_ms: trip.summary.time_ms,
                start_time: now_ms,
                end_time: now_ms + trip.summary.time_ms,
                distance_e6: trip.summary.length_milli * 1000,
                distance_units: trip.units,
                bounds,
                legs,
            },
        )
    }
}

/// The canonical plan: the candidate itineraries, best first.
#[derive(Debug, Clone, PartialEq, Eq)]
pub struct Plan {
    pub itineraries: Vec<Itinerary>,
}

/// The client-facing error payload of a failed plan request.
#[derive(Debug, Clone, PartialEq, Eq)]
pub struct PlanError {
    pub status_code: u16,
    pub error_code: u32,
    pub message: String,
}

/// A failed plan response.
#[derive(Debug, Clone, PartialEq, Eq)]
pub struct PlanResponseErr {
    pub error: PlanError,
}

/// A successful plan response.
#[derive(Debug, Clone, PartialEq, Eq)]
pub struct PlanResponseOk {
    pub plan: Plan,
}

/// The road engine's native error codes are offset by this constant before
/// exposure, so the two engines' codes cannot collide in the unified space.
pub open spec fn spec_valhalla_error_offset() -> int {
    2000
}

impl PlanError {
    /// The unified error record of a road-engine error: its code moved
    /// into the road engine's range of the unified code space.
    pub fn from_valhalla_error(value: &valhalla_api::RouteResponseError) -> (r: PlanError)
        requires
            value.error_code + spec_valhalla_error_offset() <= u32::MAX,
        ensures
            r.status_code == value.status_code,
            r.error_code == value.error_code + spec_valhalla_error_offset(),
            r.message@ == value.error@,
    {
        PlanError {
            status_code: value.status_code,
            error_code: value.error_code + 2000,
            message: clone_string_of(&value.error),
        }
    }

    /// The unified error record of a transit-engine error; the transit
    /// engine reports user-addressable conditions.
    pub fn from_otp_error(value: &otp_api::PlanError) -> (r: PlanError)
        ensures
            r.status_code == 400,
            r.error_code == value.id,
            r.message@ == value.msg@,
    {
        PlanError { status_code: 400, error_code: value.id, message: clone_string_of(&value.msg) }
    }

    /// The unified error record of a service error: user-type errors read
    /// as bad requests, server-type errors as server faults, each under its
    /// own code.
    pub fn from_service_error(value: Error) -> (r: PlanError)
        ensures
            r.status_code == (if value.error_type == ErrorType::Server {
                500int
            } else {
                400int
            }),
            r.error_code == value.error_type.spec_code(),
            r.message == value.message,
    {
        let status_code: u16 = match value.error_type {
            ErrorType::NoCoverageForArea => 400,
            ErrorType::User => 400,
            ErrorType::Server => 500,
        };
        let error_code = value.error_type.code();
        PlanError { status_code, error_code, message: value.message }
    }
}

impl PlanResponseErr {
    pub fn from_error(value: Error) -> (r: PlanResponseErr)
        ensures
            r.error.status_code == (if value.error_type == ErrorType::Server {
                500int
            } else {
                400int
            }),
            r.error.error_code == value.error_type.spec_code(),
            r.error.message == value.message,
    {
        PlanResponseErr { error: PlanError::from_service_error(value) }
    }
}

/// The itineraries reordered so that the one arriving first comes first;
/// itineraries arriving together keep their reported order.
pub open spec fn insert_by_end_time(x: otp_api::Itinerary, s: Seq<otp_api::Itinerary>) -> Seq<
    otp_api::Itinerary,
>
    decreases s.len(),
{
    if s.len() == 0 {
        seq![x]
    } else if x.end_time < s[0].end_time {
        seq![x] + s
    } else {
        seq![s[0]] + insert_by_end_time(x, s.drop_first())
    }
}

pub open spec fn sort_by_end_time(s: Seq<otp_api::Itinerary>) -> Seq<otp_api::Itinerary>
    decreases s.len(),
{
    if s.len() == 0 {
        Seq::empty()
    } else {
        insert_by_end_time(s.last(), sort_by_end_time(s.drop_last()))
    }
}

pub open spec fn sorted_by_end_time(s: Seq<otp_api::Itinerary>) -> bool {
    forall|i: int, j: int| 0 <= i <= j < s.len() ==> s[i].end_time <= s[j].end_time
}

proof fn lemma_insert_by_end_time_props(x: otp_api::Itinerary, s: Seq<otp_api::Itinerary>)
    requires
        sorted_by_end_time(s),
    ensures
        sorted_by_end_time(insert_by_end_time(x, s)),
        insert_by_end_time(x, s).len() == s.len() + 1,
        forall|i: int|
            0 <= i < insert_by_end_time(x, s).len() ==> (#[trigger] insert_by_end_time(x, s)[i])
                == x || exists|j: int| 0 <= j < s.len() && insert_by_end_time(x, s)[i] == s[j],
    decreases s.len(),
{
    if s.len() > 0 && !(x.end_time < s[0].end_time) {
        lemma_insert_by_end_time_props(x, s.drop_first());
        assert(sorted_by_end_time(s.drop_first()));
        let r = insert_by_end_time(x, s);
        let tail = insert_by_end_time(x, s.drop_first());
        assert(r =~= seq![s[0]] + tail);
        assert forall|i: int, j: int| 0 <= i <= j < r.len() implies r[i].end_time
            <= r[j].end_time by {
            if i == 0 {
                if j > 0 {
                    assert(r[j] == tail[j - 1]);
                    assert(tail[j - 1] == x || exists|k: int|
                        0 <= k < s.drop_first().len() && tail[j - 1] == s.drop_first()[k]);
                }
            } else {
                assert(r[i] == tail[i - 1] && r[j] == tail[j - 1]);
            }
        }
    }
}

/// Every itinerary of the reordering is one of the originals, so
/// well-formedness survives the reordering.
proof fn lemma_sort_by_end_time_props(s: Seq<otp_api::Itinerary>)
    ensures
        sorted_by_end_time(sort_by_end_time(s)),
        sort_by_end_time(s).len() == s.len(),
        forall|i: int|
            0 <= i < s.len() ==> exists|j: int|
                0 <= j < s.len() && #[trigger] sort_by_end_time(s)[i] == s[j],
    decreases s.len(),
{
    if s.len() > 0 {
        lemma_sort_by_end_time_props(s.drop_last());
        lemma_insert_by_end_time_props(s.last(), sort_by_end_time(s.drop_last()));
        let sorted = sort_by_end_time(s);
        let prev = sort_by_end_time(s.drop_last());
        assert forall|i: int| 0 <= i < s.len() implies exists|j: int|
            0 <= j < s.len() && #[trigger] sorted[i] == s[j] by {
            assert(sorted[i] == s.last() || exists|k: int| 0 <= k < prev.len() && sorted[i]
                == prev[k]);
            if sorted[i] == s.last() {
                assert(sorted[i] == s[s.len() - 1]);
            } else {
                let k = choose|k: int| 0 <= k < prev.len() && sorted[i] == prev[k];
                let j = choose|j: int| 0 <= j < s.drop_last().len() && prev[k] == s.drop_last()[j];
                assert(sorted[i] == s[j]);
            }
        }
    }
}

fn insert_itinerary_exec(x: otp_api::Itinerary, s: Vec<otp_api::Itinerary>) -> (r: Vec<
    otp_api::Itinerary,
>)
    ensures
        r@ == insert_by_end_time(x, s@),
    decreases s@.len(),
{
    let mut s = s;
    if s.len() == 0 {
        s.push(x);
        proof {
            assert(s@ =~= insert_by_end_time(x, Seq::empty()));
        }
        s
    } else if x.end_time < s[0].end_time {
        let ghost whole = s@;
        s.insert(0, x);
        proof {
            assert(s@ =~= seq![x] + whole);
        }
        s
    } else {
        let ghost whole = s@;
        let first = s.remove(0);
        let ghost rest = s@;
        let mut r = insert_itinerary_exec(x, s);
        r.insert(0, first);
        proof {
            assert(r@ =~= seq![first] + insert_by_end_time(x, rest));
            assert(r@ =~= insert_by_end_time(x, whole));
        }
        r
    }
}

fn sort_itineraries_exec(s: Vec<otp_api::Itinerary>) -> (r: Vec<otp_api::Itinerary>)
    ensures
        r@ == sort_by_end_time(s@),
    decreases s@.len(),
{
    let mut s = s;
    if s.len() == 0 {
        proof {
            assert(s@ =~= sort_by_end_time(s@));
        }
        s
    } else {
        let ghost whole = s@;
        let last = s.pop().unwrap();
        proof {
            assert(s@ =~= whole.drop_last());
            assert(last == whole.last());
        }
        let sorted = sort_itineraries_exec(s);
        insert_itinerary_exec(last, sorted)
    }
}

/// Every sorted transit-engine itinerary has well-formed legs and decodes.
pub open spec fn all_sorted_itineraries_ok(otp: otp_api::PlanResponse) -> bool {
    forall|i: int|
        0 <= i < otp.plan.itineraries@.len() ==> otp_itinerary_ok(
            #[trigger] sort_by_end_time(otp.plan.itineraries@)[i],
        )
}

impl PlanResponseOk {
    /// Builds the canonical plan from a transit-engine response.  The
    /// upstream error, if any, is surfaced as the unified error; otherwise
    /// the itineraries are ordered by arrival time (ties keep their
    /// reported order) and normalized.  A malformed itinerary makes the
    /// whole response a server error.
    #[verifier::loop_isolation(false)]
    pub fn from_otp(
        mode: TravelMode,
        otp: otp_api::PlanResponse,
        distance_unit: DistanceUnit,
    ) -> (r: Result<PlanResponseOk, PlanResponseErr>)
        requires
            otp.wf(),
        ensures
            otp.error is Some ==> r is Err && r.unwrap_err().error.status_code == 400
                && r.unwrap_err().error.error_code == otp.error.unwrap().id
                && r.unwrap_err().error.message@ == otp.error.unwrap().msg@,
            otp.error is None ==> ((r is Ok <==> all_sorted_itineraries_ok(otp)) && (r is Ok
                ==> {
                let sorted = sort_by_end_time(otp.plan.itineraries@);
                let out = r.unwrap().plan.itineraries@;
                &&& out.len() == sorted.len()
                &&& (forall|i: int|
                    0 <= i < sorted.len() ==> otp_itinerary_matches(
                        #[trigger] out[i],
                        sorted[i],
                        mode,
                        distance_unit,
                    ))
                &&& (forall|i: int, j: int|
                    0 <= i <= j < out.len() ==> out[i].end_time <= out[j].end_time)
            })),
    {
        if let Some(otp_error) = &otp.error {
            return Err(PlanResponseErr { error: PlanError::from_otp_error(otp_error) });
        }
        proof {
            lemma_sort_by_end_time_props(otp.plan.itineraries@);
        }
        let sorted = sort_itineraries_exec(otp.plan.itineraries);
        let ghost sorted0 = sorted@;
        let mut itineraries: Vec<Itinerary> = Vec::new();
        let mut remaining = sorted;
        let mut i: usize = 0;
        let n = remaining.len();
        while i < n
            invariant
                i <= n == sorted0.len(),
                remaining@ == sorted0.skip(i as int),
                sorted0 == sort_by_end_time(otp.plan.itineraries@),
                otp.wf(),
                forall|j: int| 0 <= j < sorted0.len() ==> (#[trigger] sorted0[j]).wf(),
                itineraries@.len() == i,
                forall|j: int|
                    0 <= j < i ==> otp_itinerary_matches(
                        #[trigger] itineraries@[j],
                        sorted0[j],
                        mode,
                        distance_unit,
                    ),
                forall|j: int| 0 <= j < i ==> otp_itinerary_ok(#[trigger] sorted0[j]),
            decreases n - i,
        {
            let one = remaining.remove(0);
            proof {
                assert(one == sorted0[i as int]);
                assert(remaining@ =~= sorted0.skip(i + 1));
            }
            match Itinerary::from_otp(one, mode, distance_unit) {
                Ok(it) => {
                    itineraries.push(it);
                },
                Err(e) => {
                    return Err(PlanResponseErr::from_error(e));
                },
            }
            i = i + 1;
        }
        proof {
            assert forall|i2: int, j2: int|
                0 <= i2 <= j2 < itineraries@.len() implies itineraries@[i2].end_time
                <= itineraries@[j2].end_time by {
                assert(itineraries@[i2].end_time == sorted0[i2].end_time);
                assert(itineraries@[j2].end_time == sorted0[j2].end_time);
            }
        }
        Ok(PlanResponseOk { plan: Plan { itineraries } })
    }
}

/// Every trip of a road-engine response, the primary and each alternate,
/// is well-formed enough to normalize.
pub open spec fn valhalla_response_ok(resp: valhalla_api::RouteResponse) -> bool {
    &&& valhalla_trip_ok(resp.trip)
    &&& match resp.alternates {
        Some(alts) => forall|i: int|
            0 <= i < alts@.len() ==> valhalla_trip_ok((#[trigger] alts@[i]).trip),
        None => true,
    }
}

pub open spec fn spec_alternates(resp: valhalla_api::RouteResponse) -> Seq<valhalla_api::Alternate> {
    match resp.alternates {
        Some(alts) => alts@,
        None => Seq::empty(),
    }
}

impl PlanResponseOk {
    /// Builds the canonical plan from a road-engine response: the primary
    /// trip first, then each alternate, every one normalized at the
    /// caller's clock reading.  An upstream error record becomes the
    /// unified error with the engine's code offset; a malformed trip
    /// becomes a server error.
    #[verifier::loop_isolation(false)]
    pub fn from_valhalla(
        mode: TravelMode,
        valhalla: valhalla_api::ValhallaRouteResponseResult,
        now_ms: u64,
    ) -> (r: Result<PlanResponseOk, PlanResponseErr>)
        requires
            now_ms <= 100000000000000,
            match valhalla {
                valhalla_api::ValhallaRouteResponseResult::Response(resp) => resp.wf(),
                valhalla_api::ValhallaRouteResponseResult::Failure(err) => err.wf(),
            },
        ensures
            match valhalla {
                valhalla_api::ValhallaRouteResponseResult::Failure(err) => r is Err
                    && r.unwrap_err().error.status_code == err.status_code
                    && r.unwrap_err().error.error_code == err.error_code
                        + spec_valhalla_error_offset() && r.unwrap_err().error.message@
                    == err.error@,
                valhalla_api::ValhallaRouteResponseResult::Response(resp) => {
                    &&& (r is Ok <==> valhalla_response_ok(resp))
                    &&& (r is Ok ==> {
                        let out = r.unwrap().plan.itineraries@;
                        let alts = spec_alternates(resp);
                        &&& out.len() == 1 + alts.len()
                        &&& valhalla_itinerary_matches(out[0], resp.trip, mode, now_ms as int)
                        &&& (forall|i: int|
                            0 <= i < alts.len() ==> valhalla_itinerary_matches(
                                #[trigger] out[i + 1],
                                alts[i].trip,
                                mode,
                                now_ms as int,
                            ))
                    })
                },
            },
    {
        let resp = match valhalla {
            valhalla_api::ValhallaRouteResponseResult::Response(resp) => resp,
            valhalla_api::ValhallaRouteResponseResult::Failure(err) => {
                return Err(PlanResponseErr { error: PlanError::from_valhalla_error(&err) });
            },
        };
        let mut itineraries: Vec<Itinerary> = Vec::new();
        match Itinerary::from_valhalla(&resp.trip, mode, now_ms) {
            Ok(it) => {
                itineraries.push(it);
            },
            Err(e) => {
                return Err(PlanResponseErr::from_error(e));
            },
        }
        if let Some(alternates) = &resp.alternates {
            let mut i: usize = 0;
            while i < alternates.len()
                invariant
                    i <= alternates@.len(),
                    itineraries@.len() == i + 1,
                    valhalla_itinerary_matches(itineraries@[0], resp.trip, mode, now_ms as int),
                    forall|j: int|
                        0 <= j < i ==> valhalla_itinerary_matches(
                            #[trigger] itineraries@[j + 1],
                            alternates@[j].trip,
                            mode,
                            now_ms as int,
                        ),
                    forall|j: int| 0 <= j < i ==> valhalla_trip_ok(#[trigger] alternates@[j].trip),
                decreases alternates@.len() - i,
            {
                let alternate = &alternates[i];
                match Itinerary::from_valhalla(&alternate.trip, mode, now_ms) {
                    Ok(it) => {
                        itineraries.push(it);
                    },
                    Err(e) => {
                        return Err(PlanResponseErr::from_error(e));
                    },
                }
                i = i + 1;
            }
        }
        Ok(PlanResponseOk { plan: Plan { itineraries } })
    }
}

/// A comma-separated list of travel modes, the primary one first.
#[derive(Debug, PartialEq, Eq, Clone)]
pub struct TravelModes(pub Vec<TravelMode>);

impl TravelModes {
    pub fn len(&self) -> (r: usize)
        ensures
            r == self.0@.len(),
    {
        self.0.len()
    }

    pub fn is_empty(&self) -> (r: bool)
        ensures
            r == (self.0@.len() == 0),
    {
        self.0.len() == 0
    }

    pub fn first(&self) -> (r: Option<&TravelMode>)
        ensures
            r is Some <==> self.0@.len() > 0,
            self.0@.len() > 0 ==> *r.unwrap() == self.0@[0],
    {
        if self.0.len() == 0 {
            None
        } else {
            Some(&self.0[0])
        }
    }
}

/// Which engines to consult for a primary mode, and in what order.
#[derive(Debug, PartialEq, Eq, Clone, Copy, Structural)]
pub enum EngineSelection {
    /// Transit trips are the transit engine's alone.
    TransitOnly,
    /// Walking and cycling prefer the transit engine's answer outright and
    /// fall back to the road engine silently when it has none.
    TransitThenRoad,
    /// Driving goes straight to the road engine.
    RoadOnly,
}

/// The fallback policy: which upstream engines a plan request consults.
pub fn select_engines(primary_mode: TravelMode) -> (r: EngineSelection)
    ensures
        primary_mode == TravelMode::Transit ==> r == EngineSelection::TransitOnly,
        (primary_mode == TravelMode::Walk || primary_mode == TravelMode::Bicycle) ==> r
            == EngineSelection::TransitThenRoad,
        primary_mode == TravelMode::Car ==> r == EngineSelection::RoadOnly,
{
    match primary_mode {
        TravelMode::Transit => EngineSelection::TransitOnly,
        TravelMode::Walk | TravelMode::Bicycle => EngineSelection::TransitThenRoad,
        TravelMode::Car => EngineSelection::RoadOnly,
    }
}

/// What the orchestrator does with the transit engine's outcome.
#[derive(Debug, PartialEq, Eq, Clone, Copy, Structural)]
pub enum TransitOutcomeAction {
    /// The transit engine answered; its plan is the answer.
    UseTransitPlan,
    /// The transit engine failed and there is no fallback; surface its
    /// error.
    SurfaceError,
    /// Query the road engine: either it is the only engine for this mode,
    /// or the transit engine failed and the failure stays silent -
    /// a coverage gap is a geographic limitation, and any other transit
    /// error is not worth surfacing when a road answer may exist.
    QueryRoadEngine,
}

/// Resolves one round of the engine loop: given which engines the mode
/// consults and whether the transit engine failed, says what to do next.
pub fn resolve_transit_outcome(selection: EngineSelection, transit_failed: bool) -> (r:
    TransitOutcomeAction)
    ensures
        selection == EngineSelection::TransitOnly && !transit_failed ==> r
            == TransitOutcomeAction::UseTransitPlan,
        selection == EngineSelection::TransitOnly && transit_failed ==> r
            == TransitOutcomeAction::SurfaceError,
        selection == EngineSelection::TransitThenRoad && !transit_failed ==> r
            == TransitOutcomeAction::UseTransitPlan,
        selection == EngineSelection::TransitThenRoad && transit_failed ==> r
            == TransitOutcomeAction::QueryRoadEngine,
        selection == EngineSelection::RoadOnly ==> r == TransitOutcomeAction::QueryRoadEngine,
{
    match selection {
        EngineSelection::TransitOnly => {
            if transit_failed {
                TransitOutcomeAction::SurfaceError
            } else {
                TransitOutcomeAction::UseTransitPlan
            }
        },
        EngineSelection::TransitThenRoad => {
            if transit_failed {
                TransitOutcomeAction::QueryRoadEngine
            } else {
                TransitOutcomeAction::UseTransitPlan
            }
        },
        EngineSelection::RoadOnly => TransitOutcomeAction::QueryRoadEngine,
    }
}

/// The road engine's cost model for a non-transit mode.
pub fn mode_costing(mode: TravelMode) -> (r: Option<valhalla_api::ModeCosting>)
    ensures
        mode == TravelMode::Transit ==> r is None,
        mode == TravelMode::Bicycle ==> r == Some(valhalla_api::ModeCosting::Bicycle),
        mode == TravelMode::Car ==> r == Some(valhalla_api::ModeCosting::Auto),
        mode == TravelMode::Walk ==> r == Some(valhalla_api::ModeCosting::Pedestrian),
{
    match mode {
        TravelMode::Transit => None,
        TravelMode::Bicycle => Some(valhalla_api::ModeCosting::Bicycle),
        TravelMode::Car => Some(valhalla_api::ModeCosting::Auto),
        TravelMode::Walk => Some(valhalla_api::ModeCosting::Pedestrian),
    }
}

} // verus!
