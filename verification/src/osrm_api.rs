//! Turn-by-turn directions: a one-way projection of a canonical itinerary
//! into the route/leg/step shape that navigation clients consume, with
//! banner instructions, a fixed maneuver-vocabulary mapping, and bearings.
//! This output format is unit-fixed: distances are always meters.

use crate::geodesy::{spec_bearing_deg, spec_haversine_mm};
use crate::geom::Coordinate;
use crate::plan::{
    clone_string_of, clone_strings, spec_combined_geometry, view_strings, Itinerary, Leg, Maneuver,
    ModeLeg,
};
use crate::util::{bearing_at_end, bearing_at_start, spec_to_meters};
use crate::valhalla_api::ManeuverType;
use crate::{DistanceUnit, TravelMode};
use vstd::prelude::*;

verus! {

/// The turn-by-turn vocabulary of the output format.
#[derive(Debug, PartialEq, Eq, Clone, Copy, Structural)]
pub enum OSRMManeuverType {
    Turn,
    NewName,
    Merge,
    Depart,
    Arrive,
    Fork,
    OnRamp,
    OffRamp,
    EndOfRoad,
    UseLane,
    Continue,
    RoundaboutEnter,
    RoundaboutExit,
    RotaryEnter,
    RotaryExit,
    RoundaboutTurn,
    Notification,
}

/// The directional modifier of a banner maneuver.
#[derive(Debug, PartialEq, Eq, Clone, Copy, Structural)]
pub enum ManeuverDirection {
    Uturn,
    SharpRight,
    Right,
    SlightRight,
    Straight,
    SlightLeft,
    Left,
    SharpLeft,
}

/// The banner type and modifier each internal maneuver type maps to.  The
/// mapping is a fixed lookup: every internal variant appears exactly once,
/// with no default arm, so a newly added variant fails to build rather
/// than silently coercing.
pub open spec fn spec_banner_maneuver(t: ManeuverType) -> (
    Option<OSRMManeuverType>,
    Option<ManeuverDirection>,
) {
    match t {
        ManeuverType::Unspecified => (None, None),
        ManeuverType::Start => (Some(OSRMManeuverType::Depart), None),
        ManeuverType::StartRight => (Some(OSRMManeuverType::Depart), Some(ManeuverDirection::Right)),
        ManeuverType::StartLeft => (Some(OSRMManeuverType::Depart), Some(ManeuverDirection::Left)),
        ManeuverType::Destination => (Some(OSRMManeuverType::Arrive), None),
        ManeuverType::DestinationRight => (
            Some(OSRMManeuverType::Arrive),
            Some(ManeuverDirection::Right),
        ),
        ManeuverType::DestinationLeft => (
            Some(OSRMManeuverType::Arrive),
            Some(ManeuverDirection::Left),
        ),
        ManeuverType::Becomes => (Some(OSRMManeuverType::NewName), None),
        ManeuverType::Continue => (Some(OSRMManeuverType::Continue), None),
        ManeuverType::SlightRight => (
            Some(OSRMManeuverType::Turn),
            Some(ManeuverDirection::SlightRight),
        ),
        ManeuverType::Right => (Some(OSRMManeuverType::Turn), Some(ManeuverDirection::Right)),
        ManeuverType::SharpRight => (
            Some(OSRMManeuverType::Turn),
            Some(ManeuverDirection::SharpRight),
        ),
        ManeuverType::UturnRight => (Some(OSRMManeuverType::Turn), Some(ManeuverDirection::Uturn)),
        ManeuverType::UturnLeft => (Some(OSRMManeuverType::Turn), Some(ManeuverDirection::Uturn)),
        ManeuverType::SharpLeft => (
            Some(OSRMManeuverType::Turn),
            Some(ManeuverDirection::SharpLeft),
        ),
        ManeuverType::Left => (Some(OSRMManeuverType::Turn), Some(ManeuverDirection::Left)),
        ManeuverType::SlightLeft => (
            Some(OSRMManeuverType::Turn),
            Some(ManeuverDirection::SlightLeft),
        ),
        ManeuverType::RampStraight => (
            Some(OSRMManeuverType::OnRamp),
            Some(ManeuverDirection::Straight),
        ),
        ManeuverType::RampRight => (Some(OSRMManeuverType::OnRamp), Some(ManeuverDirection::Right)),
        ManeuverType::RampLeft => (Some(OSRMManeuverType::OnRamp), Some(ManeuverDirection::Left)),
        ManeuverType::ExitRight => (Some(OSRMManeuverType::OffRamp), Some(ManeuverDirection::Right)),
        ManeuverType::ExitLeft => (Some(OSRMManeuverType::OffRamp), Some(ManeuverDirection::Left)),
        ManeuverType::StayStraight => (
            Some(OSRMManeuverType::Fork),
            Some(ManeuverDirection::Straight),
        ),
        ManeuverType::StayRight => (Some(OSRMManeuverType::Fork), Some(ManeuverDirection::Right)),
        ManeuverType::StayLeft => (Some(OSRMManeuverType::Fork), Some(ManeuverDirection::Left)),
        ManeuverType::Merge => (Some(OSRMManeuverType::Merge), None),
        ManeuverType::RoundaboutEnter => (Some(OSRMManeuverType::RoundaboutEnter), None),
        ManeuverType::RoundaboutExit => (Some(OSRMManeuverType::RoundaboutExit), None),
        ManeuverType::FerryEnter => (Some(OSRMManeuverType::Notification), None),
        ManeuverType::FerryExit => (Some(OSRMManeuverType::Notification), None),
        ManeuverType::Transit => (Some(OSRMManeuverType::Notification), None),
        ManeuverType::TransitTransfer => (Some(OSRMManeuverType::Notification), None),
        ManeuverType::TransitRemainOn => (Some(OSRMManeuverType::Notification), None),
        ManeuverType::TransitConnectionStart => (Some(OSRMManeuverType::Notification), None),
        ManeuverType::TransitConnectionTransfer => (Some(OSRMManeuverType::Notification), None),
        ManeuverType::TransitConnectionDestination => (Some(OSRMManeuverType::Notification), None),
        ManeuverType::PostTransitConnectionDestination => (
            Some(OSRMManeuverType::Notification),
            None,
        ),
        ManeuverType::MergeRight => (Some(OSRMManeuverType::Merge), Some(ManeuverDirection::Right)),
        ManeuverType::MergeLeft => (Some(OSRMManeuverType::Merge), Some(ManeuverDirection::Left)),
        ManeuverType::ElevatorEnter => (Some(OSRMManeuverType::Notification), None),
        ManeuverType::StepsEnter => (Some(OSRMManeuverType::Notification), None),
        ManeuverType::EscalatorEnter => (Some(OSRMManeuverType::Notification), None),
        ManeuverType::BuildingEnter => (Some(OSRMManeuverType::Notification), None),
        ManeuverType::BuildingExit => (Some(OSRMManeuverType::Notification), None),
    }
}

/// Maps an internal maneuver type onto the output vocabulary; total over
/// the internal enumeration and free of any default case.
pub fn banner_maneuver(t: ManeuverType) -> (r: (
    Option<OSRMManeuverType>,
    Option<ManeuverDirection>,
))
    ensures
        r == spec_banner_maneuver(t),
{
    match t {
        ManeuverType::Unspecified => (None, None),
        ManeuverType::Start => (Some(OSRMManeuverType::Depart), None),
        ManeuverType::StartRight => (Some(OSRMManeuverType::Depart), Some(ManeuverDirection::Right)),
        ManeuverType::StartLeft => (Some(OSRMManeuverType::Depart), Some(ManeuverDirection::Left)),
        ManeuverType::Destination => (Some(OSRMManeuverType::Arrive), None),
        ManeuverType::DestinationRight => (
            Some(OSRMManeuverType::Arrive),
            Some(ManeuverDirection::Right),
        ),
        ManeuverType::DestinationLeft => (
            Some(OSRMManeuverType::Arrive),
            Some(ManeuverDirection::Left),
        ),
        ManeuverType::Becomes => (Some(OSRMManeuverType::NewName), None),
        ManeuverType::Continue => (Some(OSRMManeuverType::Continue), None),
        ManeuverType::SlightRight => (
            Some(OSRMManeuverType::Turn),
            Some(ManeuverDirection::SlightRight),
        ),
        ManeuverType::Right => (Some(OSRMManeuverType::Turn), Some(ManeuverDirection::Right)),
        ManeuverType::SharpRight => (
            Some(OSRMManeuverType::Turn),
            Some(ManeuverDirection::SharpRight),
        ),
        ManeuverType::UturnRight => (Some(OSRMManeuverType::Turn), Some(ManeuverDirection::Uturn)),
        ManeuverType::UturnLeft => (Some(OSRMManeuverType::Turn), Some(ManeuverDirection::Uturn)),
        ManeuverType::SharpLeft => (
            Some(OSRMManeuverType::Turn),
            Some(ManeuverDirection::SharpLeft),
        ),
        ManeuverType::Left => (Some(OSRMManeuverType::Turn), Some(ManeuverDirection::Left)),
        ManeuverType::SlightLeft => (
            Some(OSRMManeuverType::Turn),
            Some(ManeuverDirection::SlightLeft),
        ),
        ManeuverType::RampStraight => (
            Some(OSRMManeuverType::OnRamp),
            Some(ManeuverDirection::Straight),
        ),
        ManeuverType::RampRight => (Some(OSRMManeuverType::OnRamp), Some(ManeuverDirection::Right)),
        ManeuverType::RampLeft => (Some(OSRMManeuverType::OnRamp), Some(ManeuverDirection::Left)),
        ManeuverType::ExitRight => (Some(OSRMManeuverType::OffRamp), Some(ManeuverDirection::Right)),
        ManeuverType::ExitLeft => (Some(OSRMManeuverType::OffRamp), Some(ManeuverDirection::Left)),
        ManeuverType::StayStraight => (
            Some(OSRMManeuverType::Fork),
            Some(ManeuverDirection::Straight),
        ),
        ManeuverType::StayRight => (Some(OSRMManeuverType::Fork), Some(ManeuverDirection::Right)),
        ManeuverType::StayLeft => (Some(OSRMManeuverType::Fork), Some(ManeuverDirection::Left)),
        ManeuverType::Merge => (Some(OSRMManeuverType::Merge), None),
        ManeuverType::RoundaboutEnter => (Some(OSRMManeuverType::RoundaboutEnter), None),
        ManeuverType::RoundaboutExit => (Some(OSRMManeuverType::RoundaboutExit), None),
        ManeuverType::FerryEnter => (Some(OSRMManeuverType::Notification), None),
        ManeuverType::FerryExit => (Some(OSRMManeuverType::Notification), None),
        ManeuverType::Transit => (Some(OSRMManeuverType::Notification), None),
        ManeuverType::TransitTransfer => (Some(OSRMManeuverType::Notification), None),
        ManeuverType::TransitRemainOn => (Some(OSRMManeuverType::Notification), None),
        ManeuverType::TransitConnectionStart => (Some(OSRMManeuverType::Notification), None),
        ManeuverType::TransitConnectionTransfer => (Some(OSRMManeuverType::Notification), None),
        ManeuverType::TransitConnectionDestination => (Some(OSRMManeuverType::Notification), None),
        ManeuverType::PostTransitConnectionDestination => (
            Some(OSRMManeuverType::Notification),
            None,
        ),
        ManeuverType::MergeRight => (Some(OSRMManeuverType::Merge), Some(ManeuverDirection::Right)),
        ManeuverType::MergeLeft => (Some(OSRMManeuverType::Merge), Some(ManeuverDirection::Left)),
        ManeuverType::ElevatorEnter => (Some(OSRMManeuverType::Notification), None),
        ManeuverType::StepsEnter => (Some(OSRMManeuverType::Notification), None),
        ManeuverType::EscalatorEnter => (Some(OSRMManeuverType::Notification), None),
        ManeuverType::BuildingEnter => (Some(OSRMManeuverType::Notification), None),
        ManeuverType::BuildingExit => (Some(OSRMManeuverType::Notification), None),
    }
}

/// Parts joined with a separator between each pair.
pub open spec fn spec_join(parts: Seq<Seq<char>>, sep: Seq<char>) -> Seq<char>
    decreases parts.len(),
{
    if parts.len() == 0 {
        Seq::empty()
    } else if parts.len() == 1 {
        parts[0]
    } else {
        spec_join(parts.drop_last(), sep) + sep + parts.last()
    }
}

/// Joins strings with a separator.
pub fn join_strings(parts: &Vec<String>, sep: &str) -> (r: String)
    ensures
        r@ == spec_join(view_strings(parts@), sep@),
{
    let mut r = String::new();
    let mut i: usize = 0;
    proof {
        assert(view_strings(parts@).subrange(0, 0) =~= Seq::<Seq<char>>::empty());
    }
    while i < parts.len()
        invariant
            i <= parts@.len(),
            r@ == spec_join(view_strings(parts@).subrange(0, i as int), sep@),
        decreases parts@.len() - i,
    {
        if i > 0 {
            r.append(sep);
        }
        r.append(parts[i].as_str());
        i = i + 1;
        proof {
            let vs = view_strings(parts@);
            assert(vs.subrange(0, i as int).drop_last() =~= vs.subrange(0, i - 1));
            assert(vs.subrange(0, i as int).last() == vs[i - 1]);
            if i == 1 {
                assert(r@ =~= spec_join(vs.subrange(0, 1), sep@));
            }
        }
    }
    proof {
        assert(view_strings(parts@).subrange(0, parts@.len() as int) =~= view_strings(parts@));
    }
    r
}

/// One visual component of a banner: a text fragment or the delimiter
/// between two fragments.
#[derive(Debug, PartialEq, Eq, Clone)]
pub enum BannerComponent {
    Text(VisualInstructionComponent),
    Delimiter(VisualInstructionComponent),
    Lane(LaneIndicationComponent),
}

#[derive(Debug, PartialEq, Eq, Clone)]
pub struct LaneIndicationComponent {}

#[derive(Debug, PartialEq, Eq, Clone)]
pub struct VisualInstructionComponent {
    pub text: Option<String>,
}

#[derive(Debug, PartialEq, Eq, Clone)]
pub struct Lane {}

/// The primary content of a banner: display text, the mapped banner
/// type/modifier pair, and the component fragments.
#[derive(Debug, PartialEq, Eq, Clone)]
pub struct VisualInstruction {
    pub text: String,
    pub maneuver_type: Option<OSRMManeuverType>,
    pub maneuver_direction: Option<ManeuverDirection>,
    pub components: Vec<BannerComponent>,
}

#[derive(Debug, PartialEq, Eq, Clone)]
pub struct VisualInstructionBanner {
    /// Millimeters along the geometry this banner applies for.
    pub distance_along_geometry_mm: u64,
    pub primary: VisualInstruction,
}

/// The location and bearings of one step's maneuver point.
#[derive(Debug, PartialEq, Eq, Clone)]
pub struct RouteStepManeuver {
    pub location: Coordinate,
    /// Degrees clockwise from north before the maneuver.
    pub bearing_before: u16,
    /// Degrees clockwise from north after the maneuver.
    pub bearing_after: u16,
}

/// The banner text fragments of one step: the next maneuver's street
/// names, or its instruction where it has none; the final maneuver's own
/// instruction closes the leg.
pub open spec fn spec_banner_texts(maneuver: Maneuver, next: Option<Maneuver>) -> Option<
    Seq<Seq<char>>,
> {
    match next {
        Some(next_maneuver) => match next_maneuver.street_names {
            Some(names) => Some(view_strings(names@)),
            None => match next_maneuver.instruction {
                Some(instruction) => Some(seq![instruction@]),
                None => None,
            },
        },
        None => match maneuver.instruction {
            Some(instruction) => Some(seq![instruction@]),
            None => None,
        },
    }
}

/// The maneuver the banner describes: the next one where there is one, the
/// final maneuver itself at the end of the leg.
pub open spec fn spec_banner_subject(maneuver: Maneuver, next: Option<Maneuver>) -> ManeuverType {
    match next {
        Some(next_maneuver) => next_maneuver.maneuver_type,
        None => maneuver.maneuver_type,
    }
}

/// The component list of the banner: the fragments alternated with `/`
/// delimiters, or one empty text component where there is no fragment.
pub open spec fn spec_banner_components_ok(
    components: Seq<BannerComponent>,
    texts: Option<Seq<Seq<char>>>,
) -> bool {
    match texts {
        Some(parts) => if parts.len() == 0 {
            components.len() == 1 && (components[0] matches BannerComponent::Text(c) && c.text
                is None)
        } else {
            &&& components.len() == 2 * parts.len() - 1
            &&& (forall|i: int|
                0 <= i < parts.len() ==> ((#[trigger] components[2 * i])
                    matches BannerComponent::Text(c) && c.text is Some && c.text.unwrap()@
                    == parts[i]))
            &&& (forall|i: int|
                0 <= i < parts.len() - 1 ==> ((#[trigger] components[2 * i + 1])
                    matches BannerComponent::Delimiter(c) && c.text is Some && c.text.unwrap()@
                    == "/"@))
        },
        None => components.len() == 1 && (components[0] matches BannerComponent::Text(c) && c.text
            is None),
    }
}

impl VisualInstructionBanner {
    /// Builds the banner shown while traveling one maneuver, from a
    /// one-maneuver lookahead.  The final maneuver of a leg must be an
    /// arrival.
    pub fn from_maneuver(
        maneuver: &Maneuver,
        next_maneuver: Option<&Maneuver>,
        from_distance_unit: DistanceUnit,
    ) -> (r: Option<Vec<VisualInstructionBanner>>)
        requires
            maneuver.bounded(),
            next_maneuver is None ==> (maneuver.maneuver_type == ManeuverType::Destination
                || maneuver.maneuver_type == ManeuverType::DestinationRight
                || maneuver.maneuver_type == ManeuverType::DestinationLeft),
        ensures
            r is Some && r.unwrap()@.len() == 1,
            ({
                let banner = r.unwrap()@[0];
                let next = match next_maneuver {
                    Some(m) => Some(*m),
                    None => None,
                };
                let texts = spec_banner_texts(*maneuver, next);
                &&& banner.distance_along_geometry_mm == spec_to_meters(
                    maneuver.distance_e6 as int,
                    from_distance_unit,
                )
                &&& (banner.primary.maneuver_type, banner.primary.maneuver_direction)
                    == spec_banner_maneuver(spec_banner_subject(*maneuver, next))
                &&& (match texts {
                    Some(parts) => banner.primary.text@ == spec_join(parts, "/"@),
                    None => banner.primary.text@ == Seq::<char>::empty(),
                })
                &&& spec_banner_components_ok(banner.primary.components@, texts)
            }),
    {
        let text_parts: Option<Vec<String>> = match next_maneuver {
            Some(next) => match &next.street_names {
                Some(names) => Some(clone_strings(names)),
                None => match &next.instruction {
                    Some(instruction) => {
                        let mut v: Vec<String> = Vec::new();
                        v.push(clone_string_of(instruction));
                        Some(v)
                    },
                    None => None,
                },
            },
            None => match &maneuver.instruction {
                Some(instruction) => {
                    let mut v: Vec<String> = Vec::new();
                    v.push(clone_string_of(instruction));
                    Some(v)
                },
                None => None,
            },
        };
        let subject_type = match next_maneuver {
            Some(next) => next.maneuver_type,
            None => maneuver.maneuver_type,
        };
        let (maneuver_type, maneuver_direction) = banner_maneuver(subject_type);
        let ghost next_g = match next_maneuver {
            Some(m) => Some(*m),
            None => None::<Maneuver>,
        };
        let ghost texts_g = spec_banner_texts(*maneuver, next_g);
        proof {
            match next_g {
                Some(n) => {
                    assert(texts_g == spec_banner_texts(*maneuver, next_g));
                },
                None => {
                },
            }
        }
        let (text, components) = match &text_parts {
            Some(parts) => {
                proof {
                    assert(texts_g is Some && texts_g.unwrap() =~= view_strings(parts@));
                }
                let text = join_strings(parts, "/");
                let mut components: Vec<BannerComponent> = Vec::new();
                if parts.len() == 0 {
                    components.push(BannerComponent::Text(VisualInstructionComponent { text: None }));
                } else {
                    let mut i: usize = 0;
                    while i < parts.len()
                        invariant
                            i <= parts@.len(),
                            parts@.len() >= 1,
                            components@.len() == (if i == 0 {
                                0int
                            } else {
                                2 * i - 1
                            }),
                            forall|j: int|
                                0 <= j < i ==> ((#[trigger] components@[2 * j])
                                    matches BannerComponent::Text(c) && c.text is Some
                                    && c.text.unwrap()@ == parts@[j]@),
                            forall|j: int|
                                0 <= j < i - 1 ==> ((#[trigger] components@[2 * j + 1])
                                    matches BannerComponent::Delimiter(c) && c.text is Some
                                    && c.text.unwrap()@ == "/"@),
                        decreases parts@.len() - i,
                    {
                        if i > 0 {
                            components.push(
                                BannerComponent::Delimiter(
                                    VisualInstructionComponent {
                                        text: Some(String::from_str("/")),
                                    },
                                ),
                            );
                        }
                        components.push(
                            BannerComponent::Text(
                                VisualInstructionComponent {
                                    text: Some(clone_string_of(&parts[i])),
                                },
                            ),
                        );
                        i = i + 1;
                    }
                }
                (text, components)
            },
            None => {
                let mut components: Vec<BannerComponent> = Vec::new();
                components.push(BannerComponent::Text(VisualInstructionComponent { text: None }));
                (String::new(), components)
            },
        };
        let primary = VisualInstruction { text, maneuver_type, maneuver_direction, components };
        let banner = VisualInstructionBanner {
            distance_along_geometry_mm: maneuver.distance_meters(from_distance_unit),
            primary,
        };
        let mut banners: Vec<VisualInstructionBanner> = Vec::new();
        banners.push(banner);
        Some(banners)
    }
}

/// One turn-by-turn step, derived from one maneuver with a one-maneuver
/// lookahead and lookback.
#[derive(Debug, PartialEq, Eq, Clone)]
pub struct RouteStep {
    /// Millimeters.
    pub distance_mm: u64,
    pub duration_ms: u64,
    pub geometry: Vec<Coordinate>,
    /// The name of the way along which travel proceeds.
    pub name: String,
    pub mode: TravelMode,
    pub maneuver: RouteStepManeuver,
    pub banner_instructions: Option<Vec<VisualInstructionBanner>>,
}

/// What one derived step holds: the maneuver's own measures in meters and
/// milliseconds, its geometry slice, its street names joined, its banner,
/// and bearings taken from its own and the previous maneuver's geometry.
pub open spec fn route_step_matches(
    step: RouteStep,
    prev: Option<Maneuver>,
    m: Maneuver,
    next: Option<Maneuver>,
    mode: TravelMode,
    unit: DistanceUnit,
) -> bool {
    &&& step.distance_mm == spec_to_meters(m.distance_e6 as int, unit)
    &&& step.duration_ms == m.duration_ms
    &&& step.geometry@ == m.geometry@
    &&& (match m.street_names {
        Some(names) => step.name@ == spec_join(view_strings(names@), ", "@),
        None => step.name@ == Seq::<char>::empty(),
    })
    &&& step.mode == mode
    &&& step.maneuver.location == m.start_point
    &&& step.maneuver.bearing_after == (if m.geometry@.len() >= 2 {
        spec_bearing_deg(m.geometry@[0], m.geometry@[1])
    } else {
        0
    })
    &&& (match prev {
        Some(p) => {
            (p.geometry@.len() >= 2 && spec_haversine_mm(
                p.geometry@[p.geometry@.len() - 2],
                p.geometry@[p.geometry@.len() - 1],
            ) >= 1000) ==> step.maneuver.bearing_before == spec_bearing_deg(
                p.geometry@[p.geometry@.len() - 2],
                p.geometry@[p.geometry@.len() - 1],
            )
        },
        None => step.maneuver.bearing_before == step.maneuver.bearing_after,
    })
    &&& step.maneuver.bearing_before < 360
    &&& step.maneuver.bearing_after < 360
    &&& (match step.banner_instructions {
        Some(banners) => banners@.len() == 1 && banner_matches(banners@[0], m, next, unit),
        None => false,
    })
}

/// What the banner shown while traveling a maneuver holds: the distance it
/// applies for, the mapped type/modifier pair of the maneuver it describes,
/// and the lookahead text as both display text and components.
pub open spec fn banner_matches(
    banner: VisualInstructionBanner,
    m: Maneuver,
    next: Option<Maneuver>,
    unit: DistanceUnit,
) -> bool {
    let texts = spec_banner_texts(m, next);
    &&& banner.distance_along_geometry_mm == spec_to_meters(m.distance_e6 as int, unit)
    &&& (banner.primary.maneuver_type, banner.primary.maneuver_direction) == spec_banner_maneuver(
        spec_banner_subject(m, next),
    )
    &&& (match texts {
        Some(parts) => banner.primary.text@ == spec_join(parts, "/"@),
        None => banner.primary.text@ == Seq::<char>::empty(),
    })
    &&& spec_banner_components_ok(banner.primary.components@, texts)
}

impl RouteStep {
    /// Derives one step.  Bearing-after comes from the maneuver's own
    /// geometry; bearing-before from the end of the previous maneuver's
    /// geometry, or copied from bearing-after for the first step of a leg.
    pub fn from_maneuver(
        prev_maneuver: Option<&Maneuver>,
        maneuver: Maneuver,
        next_maneuver: Option<&Maneuver>,
        mode: TravelMode,
        from_distance_unit: DistanceUnit,
    ) -> (r: RouteStep)
        requires
            maneuver.bounded(),
            match prev_maneuver {
                Some(p) => p.bounded(),
                None => true,
            },
            next_maneuver is None ==> (maneuver.maneuver_type == ManeuverType::Destination
                || maneuver.maneuver_type == ManeuverType::DestinationRight
                || maneuver.maneuver_type == ManeuverType::DestinationLeft),
        ensures
            route_step_matches(
                r,
                match prev_maneuver {
                    Some(p) => Some(*p),
                    None => None,
                },
                maneuver,
                match next_maneuver {
                    Some(n) => Some(*n),
                    None => None,
                },
                mode,
                from_distance_unit,
            ),
    {
        let banner_instructions = VisualInstructionBanner::from_maneuver(
            &maneuver,
            next_maneuver,
            from_distance_unit,
        );
        let bearing_after = match bearing_at_start(&maneuver.geometry) {
            Some(b) => b,
            None => 0,
        };
        let bearing_before = match prev_maneuver {
            Some(prev) => match bearing_at_end(&prev.geometry) {
                Some(b) => b,
                None => bearing_after,
            },
            None => bearing_after,
        };
        let name = match &maneuver.street_names {
            Some(names) => join_strings(names, ", "),
            None => String::new(),
        };
        RouteStep {
            distance_mm: maneuver.distance_meters(from_distance_unit),
            duration_ms: maneuver.duration_ms,
            geometry: maneuver.geometry,
            name,
            mode,
            maneuver: RouteStepManeuver {
                location: maneuver.start_point,
                bearing_before,
                bearing_after,
            },
            banner_instructions,
        }
    }
}

/// One leg of a derived route.
#[derive(Debug, PartialEq, Eq, Clone)]
pub struct RouteLeg {
    /// Millimeters.
    pub distance_mm: u64,
    pub duration_ms: u64,
    /// The substantial street names of the leg, joined.
    pub summary: String,
    pub steps: Vec<RouteStep>,
}

/// A leg can be projected into turn-by-turn form when it is a non-transit
/// leg of at least two maneuvers ending in an arrival.
pub open spec fn leg_routable(leg: Leg) -> bool {
    &&& leg.bounded()
    &&& match leg.mode_leg {
        ModeLeg::NonTransit(nt) => {
            &&& nt.maneuvers@.len() >= 2
            &&& (nt.maneuvers@.last().maneuver_type == ManeuverType::Destination
                || nt.maneuvers@.last().maneuver_type == ManeuverType::DestinationRight
                || nt.maneuvers@.last().maneuver_type == ManeuverType::DestinationLeft)
        },
        ModeLeg::Transit(_) => false,
    }
}

pub open spec fn spec_leg_maneuvers(leg: Leg) -> Seq<Maneuver> {
    match leg.mode_leg {
        ModeLeg::NonTransit(nt) => nt.maneuvers@,
        ModeLeg::Transit(_) => Seq::empty(),
    }
}

impl RouteLeg {
    /// Derives one route leg: its summary is the leg's substantial street
    /// names joined, and each maneuver becomes one step with a lookahead
    /// and lookback of one.  Turn-by-turn output is only defined for
    /// non-transit legs; requesting it for a transit leg is a caller
    /// contract violation.
    pub fn from_leg(value: Leg, distance_unit: DistanceUnit) -> (r: RouteLeg)
        requires
            leg_routable(value),
        ensures
            r.distance_mm == spec_to_meters(value.distance_e6 as int, distance_unit),
            r.duration_ms == value.duration_ms,
            (match value.mode_leg {
                ModeLeg::NonTransit(nt) => r.summary@ == spec_join(
                    view_strings(nt.substantial_street_names@),
                    ", "@,
                ),
                ModeLeg::Transit(_) => false,
            }),
            r.steps@.len() == spec_leg_maneuvers(value).len(),
            ({
                let ms = spec_leg_maneuvers(value);
                forall|i: int|
                    0 <= i < ms.len() ==> route_step_matches(
                        #[trigger] r.steps@[i],
                        if i == 0 {
                            None
                        } else {
                            Some(ms[i - 1])
                        },
                        ms[i],
                        if i == ms.len() - 1 {
                            None
                        } else {
                            Some(ms[i + 1])
                        },
                        value.mode,
                        distance_unit,
                    )
            }),
    {
        let distance_mm = value.distance_meters(distance_unit);
        let (summary, steps) = match value.mode_leg {
            ModeLeg::Transit(_) => {
                // ruled out by the precondition: turn-by-turn output is
                // undefined for transit legs
                proof {
                    assert(false);
                }
                (String::new(), Vec::new())
            },
            ModeLeg::NonTransit(non_transit_leg) => {
                let summary = join_strings(&non_transit_leg.substantial_street_names, ", ");
                let maneuvers = non_transit_leg.maneuvers;
                let n = maneuvers.len();
                let mut steps: Vec<RouteStep> = Vec::new();
                let mut i: usize = 0;
                while i < n
                    invariant
                        i <= n == maneuvers@.len(),
                        2 <= n,
                        forall|j: int| 0 <= j < n ==> (#[trigger] maneuvers@[j]).bounded(),
                        maneuvers@.last().maneuver_type == ManeuverType::Destination
                            || maneuvers@.last().maneuver_type == ManeuverType::DestinationRight
                            || maneuvers@.last().maneuver_type == ManeuverType::DestinationLeft,
                        steps@.len() == i,
                        forall|j: int|
                            0 <= j < i ==> route_step_matches(
                                #[trigger] steps@[j],
                                if j == 0 {
                                    None
                                } else {
                                    Some(maneuvers@[j - 1])
                                },
                                maneuvers@[j],
                                if j == n - 1 {
                                    None
                                } else {
                                    Some(maneuvers@[j + 1])
                                },
                                value.mode,
                                distance_unit,
                            ),
                    decreases n - i,
                {
                    let prev = if i == 0 {
                        None
                    } else {
                        Some(&maneuvers[i - 1])
                    };
                    let next = if i == n - 1 {
                        None
                    } else {
                        Some(&maneuvers[i + 1])
                    };
                    let m = clone_maneuver(&maneuvers[i]);
                    proof {
                        assert(maneuver_like(m, maneuvers@[i as int]));
                    }
                    let step = RouteStep::from_maneuver(prev, m, next, value.mode, distance_unit);
                    steps.push(step);
                    i = i + 1;
                }
                (summary, steps)
            },
        };
        RouteLeg { distance_mm, duration_ms: value.duration_ms, summary, steps }
    }
}

/// Two maneuvers that carry the same readings: equal in every field, with
/// text compared by content.
pub open spec fn maneuver_like(a: Maneuver, b: Maneuver) -> bool {
    &&& (match (a.instruction, b.instruction) {
        (Some(x), Some(y)) => x@ == y@,
        (None, None) => true,
        _ => false,
    })
    &&& a.geometry@ == b.geometry@
    &&& a.distance_e6 == b.distance_e6
    &&& (match (a.street_names, b.street_names) {
        (Some(x), Some(y)) => view_strings(x@) == view_strings(y@),
        (None, None) => true,
        _ => false,
    })
    &&& a.duration_ms == b.duration_ms
    &&& a.maneuver_type == b.maneuver_type
    &&& (match (
        a.verbal_post_transition_instruction,
        b.verbal_post_transition_instruction,
    ) {
        (Some(x), Some(y)) => x@ == y@,
        (None, None) => true,
        _ => false,
    })
    &&& a.start_point == b.start_point
}

/// A copy of a maneuver, like it in every reading.
pub fn clone_maneuver(m: &Maneuver) -> (r: Maneuver)
    ensures
        maneuver_like(r, *m),
        m.bounded() ==> r.bounded(),
{
    Maneuver {
        instruction: match &m.instruction {
            Some(s) => Some(clone_string_of(s)),
            None => None,
        },
        geometry: {
            let n = m.geometry.len();
            let mut g: Vec<Coordinate> = Vec::new();
            let mut i: usize = 0;
            while i < n
                invariant
                    i <= n == m.geometry@.len(),
                    g@ == m.geometry@.subrange(0, i as int),
                decreases n - i,
            {
                g.push(m.geometry[i]);
                i = i + 1;
                proof {
                    assert(g@ =~= m.geometry@.subrange(0, i as int));
                }
            }
            proof {
                assert(m.geometry@.subrange(0, m.geometry@.len() as int) =~= m.geometry@);
            }
            g
        },
        distance_e6: m.distance_e6,
        street_names: match &m.street_names {
            Some(names) => Some(clone_strings(names)),
            None => None,
        },
        duration_ms: m.duration_ms,
        maneuver_type: m.maneuver_type,
        verbal_post_transition_instruction: match &m.verbal_post_transition_instruction {
            Some(s) => Some(clone_string_of(s)),
            None => None,
        },
        start_point: m.start_point,
    }
}

/// The route between waypoints: one derived projection of an itinerary.
#[derive(Debug, PartialEq, Eq, Clone)]
pub struct Route {
    /// Millimeters, whatever unit the itinerary declared.
    pub distance_mm: u64,
    pub duration_ms: u64,
    /// The entire geometry of the route: all leg geometries in order.
    pub geometry: Vec<Coordinate>,
    pub legs: Vec<RouteLeg>,
}

/// What one derived route leg holds, against the canonical leg it came
/// from: the leg's measures in meters and milliseconds, its substantial
/// street names joined as the summary, and one matching step per maneuver.
pub open spec fn route_leg_matches(out: RouteLeg, leg: Leg, distance_units: DistanceUnit) -> bool {
    &&& out.distance_mm == spec_to_meters(leg.distance_e6 as int, distance_units)
    &&& out.duration_ms == leg.duration_ms
    &&& (match leg.mode_leg {
        ModeLeg::NonTransit(nt) => out.summary@ == spec_join(
            view_strings(nt.substantial_street_names@),
            ", "@,
        ),
        ModeLeg::Transit(_) => true,
    })
    &&& out.steps@.len() == spec_leg_maneuvers(leg).len()
    &&& ({
        let ms = spec_leg_maneuvers(leg);
        forall|k: int|
            0 <= k < ms.len() ==> route_step_matches(
                #[trigger] out.steps@[k],
                if k == 0 {
                    None
                } else {
                    Some(ms[k - 1])
                },
                ms[k],
                if k == ms.len() - 1 {
                    None
                } else {
                    Some(ms[k + 1])
                },
                leg.mode,
                distance_units,
            )
    })
}

/// An itinerary can be projected into turn-by-turn form when every leg
/// can.
pub open spec fn itinerary_routable(it: Itinerary) -> bool {
    &&& it.bounded()
    &&& forall|i: int| 0 <= i < it.legs@.len() ==> leg_routable(#[trigger] it.legs@[i])
}

impl Route {
    /// Projects an itinerary into a route: total distance re-expressed in
    /// meters, the concatenated geometry, and one route leg per leg.
    pub fn from_itinerary(itinerary: Itinerary) -> (r: Route)
        requires
            itinerary_routable(itinerary),
        ensures
            r.distance_mm == spec_to_meters(itinerary.distance_e6 as int, itinerary.distance_units),
            r.duration_ms == itinerary.duration_ms,
            r.geometry@ == spec_combined_geometry(itinerary.legs@),
            r.legs@.len() == itinerary.legs@.len(),
            forall|i: int|
                0 <= i < itinerary.legs@.len() ==> route_leg_matches(
                    #[trigger] r.legs@[i],
                    itinerary.legs@[i],
                    itinerary.distance_units,
                ),
    {
        let distance_mm = itinerary.distance_meters();
        let geometry = itinerary.combined_geometry();
        let distance_units = itinerary.distance_units;
        let duration_ms = itinerary.duration_ms;
        let mut legs: Vec<RouteLeg> = Vec::new();
        let mut remaining = itinerary.legs;
        let ghost legs0 = remaining@;
        let n = remaining.len();
        let mut i: usize = 0;
        while i < n
            invariant
                i <= n == legs0.len(),
                remaining@ == legs0.skip(i as int),
                forall|j: int| 0 <= j < legs0.len() ==> leg_routable(#[trigger] legs0[j]),
                legs@.len() == i,
                forall|j: int|
                    0 <= j < i ==> route_leg_matches(#[trigger] legs@[j], legs0[j], distance_units),
            decreases n - i,
        {
            let leg = remaining.remove(0);
            proof {
                assert(leg == legs0[i as int]);
                assert(remaining@ =~= legs0.skip(i + 1));
            }
            let route_leg = RouteLeg::from_leg(leg, distance_units);
            legs.push(route_leg);
            i = i + 1;
        }
        Route { distance_mm, duration_ms, geometry, legs }
    }
}

} // verus!
