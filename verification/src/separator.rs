//! Separators between lanes: what separates two lanes, and the markings of it.

use vstd::prelude::*;

use crate::builder::{spec_lanes_ltr, LaneBuilder, LaneType, RoadBuilder};
use crate::infer::{confidence, infer_value, Infer};
use crate::locale::{in_country, netherlands_value, united_kingdom_value, in_americas, Locale};
use crate::metric::{kph_scaled, kph_units, Metre, Speed};
use crate::msg::{IssueKind, MsgView, RoadWarnings, TagsToLanesMsg};
use crate::road::{Color, Designated, Direction, Lane, LaneView, Marking, Markings, Style};
use crate::tags::{lookup, PairView, Tags};

verus! {

/// Semantic speed class.
#[derive(Clone, Copy, Debug, PartialEq, Eq, Structural)]
pub enum SpeedClass {
    Walking,
    /// About 30 km/h or 20 mph.
    Living,
    /// About 50 km/h or 30 mph.
    Intra,
    /// About 80 km/h or 50 mph.
    Inter,
    Max,
}

/// The speed class of a speed from 0 up to 200 km/h.
pub open spec fn spec_speed_class(s: Speed) -> SpeedClass {
    let k = kph_scaled(s);
    if k < kph_units(15) {
        SpeedClass::Walking
    } else if k < kph_units(40) {
        SpeedClass::Living
    } else if k < kph_units(70) {
        SpeedClass::Intra
    } else if k < kph_units(100) {
        SpeedClass::Inter
    } else {
        SpeedClass::Max
    }
}

/// A speed that has a speed class: from 0 up to 200 km/h.
pub open spec fn has_speed_class(s: Speed) -> bool {
    0 <= kph_scaled(s) < kph_units(200)
}

impl SpeedClass {
    /// The class of a speed: walking below 15 km/h, living below 40, intra
    /// below 70, inter below 100, and max below 200.
    pub fn from_speed(s: Speed) -> (r: Self)
        requires
            has_speed_class(s),
        ensures
            r == spec_speed_class(s),
    {
        let k = s.kph_scaled();
        if k < 15 * 100000000 {
            SpeedClass::Walking
        } else if k < 40 * 100000000 {
            SpeedClass::Living
        } else if k < 70 * 100000000 {
            SpeedClass::Intra
        } else if k < 100 * 100000000 {
            SpeedClass::Inter
        } else {
            SpeedClass::Max
        }
    }
}

/// Overtaking rules (not the local rules for particular vehicles).
#[derive(Clone, Copy, Debug, PartialEq, Eq, Structural)]
pub enum Overtake {
    Permitted,
    Prohibited,
}

/// Lane change rules (not the local rules for particular vehicles).
#[derive(Clone, Copy, Debug, PartialEq, Eq, Structural)]
pub enum LaneChange {
    Permitted,
    Prohibited,
}

/// Parking conditions, <https://wiki.openstreetmap.org/wiki/Key:parking:condition>.
#[derive(Clone, Copy, Debug, PartialEq, Eq, Structural)]
pub enum ParkingCondition {
    NoStopping,
}

/// A semantic separator between lanes.
#[derive(Clone, Copy, Debug, PartialEq, Eq, Structural)]
pub enum Separator {
    /// Motorway (or other) shoulder.
    Shoulder { speed: Infer<SpeedClass> },
    /// Road paint between lanes in the same direction.
    Lane { speed: Infer<SpeedClass>, change: LaneChange },
    /// Road paint between opposite directions.
    Centre { speed: Infer<SpeedClass>, overtake: Overtake, more_than_2_lanes: bool },
    /// Road paint between different modes.
    Modal { speed: Infer<SpeedClass>, change: LaneChange, inside: Designated, outside: Designated },
    /// Painted area.
    Buffer { width: Metre, style: Style },
    /// Kerb step.
    Kerb { parking_condition: Option<ParkingCondition> },
    /// Grassy verge.
    Verge { width: Metre },
}

/// A semantic separator on the edge of the road.
#[derive(Clone, Copy, Debug, PartialEq, Eq, Structural)]
pub enum EdgeSeparator {
    /// Into a building or other hard surface.
    Hard { parking_condition: Option<ParkingCondition> },
}

/// How the direction changes between two lanes.
#[derive(Clone, Copy, Debug, PartialEq, Eq, Structural)]
pub enum DirectionChange {
    /// One of the lanes is both ways, or its direction is not known.
    Unknown,
    Same,
    Opposite,
}

/// How the direction changes between two lanes.
pub open spec fn spec_direction_change(inside: LaneBuilder, outside: LaneBuilder) -> DirectionChange {
    match (infer_value(inside.direction), infer_value(outside.direction)) {
        (Some(Direction::Forward), Some(Direction::Forward)) | (
            Some(Direction::Backward),
            Some(Direction::Backward),
        ) => DirectionChange::Same,
        (Some(Direction::Forward), Some(Direction::Backward)) | (
            Some(Direction::Backward),
            Some(Direction::Forward),
        ) => DirectionChange::Opposite,
        _ => DirectionChange::Unknown,
    }
}

/// The speed class of a lane's maximum speed, with its confidence.
pub open spec fn spec_speed(l: LaneBuilder) -> Infer<SpeedClass> {
    match l.max_speed {
        Infer::Unset => Infer::Unset,
        Infer::Default(s) => Infer::Default(spec_speed_class(s)),
        Infer::Calculated(s) => Infer::Calculated(spec_speed_class(s)),
        Infer::Direct(s) => Infer::Direct(spec_speed_class(s)),
    }
}

/// A lane whose maximum speed, if any, has a speed class.
pub open spec fn speed_ok(l: LaneBuilder) -> bool {
    infer_value(l.max_speed) matches Some(s) ==> has_speed_class(s)
}

/// The speed class of a lane's maximum speed.
fn speed_of(l: &LaneBuilder) -> (r: Infer<SpeedClass>)
    requires
        speed_ok(*l),
    ensures
        r == spec_speed(*l),
{
    match l.max_speed {
        Infer::Unset => Infer::Unset,
        Infer::Default(s) => Infer::Default(SpeedClass::from_speed(s)),
        Infer::Calculated(s) => Infer::Calculated(SpeedClass::from_speed(s)),
        Infer::Direct(s) => Infer::Direct(SpeedClass::from_speed(s)),
    }
}

/// Whether a lane is a travel lane for motor vehicles or buses.
pub open spec fn is_motor_travel(l: LaneBuilder) -> bool {
    infer_value(l.lane_type) == Some(LaneType::Travel) && (infer_value(l.designated) == Some(
        Designated::Motor,
    ) || infer_value(l.designated) == Some(Designated::Bus))
}

/// The number of travel lanes for motor vehicles or buses.
pub open spec fn count_motor(s: Seq<LaneBuilder>) -> nat
    decreases s.len(),
{
    if s.len() == 0 {
        0
    } else {
        count_motor(s.drop_last()) + if is_motor_travel(s.last()) {
            1nat
        } else {
            0nat
        }
    }
}

proof fn lemma_count_motor_bound(s: Seq<LaneBuilder>)
    ensures
        count_motor(s) <= s.len(),
    decreases s.len(),
{
    if s.len() > 0 {
        lemma_count_motor_bound(s.drop_last());
    }
}

/// The number of travel lanes for motor vehicles or buses.
fn count_motor_lanes(lanes: &Vec<LaneBuilder>) -> (r: usize)
    ensures
        r == count_motor(lanes@),
{
    let mut n: usize = 0;
    let mut i: usize = 0;
    while i < lanes.len()
        invariant
            i <= lanes@.len(),
            n == count_motor(lanes@.take(i as int)),
        decreases lanes@.len() - i,
    {
        assert(lanes@.take(i + 1).drop_last() =~= lanes@.take(i as int));
        proof {
            lemma_count_motor_bound(lanes@.take(i as int));
        }
        let l = lanes[i];
        let motor_travel = match (l.lane_type, l.designated) {
            (Infer::Default(LaneType::Travel), d) | (Infer::Calculated(LaneType::Travel), d) | (
                Infer::Direct(LaneType::Travel),
                d,
            ) => match d {
                Infer::Default(Designated::Motor) | Infer::Calculated(Designated::Motor) | Infer::Direct(
                    Designated::Motor,
                ) | Infer::Default(Designated::Bus) | Infer::Calculated(Designated::Bus) | Infer::Direct(
                    Designated::Bus,
                ) => true,
                _ => false,
            },
            _ => false,
        };
        if motor_travel {
            n = n + 1;
        }
        i = i + 1;
    }
    assert(lanes@.take(lanes@.len() as int) =~= lanes@);
    n
}

/// The separator between two motor lanes: a centre line where the road has
/// two motor lanes, else a lane line between lanes in the same direction and a
/// centre line otherwise.
pub open spec fn spec_motor_separator(
    inside: LaneBuilder,
    dc: DirectionChange,
    motor_count: nat,
) -> Separator {
    if motor_count == 2 {
        Separator::Centre {
            speed: spec_speed(inside),
            overtake: Overtake::Permitted,
            more_than_2_lanes: false,
        }
    } else if dc == DirectionChange::Same {
        Separator::Lane { speed: spec_speed(inside), change: LaneChange::Permitted }
    } else {
        Separator::Centre {
            speed: spec_speed(inside),
            overtake: Overtake::Permitted,
            more_than_2_lanes: true,
        }
    }
}

/// The semantic separator between two lanes, inside to outside, if one is known.
pub open spec fn spec_pair_separator(
    inside: LaneBuilder,
    outside: LaneBuilder,
    motor_count: nat,
) -> Option<Separator> {
    let ind = infer_value(inside.designated);
    let outd = infer_value(outside.designated);
    if outd == Some(Designated::Foot) {
        Some(Separator::Kerb { parking_condition: None })
    } else if infer_value(outside.lane_type) == Some(LaneType::Shoulder) {
        Some(Separator::Shoulder { speed: spec_speed(inside) })
    } else if ind == Some(Designated::Motor) && outd == Some(Designated::Motor) {
        Some(spec_motor_separator(inside, spec_direction_change(inside, outside), motor_count))
    } else if ind is Some && outd is Some && ind != outd {
        Some(
            Separator::Modal {
                speed: spec_speed(inside),
                change: LaneChange::Permitted,
                inside: ind.unwrap(),
                outside: outd.unwrap(),
            },
        )
    } else {
        None
    }
}

/// Between two motor lanes (the outer one no shoulder), the separator follows
/// the directions of the two lanes: on a road of two motor lanes it is a
/// centre line for two lanes; on any other road it is a lane line, where lane
/// changes are permitted, between lanes going the same way, and a centre line
/// for more than two lanes between lanes going opposite ways or where a
/// direction is both ways or unknown.
pub proof fn lemma_motor_separator_follows_directions(
    inside: LaneBuilder,
    outside: LaneBuilder,
    motor_count: nat,
)
    requires
        infer_value(inside.designated) == Some(Designated::Motor),
        infer_value(outside.designated) == Some(Designated::Motor),
        infer_value(outside.lane_type) != Some(LaneType::Shoulder),
    ensures
        motor_count == 2 ==> spec_pair_separator(inside, outside, motor_count) == Some(
            Separator::Centre {
                speed: spec_speed(inside),
                overtake: Overtake::Permitted,
                more_than_2_lanes: false,
            },
        ),
        motor_count != 2 && (infer_value(inside.direction) == Some(Direction::Forward)
            || infer_value(inside.direction) == Some(Direction::Backward)) && infer_value(
            outside.direction,
        ) == infer_value(inside.direction) ==> spec_pair_separator(inside, outside, motor_count)
            == Some(Separator::Lane { speed: spec_speed(inside), change: LaneChange::Permitted }),
        motor_count != 2 && !((infer_value(inside.direction) == Some(Direction::Forward)
            || infer_value(inside.direction) == Some(Direction::Backward)) && infer_value(
            outside.direction,
        ) == infer_value(inside.direction)) ==> spec_pair_separator(inside, outside, motor_count)
            == Some(
            Separator::Centre {
                speed: spec_speed(inside),
                overtake: Overtake::Permitted,
                more_than_2_lanes: true,
            },
        ),
{
}

/// Finding the separator between two lanes, inside to outside, reads the
/// speed class of the inside lane: every known separator but a kerb does.
pub open spec fn reads_speed(inside: LaneBuilder, outside: LaneBuilder) -> bool {
    spec_pair_separator(inside, outside, 0) matches Some(s) && !(s is Kerb)
}

/// The separator between two lanes can be found: where it reads the speed
/// class of the inside lane, its maximum speed has one.
pub open spec fn pair_speed_ok(inside: LaneBuilder, outside: LaneBuilder) -> bool {
    reads_speed(inside, outside) ==> speed_ok(inside)
}

/// Tests whether the separator between two lanes can be found.
pub fn is_pair_speed_ok(inside: &LaneBuilder, outside: &LaneBuilder) -> (r: bool)
    ensures
        r == pair_speed_ok(*inside, *outside),
{
    let ind = inside.designated.some();
    let outd = outside.designated.some();
    let outside_shoulder = match outside.lane_type.some() {
        Some(LaneType::Shoulder) => true,
        _ => false,
    };
    let reads = if outd == Some(Designated::Foot) {
        false
    } else if outside_shoulder {
        true
    } else if ind == Some(Designated::Motor) && outd == Some(Designated::Motor) {
        true
    } else {
        match (ind, outd) {
            (Some(a), Some(b)) => a != b,
            _ => false,
        }
    };
    if !reads {
        return true;
    }
    match inside.max_speed.some() {
        Some(s) => {
            let k = s.kph_scaled();
            0 <= k && k < 20000000000
        },
        None => true,
    }
}

/// The message that no separator is known between two lanes.
pub open spec fn unknown_separator_msg(inside: LaneBuilder, outside: LaneBuilder) -> MsgView {
    MsgView {
        kind: IssueKind::SeparatorUnknown,
        description: None,
        tags: None,
        suggested: None,
        lanes: Some((inside, outside)),
    }
}

/// The message that the default separator may not match the locale.
pub open spec fn locale_unused_msg(inside: LaneBuilder, outside: LaneBuilder) -> MsgView {
    MsgView {
        kind: IssueKind::SeparatorLocaleUnused,
        description: None,
        tags: None,
        suggested: None,
        lanes: Some((inside, outside)),
    }
}

/// The semantic separator between two motor lanes, inside to outside: a centre
/// line on a road of two motor lanes, else a lane line between lanes in the
/// same direction and a centre line otherwise.
fn motor_lane_pair_to_semantic_separator(
    inside: &LaneBuilder,
    direction_change: DirectionChange,
    road: &RoadBuilder,
    locale: &Locale,
) -> (r: Separator)
    requires
        speed_ok(*inside),
    ensures
        r == spec_motor_separator(
            *inside,
            direction_change,
            count_motor(spec_lanes_ltr(road.forward_lanes@, road.backward_lanes@, locale.driving_side)),
        ),
{
    let ltr = road.lanes_ltr(locale);
    let count = count_motor_lanes(&ltr);
    let speed = speed_of(inside);
    if count == 2 {
        Separator::Centre { speed, overtake: Overtake::Permitted, more_than_2_lanes: false }
    } else if direction_change == DirectionChange::Same {
        Separator::Lane { speed, change: LaneChange::Permitted }
    } else {
        Separator::Centre { speed, overtake: Overtake::Permitted, more_than_2_lanes: true }
    }
}

/// Given a pair of lanes, inside to outside, the semantic separator between
/// them; where none is known, that is warned about.
pub fn lane_pair_to_semantic_separator(
    inside: &LaneBuilder,
    outside: &LaneBuilder,
    road: &RoadBuilder,
    _tags: &Tags,
    locale: &Locale,
    warnings: &mut RoadWarnings,
) -> (r: Option<Separator>)
    requires
        pair_speed_ok(*inside, *outside),
    ensures
        r == spec_pair_separator(
            *inside,
            *outside,
            count_motor(spec_lanes_ltr(road.forward_lanes@, road.backward_lanes@, locale.driving_side)),
        ),
        final(warnings)@ == if r is Some {
            old(warnings)@
        } else {
            old(warnings)@.push(unknown_separator_msg(*inside, *outside))
        },
{
    let ind = inside.designated.some();
    let outd = outside.designated.some();
    let outside_shoulder = match outside.lane_type.some() {
        Some(LaneType::Shoulder) => true,
        _ => false,
    };
    if outd == Some(Designated::Foot) {
        Some(Separator::Kerb { parking_condition: None })
    } else if outside_shoulder {
        Some(Separator::Shoulder { speed: speed_of(inside) })
    } else if ind == Some(Designated::Motor) && outd == Some(Designated::Motor) {
        let dc = match (inside.direction.some(), outside.direction.some()) {
            (Some(Direction::Forward), Some(Direction::Forward)) | (
                Some(Direction::Backward),
                Some(Direction::Backward),
            ) => DirectionChange::Same,
            (Some(Direction::Forward), Some(Direction::Backward)) | (
                Some(Direction::Backward),
                Some(Direction::Forward),
            ) => DirectionChange::Opposite,
            _ => DirectionChange::Unknown,
        };
        Some(motor_lane_pair_to_semantic_separator(inside, dc, road, locale))
    } else {
        match (ind, outd) {
            (Some(a), Some(b)) => if a != b {
                Some(
                    Separator::Modal {
                        speed: speed_of(inside),
                        change: LaneChange::Permitted,
                        inside: a,
                        outside: b,
                    },
                )
            } else {
                warnings.push(TagsToLanesMsg::separator_unknown(*inside, *outside));
                None
            },
            _ => {
                warnings.push(TagsToLanesMsg::separator_unknown(*inside, *outside));
                None
            },
        }
    }
}

/// A marking.
pub open spec fn mk(style: Style, color: Option<Color>, millimetres: i64) -> Marking {
    Marking { style, color, width: Some(Metre { millimetres }) }
}

/// A separator lane with the given markings.
pub open spec fn sep(markings: Seq<Marking>) -> LaneView {
    LaneView::Separator { markings }
}

/// The markings of a semantic separator.
pub open spec fn spec_separator_markings(
    separator: Separator,
    tags: Seq<PairView>,
    locale: &Locale,
) -> Seq<Marking> {
    let nl = in_country(locale.country, netherlands_value());
    let gb = in_country(locale.country, united_kingdom_value());
    let motorroad = lookup(tags, "motorroad"@) == Some("yes"@);
    match separator {
        Separator::Kerb { .. } => seq![mk(Style::KerbUp, None, 200)],
        Separator::Shoulder { .. } => seq![mk(Style::SolidLine, Some(Color::White), 200)],
        Separator::Centre { more_than_2_lanes, .. } => if motorroad && nl {
            seq![
                mk(Style::BrokenLine, Some(Color::White), 150),
                mk(Style::SolidLine, Some(Color::Green), 200),
                mk(Style::BrokenLine, Some(Color::White), 150),
            ]
        } else if gb {
            seq![mk(Style::BrokenLine, Some(Color::White), 100)]
        } else if more_than_2_lanes {
            seq![
                mk(Style::SolidLine, Some(Color::White), 200),
                mk(Style::NoFill, None, 100),
                mk(Style::SolidLine, Some(Color::White), 200),
            ]
        } else {
            seq![
                mk(
                    Style::DottedLine,
                    Some(
                        if in_americas(locale.country) {
                            Color::Yellow
                        } else {
                            Color::White
                        },
                    ),
                    if gb {
                        100
                    } else {
                        200
                    },
                ),
            ]
        },
        Separator::Lane { .. } => seq![mk(Style::DottedLine, Some(Color::White), 200)],
        Separator::Modal { outside, .. } => if gb && outside == Designated::Bus {
            seq![mk(Style::SolidLine, Some(Color::White), 250)]
        } else if gb && outside == Designated::Bicycle {
            seq![mk(Style::SolidLine, Some(Color::White), 150)]
        } else {
            seq![mk(Style::SolidLine, Some(Color::White), 200)]
        },
        _ => seq![mk(Style::BrokenLine, Some(Color::Red), 200)],
    }
}

/// The warnings of turning a semantic separator into markings: the default
/// markings may not match the locale, and some separators have no markings
/// known.
pub open spec fn spec_separator_warnings(
    separator: Separator,
    inside: LaneBuilder,
    outside: LaneBuilder,
    tags: Seq<PairView>,
    locale: &Locale,
) -> Seq<MsgView> {
    let nl = in_country(locale.country, netherlands_value());
    let gb = in_country(locale.country, united_kingdom_value());
    let motorroad = lookup(tags, "motorroad"@) == Some("yes"@);
    match separator {
        Separator::Centre { .. } => if (motorroad && nl) || gb {
            Seq::empty()
        } else {
            seq![locale_unused_msg(inside, outside)]
        },
        Separator::Modal { outside: d, .. } => if gb && (d == Designated::Bus || d
            == Designated::Bicycle) {
            Seq::empty()
        } else {
            seq![locale_unused_msg(inside, outside)]
        },
        Separator::Buffer { .. } | Separator::Verge { .. } => seq![unknown_separator_msg(inside, outside)],
        _ => Seq::empty(),
    }
}

/// A marking of the given style, colour and width in millimetres.
fn marking(style: Style, color: Option<Color>, millimetres: i64) -> (r: Marking)
    ensures
        r == mk(style, color, millimetres),
{
    Marking { style, color, width: Some(Metre::from_millimetres(millimetres)) }
}

/// A separator lane of one marking.
fn one_marking(m: Marking) -> (r: Lane)
    ensures
        r@ == sep(seq![m]),
{
    let v = vec![m];
    assert(v@ == seq![m]);
    Lane::Separator { markings: Markings::new(v) }
}

/// A separator lane of three markings.
fn three_markings(a: Marking, b: Marking, c: Marking) -> (r: Lane)
    ensures
        r@ == sep(seq![a, b, c]),
{
    let v = vec![a, b, c];
    assert(v@ == seq![a, b, c]);
    Lane::Separator { markings: Markings::new(v) }
}

/// Given a pair of lanes, inside to outside, and the semantic separator
/// between them, the separator lane: its markings depend on the locale.
pub fn semantic_separator_to_lane(
    inside: &LaneBuilder,
    outside: &LaneBuilder,
    separator: &Separator,
    _road: &RoadBuilder,
    tags: &Tags,
    locale: &Locale,
    warnings: &mut RoadWarnings,
) -> (r: Option<Lane>)
    ensures
        r matches Some(l) && l@ == sep(spec_separator_markings(*separator, tags@, locale)),
        final(warnings)@ == old(warnings)@ + spec_separator_warnings(
            *separator,
            *inside,
            *outside,
            tags@,
            locale,
        ),
{
    proof {
        reveal_strlit("yes");
    }
    let nl = match &locale.country {
        Some(c) => c.value == 528,
        None => false,
    };
    let gb = match &locale.country {
        Some(c) => c.value == 826,
        None => false,
    };
    let motorroad = tags.is("motorroad", "yes");
    let ghost w = spec_separator_warnings(*separator, *inside, *outside, tags@, locale);
    match separator {
        Separator::Kerb { .. } => {
            assert(warnings@ =~= old(warnings)@ + w);
            Some(one_marking(marking(Style::KerbUp, None, 200)))
        },
        Separator::Shoulder { .. } => {
            assert(warnings@ =~= old(warnings)@ + w);
            Some(one_marking(marking(Style::SolidLine, Some(Color::White), 200)))
        },
        Separator::Centre { more_than_2_lanes, .. } => {
            if motorroad && nl {
                assert(warnings@ =~= old(warnings)@ + w);
                return Some(
                    three_markings(
                        marking(Style::BrokenLine, Some(Color::White), 150),
                        marking(Style::SolidLine, Some(Color::Green), 200),
                        marking(Style::BrokenLine, Some(Color::White), 150),
                    ),
                );
            }
            if gb {
                assert(warnings@ =~= old(warnings)@ + w);
                return Some(one_marking(marking(Style::BrokenLine, Some(Color::White), 100)));
            }
            warnings.push(TagsToLanesMsg::separator_locale_unused(*inside, *outside));
            assert(warnings@ =~= old(warnings)@ + w);
            if *more_than_2_lanes {
                Some(
                    three_markings(
                        marking(Style::SolidLine, Some(Color::White), 200),
                        marking(Style::NoFill, None, 100),
                        marking(Style::SolidLine, Some(Color::White), 200),
                    ),
                )
            } else {
                let color = locale.separator_motor_color();
                let width = locale.separator_motor_width();
                Some(one_marking(Marking { style: Style::DottedLine, color: Some(color), width: Some(width) }))
            }
        },
        Separator::Lane { .. } => {
            assert(warnings@ =~= old(warnings)@ + w);
            Some(one_marking(marking(Style::DottedLine, Some(Color::White), 200)))
        },
        Separator::Modal { outside: designated, .. } => {
            if gb {
                if *designated == Designated::Bus {
                    assert(warnings@ =~= old(warnings)@ + w);
                    return Some(one_marking(marking(Style::SolidLine, Some(Color::White), 250)));
                }
                if *designated == Designated::Bicycle {
                    assert(warnings@ =~= old(warnings)@ + w);
                    return Some(one_marking(marking(Style::SolidLine, Some(Color::White), 150)));
                }
            }
            warnings.push(TagsToLanesMsg::separator_locale_unused(*inside, *outside));
            assert(warnings@ =~= old(warnings)@ + w);
            Some(one_marking(marking(Style::SolidLine, Some(Color::White), 200)))
        },
        _ => {
            warnings.push(TagsToLanesMsg::separator_unknown(*inside, *outside));
            assert(warnings@ =~= old(warnings)@ + w);
            Some(one_marking(marking(Style::BrokenLine, Some(Color::Red), 200)))
        },
    }
}

/// The semantic separator on the outer edge of a lane: a hard edge for a
/// travel lane in the United Kingdom where stopping is forbidden.
pub open spec fn spec_outer_edge(lane: LaneBuilder, tags: Seq<PairView>, locale: &Locale) -> Option<
    EdgeSeparator,
> {
    if infer_value(lane.lane_type) == Some(LaneType::Travel) && in_country(
        locale.country,
        united_kingdom_value(),
    ) && lookup(tags, "parking:condition:both"@) == Some("no_stopping"@) {
        Some(EdgeSeparator::Hard { parking_condition: Some(ParkingCondition::NoStopping) })
    } else {
        None
    }
}

/// Given a lane on the outer edge of a way, the semantic separator there.
pub fn outer_edge_semantic_separator(lane: &LaneBuilder, tags: &Tags, locale: &Locale) -> (r: Option<
    EdgeSeparator,
>)
    ensures
        r == spec_outer_edge(*lane, tags@, locale),
{
    proof {
        reveal_strlit("no_stopping");
    }
    let travel = match lane.lane_type.some() {
        Some(LaneType::Travel) => true,
        _ => false,
    };
    if travel {
        let gb = match &locale.country {
            Some(c) => c.value == 826,
            None => false,
        };
        if gb && tags.is("parking:condition:both", "no_stopping") {
            return Some(EdgeSeparator::Hard { parking_condition: Some(ParkingCondition::NoStopping) });
        }
    }
    None
}

/// The markings of a hard edge: two red lines.
pub open spec fn hard_edge_markings() -> Seq<Marking> {
    seq![
        mk(Style::SolidLine, Some(Color::Red), 100),
        mk(Style::NoFill, None, 80),
        mk(Style::SolidLine, Some(Color::Red), 100),
    ]
}

/// The separator lane of a semantic edge separator.
pub fn semantic_edge_separator_to_lane(
    separator: &EdgeSeparator,
    _road: &RoadBuilder,
    _tags: &Tags,
    _locale: &Locale,
    _warnings: &mut RoadWarnings,
) -> (r: Option<Lane>)
    ensures
        r matches Some(l) && l@ == sep(hard_edge_markings()),
        final(_warnings)@ == old(_warnings)@,
{
    match separator {
        EdgeSeparator::Hard { .. } => Some(
            three_markings(
                marking(Style::SolidLine, Some(Color::Red), 100),
                marking(Style::NoFill, None, 80),
                marking(Style::SolidLine, Some(Color::Red), 100),
            ),
        ),
    }
}

/// The separator lane on the outer edge of a lane, if there is one.
pub fn lane_to_outer_edge_separator(
    lane: &LaneBuilder,
    road: &RoadBuilder,
    tags: &Tags,
    locale: &Locale,
    warnings: &mut RoadWarnings,
) -> (r: Option<Lane>)
    ensures
        match spec_outer_edge(*lane, tags@, locale) {
            Some(_) => r matches Some(l) && l@ == sep(hard_edge_markings()),
            None => r is None,
        },
        final(warnings)@ == old(warnings)@,
{
    match outer_edge_semantic_separator(lane, tags, locale) {
        Some(s) => semantic_edge_separator_to_lane(&s, road, tags, locale, warnings),
        None => None,
    }
}

/// The separator lane on the inner edge of a lane: a white line.
pub fn lane_to_inner_edge_separator(_lane: &LaneBuilder) -> (r: Option<Lane>)
    ensures
        r matches Some(l) && l@ == sep(seq![mk(Style::SolidLine, Some(Color::White), 200)]),
{
    Some(one_marking(marking(Style::SolidLine, Some(Color::White), 200)))
}

/// The separator lane between two lanes, inside to outside, if one is known.
pub open spec fn spec_separator_between(
    inside: LaneBuilder,
    outside: LaneBuilder,
    motor_count: nat,
    tags: Seq<PairView>,
    locale: &Locale,
) -> Option<LaneView> {
    match spec_pair_separator(inside, outside, motor_count) {
        Some(s) => Some(sep(spec_separator_markings(s, tags, locale))),
        None => None,
    }
}

/// The warnings of finding the separator lane between two lanes.
pub open spec fn spec_separator_between_warnings(
    inside: LaneBuilder,
    outside: LaneBuilder,
    motor_count: nat,
    tags: Seq<PairView>,
    locale: &Locale,
) -> Seq<MsgView> {
    match spec_pair_separator(inside, outside, motor_count) {
        Some(s) => spec_separator_warnings(s, inside, outside, tags, locale),
        None => seq![unknown_separator_msg(inside, outside)],
    }
}

/// The separator lane between two lanes, inside to outside, if one is known.
pub fn separator_between(
    inside: &LaneBuilder,
    outside: &LaneBuilder,
    road: &RoadBuilder,
    tags: &Tags,
    locale: &Locale,
    warnings: &mut RoadWarnings,
) -> (r: Option<Lane>)
    requires
        pair_speed_ok(*inside, *outside),
    ensures
        ({
            let count = count_motor(
                spec_lanes_ltr(road.forward_lanes@, road.backward_lanes@, locale.driving_side),
            );
            &&& match spec_separator_between(*inside, *outside, count, tags@, locale) {
                Some(v) => r matches Some(l) && l@ == v,
                None => r is None,
            }
            &&& final(warnings)@ == old(warnings)@ + spec_separator_between_warnings(
                *inside,
                *outside,
                count,
                tags@,
                locale,
            )
        }),
{
    match lane_pair_to_semantic_separator(inside, outside, road, tags, locale, warnings) {
        Some(s) => semantic_separator_to_lane(inside, outside, &s, road, tags, locale, warnings),
        None => {
            proof {
                let count = count_motor(
                    spec_lanes_ltr(road.forward_lanes@, road.backward_lanes@, locale.driving_side),
                );
                assert(warnings@ =~= old(warnings)@ + spec_separator_between_warnings(
                    *inside,
                    *outside,
                    count,
                    tags@,
                    locale,
                ));
            }
            None
        },
    }
}

} // verus!
