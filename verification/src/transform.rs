//! From the tags of an OpenStreetMap way to its lanes, left to right.

use vstd::prelude::*;

use crate::builder::{lane_builder_wf, lanes_wf, AccessBuilder, LaneBuilder, LaneType, Oneway, RoadBuilder, Width};
use crate::bus::{
    bus, bus_scheme_keys, lanes_bus_keys, lemma_bus_lanes_outcome, msg_if, result_view, spec_apply_busway,
    spec_bus_count, spec_bus_lanes, spec_bus_schemes, spec_busway, spec_busway_warnings, tags_under,
    BusLaneCount, BuswayScheme, BuswayVariant,
};
use crate::counts::{
    counts_defined, counts_fit, spec_centre_turn_lane, spec_centre_turn_lane_warnings, spec_counts, spec_counts_warnings,
    spec_lanes_direction, spec_lanes_direction_warnings, spec_parse_warning, CentreTurnLaneScheme, Counts,
    LanesDirectionScheme,
};
use crate::cycleway::{bicycle, spec_apply_cycleway, spec_cycleway_scheme};
use crate::highway::{spec_highway_from_tags, Highway, HighwayType, Lifecycle};
use crate::infer::{infer_value, Infer};
use crate::locale::{
    in_country, netherlands_value, spec_has_shoulder, spec_has_split_lanes, spec_travel_width, DrivingSide, Locale,
};
use crate::ltr::{into_ltr, is_ltr_speeds_ok, ltr_speeds_ok, spec_ltr, spec_ltr_warnings};
use crate::metric::{spec_parse_speed, Metre, Speed};
use crate::modes::{
    access_keys, foot_and_shoulder, has_access_tag, is_parking, is_steps_or_path, non_motorized, parking,
    spec_add_sidewalk_shoulder, spec_oneway, spec_parking_lane, spec_path_lane, spec_shoulder, spec_sidewalk,
    unsupported,
};
use crate::msg::{msg, IssueKind, MsgView, RoadError, RoadFromTags, RoadWarnings, TagsToLanesMsg};
use crate::road::{lanes_view, Designated, Direction, LaneView, Road};
use crate::schemes::{spec_parse_lit, spec_parse_smoothness, spec_parse_track_type, Schemes};
use crate::tags::{has_key, is_prefix, lookup, str_set, tags_map, PairView, Tags};
use crate::text::{chars_of, starts_with};

verus! {

/// Options of the transformation from tags to lanes.
#[derive(Clone, Copy, Debug, PartialEq, Eq, Structural)]
pub struct Config {
    /// Treat every warning as an error.
    pub error_on_warnings: bool,
    /// Put separators between the lanes.
    pub include_separators: bool,
}

impl Config {
    /// The options as given.
    pub fn new(error_on_warnings: bool, include_separators: bool) -> (r: Self)
        ensures
            r.error_on_warnings == error_on_warnings,
            r.include_separators == include_separators,
    {
        Self { error_on_warnings, include_separators }
    }
}

impl Default for Config {
    /// Warnings are warnings, and separators are included.
    fn default() -> (r: Self)
        ensures
            !r.error_on_warnings,
            r.include_separators,
    {
        Self { error_on_warnings: false, include_separators: true }
    }
}

/// The schemes of this crate, read ahead of the lanes.
#[derive(Clone, Copy, Debug, PartialEq, Eq, Structural)]
pub struct TagSchemes {
    pub oneway: Oneway,
    pub busway: BuswayScheme,
}

impl TagSchemes {
    /// Reads whether the road is one way, and its busway scheme.
    pub fn from_tags(tags: &Tags, locale: &Locale, warnings: &mut RoadWarnings) -> (r: Result<
        Self,
        TagsToLanesMsg,
    >)
        ensures
            match spec_oneway(tags@) {
                Err(e) => r matches Err(m) && m@ == e && final(warnings)@ == old(warnings)@,
                Ok(o) => r matches Ok(s) && s.oneway == o && s.busway.0 == spec_busway(
                    tags@,
                    o,
                    locale.driving_side,
                ) && final(warnings)@ == old(warnings)@ + spec_busway_warnings(
                    tags@,
                    o,
                    locale.driving_side,
                ),
            },
    {
        let oneway = match Oneway::from_tags(tags, locale, warnings) {
            Ok(o) => o,
            Err(e) => return Err(e),
        };
        let busway = match BuswayScheme::from_tags(tags, oneway, locale, warnings) {
            Ok(b) => b,
            Err(e) => return Err(e),
        };
        Ok(Self { oneway, busway })
    }
}

/// Whether a road is one way for counting its lanes: `oneway=yes`, or a roundabout.
pub open spec fn spec_road_oneway(tags: Seq<PairView>) -> Oneway {
    if lookup(tags, "oneway"@) == Some("yes"@) || lookup(tags, "junction"@) == Some("roundabout"@) {
        Oneway::Yes
    } else {
        Oneway::No
    }
}

/// The number of bus lanes in each direction.
pub open spec fn spec_bus_lane_count(tags: Seq<PairView>, locale: &Locale, oneway: Oneway) -> BusLaneCount {
    let b = spec_busway(tags, oneway, locale.driving_side);
    BusLaneCount {
        forward: spec_bus_count(
            tags,
            "lanes:bus:forward"@,
            b == BuswayVariant::Forward || b == BuswayVariant::Both,
        ),
        backward: spec_bus_count(
            tags,
            "lanes:bus:backward"@,
            b == BuswayVariant::Backward || b == BuswayVariant::Both,
        ),
    }
}

/// The counts of the motor lanes of a road of the given type.
pub open spec fn spec_road_counts(tags: Seq<PairView>, locale: &Locale, highway_type: HighwayType) -> Option<
    Counts,
> {
    let oneway = spec_road_oneway(tags);
    let bus = spec_bus_lane_count(tags, locale, oneway);
    spec_counts(
        spec_lanes_direction(tags),
        oneway,
        spec_has_split_lanes(highway_type),
        spec_centre_turn_lane(tags),
        bus.forward,
        bus.backward,
    )
}

/// Who the motor lanes are for: buses where general access is forbidden but
/// buses are allowed, else motor vehicles.
pub open spec fn spec_designated(tags: Seq<PairView>) -> Designated {
    let bus_yes = lookup(tags, "bus"@) == Some("yes"@);
    let conditional_no = lookup(tags, "motor_vehicle:conditional"@) matches Some(v) && is_prefix(
        "no"@,
        v,
    );
    if (lookup(tags, "access"@) == Some("no"@) && (bus_yes || lookup(tags, "psv"@) == Some("yes"@)))
        || (conditional_no && bus_yes) {
        Designated::Bus
    } else {
        Designated::Motor
    }
}

/// The maximum speed, if it is tagged and can be read.
pub open spec fn spec_maxspeed(tags: Seq<PairView>) -> Option<Speed> {
    match lookup(tags, "maxspeed"@) {
        Some(v) => match spec_parse_speed(v) {
            Ok(s) => Some(s),
            Err(_) => None,
        },
        None => None,
    }
}

/// The warning about a maximum speed that cannot be read.
pub open spec fn spec_maxspeed_warnings(tags: Seq<PairView>) -> Seq<MsgView> {
    match lookup(tags, "maxspeed"@) {
        Some(v) => if spec_parse_speed(v) is Err {
            seq![msg(IssueKind::Unsupported, None, tags_under(tags, set!["maxspeed"@]))]
        } else {
            Seq::empty()
        },
        None => Seq::empty(),
    }
}

/// A motor lane as first guessed.
pub open spec fn spec_motor_lane(
    direction: Direction,
    designated: Designated,
    max_speed: Option<Speed>,
    width: i64,
) -> LaneBuilder {
    LaneBuilder {
        lane_type: Infer::Default(LaneType::Travel),
        direction: Infer::Default(direction),
        designated: Infer::Default(designated),
        width: Width {
            min: Infer::Unset,
            target: Infer::Default(Metre { millimetres: width }),
            max: Infer::Unset,
        },
        max_speed: match max_speed {
            Some(s) => Infer::Direct(s),
            None => Infer::Unset,
        },
        access: AccessBuilder { foot: Infer::Unset, bicycle: Infer::Unset, motor: Infer::Unset },
        cycleway_variant: None,
    }
}

/// The value of a count, zero if unknown.
pub open spec fn count_value(c: Infer<usize>) -> int {
    match infer_value(c) {
        Some(n) => n as int,
        None => 0,
    }
}

/// Whether a highway of this type and lifecycle is supported.
pub open spec fn spec_supported(t: HighwayType, l: Lifecycle) -> bool {
    let road_type = match t {
        HighwayType::Classified(_) | HighwayType::Link(_) | HighwayType::Residential
        | HighwayType::Service | HighwayType::Unclassified | HighwayType::UnknownRoad => true,
        _ => false,
    };
    let path_type = match t {
        HighwayType::Cycleway | HighwayType::Footway | HighwayType::Path | HighwayType::Pedestrian
        | HighwayType::Steps | HighwayType::Track => true,
        _ => false,
    };
    (road_type && (l == Lifecycle::Active || l == Lifecycle::Construction)) || (path_type && l
        == Lifecycle::Active)
}

/// Counting the lanes of a supported highway stays in the range of `usize`,
/// and so does the number of lanes.
pub open spec fn road_counts_fit(tags: Seq<PairView>, locale: &Locale) -> bool {
    match spec_highway_from_tags(tags) {
        Ok((t, l)) => spec_supported(t, l) ==> match spec_road_counts(tags, locale, t) {
            Some(c) => count_value(c.forward) + count_value(c.backward) + count_value(c.both_ways)
                <= usize::MAX,
            None => false,
        },
        Err(_) => true,
    }
}

/// The forward lanes as first guessed: the lanes in both directions, then the
/// forward lanes, from the centre outwards.
pub open spec fn spec_initial_forward(tags: Seq<PairView>, locale: &Locale, t: HighwayType) -> Seq<
    LaneBuilder,
> {
    let c = spec_road_counts(tags, locale, t).unwrap();
    let d = spec_designated(tags);
    let w = spec_travel_width(locale.country, d);
    Seq::new(count_value(c.both_ways) as nat, |i: int| spec_motor_lane(Direction::Both, d, None, w)) + Seq::new(
        count_value(c.forward) as nat,
        |i: int| spec_motor_lane(Direction::Forward, d, spec_maxspeed(tags), w),
    )
}

/// The road first built from its tags has the lanes that are counted: on the
/// forward side, from the centre, the lanes in both directions and then the
/// forward lanes; on the backward side, the backward lanes. The counts are
/// those that `Counts::new` gives from the schemes read from the same tags.
pub proof fn lemma_initial_lanes_counted(tags: Seq<PairView>, locale: &Locale, t: HighwayType)
    requires
        spec_road_counts(tags, locale, t) is Some,
    ensures
        ({
            let oneway = spec_road_oneway(tags);
            let bus = spec_bus_lane_count(tags, locale, oneway);
            let c = spec_road_counts(tags, locale, t).unwrap();
            let f = spec_initial_forward(tags, locale, t);
            let b = spec_initial_backward(tags, locale, t);
            &&& Some(c) == spec_counts(
                spec_lanes_direction(tags),
                oneway,
                spec_has_split_lanes(t),
                spec_centre_turn_lane(tags),
                bus.forward,
                bus.backward,
            )
            &&& f.len() == count_value(c.both_ways) + count_value(c.forward)
            &&& b.len() == count_value(c.backward)
            &&& forall|i: int| 0 <= i < count_value(c.both_ways) ==> (#[trigger] f[i]).direction == Infer::Default(
                Direction::Both,
            )
            &&& forall|i: int|
                count_value(c.both_ways) <= i < f.len() ==> (#[trigger] f[i]).direction == Infer::Default(
                    Direction::Forward,
                )
            &&& forall|i: int| 0 <= i < b.len() ==> (#[trigger] b[i]).direction == Infer::Default(
                Direction::Backward,
            )
        }),
{
}

/// The backward lanes as first guessed.
pub open spec fn spec_initial_backward(tags: Seq<PairView>, locale: &Locale, t: HighwayType) -> Seq<
    LaneBuilder,
> {
    let c = spec_road_counts(tags, locale, t).unwrap();
    let d = spec_designated(tags);
    let w = spec_travel_width(locale.country, d);
    Seq::new(
        count_value(c.backward) as nat,
        |i: int| spec_motor_lane(Direction::Backward, d, spec_maxspeed(tags), w),
    )
}

/// Where no lane count is tagged (no `lanes`, `lanes:forward`,
/// `lanes:backward`, `lanes:both_ways` or `centre_turn_lane`), the way is not
/// one way and no bus lane is counted, a residential road, a classified highway
/// or a link is first guessed as one motor lane forward and one backward; any
/// other road as a single lane in both directions.
pub proof fn lemma_untagged_lanes_guessed(tags: Seq<PairView>, locale: &Locale, t: HighwayType)
    requires
        lookup(tags, "lanes"@) is None,
        lookup(tags, "lanes:forward"@) is None,
        lookup(tags, "lanes:backward"@) is None,
        lookup(tags, "lanes:both_ways"@) is None,
        lookup(tags, "centre_turn_lane"@) is None,
        lookup(tags, "oneway"@) != Some("yes"@),
        lookup(tags, "junction"@) != Some("roundabout"@),
        spec_bus_lane_count(tags, locale, Oneway::No) == (BusLaneCount { forward: 0, backward: 0 }),
    ensures
        spec_road_counts(tags, locale, t) is Some,
        ({
            let f = spec_initial_forward(tags, locale, t);
            let b = spec_initial_backward(tags, locale, t);
            if t == HighwayType::Residential || t is Classified || t is Link {
                &&& f.len() == 1
                &&& b.len() == 1
                &&& f[0].direction == Infer::Default(Direction::Forward)
                &&& b[0].direction == Infer::Default(Direction::Backward)
            } else {
                &&& f.len() == 1
                &&& b.len() == 0
                &&& f[0].direction == Infer::Default(Direction::Both)
            }
        }),
{
    reveal(spec_counts);
    assert(spec_road_oneway(tags) == Oneway::No);
    lemma_initial_lanes_counted(tags, locale, t);
}

/// The warnings of guessing the lanes.
pub open spec fn spec_road_warnings(tags: Seq<PairView>, locale: &Locale, t: HighwayType) -> Seq<MsgView> {
    let oneway = spec_road_oneway(tags);
    let bus = spec_bus_lane_count(tags, locale, oneway);
    let centre = spec_centre_turn_lane(tags);
    let ld = spec_lanes_direction(tags);
    spec_busway_warnings(tags, oneway, locale.driving_side) + spec_parse_warning(tags, "lanes:bus:forward"@)
        + spec_parse_warning(tags, "lanes:bus:backward"@) + spec_centre_turn_lane_warnings(tags)
        + spec_lanes_direction_warnings(tags) + spec_counts_warnings(
        tags,
        ld,
        oneway,
        centre,
        bus.forward,
        bus.backward,
        spec_road_counts(tags, locale, t).unwrap(),
    ) + spec_maxspeed_warnings(tags)
}

/// The keys of a highway's lifecycle.
pub open spec fn lifecycle_keys() -> Set<Seq<char>> {
    str_set(seq!["highway", "construction", "proposed"])
}

/// `n` copies of a lane.
fn repeat_lane(lanes: &mut Vec<LaneBuilder>, lane: LaneBuilder, n: usize)
    ensures
        final(lanes)@ == old(lanes)@ + Seq::new(n as nat, |i: int| lane),
{
    let ghost start = lanes@;
    let mut i: usize = 0;
    while i < n
        invariant
            i <= n,
            lanes@ == start + Seq::new(i as nat, |j: int| lane),
        decreases n - i,
    {
        lanes.push(lane);
        assert(lanes@ =~= start + Seq::new((i + 1) as nat, |j: int| lane));
        i = i + 1;
    }
}

/// Reads the highway, which must be supported.
fn supported_highway(tags: &Tags) -> (r: Result<Highway, TagsToLanesMsg>)
    ensures
        match spec_highway_from_tags(tags@) {
            Err(None) => r matches Err(m) && m@ == msg(IssueKind::Unsupported, Some("way is not highway"@), None),
            Err(Some(v)) => r matches Err(m) && m@ == msg(IssueKind::Unsupported, None, Some(map!["highway"@ => v])),
            Ok((t, l)) => if !spec_supported(t, l) {
                r matches Err(m) && m@ == msg(IssueKind::Unimplemented, None, tags_under(tags@, lifecycle_keys()))
            } else {
                r matches Ok(h) && h.spec_type() == t && h.spec_lifecycle() == l
            },
        },
{
    let highway = match Highway::from_tags(tags) {
        Err(None) => return Err(TagsToLanesMsg::unsupported_str("way is not highway")),
        Err(Some(s)) => return Err(TagsToLanesMsg::unsupported_tag("highway", s.as_str())),
        Ok(h) => h,
    };
    if !highway.is_supported() {
        let keys = vec!["highway", "construction", "proposed"];
        assert(keys@ == seq!["highway", "construction", "proposed"]);
        return Err(TagsToLanesMsg::unimplemented_tags(tags.subset(keys.as_slice())));
    }
    Ok(highway)
}

/// Who the motor lanes are for.
fn designated_of(tags: &Tags) -> (r: Designated)
    ensures
        r == spec_designated(tags@),
{
    proof {
        reveal_strlit("yes");
        reveal_strlit("no");
    }
    let bus_yes = tags.is("bus", "yes");
    let conditional_no = match tags.get("motor_vehicle:conditional") {
        Some(v) => {
            let vc = chars_of(v);
            let no = chars_of("no");
            starts_with(vc.as_slice(), no.as_slice())
        },
        None => false,
    };
    if (tags.is("access", "no") && (bus_yes || tags.is("psv", "yes"))) || (conditional_no && bus_yes) {
        Designated::Bus
    } else {
        Designated::Motor
    }
}

/// Reads the maximum speed, warning about one that cannot be read.
fn max_speed_of(tags: &Tags, warnings: &mut RoadWarnings) -> (r: Option<Speed>)
    ensures
        r == spec_maxspeed(tags@),
        final(warnings)@ == old(warnings)@ + spec_maxspeed_warnings(tags@),
{
    match tags.get("maxspeed") {
        Some(v) => match Speed::from_str(v) {
            Ok(s) => {
                assert(warnings@ =~= old(warnings)@ + spec_maxspeed_warnings(tags@));
                Some(s)
            },
            Err(_) => {
                let keys = vec!["maxspeed"];
                assert(keys@ == seq!["maxspeed"]);
                proof {
                    crate::tags::lemma_str_set1("maxspeed");
                }
                warnings.push(TagsToLanesMsg::unsupported_tags(tags.subset(keys.as_slice())));
                assert(warnings@ =~= old(warnings)@ + spec_maxspeed_warnings(tags@));
                None
            },
        },
        None => {
            assert(warnings@ =~= old(warnings)@ + spec_maxspeed_warnings(tags@));
            None
        },
    }
}

/// A motor lane as first guessed.
fn motor_lane(direction: Direction, designated: Designated, max_speed: Option<Speed>, width: Metre) -> (r:
    LaneBuilder)
    ensures
        r == spec_motor_lane(direction, designated, max_speed, width.millimetres),
{
    LaneBuilder {
        lane_type: Infer::Default(LaneType::Travel),
        direction: Infer::Default(direction),
        designated: Infer::Default(designated),
        width: Width { min: Infer::Unset, target: Infer::Default(width), max: Infer::Unset },
        max_speed: Infer::direct(max_speed),
        access: AccessBuilder { foot: Infer::Unset, bicycle: Infer::Unset, motor: Infer::Unset },
        cycleway_variant: None,
    }
}

/// The lanes as first guessed from the counts: forward (the lanes in both
/// directions, then the forward lanes) and backward.
fn initial_lanes(counts: &Counts, designated: Designated, max_speed: Option<Speed>, width: Metre) -> (r: (
    Vec<LaneBuilder>,
    Vec<LaneBuilder>,
))
    ensures
        r.0@ == Seq::new(
            count_value(counts.both_ways) as nat,
            |i: int| spec_motor_lane(Direction::Both, designated, None, width.millimetres),
        ) + Seq::new(
            count_value(counts.forward) as nat,
            |i: int| spec_motor_lane(Direction::Forward, designated, max_speed, width.millimetres),
        ),
        r.1@ == Seq::new(
            count_value(counts.backward) as nat,
            |i: int| spec_motor_lane(Direction::Backward, designated, max_speed, width.millimetres),
        ),
        lanes_wf(r.0@),
        lanes_wf(r.1@),
{
    let n_forward: usize = match counts.forward.some() {
        Some(n) => n,
        None => 0,
    };
    let n_backward: usize = match counts.backward.some() {
        Some(n) => n,
        None => 0,
    };
    let n_both: usize = match counts.both_ways.some() {
        Some(n) => n,
        None => 0,
    };
    let mut forward_lanes: Vec<LaneBuilder> = Vec::new();
    repeat_lane(&mut forward_lanes, motor_lane(Direction::Both, designated, None, width), n_both);
    repeat_lane(&mut forward_lanes, motor_lane(Direction::Forward, designated, max_speed, width), n_forward);
    let mut backward_lanes: Vec<LaneBuilder> = Vec::new();
    repeat_lane(&mut backward_lanes, motor_lane(Direction::Backward, designated, max_speed, width), n_backward);
    assert(forward_lanes@ =~= Seq::new(
        count_value(counts.both_ways) as nat,
        |i: int| spec_motor_lane(Direction::Both, designated, None, width.millimetres),
    ) + Seq::new(
        count_value(counts.forward) as nat,
        |i: int| spec_motor_lane(Direction::Forward, designated, max_speed, width.millimetres),
    ));
    (forward_lanes, backward_lanes)
}

impl RoadBuilder {
    /// Guesses the lanes of a road from its tags: the highway, whether it is
    /// one way, the bus lanes and the counts of motor lanes in each direction.
    pub fn from(tags: &Tags, locale: &Locale, warnings: &mut RoadWarnings) -> (r: Result<Self, TagsToLanesMsg>)
        requires
            road_counts_fit(tags@, locale),
        ensures
            match spec_highway_from_tags(tags@) {
                Err(None) => r matches Err(m) && m@ == msg(
                    IssueKind::Unsupported,
                    Some("way is not highway"@),
                    None,
                ) && final(warnings)@ == old(warnings)@,
                Err(Some(v)) => r matches Err(m) && m@ == msg(
                    IssueKind::Unsupported,
                    None,
                    Some(map!["highway"@ => v]),
                ) && final(warnings)@ == old(warnings)@,
                Ok((t, l)) => if !spec_supported(t, l) {
                    r matches Err(m) && m@ == msg(
                        IssueKind::Unimplemented,
                        None,
                        tags_under(tags@, lifecycle_keys()),
                    ) && final(warnings)@ == old(warnings)@
                } else {
                    r matches Ok(road) && road.highway.spec_type() == t && road.highway.spec_lifecycle()
                        == l && road.oneway == spec_road_oneway(tags@) && road.forward_lanes@
                        == spec_initial_forward(tags@, locale, t) && road.backward_lanes@
                        == spec_initial_backward(tags@, locale, t) && road.wf() && final(warnings)@
                        == old(warnings)@ + spec_road_warnings(tags@, locale, t)
                },
            },
    {
        let highway = match supported_highway(tags) {
            Ok(h) => h,
            Err(e) => return Err(e),
        };
        let ghost t = highway.spec_type();
        proof {
            reveal_strlit("yes");
        }
        let oneway = Oneway::from_bool(tags.is("oneway", "yes") || tags.is("junction", "roundabout"));
        assert(oneway == spec_road_oneway(tags@));
        let ghost w0 = warnings@;
        let bus_lane_counts = match BusLaneCount::from_tags(tags, locale, oneway, warnings) {
            Ok(b) => b,
            Err(e) => return Err(e),
        };
        assert(bus_lane_counts == spec_bus_lane_count(tags@, locale, oneway));
        let ghost w1 = warnings@;
        let centre_turn_lanes = CentreTurnLaneScheme::from_tags(tags, oneway, locale, warnings);
        let ghost w2 = warnings@;
        assert(counts_fit(tags@, oneway, highway, centre_turn_lanes, bus_lane_counts));
        let lanes = Counts::new(tags, oneway, &highway, &centre_turn_lanes, &bus_lane_counts, locale, warnings);
        let ghost w3 = warnings@;
        assert(Some(lanes) == spec_road_counts(tags@, locale, t));
        let designated = designated_of(tags);
        let max_speed = max_speed_of(tags, warnings);
        let width = locale.travel_width(&designated, highway.highway_type());
        let (forward_lanes, backward_lanes) = initial_lanes(&lanes, designated, max_speed, width);
        let road = RoadBuilder { forward_lanes, backward_lanes, highway, oneway };
        assert(warnings@ =~= old(warnings)@ + spec_road_warnings(tags@, locale, t));
        Ok(road)
    }
}


/// Whether the road can be built from its tags: the counts of motor lanes
/// fit in `usize`, and steps and paths have one lane.
pub open spec fn tags_buildable(tags: Seq<PairView>, locale: &Locale) -> bool {
    &&& road_counts_fit(tags, locale)
    &&& match spec_highway_from_tags(tags) {
        Ok((t, l)) => spec_supported(t, l) && is_steps_or_path(tags) ==> spec_initial_forward(
            tags,
            locale,
            t,
        ).len() == 1 && spec_initial_backward(tags, locale, t).len() == 0,
        Err(_) => true,
    }
}

/// Whether the transformation from tags to lanes stays defined: the road can
/// be built, and, where separators are asked for, the maximum speed of each
/// lane whose separator reads its speed class has one (is below 200 km/h).
pub open spec fn tags_to_lanes_defined(tags: Seq<PairView>, locale: &Locale, config: Config) -> bool {
    &&& tags_buildable(tags, locale)
    &&& config.include_separators ==> (spec_staged(tags, locale) matches Ok(st) ==> ltr_speeds_ok(
        st.forward,
        st.backward,
    ))
}

/// Tests whether the road can be built from its tags.
fn is_tags_buildable(tags: &Tags, locale: &Locale) -> (r: bool)
    ensures
        r == tags_buildable(tags@, locale),
{
    let mut scratch = RoadWarnings::empty();
    let highway = match supported_highway(tags) {
        Ok(h) => h,
        Err(_) => return true,
    };
    let ghost t = highway.spec_type();
    proof {
        reveal_strlit("yes");
        reveal_strlit("steps");
        reveal_strlit("path");
    }
    let oneway = Oneway::from_bool(tags.is("oneway", "yes") || tags.is("junction", "roundabout"));
    assert(oneway == spec_road_oneway(tags@));
    let bus = match BusLaneCount::from_tags(tags, locale, oneway, &mut scratch) {
        Ok(b) => b,
        Err(_) => return false,
    };
    assert(bus == spec_bus_lane_count(tags@, locale, oneway));
    let centre = CentreTurnLaneScheme::from_tags(tags, oneway, locale, &mut scratch);
    let ld = LanesDirectionScheme::from_tags(tags, oneway, locale, &mut scratch);
    let split = locale.has_split_lanes(highway.highway_type());
    if !counts_defined(&ld, oneway, split, centre.0, bus.forward, bus.backward) {
        return false;
    }
    let counts = Counts::new(tags, oneway, &highway, &centre, &bus, locale, &mut scratch);
    assert(Some(counts) == spec_road_counts(tags@, locale, t));
    let f: u128 = match counts.forward.some() {
        Some(n) => n as u128,
        None => 0,
    };
    let b: u128 = match counts.backward.some() {
        Some(n) => n as u128,
        None => 0,
    };
    let both: u128 = match counts.both_ways.some() {
        Some(n) => n as u128,
        None => 0,
    };
    if f + b + both > usize::MAX as u128 {
        return false;
    }
    if tags.is("highway", "steps") || tags.is("highway", "path") {
        both + f == 1 && b == 0
    } else {
        true
    }
}

/// Tests whether `tags_to_lanes` is defined on these tags: the test to make
/// before calling it.
pub fn is_tags_to_lanes_defined(tags: &Tags, locale: &Locale, config: &Config) -> (r: bool)
    ensures
        r == tags_to_lanes_defined(tags@, locale, *config),
{
    if !is_tags_buildable(tags, locale) {
        return false;
    }
    if !config.include_separators {
        return true;
    }
    let mut scratch = RoadWarnings::empty();
    match build_road(tags, locale, &mut scratch) {
        Ok(road) => is_ltr_speeds_ok(&road.forward_lanes, &road.backward_lanes),
        Err(_) => true,
    }
}

/// The view of an optional string.
pub open spec fn opt_string_view(o: Option<String>) -> Option<Seq<char>> {
    match o {
        Some(s) => Some(s@),
        None => None,
    }
}

/// The lanes of a road under construction, forward and backward from the
/// centre outwards, with the warnings so far.
pub struct Stage {
    pub forward: Seq<LaneBuilder>,
    pub backward: Seq<LaneBuilder>,
    pub warnings: Seq<MsgView>,
}

/// Steps and paths: their one lane is for pedestrians in both directions.
pub open spec fn stage_non_motorized(tags: Seq<PairView>, st: Stage) -> Result<Stage, MsgView> {
    if !is_steps_or_path(tags) {
        Ok(st)
    } else {
        match spec_path_lane(st.forward[0]) {
            Some(l) => Ok(
                Stage {
                    forward: seq![l],
                    backward: st.backward,
                    warnings: st.warnings + msg_if(
                        lookup(tags, "highway"@) == Some("steps"@),
                        msg(
                            IssueKind::Unimplemented,
                            Some("steps becomes sidewalk"@),
                            tags_under(tags, set!["highway"@]),
                        ),
                    ),
                },
            ),
            None => Err(msg(IssueKind::Internal, Some("infer conflict"@), None)),
        }
    }
}

/// Bus lanes, from one of the bus lane schemes.
pub open spec fn stage_bus(
    tags: Seq<PairView>,
    side: DrivingSide,
    busway: BuswayVariant,
    st: Stage,
) -> Result<Stage, MsgView> {
    match spec_bus_schemes(tags) {
        (false, false, false) => Ok(st),
        (true, _, false) => {
            let (f, b, ok) = spec_apply_busway(st.forward, st.backward, busway);
            if ok {
                Ok(Stage { forward: f, backward: b, warnings: st.warnings })
            } else {
                Err(msg(IssueKind::Unsupported, Some("no forward lanes for busway"@), None))
            }
        },
        (false, true, false) => Ok(
            Stage {
                forward: st.forward,
                backward: st.backward,
                warnings: st.warnings.push(
                    msg(IssueKind::Unimplemented, None, tags_under(tags, lanes_bus_keys())),
                ),
            },
        ),
        (false, false, true) => {
            let (res, w) = spec_bus_lanes(tags, side, st.forward, st.backward);
            match res {
                Err(e) => Err(e),
                Ok((f, b)) => Ok(Stage { forward: f, backward: b, warnings: st.warnings + w }),
            }
        },
        _ => Err(
            msg(
                IssueKind::Unsupported,
                Some("more than one bus lanes scheme used"@),
                tags_under(tags, bus_scheme_keys()),
            ),
        ),
    }
}

/// Bicycle lanes and tracks.
pub open spec fn stage_bicycle(
    tags: Seq<PairView>,
    side: DrivingSide,
    oneway: Oneway,
    st: Stage,
) -> Result<Stage, MsgView> {
    let (res, w) = spec_cycleway_scheme(tags, side, oneway);
    match res {
        Err(e) => Err(e),
        Ok(sv) => match spec_apply_cycleway(st.forward, st.backward, sv.location) {
            Some((f, b)) => Ok(Stage { forward: f, backward: b, warnings: st.warnings + w }),
            None => Err(msg(IssueKind::Unsupported, Some("no forward lanes for cycleway"@), None)),
        },
    }
}

/// Parking lanes.
pub open spec fn stage_parking(tags: Seq<PairView>, st: Stage) -> Stage {
    Stage {
        forward: if is_parking(tags, "parking:lane:right"@) || is_parking(tags, "parking:lane:both"@) {
            st.forward.push(spec_parking_lane(Direction::Forward))
        } else {
            st.forward
        },
        backward: if is_parking(tags, "parking:lane:left"@) || is_parking(tags, "parking:lane:both"@) {
            st.backward.push(spec_parking_lane(Direction::Backward))
        } else {
            st.backward
        },
        warnings: st.warnings,
    }
}

/// Sidewalks and shoulders.
pub open spec fn stage_foot_and_shoulder(
    tags: Seq<PairView>,
    locale: &Locale,
    t: HighwayType,
    oneway: Oneway,
    st: Stage,
) -> Result<Stage, MsgView> {
    let (sw, w) = spec_sidewalk(tags, locale.driving_side);
    let sh = spec_shoulder(tags, locale.driving_side);
    let nl = in_country(locale.country, netherlands_value());
    let by_default = spec_has_shoulder(t);
    match (sw, sh) {
        (Err(e), _) => Err(e),
        (Ok(_), Err(e)) => Err(e),
        (Ok((swf, swb)), Ok((shf, shb))) => match spec_add_sidewalk_shoulder(
            st.forward,
            swf,
            shf,
            true,
            tags,
            by_default,
            oneway,
            nl,
        ) {
            Err(e) => Err(e),
            Ok(nf) => match spec_add_sidewalk_shoulder(
                st.backward,
                swb,
                shb,
                false,
                tags,
                by_default,
                oneway,
                nl,
            ) {
                Err(e) => Err(e),
                Ok(nb) => Ok(Stage { forward: nf, backward: nb, warnings: st.warnings + w }),
            },
        },
    }
}

/// The value under `key` where it is given and `known` says it is not known.
pub open spec fn unknown_value(tags: Seq<PairView>, key: Seq<char>, known: bool) -> Option<Seq<char>> {
    match lookup(tags, key) {
        Some(v) => if known {
            None
        } else {
            Some(v)
        },
        None => None,
    }
}

/// The value of `lit=*` where it is not known.
pub open spec fn unknown_lit(tags: Seq<PairView>) -> Option<Seq<char>> {
    unknown_value(
        tags,
        "lit"@,
        match lookup(tags, "lit"@) {
            Some(v) => spec_parse_lit(v) is Some,
            None => true,
        },
    )
}

/// The value of `tracktype=*` where it is not known.
pub open spec fn unknown_tracktype(tags: Seq<PairView>) -> Option<Seq<char>> {
    unknown_value(
        tags,
        "tracktype"@,
        match lookup(tags, "tracktype"@) {
            Some(v) => spec_parse_track_type(v) is Some,
            None => true,
        },
    )
}

/// The value of `smoothness=*` where it is not known.
pub open spec fn unknown_smoothness(tags: Seq<PairView>) -> Option<Seq<char>> {
    unknown_value(
        tags,
        "smoothness"@,
        match lookup(tags, "smoothness"@) {
            Some(v) => spec_parse_smoothness(v) is Some,
            None => true,
        },
    )
}

/// A map with `key` added where a value is given.
pub open spec fn insert_some(
    m: Map<Seq<char>, Seq<char>>,
    key: Seq<char>,
    v: Option<Seq<char>>,
) -> Map<Seq<char>, Seq<char>> {
    match v {
        Some(v) => m.insert(key, v),
        None => m,
    }
}

/// The tags among `lit`, `tracktype` and `smoothness` whose values are not
/// known.
pub open spec fn unknown_generic_tags(tags: Seq<PairView>) -> Map<Seq<char>, Seq<char>> {
    insert_some(
        insert_some(insert_some(Map::empty(), "lit"@, unknown_lit(tags)), "tracktype"@, unknown_tracktype(tags)),
        "smoothness"@,
        unknown_smoothness(tags),
    )
}

/// The warning about values of `lit`, `tracktype` and `smoothness` that are
/// not known.
pub open spec fn generic_warnings(tags: Seq<PairView>) -> Seq<MsgView> {
    msg_if(
        unknown_lit(tags) is Some || unknown_tracktype(tags) is Some || unknown_smoothness(tags) is Some,
        msg(IssueKind::Unsupported, None, Some(unknown_generic_tags(tags))),
    )
}

/// An error of the transformation, by its contents.
pub enum RoadErrorView {
    Msg(MsgView),
    Warnings(Seq<MsgView>),
}

/// The road built from its tags, inside out, before its lanes are put left
/// to right: the lanes of each side from the centre outwards, and the
/// warnings; or the error.
pub open spec fn spec_staged(tags: Seq<PairView>, locale: &Locale) -> Result<Stage, RoadErrorView> {
    let side = locale.driving_side;
    let w0 = msg_if(
        has_access_tag(tags),
        msg(IssueKind::Unimplemented, Some("access"@), tags_under(tags, str_set(access_keys()))),
    );
    match lookup(tags, "oneway"@) {
        Some(v) if v == "reversible"@ || v == "-1"@ => Err(
            RoadErrorView::Msg(msg(IssueKind::Unimplemented, None, Some(map!["oneway"@ => v]))),
        ),
        _ => {
            let w1 = w0 + generic_warnings(tags);
            match spec_oneway(tags) {
                Err(e) => Err(RoadErrorView::Msg(e)),
                Ok(o) => {
                    let w2 = w1 + spec_busway_warnings(tags, o, side);
                    let busway = spec_busway(tags, o, side);
                    match spec_highway_from_tags(tags) {
                        Err(None) => Err(
                            RoadErrorView::Msg(
                                msg(IssueKind::Unsupported, Some("way is not highway"@), None),
                            ),
                        ),
                        Err(Some(v)) => Err(
                            RoadErrorView::Msg(
                                msg(IssueKind::Unsupported, None, Some(map!["highway"@ => v])),
                            ),
                        ),
                        Ok((t, l)) => if !spec_supported(t, l) {
                            Err(
                                RoadErrorView::Msg(
                                    msg(IssueKind::Unimplemented, None, tags_under(tags, lifecycle_keys())),
                                ),
                            )
                        } else {
                            let ro = spec_road_oneway(tags);
                            let st0 = Stage {
                                forward: spec_initial_forward(tags, locale, t),
                                backward: spec_initial_backward(tags, locale, t),
                                warnings: w2 + spec_road_warnings(tags, locale, t),
                            };
                            match stage_non_motorized(tags, st0) {
                                Err(e) => Err(RoadErrorView::Msg(e)),
                                Ok(st1) => match stage_bus(tags, side, busway, st1) {
                                    Err(e) => Err(RoadErrorView::Msg(e)),
                                    Ok(st2) => match stage_bicycle(tags, side, ro, st2) {
                                        Err(e) => Err(RoadErrorView::Msg(e)),
                                        Ok(st3) => {
                                            let st4 = stage_parking(tags, st3);
                                            match stage_foot_and_shoulder(tags, locale, t, ro, st4) {
                                                Err(e) => Err(RoadErrorView::Msg(e)),
                                                Ok(st5) => Ok(st5),
                                            }
                                        },
                                    },
                                },
                            }
                        },
                    }
                },
            }
        },
    }
}

/// The lanes of a road, left to right, and the warnings, from its tags; or
/// the error.
pub open spec fn spec_tags_to_lanes(tags: Seq<PairView>, locale: &Locale, config: Config) -> Result<
    (Seq<LaneView>, Seq<MsgView>),
    RoadErrorView,
> {
    match spec_staged(tags, locale) {
        Err(e) => Err(e),
        Ok(st) => spec_finish(tags, locale, config, st),
    }
}

/// The lanes left to right, with separators where asked for, and the
/// warnings; an error where there are no lanes to separate, or where warnings
/// are to be errors.
pub open spec fn spec_finish(tags: Seq<PairView>, locale: &Locale, config: Config, st: Stage) -> Result<
    (Seq<LaneView>, Seq<MsgView>),
    RoadErrorView,
> {
    if config.include_separators && st.forward.len() == 0 && st.backward.len() == 0 {
        Err(RoadErrorView::Msg(msg(IssueKind::Internal, Some("no lanes"@), None)))
    } else {
        let lanes = spec_ltr(st.forward, st.backward, tags, locale, config.include_separators);
        let w = st.warnings + spec_ltr_warnings(
            st.forward,
            st.backward,
            tags,
            locale,
            config.include_separators,
        );
        if config.error_on_warnings && w.len() > 0 {
            Err(RoadErrorView::Warnings(w))
        } else {
            Ok((lanes, w))
        }
    }
}

/// Where warnings are errors, the lanes come with no warning.
pub proof fn lemma_strict_has_no_warnings(tags: Seq<PairView>, locale: &Locale, config: Config)
    requires
        config.error_on_warnings,
    ensures
        spec_tags_to_lanes(tags, locale, config) matches Ok((_, w)) ==> w.len() == 0,
{
}

/// Treating warnings as errors changes no lanes: it gives the lanes of
/// warnings as warnings where those come with no warning, the warnings as
/// the error where there are any, and the same error otherwise.
pub proof fn lemma_strictness_keeps_lanes(tags: Seq<PairView>, locale: &Locale, include_separators: bool)
    ensures
        spec_tags_to_lanes(tags, locale, Config { error_on_warnings: true, include_separators }) == match spec_tags_to_lanes(
            tags,
            locale,
            Config { error_on_warnings: false, include_separators },
        ) {
            Ok((lanes, w)) => if w.len() == 0 {
                Ok((lanes, w))
            } else {
                Err(RoadErrorView::Warnings(w))
            },
            Err(e) => Err(e),
        },
{
}

/// Without separators asked for, no lane is a separator.
pub proof fn lemma_no_separators_unless_asked(tags: Seq<PairView>, locale: &Locale, config: Config)
    requires
        !config.include_separators,
    ensures
        spec_tags_to_lanes(tags, locale, config) matches Ok((lanes, _)) ==> forall|i: int|
            0 <= i < lanes.len() ==> !(#[trigger] lanes[i]).is_separator(),
{
    if let Ok((lanes, _)) = spec_tags_to_lanes(tags, locale, config) {
        assert forall|i: int| 0 <= i < lanes.len() implies !(#[trigger] lanes[i]).is_separator() by {
            let l = lanes[i];
            assert(l is Travel || l is Parking || l is Shoulder);
        }
    }
}

/// Adds the tag of a value that is not known.
fn add_unknown<T>(unknown: &mut Tags, r: &Result<Option<T>, crate::schemes::TagError>)
    ensures
        match r {
            Ok(_) => tags_map(final(unknown)@) == tags_map(old(unknown)@),
            Err(e) => !tags_map(old(unknown)@).dom().contains(e.key@) ==> tags_map(final(unknown)@)
                == tags_map(old(unknown)@).insert(e.key@, e.val@),
        },
{
    match r {
        Ok(_) => {},
        Err(e) => {
            proof {
                if has_key(old(unknown)@, e.key@) {
                    assert(lookup(old(unknown)@, e.key@) is Some);
                }
            }
            let _ = unknown.checked_insert(e.key.as_str(), e.val.as_str());
            proof {
                if !tags_map(old(unknown)@).dom().contains(e.key@) {
                    assert(tags_map(unknown@) =~= tags_map(old(unknown)@).insert(e.key@, e.val@)) by {
                        assert forall|k: Seq<char>| #![auto] tags_map(unknown@).dom().contains(k)
                            == tags_map(old(unknown)@).insert(e.key@, e.val@).dom().contains(k) by {
                            assert(lookup(unknown@, k) == if k == e.key@ {
                                Some(e.val@)
                            } else {
                                lookup(old(unknown)@, k)
                            });
                        }
                        assert forall|k: Seq<char>| #![auto] tags_map(unknown@).dom().contains(k)
                            implies tags_map(unknown@)[k] == tags_map(old(unknown)@).insert(
                            e.key@,
                            e.val@,
                        )[k] by {
                            assert(lookup(unknown@, k) == if k == e.key@ {
                                Some(e.val@)
                            } else {
                                lookup(old(unknown)@, k)
                            });
                        }
                    }
                }
            }
        },
    }
}

/// The keys of the generic tags are distinct.
proof fn lemma_generic_keys()
    ensures
        "lit"@.len() == 3,
        "tracktype"@.len() == 9,
        "smoothness"@.len() == 10,
{
    reveal_strlit("lit");
    reveal_strlit("tracktype");
    reveal_strlit("smoothness");
}

/// What a road keeps of its tags: name, reference, highway, and the values of
/// `lit`, `tracktype` and `smoothness` that can be read.
pub open spec fn road_tags_kept(tags: Seq<PairView>, road: Road) -> bool {
    &&& opt_string_view(road.name) == lookup(tags, "name"@)
    &&& opt_string_view(road.reference) == lookup(tags, "ref"@)
    &&& spec_highway_from_tags(tags) matches Ok((t, l)) && road.highway.spec_type() == t
        && road.highway.spec_lifecycle() == l
    &&& road.lit == match lookup(tags, "lit"@) {
        Some(s) => spec_parse_lit(s),
        None => None,
    }
    &&& road.tracktype == match lookup(tags, "tracktype"@) {
        Some(s) => spec_parse_track_type(s),
        None => None,
    }
    &&& road.smoothness == match lookup(tags, "smoothness"@) {
        Some(s) => spec_parse_smoothness(s),
        None => None,
    }
}

/// The highway of a road is the one tagged.
pub open spec fn road_highway_read(tags: Seq<PairView>, h: Highway) -> bool {
    spec_highway_from_tags(tags) matches Ok((t, l)) && h.spec_type() == t && h.spec_lifecycle() == l
}

/// Builds the road from its tags, inside out: the generic and the crate's
/// schemes read, the lanes first guessed, then those of each mode.
#[verifier::rlimit(60)]
fn build_road(tags: &Tags, locale: &Locale, warnings: &mut RoadWarnings) -> (r: Result<RoadBuilder, RoadError>)
    requires
        old(warnings)@ == Seq::<MsgView>::empty(),
        tags_buildable(tags@, locale),
    ensures
        match spec_staged(tags@, locale) {
            Ok(st) => {
                &&& r matches Ok(road) && road.forward_lanes@ == st.forward && road.backward_lanes@ == st.backward
                    && road.wf() && road_highway_read(tags@, road.highway)
                &&& final(warnings)@ == st.warnings
            },
            Err(RoadErrorView::Msg(m)) => r matches Err(RoadError::Msg(e)) && e@ == m,
            Err(RoadErrorView::Warnings(_)) => false,
        },
{
    let ghost side = locale.driving_side;
    match unsupported(tags, locale, warnings) {
        Ok(()) => {},
        Err(e) => return Err(RoadError::Msg(e)),
    }
    let ghost w0 = warnings@;
    let generic = Schemes::from_tags(tags);
    let mut unknown = Tags::new();
    proof {
        lemma_generic_keys();
        assert(tags_map(unknown@) =~= Map::<Seq<char>, Seq<char>>::empty());
    }
    add_unknown(&mut unknown, &generic.lit);
    add_unknown(&mut unknown, &generic.tracktype);
    add_unknown(&mut unknown, &generic.smoothness);
    let any_unknown = match (&generic.lit, &generic.tracktype, &generic.smoothness) {
        (Ok(_), Ok(_), Ok(_)) => false,
        _ => true,
    };
    if any_unknown {
        warnings.push(TagsToLanesMsg::unsupported_tags(unknown));
    }
    assert(warnings@ == w0 + generic_warnings(tags@));
    let ghost w1 = warnings@;
    let crate_schemes = match TagSchemes::from_tags(tags, locale, warnings) {
        Ok(s) => s,
        Err(e) => return Err(RoadError::Msg(e)),
    };
    let mut road = match RoadBuilder::from(tags, locale, warnings) {
        Ok(r) => r,
        Err(e) => return Err(RoadError::Msg(e)),
    };
    let ghost t = road.highway.spec_type();
    let ghost st0 = Stage {
        forward: road.forward_lanes@,
        backward: road.backward_lanes@,
        warnings: warnings@,
    };
    match non_motorized(tags, locale, &mut road, warnings) {
        Ok(()) => {},
        Err(e) => return Err(RoadError::Msg(e)),
    }
    let ghost st1 = Stage {
        forward: road.forward_lanes@,
        backward: road.backward_lanes@,
        warnings: warnings@,
    };
    assert(stage_non_motorized(tags@, st0) == Ok::<Stage, MsgView>(st1));
    let ghost w_before_bus = warnings@;
    let ghost f_before_bus = road.forward_lanes@;
    let ghost b_before_bus = road.backward_lanes@;
    let bus_result = bus(&crate_schemes.busway, tags, locale, &mut road, warnings);
    proof {
        if spec_bus_schemes(tags@) == (false, false, true) {
            lemma_bus_lanes_outcome(
                tags@,
                side,
                f_before_bus,
                b_before_bus,
                road.forward_lanes@,
                road.backward_lanes@,
                w_before_bus,
                warnings@,
                result_view(bus_result),
            );
        }
    }
    match bus_result {
        Ok(()) => {},
        Err(e) => {
            assert(stage_bus(tags@, side, crate_schemes.busway.0, st1) == Err::<Stage, MsgView>(e@));
            return Err(RoadError::Msg(e));
        },
    }
    let ghost st2 = Stage {
        forward: road.forward_lanes@,
        backward: road.backward_lanes@,
        warnings: warnings@,
    };
    assert(stage_bus(tags@, side, crate_schemes.busway.0, st1) == Ok::<Stage, MsgView>(st2));
    match bicycle(tags, locale, &mut road, warnings) {
        Ok(()) => {},
        Err(e) => return Err(RoadError::Msg(e)),
    }
    let ghost st3 = Stage {
        forward: road.forward_lanes@,
        backward: road.backward_lanes@,
        warnings: warnings@,
    };
    assert(stage_bicycle(tags@, side, spec_road_oneway(tags@), st2) == Ok::<Stage, MsgView>(st3));
    match parking(tags, locale, &mut road) {
        Ok(()) => {},
        Err(e) => return Err(RoadError::Msg(e)),
    }
    let ghost st4 = Stage {
        forward: road.forward_lanes@,
        backward: road.backward_lanes@,
        warnings: warnings@,
    };
    assert(stage_parking(tags@, st3) == st4);
    match foot_and_shoulder(tags, locale, &mut road, warnings) {
        Ok(()) => {},
        Err(e) => return Err(RoadError::Msg(e)),
    }
    let ghost st5 = Stage {
        forward: road.forward_lanes@,
        backward: road.backward_lanes@,
        warnings: warnings@,
    };
    assert(stage_foot_and_shoulder(tags@, locale, t, spec_road_oneway(tags@), st4) == Ok::<
        Stage,
        MsgView,
    >(st5));
    Ok(road)
}

/// From an OpenStreetMap way's tags, the lanes along the road from left to
/// right, with warnings for what may make them inaccurate: unimplemented or
/// unsupported tags, ambiguous tags, or internal errors. Where the issue
/// cannot be recovered from, it is an error; the configuration can make every
/// warning an error.
#[verifier::rlimit(60)]
pub fn tags_to_lanes(tags: &Tags, locale: &Locale, config: &Config) -> (r: Result<RoadFromTags, RoadError>)
    requires
        tags_to_lanes_defined(tags@, locale, *config),
    ensures
        match spec_tags_to_lanes(tags@, locale, *config) {
            Ok((lanes, w)) => r matches Ok(res) && lanes_view(res.road.lanes@) == lanes && res.warnings@ == w,
            Err(RoadErrorView::Msg(m)) => r matches Err(RoadError::Msg(e)) && e@ == m,
            Err(RoadErrorView::Warnings(w)) => r matches Err(RoadError::Warnings(x)) && x@ == w,
        },
        r matches Ok(res) ==> road_tags_kept(tags@, res.road),
{
    let mut warnings = RoadWarnings::empty();
    let road = match build_road(tags, locale, &mut warnings) {
        Ok(r) => r,
        Err(e) => return Err(e),
    };
    let generic = Schemes::from_tags(tags);
    let (lanes, highway, _oneway) = match into_ltr(road, tags, locale, config.include_separators, &mut warnings) {
        Ok(x) => x,
        Err(e) => return Err(e),
    };
    let road = Road {
        name: generic.name,
        reference: generic.reference,
        highway,
        lit: match generic.lit {
            Ok(x) => x,
            Err(_) => None,
        },
        tracktype: match generic.tracktype {
            Ok(x) => x,
            Err(_) => None,
        },
        smoothness: match generic.smoothness {
            Ok(x) => x,
            Err(_) => None,
        },
        lanes,
    };
    if config.error_on_warnings && !warnings.is_empty() {
        return Err(RoadError::from_warnings(warnings));
    }
    Ok(RoadFromTags { road, warnings })
}

} // verus!
