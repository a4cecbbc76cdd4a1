//! From the lanes of a road back to the tags of an OpenStreetMap way.

use vstd::prelude::*;

use crate::highway::{highway_type_name, Highway, Lifecycle};
use crate::locale::{in_country, netherlands_value, side_name, Country, DrivingSide, Locale};
use crate::metric::{format_milli, nat_digits, spec_format_milli, spec_speed_text, usize_to_string, Speed};
use crate::msg::{LanesToTagsIssue, LanesToTagsMsg, RoadError};
use crate::road::{lanes_equal, lanes_view, Color, Designated, Direction, Lane, LaneView, Road};
use crate::tags::{has_key, join_with, keys_sorted, lookup, tags_map, PairView, Tags};
use crate::access_by_lane::spec_parse_lane_access;
use crate::modes::{spec_shoulder, spec_sidewalk, Shoulder, Sidewalk};
use crate::transform::{spec_tags_to_lanes, tags_to_lanes, tags_to_lanes_defined, Config as TagsToLanesConfig, RoadErrorView};

verus! {

/// Options of the transformation from lanes to tags.
#[derive(Clone, Copy, Debug, PartialEq, Eq, Structural)]
pub struct Config {
    /// Check that the tags give the lanes back.
    pub check_roundtrip: bool,
}

impl Config {
    /// The options as given.
    pub fn new(check_roundtrip: bool) -> (r: Self)
        ensures
            r.check_roundtrip == check_roundtrip,
    {
        Config { check_roundtrip }
    }
}

impl Default for Config {
    /// The round trip is checked.
    fn default() -> (r: Self)
        ensures
            r.check_roundtrip,
    {
        Config { check_roundtrip: true }
    }
}

/// Tags as a map from key to value.
pub type TagMap = Map<Seq<char>, Seq<char>>;

/// A travel lane for motor vehicles or buses.
pub open spec fn is_motor_or_bus(l: LaneView) -> bool {
    l.is_motor() || l.is_bus()
}

/// Some lane is a travel lane for motor vehicles or buses.
pub open spec fn has_motor_or_bus(lv: Seq<LaneView>) -> bool {
    exists|i: int| 0 <= i < lv.len() && is_motor_or_bus(#[trigger] lv[i])
}

/// A travel lane for motor vehicles or buses in the given direction.
pub open spec fn is_motor_or_bus_dir(l: LaneView, d: Direction) -> bool {
    is_motor_or_bus(l) && l.direction() == Some(d)
}

/// The number of travel lanes for motor vehicles or buses.
pub open spec fn count_motor_or_bus(s: Seq<LaneView>) -> nat
    decreases s.len(),
{
    if s.len() == 0 {
        0
    } else {
        count_motor_or_bus(s.drop_last()) + if is_motor_or_bus(s.last()) {
            1nat
        } else {
            0nat
        }
    }
}

/// The number of travel lanes for motor vehicles or buses in a direction.
pub open spec fn count_motor_or_bus_dir(s: Seq<LaneView>, d: Direction) -> nat
    decreases s.len(),
{
    if s.len() == 0 {
        0
    } else {
        count_motor_or_bus_dir(s.drop_last(), d) + if is_motor_or_bus_dir(s.last(), d) {
            1nat
        } else {
            0nat
        }
    }
}

/// The position of the first travel lane designated for `d`.
pub open spec fn first_designated(s: Seq<LaneView>, d: Designated) -> Option<int>
    decreases s.len(),
{
    if s.len() == 0 {
        None
    } else if s[0].is_travel_designated(d) {
        Some(0)
    } else {
        match first_designated(s.drop_first(), d) {
            Some(i) => Some(i + 1),
            None => None,
        }
    }
}

proof fn lemma_first_designated(s: Seq<LaneView>, d: Designated, i: int)
    requires
        0 <= i <= s.len(),
        forall|j: int| 0 <= j < i ==> !(#[trigger] s[j]).is_travel_designated(d),
        i < s.len() ==> s[i].is_travel_designated(d),
    ensures
        first_designated(s, d) == if i < s.len() {
            Some(i)
        } else {
            None
        },
    decreases s.len(),
{
    if s.len() > 0 && i > 0 {
        let t = s.drop_first();
        assert forall|j: int| 0 <= j < i - 1 implies !(#[trigger] t[j]).is_travel_designated(d) by {
            assert(t[j] == s[j + 1]);
        }
        assert(!s[0].is_travel_designated(d));
        lemma_first_designated(t, d, i - 1);
    }
}

/// The number of lanes before the first motor lane.
pub open spec fn first_motor(s: Seq<LaneView>) -> int {
    match first_designated(s, Designated::Motor) {
        Some(i) => i,
        None => s.len() as int,
    }
}

/// The lanes before the first motor lane.
pub open spec fn before_motor(s: Seq<LaneView>) -> Seq<LaneView> {
    s.take(first_motor(s))
}

/// The first lane designated for `d` before the first motor lane.
pub open spec fn edge_lane(s: Seq<LaneView>, d: Designated) -> Option<LaneView> {
    match first_designated(before_motor(s), d) {
        Some(i) => Some(s[i]),
        None => None,
    }
}

/// The lanes counted from the left, or from the right.
pub open spec fn oriented(s: Seq<LaneView>, from_right: bool) -> Seq<LaneView> {
    if from_right {
        s.reverse()
    } else {
        s
    }
}

/// Whether some lane is a parking lane.
pub open spec fn has_parking(s: Seq<LaneView>) -> bool {
    exists|i: int| 0 <= i < s.len() && #[trigger] s[i] is Parking
}

/// `no`, `left`, `right` or `both`, for what stands on the left and the right.
pub open spec fn sides_value(left: bool, right: bool) -> Seq<char> {
    if left && right {
        "both"@
    } else if left {
        "left"@
    } else if right {
        "right"@
    } else {
        "no"@
    }
}

/// The side values name the sides that have something: `both` for both,
/// `no` for neither, and `left` or `right` for one.
proof fn lemma_side_values()
    ensures
        "left"@ == side_name(DrivingSide::Left),
        "right"@ == side_name(DrivingSide::Right),
        "both"@ != side_name(DrivingSide::Left),
        "both"@ != side_name(DrivingSide::Right),
        "no"@ != side_name(DrivingSide::Left),
        "no"@ != side_name(DrivingSide::Right),
        "both"@ != "no"@,
        "both"@ != "yes"@,
        "both"@ != "none"@,
        "left"@ != "no"@ && "left"@ != "yes"@ && "left"@ != "none"@ && "left"@ != "both"@,
        "right"@ != "no"@ && "right"@ != "yes"@ && "right"@ != "none"@ && "right"@ != "both"@,
        "no"@ != "yes"@ && "no"@ != "none"@,
{
    reveal_strlit("left");
    reveal_strlit("right");
    reveal_strlit("both");
    reveal_strlit("no");
    reveal_strlit("yes");
    reveal_strlit("none");
    assert("left"@ =~= side_name(DrivingSide::Left));
    assert("right"@ =~= side_name(DrivingSide::Right));
    assert("left"@.len() == 4);
    assert("right"@.len() == 5);
    assert("both"@.len() == 4);
    assert("none"@.len() == 4);
    assert("no"@.len() == 2);
    assert("yes"@.len() == 3);
    assert("both"@[0] != "left"@[0]);
    assert("both"@[0] != "none"@[0]);
    assert("left"@[0] != "none"@[0]);
}

/// The shoulders written for the outer lanes, on the left and the right of the
/// way, read back as shoulders on exactly those sides: with driving on the
/// right, the right is the forward side; with driving on the left, the left is.
pub proof fn lemma_shoulder_value_reads_back(tags: Seq<PairView>, left: bool, right: bool, side: DrivingSide)
    requires
        lookup(tags, "shoulder"@) == Some(sides_value(left, right)),
    ensures
        ({
            let (forward, backward) = match side {
                DrivingSide::Right => (right, left),
                DrivingSide::Left => (left, right),
            };
            spec_shoulder(tags, side) == Ok::<(Shoulder, Shoulder), crate::msg::MsgView>(
                (
                    if forward {
                        Shoulder::Yes
                    } else {
                        Shoulder::No
                    },
                    if backward {
                        Shoulder::Yes
                    } else {
                        Shoulder::No
                    },
                ),
            )
        }),
{
    lemma_side_values();
}

/// The sidewalks written for the outer lanes, on the left and the right of the
/// way, read back as sidewalks on exactly those sides, where no other sidewalk
/// key is tagged: with driving on the right, the right is the forward side;
/// with driving on the left, the left is.
pub proof fn lemma_sidewalk_value_reads_back(tags: Seq<PairView>, left: bool, right: bool, side: DrivingSide)
    requires
        lookup(tags, "sidewalk"@) == Some(sides_value(left, right)),
        lookup(tags, "sidewalk:both"@) is None,
        lookup(tags, "sidewalk:left"@) is None,
        lookup(tags, "sidewalk:right"@) is None,
    ensures
        ({
            let (forward, backward) = match side {
                DrivingSide::Right => (right, left),
                DrivingSide::Left => (left, right),
            };
            spec_sidewalk(tags, side) == (
                Ok::<(Sidewalk, Sidewalk), crate::msg::MsgView>(
                    (
                        if forward {
                            Sidewalk::Yes
                        } else {
                            Sidewalk::No
                        },
                        if backward {
                            Sidewalk::Yes
                        } else {
                            Sidewalk::No
                        },
                    ),
                ),
                Seq::<crate::msg::MsgView>::empty(),
            )
        }),
{
    lemma_side_values();
    reveal_strlit("sidewalk");
    reveal_strlit("sidewalk:left");
    reveal_strlit("sidewalk:right");
    assert(crate::bus::side_key("sidewalk"@, DrivingSide::Left) =~= "sidewalk:left"@);
    assert(crate::bus::side_key("sidewalk"@, DrivingSide::Right) =~= "sidewalk:right"@);
}

/// The tags of one way motor traffic, or of the lanes in each direction.
pub open spec fn step_oneway(m: TagMap, lv: Seq<LaneView>, lane_count: nat, side: DrivingSide) -> TagMap {
    if spec_all_motor_forward(lv) {
        m.insert("oneway"@, "yes"@)
    } else {
        let m1 = m.insert("lanes:forward"@, nat_digits(count_motor_or_bus_dir(lv, Direction::Forward))).insert(
            "lanes:backward"@,
            nat_digits(count_motor_or_bus_dir(lv, Direction::Backward)),
        );
        if spec_any_motor_both(lv) {
            let m2 = m1.insert("lanes:both_ways"@, "1"@);
            if lane_count >= 3 {
                m2.insert("turn:lanes:both_ways"@, side_name(side.spec_opposite()))
            } else {
                m2
            }
        } else {
            m1
        }
    }
}

/// Every motor lane goes forward.
pub open spec fn spec_all_motor_forward(lv: Seq<LaneView>) -> bool {
    forall|i: int| 0 <= i < lv.len() && (#[trigger] lv[i]).is_motor() ==> lv[i].direction() == Some(
        Direction::Forward,
    )
}

/// Some motor lane goes both ways.
pub open spec fn spec_any_motor_both(lv: Seq<LaneView>) -> bool {
    exists|i: int| 0 <= i < lv.len() && (#[trigger] lv[i]).is_motor() && lv[i].direction() == Some(
        Direction::Both,
    )
}

/// The first lane is a separator whose first marking is red.
pub open spec fn starts_red(lv: Seq<LaneView>) -> bool {
    lv.len() > 0 && match lv[0] {
        LaneView::Separator { markings } => markings.len() > 0 && markings[0].color == Some(Color::Red),
        _ => false,
    }
}

/// The tags of parking lanes and of a red edge, where stopping is forbidden.
pub open spec fn step_parking(m: TagMap, lv: Seq<LaneView>) -> TagMap {
    let left = has_parking(before_motor(lv));
    let right = has_parking(lv.skip(first_motor(lv)));
    let m1 = if left && right {
        m.insert("parking:lane:both"@, "parallel"@)
    } else if left {
        m.insert("parking:lane:left"@, "parallel"@)
    } else if right {
        m.insert("parking:lane:right"@, "parallel"@)
    } else {
        m
    };
    if starts_red(lv) {
        m1.insert("parking:condition:both"@, "no_stopping"@)
    } else {
        m1
    }
}

/// The direction of a bicycle lane as tagged: `yes`, `-1` or `no`.
pub open spec fn cycle_direction_value(d: Direction) -> Seq<char> {
    match d {
        Direction::Forward => "yes"@,
        Direction::Backward => "-1"@,
        Direction::Both => "no"@,
    }
}

/// The width of a travel lane, if known.
pub open spec fn travel_width(l: LaneView) -> Option<i64> {
    match l {
        LaneView::Travel { width: Some(w), .. } => Some(w.millimetres),
        _ => None,
    }
}

/// The tags of the bicycle lanes next to the outer edges of the road.
pub open spec fn step_cycleway(m: TagMap, lv: Seq<LaneView>, oneway: bool) -> TagMap {
    let left = edge_lane(lv, Designated::Bicycle);
    let right = edge_lane(lv.reverse(), Designated::Bicycle);
    let m1 = if left is Some && right is Some {
        m.insert("cycleway:both"@, "lane"@)
    } else if left is Some {
        m.insert("cycleway:left"@, "lane"@)
    } else if right is Some {
        m.insert("cycleway:right"@, "lane"@)
    } else {
        m
    };
    let ld = match left {
        Some(l) => l.direction(),
        None => None,
    };
    let rd = match right {
        Some(l) => l.direction(),
        None => None,
    };
    let m2 = if oneway && (ld == Some(Direction::Backward) || rd == Some(Direction::Backward)) {
        m1.insert("oneway:bicycle"@, "no"@)
    } else {
        m1
    };
    let m3 = match ld {
        Some(d) => m2.insert("cycleway:left:oneway"@, cycle_direction_value(d)),
        None => m2,
    };
    let m4 = match rd {
        Some(d) => m3.insert("cycleway:right:oneway"@, cycle_direction_value(d)),
        None => m3,
    };
    let m5 = match left {
        Some(l) => match travel_width(l) {
            Some(w) => m4.insert("cycleway:left:width"@, spec_format_milli(w as int)),
            None => m4,
        },
        None => m4,
    };
    match right {
        Some(l) => match travel_width(l) {
            Some(w) => m5.insert("cycleway:right:width"@, spec_format_milli(w as int)),
            None => m5,
        },
        None => m5,
    }
}

/// `designated` for a bus lane, empty otherwise.
pub open spec fn bus_lane_value(l: LaneView) -> Seq<char> {
    if l.is_bus() {
        "designated"@
    } else {
        Seq::empty()
    }
}

/// The lane access value written for a lane reads back as designated for a
/// bus lane, and as nothing tagged for any other lane.
pub proof fn lemma_bus_lane_value_reads_back(l: LaneView)
    ensures
        spec_parse_lane_access(bus_lane_value(l)) == Some(
            if l.is_bus() {
                crate::access_by_lane::Access::Designated
            } else {
                crate::access_by_lane::Access::Empty
            },
        ),
{
    reveal_strlit("no");
    reveal_strlit("yes");
    reveal_strlit("designated");
    assert("no"@.len() == 2);
    assert("yes"@.len() == 3);
    assert("designated"@.len() == 10);
}

/// The busway value of a bus lane: `opposite_lane` against the one way
/// direction, `lane` otherwise.
pub open spec fn busway_value(l: LaneView, oneway: bool) -> Seq<char> {
    if oneway && l.direction() == Some(Direction::Backward) {
        "opposite_lane"@
    } else {
        "lane"@
    }
}

/// The tags of bus lanes: on the edges of the road as `busway:*`, elsewhere
/// as `bus:lanes`.
pub open spec fn step_busway(m: TagMap, lv: Seq<LaneView>, oneway: bool) -> TagMap {
    let left = edge_lane(lv, Designated::Bus);
    let right = edge_lane(lv.reverse(), Designated::Bus);
    if left is None && right is None {
        if exists|i: int| 0 <= i < lv.len() && (#[trigger] lv[i]).is_bus() {
            m.insert("bus:lanes"@, join_with(lv.map_values(|l: LaneView| bus_lane_value(l)), '|'))
        } else {
            m
        }
    } else {
        match (left, right) {
            (Some(l), None) => m.insert("busway:left"@, busway_value(l, oneway)),
            (None, Some(r)) => m.insert("busway:right"@, busway_value(r, oneway)),
            _ => m.insert("busway:both"@, "lane"@),
        }
    }
}

/// The maximum speeds of the travel lanes, in order.
pub open spec fn max_speeds(lv: Seq<LaneView>) -> Seq<Speed>
    decreases lv.len(),
{
    if lv.len() == 0 {
        Seq::empty()
    } else {
        max_speeds(lv.drop_last()) + match lv.last() {
            LaneView::Travel { max_speed: Some(s), .. } => seq![s],
            _ => Seq::empty(),
        }
    }
}

/// The maximum speed of the road: `Err` where the lanes have different ones.
pub open spec fn spec_max_speed(lv: Seq<LaneView>) -> Result<Option<Speed>, ()> {
    let ms = max_speeds(lv);
    if ms.len() == 0 {
        Ok(None)
    } else if forall|i: int| 0 <= i < ms.len() ==> #[trigger] ms[i] == ms[0] {
        Ok(Some(ms[0]))
    } else {
        Err(())
    }
}

/// The tags of a road's lanes, or the description of what is not implemented.
pub open spec fn spec_lanes_to_tags(lv: Seq<LaneView>, highway: Highway, locale: &Locale) -> Result<
    TagMap,
    Seq<char>,
> {
    if !(exists|i: int| 0 <= i < lv.len() && is_motor_or_bus(#[trigger] lv[i])) {
        Ok(map!["highway"@ => "path"@])
    } else if highway.spec_lifecycle() == Lifecycle::Construction || highway.spec_lifecycle()
        == Lifecycle::Proposed {
        Err("construction=*"@)
    } else {
        let lane_count = count_motor_or_bus(lv);
        let oneway = spec_all_motor_forward(lv);
        let m1 = map!["highway"@ => highway_type_name(highway.spec_type())].insert(
            "lanes"@,
            nat_digits(lane_count),
        );
        let m2 = step_oneway(m1, lv, lane_count, locale.driving_side);
        let m3 = m2.insert("shoulder"@, sides_value(lv[0].is_shoulder(), lv.last().is_shoulder()));
        let m4 = m3.insert("sidewalk"@, sides_value(lv[0].is_foot(), lv.last().is_foot()));
        let m5 = step_parking(m4, lv);
        let m6 = step_cycleway(m5, lv, oneway);
        let m7 = step_busway(m6, lv, oneway);
        match spec_max_speed(lv) {
            Err(()) => Err("different max speeds per lane"@),
            Ok(ms) => {
                let m8 = match ms {
                    Some(s) => m7.insert("maxspeed"@, spec_speed_text(s)),
                    None => m7,
                };
                if ms == Some(Speed::Kph(100000)) && in_country(locale.country, netherlands_value()) {
                    Ok(m8.insert("motorroad"@, "yes"@))
                } else {
                    Ok(m8)
                }
            },
        }
    }
}


/// The lengths of the keys written, and a character that tells apart keys of
/// one length.
proof fn lemma_keys()
    ensures
        "highway"@.len() == 7,
        "lanes"@.len() == 5,
        "oneway"@.len() == 6,
        "lanes:forward"@.len() == 13,
        "cycleway:left"@.len() == 13,
        "cycleway:both"@.len() == 13,
        "lanes:forward"@[9] == 'w',
        "cycleway:left"@[9] == 'l',
        "cycleway:both"@[9] == 'b',
        "lanes:backward"@.len() == 14,
        "cycleway:right"@.len() == 14,
        "oneway:bicycle"@.len() == 14,
        "lanes:backward"@[0] == 'l',
        "cycleway:right"@[0] == 'c',
        "oneway:bicycle"@[0] == 'o',
        "lanes:both_ways"@.len() == 15,
        "turn:lanes:both_ways"@.len() == 20,
        "cycleway:left:oneway"@.len() == 20,
        "cycleway:right:width"@.len() == 20,
        "turn:lanes:both_ways"@[9] == 's',
        "cycleway:left:oneway"@[9] == 'l',
        "cycleway:right:width"@[9] == 'r',
        "shoulder"@.len() == 8,
        "sidewalk"@.len() == 8,
        "maxspeed"@.len() == 8,
        "shoulder"@[1] == 'h',
        "sidewalk"@[1] == 'i',
        "maxspeed"@[1] == 'a',
        "parking:lane:left"@.len() == 17,
        "parking:lane:both"@.len() == 17,
        "parking:lane:left"@[13] == 'l',
        "parking:lane:both"@[13] == 'b',
        "parking:lane:right"@.len() == 18,
        "parking:condition:both"@.len() == 22,
        "cycleway:right:oneway"@.len() == 21,
        "cycleway:left:width"@.len() == 19,
        "bus:lanes"@.len() == 9,
        "motorroad"@.len() == 9,
        "bus:lanes"@[0] == 'b',
        "motorroad"@[0] == 'm',
        "busway:left"@.len() == 11,
        "busway:both"@.len() == 11,
        "busway:left"@[7] == 'l',
        "busway:both"@[7] == 'b',
        "busway:right"@.len() == 12,
{
    reveal_strlit("highway");
    reveal_strlit("lanes");
    reveal_strlit("oneway");
    reveal_strlit("lanes:forward");
    reveal_strlit("lanes:backward");
    reveal_strlit("lanes:both_ways");
    reveal_strlit("turn:lanes:both_ways");
    reveal_strlit("shoulder");
    reveal_strlit("sidewalk");
    reveal_strlit("parking:lane:left");
    reveal_strlit("parking:lane:right");
    reveal_strlit("parking:lane:both");
    reveal_strlit("parking:condition:both");
    reveal_strlit("cycleway:left");
    reveal_strlit("cycleway:right");
    reveal_strlit("cycleway:both");
    reveal_strlit("oneway:bicycle");
    reveal_strlit("cycleway:left:oneway");
    reveal_strlit("cycleway:right:oneway");
    reveal_strlit("cycleway:left:width");
    reveal_strlit("cycleway:right:width");
    reveal_strlit("bus:lanes");
    reveal_strlit("busway:left");
    reveal_strlit("busway:right");
    reveal_strlit("busway:both");
    reveal_strlit("maxspeed");
    reveal_strlit("motorroad");
}

/// Inserts a key that the tags do not hold yet.
fn insert_fresh(tags: &mut Tags, key: &str, val: &str)
    requires
        !tags_map(old(tags)@).dom().contains(key@),
    ensures
        tags_map(final(tags)@) == tags_map(old(tags)@).insert(key@, val@),
{
    proof {
        if has_key(old(tags)@, key@) {
            assert(lookup(old(tags)@, key@) is Some);
        }
    }
    let r = tags.checked_insert(key, val);
    proof {
        assert(r is Ok);
        assert(tags_map(tags@) =~= tags_map(old(tags)@).insert(key@, val@)) by {
            assert forall|k: Seq<char>| #![auto] tags_map(tags@).dom().contains(k)
                == tags_map(old(tags)@).insert(key@, val@).dom().contains(k) by {
                assert(lookup(tags@, k) == if k == key@ {
                    Some(val@)
                } else {
                    lookup(old(tags)@, k)
                });
            }
            assert forall|k: Seq<char>| #![auto] tags_map(tags@).dom().contains(k) implies tags_map(
                tags@,
            )[k] == tags_map(old(tags)@).insert(key@, val@)[k] by {
                assert(lookup(tags@, k) == if k == key@ {
                    Some(val@)
                } else {
                    lookup(old(tags)@, k)
                });
            }
        }
    }
}

/// Whether a lane is a travel lane designated for `d`.
fn is_designated(l: &Lane, d: Designated) -> (r: bool)
    ensures
        r == l@.is_travel_designated(d),
{
    match l {
        Lane::Travel { designated, .. } => *designated == d,
        _ => false,
    }
}

/// The lane at position `j` counted from the left, or from the right.
fn lane_from(lanes: &Vec<Lane>, from_right: bool, j: usize) -> (r: &Lane)
    requires
        j < lanes@.len(),
    ensures
        r@ == oriented(lanes_view(lanes@), from_right)[j as int],
{
    if from_right {
        &lanes[lanes.len() - 1 - j]
    } else {
        &lanes[j]
    }
}

/// The number of lanes before the first motor lane, counted from one side.
fn first_motor_from(lanes: &Vec<Lane>, from_right: bool) -> (r: usize)
    ensures
        r == first_motor(oriented(lanes_view(lanes@), from_right)),
        r <= lanes@.len(),
{
    let ghost s = oriented(lanes_view(lanes@), from_right);
    let mut i: usize = 0;
    while i < lanes.len()
        invariant
            i <= lanes@.len(),
            s == oriented(lanes_view(lanes@), from_right),
            s.len() == lanes@.len(),
            forall|j: int| 0 <= j < i ==> !(#[trigger] s[j]).is_travel_designated(Designated::Motor),
        decreases lanes@.len() - i,
    {
        if lane_from(lanes, from_right, i).is_motor() {
            proof {
                lemma_first_designated(s, Designated::Motor, i as int);
            }
            return i;
        }
        i = i + 1;
    }
    proof {
        lemma_first_designated(s, Designated::Motor, i as int);
    }
    i
}

/// The position of the first lane designated for `d` before the first motor
/// lane, counted from one side.
fn edge_lane_from(lanes: &Vec<Lane>, from_right: bool, d: Designated) -> (r: Option<usize>)
    ensures
        match r {
            Some(j) => j < lanes@.len() && edge_lane(oriented(lanes_view(lanes@), from_right), d)
                == Some(oriented(lanes_view(lanes@), from_right)[j as int]),
            None => edge_lane(oriented(lanes_view(lanes@), from_right), d) is None,
        },
{
    let ghost s = oriented(lanes_view(lanes@), from_right);
    let fm = first_motor_from(lanes, from_right);
    let ghost b = before_motor(s);
    assert(b.len() == fm);
    let mut i: usize = 0;
    while i < fm
        invariant
            i <= fm <= lanes@.len(),
            s == oriented(lanes_view(lanes@), from_right),
            s.len() == lanes@.len(),
            b == s.take(fm as int),
            b == before_motor(s),
            forall|j: int| 0 <= j < i ==> !(#[trigger] b[j]).is_travel_designated(d),
        decreases fm - i,
    {
        if is_designated(lane_from(lanes, from_right, i), d) {
            proof {
                lemma_first_designated(b, d, i as int);
            }
            return Some(i);
        }
        i = i + 1;
    }
    proof {
        lemma_first_designated(b, d, i as int);
    }
    None
}


/// The keys of the highway and the lane count.
spec fn keys_lanes() -> Set<Seq<char>> {
    set!["highway"@, "lanes"@]
}

/// The keys written up to the one way tags.
spec fn keys_oneway() -> Set<Seq<char>> {
    keys_lanes() + set![
        "oneway"@,
        "lanes:forward"@,
        "lanes:backward"@,
        "lanes:both_ways"@,
        "turn:lanes:both_ways"@,
    ]
}

/// The keys written up to the shoulder and the sidewalk.
spec fn keys_sides() -> Set<Seq<char>> {
    keys_oneway() + set!["shoulder"@, "sidewalk"@]
}

/// The number of travel lanes for motor vehicles or buses.
fn count_lanes(lanes: &Vec<Lane>) -> (r: usize)
    ensures
        r == count_motor_or_bus(lanes_view(lanes@)),
{
    let ghost s = lanes_view(lanes@);
    let mut n: usize = 0;
    let mut i: usize = 0;
    while i < lanes.len()
        invariant
            i <= lanes@.len(),
            s == lanes_view(lanes@),
            n == count_motor_or_bus(s.take(i as int)),
            n <= i,
        decreases lanes@.len() - i,
    {
        assert(s.take(i + 1).drop_last() =~= s.take(i as int));
        if lanes[i].is_motor() || lanes[i].is_bus() {
            n = n + 1;
        }
        i = i + 1;
    }
    assert(s.take(lanes@.len() as int) =~= s);
    n
}

/// The number of travel lanes for motor vehicles or buses in a direction.
fn count_lanes_dir(lanes: &Vec<Lane>, d: Direction) -> (r: usize)
    ensures
        r == count_motor_or_bus_dir(lanes_view(lanes@), d),
{
    let ghost s = lanes_view(lanes@);
    let mut n: usize = 0;
    let mut i: usize = 0;
    while i < lanes.len()
        invariant
            i <= lanes@.len(),
            s == lanes_view(lanes@),
            n == count_motor_or_bus_dir(s.take(i as int), d),
            n <= i,
        decreases lanes@.len() - i,
    {
        assert(s.take(i + 1).drop_last() =~= s.take(i as int));
        let same = match lanes[i].direction() {
            Some(x) => x == d,
            None => false,
        };
        if (lanes[i].is_motor() || lanes[i].is_bus()) && same {
            n = n + 1;
        }
        i = i + 1;
    }
    assert(s.take(lanes@.len() as int) =~= s);
    n
}

/// Writes the number of travel lanes for motor vehicles or buses.
fn set_lanes(lanes: &Vec<Lane>, tags: &mut Tags) -> (r: usize)
    requires
        tags_map(old(tags)@).dom() == set!["highway"@],
    ensures
        r == count_motor_or_bus(lanes_view(lanes@)),
        tags_map(final(tags)@) == tags_map(old(tags)@).insert("lanes"@, nat_digits(r as nat)),
        tags_map(final(tags)@).dom().subset_of(keys_lanes()),
{
    proof {
        lemma_keys();
    }
    let n = count_lanes(lanes);
    let text = usize_to_string(n);
    insert_fresh(tags, "lanes", text.as_str());
    n
}

/// Whether every motor lane goes forward.
fn all_motor_forward(lanes: &Vec<Lane>) -> (r: bool)
    ensures
        r == spec_all_motor_forward(lanes_view(lanes@)),
{
    let ghost s = lanes_view(lanes@);
    let mut i: usize = 0;
    while i < lanes.len()
        invariant
            i <= lanes@.len(),
            s == lanes_view(lanes@),
            forall|j: int| 0 <= j < i && (#[trigger] s[j]).is_motor() ==> s[j].direction() == Some(
                Direction::Forward,
            ),
        decreases lanes@.len() - i,
    {
        if lanes[i].is_motor() {
            match lanes[i].direction() {
                Some(Direction::Forward) => {},
                _ => {
                    assert(s[i as int].is_motor());
                    return false;
                },
            }
        }
        i = i + 1;
    }
    true
}

/// Whether some motor lane goes both ways.
fn any_motor_both(lanes: &Vec<Lane>) -> (r: bool)
    ensures
        r == spec_any_motor_both(lanes_view(lanes@)),
{
    let ghost s = lanes_view(lanes@);
    let mut i: usize = 0;
    while i < lanes.len()
        invariant
            i <= lanes@.len(),
            s == lanes_view(lanes@),
            forall|j: int| 0 <= j < i ==> !((#[trigger] s[j]).is_motor() && s[j].direction() == Some(
                Direction::Both,
            )),
        decreases lanes@.len() - i,
    {
        if lanes[i].is_motor() {
            match lanes[i].direction() {
                Some(Direction::Both) => {
                    assert(s[i as int].is_motor());
                    return true;
                },
                _ => {},
            }
        }
        i = i + 1;
    }
    false
}

/// Writes whether the road is one way, or how many lanes go each way;
/// returns whether it is one way.
fn set_oneway(lanes: &Vec<Lane>, tags: &mut Tags, locale: &Locale, lane_count: usize) -> (r: bool)
    requires
        tags_map(old(tags)@).dom().subset_of(keys_lanes()),
    ensures
        r == spec_all_motor_forward(lanes_view(lanes@)),
        tags_map(final(tags)@) == step_oneway(
            tags_map(old(tags)@),
            lanes_view(lanes@),
            lane_count as nat,
            locale.driving_side,
        ),
        tags_map(final(tags)@).dom().subset_of(keys_oneway()),
{
    proof {
        lemma_keys();
    }
    if all_motor_forward(lanes) {
        insert_fresh(tags, "oneway", "yes");
        true
    } else {
        let forward = count_lanes_dir(lanes, Direction::Forward);
        let text = usize_to_string(forward);
        insert_fresh(tags, "lanes:forward", text.as_str());
        let backward = count_lanes_dir(lanes, Direction::Backward);
        let text = usize_to_string(backward);
        insert_fresh(tags, "lanes:backward", text.as_str());
        if any_motor_both(lanes) {
            insert_fresh(tags, "lanes:both_ways", "1");
            if lane_count >= 3 {
                let side = locale.driving_side.opposite().to_string();
                insert_fresh(tags, "turn:lanes:both_ways", side.as_str());
            }
        }
        false
    }
}

/// `no`, `left`, `right` or `both`.
fn sides_text(left: bool, right: bool) -> (r: &'static str)
    ensures
        r@ == sides_value(left, right),
{
    if left && right {
        "both"
    } else if left {
        "left"
    } else if right {
        "right"
    } else {
        "no"
    }
}

/// Writes on which sides the road has a shoulder.
fn set_shoulder(lanes: &Vec<Lane>, tags: &mut Tags)
    requires
        lanes@.len() > 0,
        tags_map(old(tags)@).dom().subset_of(keys_oneway()),
    ensures
        tags_map(final(tags)@) == tags_map(old(tags)@).insert(
            "shoulder"@,
            sides_value(lanes@[0]@.is_shoulder(), lanes@.last()@.is_shoulder()),
        ),
        tags_map(final(tags)@).dom().subset_of(keys_oneway().insert("shoulder"@)),
{
    proof {
        lemma_keys();
    }
    let text = sides_text(lanes[0].is_shoulder(), lanes[lanes.len() - 1].is_shoulder());
    insert_fresh(tags, "shoulder", text);
}

/// Writes on which sides the road has a sidewalk.
fn set_pedestrian(lanes: &Vec<Lane>, tags: &mut Tags)
    requires
        lanes@.len() > 0,
        tags_map(old(tags)@).dom().subset_of(keys_oneway().insert("shoulder"@)),
    ensures
        tags_map(final(tags)@) == tags_map(old(tags)@).insert(
            "sidewalk"@,
            sides_value(lanes@[0]@.is_foot(), lanes@.last()@.is_foot()),
        ),
        tags_map(final(tags)@).dom().subset_of(keys_sides()),
{
    proof {
        lemma_keys();
    }
    let text = sides_text(lanes[0].is_foot(), lanes[lanes.len() - 1].is_foot());
    insert_fresh(tags, "sidewalk", text);
}


/// The keys written up to the parking lanes.
spec fn keys_parking() -> Set<Seq<char>> {
    keys_sides() + set![
        "parking:lane:left"@,
        "parking:lane:right"@,
        "parking:lane:both"@,
        "parking:condition:both"@,
    ]
}

/// Whether some lane in `from..to` is a parking lane.
fn any_parking(lanes: &Vec<Lane>, from: usize, to: usize) -> (r: bool)
    requires
        from <= to <= lanes@.len(),
    ensures
        r == exists|i: int| from <= i < to && (#[trigger] lanes_view(lanes@)[i]) is Parking,
{
    let ghost s = lanes_view(lanes@);
    let mut i: usize = from;
    while i < to
        invariant
            from <= i <= to <= lanes@.len(),
            s == lanes_view(lanes@),
            forall|j: int| from <= j < i ==> !((#[trigger] s[j]) is Parking),
        decreases to - i,
    {
        match &lanes[i] {
            Lane::Parking { .. } => {
                assert(s[i as int] is Parking);
                return true;
            },
            _ => {},
        }
        i = i + 1;
    }
    false
}

/// Whether the first lane is a separator whose first marking is red.
fn red_first_marking(lanes: &Vec<Lane>) -> (r: bool)
    ensures
        r == starts_red(lanes_view(lanes@)),
{
    if lanes.len() == 0 {
        return false;
    }
    match &lanes[0] {
        Lane::Separator { markings } => {
            if markings.markings.len() == 0 {
                false
            } else {
                match markings.markings[0].color {
                    Some(Color::Red) => true,
                    _ => false,
                }
            }
        },
        _ => false,
    }
}

/// Writes on which sides there are parking lanes, and that stopping is
/// forbidden where the road is edged in red.
fn set_parking(lanes: &Vec<Lane>, tags: &mut Tags)
    requires
        tags_map(old(tags)@).dom().subset_of(keys_sides()),
    ensures
        tags_map(final(tags)@) == step_parking(tags_map(old(tags)@), lanes_view(lanes@)),
        tags_map(final(tags)@).dom().subset_of(keys_parking()),
{
    proof {
        lemma_keys();
    }
    let ghost s = lanes_view(lanes@);
    let fm = first_motor_from(lanes, false);
    let left = any_parking(lanes, 0, fm);
    let right = any_parking(lanes, fm, lanes.len());
    proof {
        let b = before_motor(s);
        let a = s.skip(first_motor(s));
        assert(left == has_parking(b)) by {
            if left {
                let i = choose|i: int| 0 <= i < fm && (#[trigger] s[i]) is Parking;
                assert(b[i] is Parking);
            }
            if has_parking(b) {
                let i = choose|i: int| 0 <= i < b.len() && #[trigger] b[i] is Parking;
                assert(s[i] is Parking);
            }
        }
        assert(right == has_parking(a)) by {
            if right {
                let i = choose|i: int| fm <= i < s.len() && (#[trigger] s[i]) is Parking;
                assert(a[i - fm] is Parking);
            }
            if has_parking(a) {
                let i = choose|i: int| 0 <= i < a.len() && #[trigger] a[i] is Parking;
                assert(s[i + fm] is Parking);
            }
        }
    }
    if left && right {
        insert_fresh(tags, "parking:lane:both", "parallel");
    } else if left {
        insert_fresh(tags, "parking:lane:left", "parallel");
    } else if right {
        insert_fresh(tags, "parking:lane:right", "parallel");
    }
    if red_first_marking(lanes) {
        insert_fresh(tags, "parking:condition:both", "no_stopping");
    }
}


/// The keys written up to the bicycle lanes.
spec fn keys_cycleway() -> Set<Seq<char>> {
    keys_parking() + set![
        "cycleway:left"@,
        "cycleway:right"@,
        "cycleway:both"@,
        "oneway:bicycle"@,
        "cycleway:left:oneway"@,
        "cycleway:right:oneway"@,
        "cycleway:left:width"@,
        "cycleway:right:width"@,
    ]
}

/// `yes`, `-1` or `no`.
fn cycle_direction_text(d: Direction) -> (r: &'static str)
    ensures
        r@ == cycle_direction_value(d),
{
    match d {
        Direction::Forward => "yes",
        Direction::Backward => "-1",
        Direction::Both => "no",
    }
}

/// The width of a travel lane in millimetres, if known.
fn lane_width(l: &Lane) -> (r: Option<i64>)
    ensures
        r == travel_width(l@),
{
    match l {
        Lane::Travel { width: Some(w), .. } => Some(w.millimetres()),
        _ => None,
    }
}

/// Whether a direction is backward.
fn is_backward(d: Option<Direction>) -> (r: bool)
    ensures
        r == (d == Some(Direction::Backward)),
{
    match d {
        Some(Direction::Backward) => true,
        _ => false,
    }
}

/// The first lane designated for `d` before the first motor lane, from one side.
fn edge_lane_ref(lanes: &Vec<Lane>, from_right: bool, d: Designated) -> (r: Option<&Lane>)
    ensures
        match r {
            Some(l) => edge_lane(oriented(lanes_view(lanes@), from_right), d) == Some(l@),
            None => edge_lane(oriented(lanes_view(lanes@), from_right), d) is None,
        },
{
    match edge_lane_from(lanes, from_right, d) {
        Some(j) => Some(lane_from(lanes, from_right, j)),
        None => None,
    }
}

/// Writes the bicycle lanes next to the outer edges of the road: on which
/// side, in which direction, and how wide.
fn set_cycleway(lanes: &Vec<Lane>, tags: &mut Tags, oneway: bool)
    requires
        tags_map(old(tags)@).dom().subset_of(keys_parking()),
    ensures
        tags_map(final(tags)@) == step_cycleway(tags_map(old(tags)@), lanes_view(lanes@), oneway),
        tags_map(final(tags)@).dom().subset_of(keys_cycleway()),
{
    proof {
        lemma_keys();
    }
    let left = edge_lane_ref(lanes, false, Designated::Bicycle);
    let right = edge_lane_ref(lanes, true, Designated::Bicycle);
    if left.is_some() && right.is_some() {
        insert_fresh(tags, "cycleway:both", "lane");
    } else if left.is_some() {
        insert_fresh(tags, "cycleway:left", "lane");
    } else if right.is_some() {
        insert_fresh(tags, "cycleway:right", "lane");
    }
    let ld = match left {
        Some(l) => l.direction(),
        None => None,
    };
    let rd = match right {
        Some(l) => l.direction(),
        None => None,
    };
    if oneway && (is_backward(ld) || is_backward(rd)) {
        insert_fresh(tags, "oneway:bicycle", "no");
    }
    match ld {
        Some(d) => insert_fresh(tags, "cycleway:left:oneway", cycle_direction_text(d)),
        None => {},
    }
    match rd {
        Some(d) => insert_fresh(tags, "cycleway:right:oneway", cycle_direction_text(d)),
        None => {},
    }
    match left {
        Some(l) => match lane_width(l) {
            Some(w) => {
                let text = format_milli(w);
                insert_fresh(tags, "cycleway:left:width", text.as_str());
            },
            None => {},
        },
        None => {},
    }
    match right {
        Some(l) => match lane_width(l) {
            Some(w) => {
                let text = format_milli(w);
                insert_fresh(tags, "cycleway:right:width", text.as_str());
            },
            None => {},
        },
        None => {},
    }
}

/// The keys written up to the bus lanes.
spec fn keys_busway() -> Set<Seq<char>> {
    keys_cycleway() + set!["bus:lanes"@, "busway:left"@, "busway:right"@, "busway:both"@]
}

/// `opposite_lane` or `lane`.
fn busway_text(l: &Lane, oneway: bool) -> (r: &'static str)
    ensures
        r@ == busway_value(l@, oneway),
{
    if oneway && is_backward(l.direction()) {
        "opposite_lane"
    } else {
        "lane"
    }
}

/// Whether some lane is a bus lane.
fn any_bus(lanes: &Vec<Lane>) -> (r: bool)
    ensures
        r == exists|i: int| 0 <= i < lanes@.len() && (#[trigger] lanes_view(lanes@)[i]).is_bus(),
{
    let ghost s = lanes_view(lanes@);
    let mut i: usize = 0;
    while i < lanes.len()
        invariant
            i <= lanes@.len(),
            s == lanes_view(lanes@),
            forall|j: int| 0 <= j < i ==> !(#[trigger] s[j]).is_bus(),
        decreases lanes@.len() - i,
    {
        if lanes[i].is_bus() {
            assert(s[i as int].is_bus());
            return true;
        }
        i = i + 1;
    }
    false
}

/// `designated` for each bus lane and nothing for the others, joined by `|`.
fn bus_lanes_text(lanes: &Vec<Lane>) -> (r: String)
    ensures
        r@ == join_with(lanes_view(lanes@).map_values(|l: LaneView| bus_lane_value(l)), '|'),
{
    let ghost parts = lanes_view(lanes@).map_values(|l: LaneView| bus_lane_value(l));
    let mut out = String::new();
    let mut i: usize = 0;
    while i < lanes.len()
        invariant
            i <= lanes@.len(),
            parts == lanes_view(lanes@).map_values(|l: LaneView| bus_lane_value(l)),
            parts.len() == lanes@.len(),
            out@ == join_with(parts.take(i as int), '|'),
        decreases lanes@.len() - i,
    {
        if i > 0 {
            out.append("|");
        }
        if lanes[i].is_bus() {
            out.append("designated");
        } else {
            out.append("");
        }
        proof {
            reveal_strlit("|");
            reveal_strlit("designated");
            reveal_strlit("");
            assert(parts[i as int] == bus_lane_value(lanes@[i as int]@));
            assert(parts.take(i + 1).drop_last() =~= parts.take(i as int));
            if i == 0 {
                assert(out@ =~= join_with(parts.take(1), '|'));
            } else {
                assert(out@ =~= join_with(parts.take(i + 1), '|'));
            }
        }
        i = i + 1;
    }
    assert(parts.take(lanes@.len() as int) =~= parts);
    out
}

/// Writes the bus lanes: on the outer edges of the road as `busway:*`,
/// elsewhere as `bus:lanes`.
fn set_busway(lanes: &Vec<Lane>, tags: &mut Tags, oneway: bool)
    requires
        tags_map(old(tags)@).dom().subset_of(keys_cycleway()),
    ensures
        tags_map(final(tags)@) == step_busway(tags_map(old(tags)@), lanes_view(lanes@), oneway),
        tags_map(final(tags)@).dom().subset_of(keys_busway()),
{
    proof {
        lemma_keys();
    }
    let left = edge_lane_ref(lanes, false, Designated::Bus);
    let right = edge_lane_ref(lanes, true, Designated::Bus);
    if left.is_none() && right.is_none() {
        if any_bus(lanes) {
            let text = bus_lanes_text(lanes);
            insert_fresh(tags, "bus:lanes", text.as_str());
        }
    } else {
        match (left, right) {
            (Some(l), None) => insert_fresh(tags, "busway:left", busway_text(l, oneway)),
            (None, Some(r)) => insert_fresh(tags, "busway:right", busway_text(r, oneway)),
            _ => insert_fresh(tags, "busway:both", "lane"),
        }
    }
}


/// Reads the maximum speed shared by the travel lanes and writes it; lanes
/// with different maximum speeds are not implemented.
fn get_max_speed(lanes: &Vec<Lane>, tags: &mut Tags) -> (r: Result<Option<Speed>, LanesToTagsMsg>)
    requires
        tags_map(old(tags)@).dom().subset_of(keys_busway()),
    ensures
        match spec_max_speed(lanes_view(lanes@)) {
            Err(()) => {
                &&& r matches Err(e) && e.issue matches LanesToTagsIssue::Unimplemented(d) && d@
                    == "different max speeds per lane"@
                &&& tags_map(final(tags)@) == tags_map(old(tags)@)
            },
            Ok(ms) => {
                &&& r matches Ok(x) && x == ms
                &&& tags_map(final(tags)@) == match ms {
                    Some(s) => tags_map(old(tags)@).insert("maxspeed"@, spec_speed_text(s)),
                    None => tags_map(old(tags)@),
                }
            },
        },
        tags_map(final(tags)@).dom().subset_of(keys_busway().insert("maxspeed"@)),
{
    proof {
        lemma_keys();
    }
    let ghost s = lanes_view(lanes@);
    let mut first: Option<Speed> = None;
    let mut same = true;
    let mut i: usize = 0;
    while i < lanes.len()
        invariant
            i <= lanes@.len(),
            s == lanes_view(lanes@),
            first == if max_speeds(s.take(i as int)).len() > 0 {
                Some(max_speeds(s.take(i as int))[0])
            } else {
                None::<Speed>
            },
            same == forall|k: int|
                0 <= k < max_speeds(s.take(i as int)).len() ==> #[trigger] max_speeds(
                    s.take(i as int),
                )[k] == max_speeds(s.take(i as int))[0],
        decreases lanes@.len() - i,
    {
        let ghost before = max_speeds(s.take(i as int));
        assert(s.take(i + 1).drop_last() =~= s.take(i as int));
        assert(s.take(i + 1).last() == s[i as int]);
        match &lanes[i] {
            Lane::Travel { max_speed: Some(sp), .. } => {
                let ghost after = max_speeds(s.take(i + 1));
                assert(after == before.push(*sp));
                match first {
                    None => {
                        first = Some(*sp);
                        assert(after =~= seq![*sp]);
                    },
                    Some(f) => {
                        let eq = f == *sp;
                        proof {
                            assert(after.len() == before.len() + 1);
                            assert forall|k: int| 0 <= k < before.len() implies after[k] == before[k] by {}
                            if same && eq {
                                assert forall|k: int| 0 <= k < after.len() implies #[trigger] after[k]
                                    == after[0] by {
                                    if k < before.len() {
                                        assert(after[k] == before[k]);
                                    }
                                }
                            } else if !same {
                                let k = choose|k: int|
                                    0 <= k < before.len() && #[trigger] before[k] != before[0];
                                assert(after[k] != after[0]);
                            } else {
                                assert(after[before.len() as int] != after[0]);
                            }
                        }
                        same = same && eq;
                    },
                }
            },
            _ => {
                assert(max_speeds(s.take(i + 1)) =~= before);
            },
        }
        i = i + 1;
    }
    assert(s.take(lanes@.len() as int) =~= s);
    match first {
        Some(sp) => {
            if same {
                let text = sp.to_string();
                insert_fresh(tags, "maxspeed", text.as_str());
                Ok(Some(sp))
            } else {
                Err(LanesToTagsMsg::unimplemented("different max speeds per lane"))
            }
        },
        None => Ok(None),
    }
}

/// Writes what the locale adds: a road in the Netherlands at 100 km/h is a
/// motorroad.
fn locale_additions(max_speed: Option<Speed>, locale: &Locale, tags: &mut Tags)
    requires
        tags_map(old(tags)@).dom().subset_of(keys_busway().insert("maxspeed"@)),
    ensures
        tags_map(final(tags)@) == if max_speed == Some(Speed::Kph(100000)) && in_country(
            locale.country,
            netherlands_value(),
        ) {
            tags_map(old(tags)@).insert("motorroad"@, "yes"@)
        } else {
            tags_map(old(tags)@)
        },
{
    proof {
        lemma_keys();
    }
    let fast = match max_speed {
        Some(Speed::Kph(v)) => v == 100000,
        _ => false,
    };
    if fast {
        let in_netherlands = match &locale.country {
            Some(c) => *c == Country::the_netherlands(),
            None => false,
        };
        if in_netherlands {
            insert_fresh(tags, "motorroad", "yes");
        }
    }
}

/// The options with which the tags are read back: warnings are errors, and
/// separators are included.
pub open spec fn roundtrip_config() -> TagsToLanesConfig {
    TagsToLanesConfig { error_on_warnings: true, include_separators: true }
}

/// The tags of the lanes, where there are any, can be read back.
pub open spec fn roundtrip_defined(lv: Seq<LaneView>, highway: Highway, locale: &Locale) -> bool {
    match spec_lanes_to_tags(lv, highway, locale) {
        Ok(m) => forall|t: Seq<PairView>|
            #[trigger] tags_map(t) == m && keys_sorted(t) ==> tags_to_lanes_defined(
                t,
                locale,
                roundtrip_config(),
            ),
        Err(_) => true,
    }
}

/// An error of the transformation from tags to lanes is the one described.
pub open spec fn road_error_is(e: RoadError, v: RoadErrorView) -> bool {
    match (e, v) {
        (RoadError::Msg(m), RoadErrorView::Msg(mv)) => m@ == mv,
        (RoadError::Warnings(w), RoadErrorView::Warnings(wv)) => w@ == wv,
        _ => false,
    }
}

/// Read back, the tags give the lanes, with no warning.
pub open spec fn roundtrip_gives(t: Seq<PairView>, locale: &Locale, lv: Seq<LaneView>) -> bool {
    spec_tags_to_lanes(t, locale, roundtrip_config()) matches Ok((l, w)) && l == lv && w.len() == 0
}

/// Why the tags, read back, do not give the lanes: the error of reading them,
/// or other lanes.
pub open spec fn roundtrip_refused(
    t: Seq<PairView>,
    locale: &Locale,
    lv: Seq<LaneView>,
    issue: LanesToTagsIssue,
) -> bool {
    match spec_tags_to_lanes(t, locale, roundtrip_config()) {
        Ok((l, _)) => l != lv && issue matches LanesToTagsIssue::Roundtrip(None),
        Err(v) => issue matches LanesToTagsIssue::Roundtrip(Some(e)) && road_error_is(e, v),
    }
}

/// Reads the tags back, where asked to, and checks that they give the lanes.
fn check_roundtrip(config: &Config, tags: &Tags, locale: &Locale, lanes: &Vec<Lane>) -> (r: Result<
    (),
    LanesToTagsMsg,
>)
    requires
        config.check_roundtrip ==> tags_to_lanes_defined(tags@, locale, roundtrip_config()),
    ensures
        !config.check_roundtrip ==> r is Ok,
        config.check_roundtrip ==> match r {
            Ok(()) => roundtrip_gives(tags@, locale, lanes_view(lanes@)),
            Err(e) => roundtrip_refused(tags@, locale, lanes_view(lanes@), e.issue),
        },
{
    if config.check_roundtrip {
        let options = TagsToLanesConfig { error_on_warnings: true, include_separators: true };
        match tags_to_lanes(tags, locale, &options) {
            Err(e) => Err(LanesToTagsMsg::from_road_error(e)),
            Ok(roundtrip) => {
                proof {
                    crate::transform::lemma_strict_has_no_warnings(tags@, locale, options);
                }
                if lanes_equal(lanes, &roundtrip.road.lanes) {
                    Ok(())
                } else {
                    Err(LanesToTagsMsg::roundtrip())
                }
            },
        }
    } else {
        Ok(())
    }
}

/// Whether some lane is a travel lane for motor vehicles or buses.
fn any_motor_or_bus(lanes: &Vec<Lane>) -> (r: bool)
    ensures
        r == exists|i: int| 0 <= i < lanes@.len() && is_motor_or_bus(#[trigger] lanes_view(lanes@)[i]),
{
    let ghost s = lanes_view(lanes@);
    let mut i: usize = 0;
    while i < lanes.len()
        invariant
            i <= lanes@.len(),
            s == lanes_view(lanes@),
            forall|j: int| 0 <= j < i ==> !is_motor_or_bus(#[trigger] s[j]),
        decreases lanes@.len() - i,
    {
        if lanes[i].is_motor() || lanes[i].is_bus() {
            assert(is_motor_or_bus(s[i as int]));
            return true;
        }
        i = i + 1;
    }
    false
}

/// Converts the lanes of a road back to tags.
///
/// Not implemented: a road under construction or proposed, and lanes with
/// different maximum speeds. Where asked to, the tags are read back and must
/// give the same lanes.
pub fn lanes_to_tags(road: &Road, locale: &Locale, config: &Config) -> (r: Result<Tags, LanesToTagsMsg>)
    requires
        config.check_roundtrip && has_motor_or_bus(lanes_view(road.lanes@)) ==> roundtrip_defined(
            lanes_view(road.lanes@),
            road.highway,
            locale,
        ),
    ensures
        match spec_lanes_to_tags(lanes_view(road.lanes@), road.highway, locale) {
            Err(d) => r matches Err(e) && e.issue matches LanesToTagsIssue::Unimplemented(s) && s@ == d,
            Ok(m) => match r {
                Ok(t) => tags_map(t@) == m && keys_sorted(t@) && (config.check_roundtrip && has_motor_or_bus(
                    lanes_view(road.lanes@),
                ) ==> roundtrip_gives(
                    t@,
                    locale,
                    lanes_view(road.lanes@),
                )),
                Err(e) => config.check_roundtrip && exists|t: Seq<PairView>|
                    #[trigger] tags_map(t) == m && keys_sorted(t) && roundtrip_refused(
                        t,
                        locale,
                        lanes_view(road.lanes@),
                        e.issue,
                    ),
            },
        },
        !has_motor_or_bus(lanes_view(road.lanes@)) ==> r is Ok,
{
    let ghost lv = lanes_view(road.lanes@);
    let lanes = &road.lanes;
    let mut tags = Tags::new();
    assert(tags_map(tags@) =~= Map::<Seq<char>, Seq<char>>::empty());
    if !any_motor_or_bus(lanes) {
        insert_fresh(&mut tags, "highway", "path");
        tags.sorted_pairs();
        return Ok(tags);
    }
    let highway = road.highway.to_string();
    insert_fresh(&mut tags, "highway", highway.as_str());
    if road.highway.is_construction() || road.highway.is_proposed() {
        return Err(LanesToTagsMsg::unimplemented("construction=*"));
    }
    proof {
        lemma_keys();
    }
    assert(tags_map(tags@).dom() =~= set!["highway"@]);
    let lane_count = set_lanes(lanes, &mut tags);
    let oneway = set_oneway(lanes, &mut tags, locale, lane_count);
    set_shoulder(lanes, &mut tags);
    set_pedestrian(lanes, &mut tags);
    set_parking(lanes, &mut tags);
    set_cycleway(lanes, &mut tags, oneway);
    set_busway(lanes, &mut tags, oneway);
    let max_speed = match get_max_speed(lanes, &mut tags) {
        Ok(ms) => ms,
        Err(e) => {
            return Err(e);
        },
    };
    locale_additions(max_speed, locale, &mut tags);
    tags.sorted_pairs();
    assert(spec_lanes_to_tags(lv, road.highway, locale) == Ok::<TagMap, Seq<char>>(tags_map(tags@)));
    match check_roundtrip(config, &tags, locale, lanes) {
        Ok(()) => Ok(tags),
        Err(e) => {
            assert(tags_map(tags@) == tags_map(tags@) && keys_sorted(tags@));
            Err(e)
        },
    }
}

} // verus!
