//! Bus lanes: the `busway=*`, `lanes:bus=*` and `bus:lanes=*` schemes,
//! <https://wiki.openstreetmap.org/wiki/Bus_lanes>.

use vstd::prelude::*;

use crate::access_by_lane::{spec_parse_lane_access, spec_split_access, Access, LaneDependentAccessView};
use crate::builder::{
    lane_builder_wf, lanes_wf, lemma_wf_update, spec_lanes_ltr, spec_side_ltr, LaneBuilder, Oneway, RoadBuilder,
};
use crate::infer::Infer;
use crate::road::{Designated, Direction};
use crate::text::{chars_of, split_chars, split_on, string_from_chars};
use crate::counts::{get_parsed_usize, spec_get_parsed, spec_parse_warning};
use crate::locale::{side_name, DrivingSide, Locale};
use crate::msg::{msg, IssueKind, MsgView, RoadWarnings, TagsToLanesMsg};
use crate::tags::{
    lemma_str_set1, lemma_str_set3, lemma_str_set4, lookup, spec_has_tree, str_set, tags_map, PairView,
    TagKey, Tags,
};
use crate::text::str_eq;

verus! {

/// The number of bus lanes in each direction.
#[derive(Clone, Copy, Debug, PartialEq, Eq, Structural)]
pub struct BusLaneCount {
    pub forward: usize,
    pub backward: usize,
}

/// Where a busway lies along the way.
#[derive(Clone, Copy, Debug, PartialEq, Eq, Structural)]
pub enum BuswayVariant {
    /// No busway.
    Absent,
    Forward,
    Backward,
    Both,
}

/// The busway scheme: whether there is a forward and a backward bus lane.
#[derive(Clone, Copy, Debug, PartialEq, Eq, Structural)]
pub struct BuswayScheme(pub BuswayVariant);

impl BuswayScheme {
    /// Whether there is a forward bus lane.
    pub fn forward(&self) -> (r: bool)
        ensures
            r == (self.0 == BuswayVariant::Forward || self.0 == BuswayVariant::Both),
    {
        match self.0 {
            BuswayVariant::Absent | BuswayVariant::Backward => false,
            BuswayVariant::Forward | BuswayVariant::Both => true,
        }
    }

    /// Whether there is a backward bus lane.
    pub fn backward(&self) -> (r: bool)
        ensures
            r == (self.0 == BuswayVariant::Backward || self.0 == BuswayVariant::Both),
    {
        match self.0 {
            BuswayVariant::Absent | BuswayVariant::Forward => false,
            BuswayVariant::Backward | BuswayVariant::Both => true,
        }
    }
}

/// The value of one `busway*` key.
#[derive(Clone, Copy, Debug, PartialEq, Eq, Structural)]
pub enum BusLane {
    Absent,
    Lane,
    Opposite,
}

/// What a `busway*` key holds; an unknown value counts as none.
pub open spec fn spec_bus_lane(tags: Seq<PairView>, key: Seq<char>) -> BusLane {
    match lookup(tags, key) {
        Some(v) => if v == "lane"@ {
            BusLane::Lane
        } else if v == "opposite_lane"@ {
            BusLane::Opposite
        } else {
            BusLane::Absent
        },
        None => BusLane::Absent,
    }
}

/// The warning about an unknown value of a `busway*` key.
pub open spec fn spec_bus_lane_warning(tags: Seq<PairView>, key: Seq<char>) -> Seq<MsgView> {
    match lookup(tags, key) {
        Some(v) => if v == "lane"@ || v == "opposite_lane"@ {
            Seq::empty()
        } else {
            seq![msg(IssueKind::Unsupported, None, Some(map![key => v]))]
        },
        None => Seq::empty(),
    }
}

/// Reads one `busway*` key, warning about an unknown value.
fn get_bus_lane(tags: &Tags, key: &str, warnings: &mut RoadWarnings) -> (r: BusLane)
    ensures
        r == spec_bus_lane(tags@, key@),
        final(warnings)@ == old(warnings)@ + spec_bus_lane_warning(tags@, key@),
{
    proof {
        reveal_strlit("lane");
        reveal_strlit("opposite_lane");
    }
    match tags.get(key) {
        None => {
            assert(warnings@ =~= old(warnings)@ + spec_bus_lane_warning(tags@, key@));
            BusLane::Absent
        },
        Some(v) => if str_eq(v, "lane") {
            assert(warnings@ =~= old(warnings)@ + spec_bus_lane_warning(tags@, key@));
            BusLane::Lane
        } else if str_eq(v, "opposite_lane") {
            assert(warnings@ =~= old(warnings)@ + spec_bus_lane_warning(tags@, key@));
            BusLane::Opposite
        } else {
            warnings.push(TagsToLanesMsg::unsupported_tag(key, v));
            assert(warnings@ =~= old(warnings)@ + spec_bus_lane_warning(tags@, key@));
            BusLane::Absent
        },
    }
}

/// A key with a side: `stem:right` or `stem:left`.
pub open spec fn side_key(stem: Seq<char>, side: DrivingSide) -> Seq<char> {
    stem + seq![':'] + side_name(side)
}

/// Whether buses may travel in one direction only.
pub open spec fn spec_bus_oneway(tags: Seq<PairView>, road_oneway: Oneway) -> Oneway {
    match lookup(tags, "oneway:bus"@) {
        Some(v) => if v == "yes"@ {
            Oneway::Yes
        } else if v == "no"@ {
            Oneway::No
        } else {
            road_oneway
        },
        None => road_oneway,
    }
}

/// The busway of `busway=*`.
pub open spec fn spec_busway_root(tags: Seq<PairView>, bus_oneway: Oneway) -> BuswayVariant {
    match (spec_bus_lane(tags, "busway"@), bus_oneway) {
        (BusLane::Lane, Oneway::No) => BuswayVariant::Both,
        (BusLane::Lane, Oneway::Yes) => BuswayVariant::Forward,
        (BusLane::Opposite, Oneway::Yes) => BuswayVariant::Backward,
        _ => BuswayVariant::Absent,
    }
}

/// The busway of `busway:both=*`.
pub open spec fn spec_busway_both(tags: Seq<PairView>) -> BuswayVariant {
    if spec_bus_lane(tags, "busway:both"@) == BusLane::Lane {
        BuswayVariant::Both
    } else {
        BuswayVariant::Absent
    }
}

/// The busway of `busway:<forward side>=*` and `busway:<backward side>=*`.
pub open spec fn spec_busway_sides(tags: Seq<PairView>, side: DrivingSide) -> BuswayVariant {
    let f = spec_bus_lane(tags, side_key("busway"@, side));
    let b = spec_bus_lane(tags, side_key("busway"@, side.spec_opposite()));
    match (f, b) {
        (BusLane::Lane, BusLane::Absent) => BuswayVariant::Forward,
        (BusLane::Lane, _) => BuswayVariant::Both,
        (_, BusLane::Absent) => BuswayVariant::Absent,
        (_, _) => BuswayVariant::Backward,
    }
}

/// What `BuswayScheme::from_tags` reads.
#[verifier::opaque]
pub open spec fn spec_busway(tags: Seq<PairView>, road_oneway: Oneway, side: DrivingSide) -> BuswayVariant {
    let root = spec_busway_root(tags, spec_bus_oneway(tags, road_oneway));
    let fb = spec_busway_sides(tags, side);
    if spec_busway_both(tags) == BuswayVariant::Both {
        BuswayVariant::Both
    } else if fb != BuswayVariant::Absent {
        fb
    } else {
        root
    }
}

/// The tags under the given keys.
pub open spec fn tags_under(tags: Seq<PairView>, keys: Set<Seq<char>>) -> Option<Map<Seq<char>, Seq<char>>> {
    Some(tags_map(tags).restrict(keys))
}

/// A sequence of one message where the condition holds.
pub open spec fn msg_if(c: bool, m: MsgView) -> Seq<MsgView> {
    if c {
        seq![m]
    } else {
        Seq::empty()
    }
}

/// The warning about an unknown value of `oneway:bus=*`.
#[verifier::opaque]
pub open spec fn spec_bus_oneway_warnings(tags: Seq<PairView>) -> Seq<MsgView> {
    match lookup(tags, "oneway:bus"@) {
        Some(v) => msg_if(
            v != "yes"@ && v != "no"@,
            msg(IssueKind::Unsupported, None, Some(map!["oneway:bus"@ => v])),
        ),
        None => Seq::empty(),
    }
}

/// The warnings about `busway=*`.
#[verifier::opaque]
pub open spec fn spec_busway_root_warnings(tags: Seq<PairView>, bus_oneway: Oneway) -> Seq<MsgView> {
    spec_bus_lane_warning(tags, "busway"@) + msg_if(
        spec_bus_lane(tags, "busway"@) == BusLane::Opposite && bus_oneway == Oneway::No,
        msg(IssueKind::Unsupported, None, tags_under(tags, set!["busway"@, "oneway"@, "oneway:bus"@])),
    )
}

/// The warnings about `busway:both=*`.
#[verifier::opaque]
pub open spec fn spec_busway_both_warnings(tags: Seq<PairView>) -> Seq<MsgView> {
    spec_bus_lane_warning(tags, "busway:both"@) + msg_if(
        spec_bus_lane(tags, "busway:both"@) == BusLane::Opposite,
        msg(IssueKind::Unsupported, None, tags_under(tags, set!["busway:both"@])),
    )
}

/// The warnings about the sided busway keys.
#[verifier::opaque]
pub open spec fn spec_busway_sides_warnings(tags: Seq<PairView>, side: DrivingSide) -> Seq<MsgView> {
    let fkey = side_key("busway"@, side);
    let bkey = side_key("busway"@, side.spec_opposite());
    spec_bus_lane_warning(tags, fkey) + msg_if(
        spec_bus_lane(tags, fkey) == BusLane::Opposite,
        msg(IssueKind::Unsupported, None, tags_under(tags, set![fkey])),
    ) + spec_bus_lane_warning(tags, bkey)
}

/// The warnings about busway keys that disagree.
#[verifier::opaque]
pub open spec fn spec_busway_conflict_warnings(
    tags: Seq<PairView>,
    side: DrivingSide,
    root: BuswayVariant,
    both: bool,
    fb: BuswayVariant,
) -> Seq<MsgView> {
    let fkey = side_key("busway"@, side);
    let bkey = side_key("busway"@, side.spec_opposite());
    msg_if(
        both && (fb == BuswayVariant::Forward || fb == BuswayVariant::Backward),
        msg(IssueKind::Ambiguous, None, tags_under(tags, set!["busway:both"@, fkey, bkey])),
    ) + msg_if(
        both && (root == BuswayVariant::Forward || root == BuswayVariant::Backward),
        msg(
            IssueKind::Ambiguous,
            None,
            tags_under(tags, set!["busway"@, "oneway"@, "oneway:bus"@, "busway:both"@]),
        ),
    ) + msg_if(
        !both && fb != BuswayVariant::Absent && root != BuswayVariant::Absent && root != fb,
        msg(
            IssueKind::Ambiguous,
            None,
            tags_under(tags, set!["busway"@, "oneway"@, "oneway:bus"@, fkey, bkey]),
        ),
    )
}

/// The warnings of `BuswayScheme::from_tags`, in order.
#[verifier::opaque]
pub open spec fn spec_busway_warnings(tags: Seq<PairView>, road_oneway: Oneway, side: DrivingSide) -> Seq<
    MsgView,
> {
    let bus_oneway = spec_bus_oneway(tags, road_oneway);
    spec_bus_oneway_warnings(tags) + spec_busway_root_warnings(tags, bus_oneway)
        + spec_busway_both_warnings(tags) + spec_busway_sides_warnings(tags, side)
        + spec_busway_conflict_warnings(
        tags,
        side,
        spec_busway_root(tags, bus_oneway),
        spec_busway_both(tags) == BuswayVariant::Both,
        spec_busway_sides(tags, side),
    )
}

/// The key `stem:side` of a driving side.
fn side_key_of(stem: &str, side: DrivingSide) -> (r: TagKey)
    ensures
        r@ == side_key(stem@, side),
{
    let t = side.tag();
    TagKey::from_ref(stem).join(t.as_str())
}

/// Pushes the message where the condition holds.
fn push_when(warnings: &mut RoadWarnings, c: bool, m: TagsToLanesMsg)
    ensures
        final(warnings)@ == old(warnings)@ + msg_if(c, m@),
{
    if c {
        warnings.push(m);
        assert(warnings@ =~= old(warnings)@ + msg_if(c, m@));
    } else {
        assert(warnings@ =~= old(warnings)@ + msg_if(c, m@));
    }
}

/// Reads `oneway:bus=*`.
fn read_bus_oneway(tags: &Tags, road_oneway: Oneway, warnings: &mut RoadWarnings) -> (r: Oneway)
    ensures
        r == spec_bus_oneway(tags@, road_oneway),
        final(warnings)@ == old(warnings)@ + spec_bus_oneway_warnings(tags@),
{
    reveal(spec_bus_oneway_warnings);
    proof {
        reveal_strlit("yes");
        reveal_strlit("no");
    }
    match tags.get("oneway:bus") {
        Some(v) => if str_eq(v, "yes") {
            assert(warnings@ =~= old(warnings)@ + spec_bus_oneway_warnings(tags@));
            Oneway::Yes
        } else if str_eq(v, "no") {
            assert(warnings@ =~= old(warnings)@ + spec_bus_oneway_warnings(tags@));
            Oneway::No
        } else {
            warnings.push(TagsToLanesMsg::unsupported_tag("oneway:bus", v));
            assert(warnings@ =~= old(warnings)@ + spec_bus_oneway_warnings(tags@));
            road_oneway
        },
        None => {
            assert(warnings@ =~= old(warnings)@ + spec_bus_oneway_warnings(tags@));
            road_oneway
        },
    }
}

/// Reads `busway=*`.
fn read_busway_root(tags: &Tags, bus_oneway: Oneway, warnings: &mut RoadWarnings) -> (r: BuswayVariant)
    ensures
        r == spec_busway_root(tags@, bus_oneway),
        final(warnings)@ == old(warnings)@ + spec_busway_root_warnings(tags@, bus_oneway),
{
    reveal(spec_busway_root_warnings);
    let busway_root = get_bus_lane(tags, "busway", warnings);
    let opposite_twoway = match (busway_root, bus_oneway) {
        (BusLane::Opposite, Oneway::No) => true,
        _ => false,
    };
    let keys = vec!["busway", "oneway", "oneway:bus"];
    assert(keys@ == seq!["busway", "oneway", "oneway:bus"]);
    proof {
        lemma_str_set3("busway", "oneway", "oneway:bus");
    }
    push_when(warnings, opposite_twoway, TagsToLanesMsg::unsupported_tags(tags.subset(keys.as_slice())));
    assert(warnings@ =~= old(warnings)@ + spec_busway_root_warnings(tags@, bus_oneway));
    match (busway_root, bus_oneway) {
        (BusLane::Lane, Oneway::No) => BuswayVariant::Both,
        (BusLane::Lane, Oneway::Yes) => BuswayVariant::Forward,
        (BusLane::Opposite, Oneway::Yes) => BuswayVariant::Backward,
        _ => BuswayVariant::Absent,
    }
}

/// Reads `busway:both=*`: whether it is a lane.
fn read_busway_both(tags: &Tags, warnings: &mut RoadWarnings) -> (r: bool)
    ensures
        r == (spec_busway_both(tags@) == BuswayVariant::Both),
        final(warnings)@ == old(warnings)@ + spec_busway_both_warnings(tags@),
{
    reveal(spec_busway_both_warnings);
    let busway_both = get_bus_lane(tags, "busway:both", warnings);
    let keys = vec!["busway:both"];
    assert(keys@ == seq!["busway:both"]);
    proof {
        lemma_str_set1("busway:both");
    }
    push_when(
        warnings,
        busway_both == BusLane::Opposite,
        TagsToLanesMsg::unsupported_tags(tags.subset(keys.as_slice())),
    );
    assert(warnings@ =~= old(warnings)@ + spec_busway_both_warnings(tags@));
    busway_both == BusLane::Lane
}

/// Reads the sided busway keys.
fn read_busway_sides(tags: &Tags, fk: &str, bk: &str, side: DrivingSide, warnings: &mut RoadWarnings) -> (r:
    BuswayVariant)
    requires
        fk@ == side_key("busway"@, side),
        bk@ == side_key("busway"@, side.spec_opposite()),
    ensures
        r == spec_busway_sides(tags@, side),
        final(warnings)@ == old(warnings)@ + spec_busway_sides_warnings(tags@, side),
{
    reveal(spec_busway_sides_warnings);
    let busway_forward = get_bus_lane(tags, fk, warnings);
    let keys = vec![fk];
    assert(keys@ == seq![fk]);
    proof {
        lemma_str_set1(fk);
    }
    push_when(
        warnings,
        busway_forward == BusLane::Opposite,
        TagsToLanesMsg::unsupported_tags(tags.subset(keys.as_slice())),
    );
    let busway_backward = get_bus_lane(tags, bk, warnings);
    assert(warnings@ =~= old(warnings)@ + spec_busway_sides_warnings(tags@, side));
    match (busway_forward, busway_backward) {
        (BusLane::Lane, BusLane::Absent) => BuswayVariant::Forward,
        (BusLane::Lane, _) => BuswayVariant::Both,
        (_, BusLane::Absent) => BuswayVariant::Absent,
        (_, _) => BuswayVariant::Backward,
    }
}

/// Warns about busway keys that disagree.
fn warn_busway_conflicts(
    tags: &Tags,
    fk: &str,
    bk: &str,
    side: DrivingSide,
    root: BuswayVariant,
    both: bool,
    fb: BuswayVariant,
    warnings: &mut RoadWarnings,
)
    requires
        fk@ == side_key("busway"@, side),
        bk@ == side_key("busway"@, side.spec_opposite()),
    ensures
        final(warnings)@ == old(warnings)@ + spec_busway_conflict_warnings(tags@, side, root, both, fb),
{
    reveal(spec_busway_conflict_warnings);
    let keys = vec!["busway:both", fk, bk];
    assert(keys@ == seq!["busway:both", fk, bk]);
    proof {
        lemma_str_set3("busway:both", fk, bk);
    }
    push_when(
        warnings,
        both && (fb == BuswayVariant::Forward || fb == BuswayVariant::Backward),
        TagsToLanesMsg::ambiguous_tags(tags.subset(keys.as_slice())),
    );
    let keys = vec!["busway", "oneway", "oneway:bus", "busway:both"];
    assert(keys@ == seq!["busway", "oneway", "oneway:bus", "busway:both"]);
    proof {
        lemma_str_set4("busway", "oneway", "oneway:bus", "busway:both");
    }
    push_when(
        warnings,
        both && (root == BuswayVariant::Forward || root == BuswayVariant::Backward),
        TagsToLanesMsg::ambiguous_tags(tags.subset(keys.as_slice())),
    );
    let keys = vec!["busway", "oneway", "oneway:bus", fk, bk];
    assert(keys@ == seq!["busway", "oneway", "oneway:bus", fk, bk]);
    proof {
        crate::tags::lemma_str_set5("busway", "oneway", "oneway:bus", fk, bk);
    }
    push_when(
        warnings,
        !both && fb != BuswayVariant::Absent && root != BuswayVariant::Absent && root != fb,
        TagsToLanesMsg::ambiguous_tags(tags.subset(keys.as_slice())),
    );
    assert(warnings@ =~= old(warnings)@ + spec_busway_conflict_warnings(tags@, side, root, both, fb));
}

impl BuswayScheme {
    /// Reads the busway scheme: `busway=*` (with `oneway:bus=*`),
    /// `busway:both=*`, and the sided `busway:right=*` and `busway:left=*`;
    /// unknown values and disagreeing tags are warned about.
    pub fn from_tags(
        tags: &Tags,
        road_oneway: Oneway,
        locale: &Locale,
        warnings: &mut RoadWarnings,
    ) -> (r: Result<Self, TagsToLanesMsg>)
        ensures
            r matches Ok(s) && s.0 == spec_busway(tags@, road_oneway, locale.driving_side),
            final(warnings)@ == old(warnings)@ + spec_busway_warnings(
                tags@,
                road_oneway,
                locale.driving_side,
            ),
    {
        reveal(spec_busway);
        reveal(spec_busway_warnings);
        let ghost w0 = warnings@;
        let bus_oneway = read_bus_oneway(tags, road_oneway, warnings);
        let ghost w1 = warnings@;
        let root = read_busway_root(tags, bus_oneway, warnings);
        let ghost w2 = warnings@;
        let both = read_busway_both(tags, warnings);
        let ghost w3 = warnings@;
        let fkey = side_key_of("busway", locale.driving_side);
        let bkey = side_key_of("busway", locale.driving_side.opposite());
        let fk: &str = fkey.as_str();
        let bk: &str = bkey.as_str();
        let fb = read_busway_sides(tags, fk, bk, locale.driving_side, warnings);
        let ghost w4 = warnings@;
        warn_busway_conflicts(tags, fk, bk, locale.driving_side, root, both, fb, warnings);
        assert(warnings@ =~= w0 + spec_busway_warnings(tags@, road_oneway, locale.driving_side));
        if both {
            Ok(BuswayScheme(BuswayVariant::Both))
        } else if fb != BuswayVariant::Absent {
            Ok(BuswayScheme(fb))
        } else {
            Ok(BuswayScheme(root))
        }
    }
}

/// The bus lanes of one direction: a number tagged under `key`, else one if
/// the busway has one in that direction.
pub open spec fn spec_bus_count(tags: Seq<PairView>, key: Seq<char>, busway: bool) -> usize {
    match spec_get_parsed(tags, key) {
        Some(n) => n,
        None => if busway {
            1
        } else {
            0
        },
    }
}

impl BusLaneCount {
    /// Counts the bus lanes: `lanes:bus:forward=*` and `lanes:bus:backward=*`,
    /// or else the lanes of the busway scheme.
    pub fn from_tags(tags: &Tags, locale: &Locale, oneway: Oneway, warnings: &mut RoadWarnings) -> (r:
        Result<Self, TagsToLanesMsg>)
        ensures
            ({
                let b = spec_busway(tags@, oneway, locale.driving_side);
                &&& r matches Ok(c) && c.forward == spec_bus_count(
                    tags@,
                    "lanes:bus:forward"@,
                    b == BuswayVariant::Forward || b == BuswayVariant::Both,
                ) && c.backward == spec_bus_count(
                    tags@,
                    "lanes:bus:backward"@,
                    b == BuswayVariant::Backward || b == BuswayVariant::Both,
                )
            }),
            final(warnings)@ == old(warnings)@ + spec_busway_warnings(
                tags@,
                oneway,
                locale.driving_side,
            ) + spec_parse_warning(tags@, "lanes:bus:forward"@) + spec_parse_warning(
                tags@,
                "lanes:bus:backward"@,
            ),
    {
        let busway = match BuswayScheme::from_tags(tags, oneway, locale, warnings) {
            Ok(b) => b,
            Err(e) => return Err(e),
        };
        let forward = match get_parsed_usize(tags, "lanes:bus:forward", warnings) {
            Some(n) => n,
            None => if busway.forward() {
                1
            } else {
                0
            },
        };
        let backward = match get_parsed_usize(tags, "lanes:bus:backward", warnings) {
            Some(n) => n,
            None => if busway.backward() {
                1
            } else {
                0
            },
        };
        assert(warnings@ =~= old(warnings)@ + spec_busway_warnings(tags@, oneway, locale.driving_side)
            + spec_parse_warning(tags@, "lanes:bus:forward"@) + spec_parse_warning(
            tags@,
            "lanes:bus:backward"@,
        ));
        Ok(Self { forward, backward })
    }
}


/// The first lane, at `j`, whose value is unknown.
pub open spec fn first_bad_lane(parts: Seq<Seq<char>>, j: int) -> bool {
    &&& 0 <= j < parts.len()
    &&& spec_parse_lane_access(parts[j]) is None
    &&& forall|i: int| 0 <= i < j ==> #[trigger] spec_parse_lane_access(parts[i]) is Some
}

/// The value of the first lane whose value is unknown.
pub open spec fn spec_bad_lane(s: Seq<char>) -> Seq<char> {
    let parts = split_on(s, '|');
    parts[choose|j: int| first_bad_lane(parts, j)]
}

/// Parses `|` separated lanes; the error is the value of the first unknown lane.
pub fn split_lanes(lanes: &str) -> (r: Result<Vec<Access>, String>)
    ensures
        match r {
            Ok(v) => spec_split_access(lanes@) == Some(v@),
            Err(p) => spec_split_access(lanes@) is None && p@ == spec_bad_lane(lanes@),
        },
{
    let cs = chars_of(lanes);
    let parts = split_chars(cs.as_slice(), '|');
    let ghost pv = split_on(lanes@, '|');
    let mut out: Vec<Access> = Vec::new();
    let mut i: usize = 0;
    while i < parts.len()
        invariant
            i <= parts@.len(),
            pv == split_on(lanes@, '|'),
            parts@.map_values(|p: Vec<char>| p@) == pv,
            out@.len() == i,
            forall|j: int| 0 <= j < i ==> #[trigger] spec_parse_lane_access(pv[j]) == Some(out@[j]),
        decreases parts@.len() - i,
    {
        assert(parts@.map_values(|p: Vec<char>| p@)[i as int] == parts@[i as int]@);
        match Access::parse_lane(parts[i].as_slice()) {
            Some(a) => {
                out.push(a);
            },
            None => {
                proof {
                    assert(first_bad_lane(pv, i as int));
                    assert forall|j: int| first_bad_lane(pv, j) implies j == i by {
                        if j < i {
                            assert(spec_parse_lane_access(pv[j]) is Some);
                        } else if j > i {
                            assert(spec_parse_lane_access(pv[i as int]) is Some);
                        }
                    }
                    let j = choose|j: int| first_bad_lane(pv, j);
                    assert(j == i);
                }
                return Err(string_from_chars(parts[i].as_slice()));
            },
        }
        i = i + 1;
    }
    assert(out@ =~= pv.map_values(|p: Seq<char>| spec_parse_lane_access(p).unwrap()));
    Ok(out)
}

/// The accesses under one key, or the message about an unknown lane.
pub open spec fn spec_get_lane_access(tags: Seq<PairView>, key: Seq<char>) -> Result<
    Option<Seq<Access>>,
    MsgView,
> {
    match lookup(tags, key) {
        None => Ok(None),
        Some(s) => match spec_split_access(s) {
            Some(a) => Ok(Some(a)),
            None => Err(
                msg(
                    IssueKind::Unsupported,
                    Some("lanes access "@ + spec_bad_lane(s)),
                    tags_under(tags, set![key]),
                ),
            ),
        },
    }
}

/// Reads the accesses under one key.
fn get_lane_access(tags: &Tags, key: &str) -> (r: Result<Option<Vec<Access>>, TagsToLanesMsg>)
    ensures
        match (r, spec_get_lane_access(tags@, key@)) {
            (Ok(Some(v)), Ok(Some(a))) => v@ == a,
            (Ok(None), Ok(None)) => true,
            (Err(m), Err(e)) => m@ == e,
            _ => false,
        },
{
    match tags.get(key) {
        None => Ok(None),
        Some(s) => match split_lanes(s) {
            Ok(v) => Ok(Some(v)),
            Err(part) => {
                let mut description = "lanes access ".to_owned();
                description.append(part.as_str());
                proof {
                    reveal_strlit("lanes access ");
                    lemma_str_set1(key);
                }
                let keys = vec![key];
                assert(keys@ == seq![key]);
                Err(TagsToLanesMsg::unsupported(description.as_str(), tags.subset(keys.as_slice())))
            },
        },
    }
}

/// Lane dependent access under `key`, `key:forward` and `key:backward`, on a
/// road of `n` lanes.
pub open spec fn spec_road_lane_access(tags: Seq<PairView>, key: Seq<char>, n: int) -> Result<
    Option<LaneDependentAccessView>,
    MsgView,
> {
    let kf = key + ":forward"@;
    let kb = key + ":backward"@;
    match spec_get_lane_access(tags, key) {
        Err(e) => Err(e),
        Ok(t) => match spec_get_lane_access(tags, kf) {
            Err(e) => Err(e),
            Ok(f) => match spec_get_lane_access(tags, kb) {
                Err(e) => Err(e),
                Ok(b) => match (t, f, b) {
                    (Some(l), None, None) => if l.len() != n {
                        Err(
                            msg(
                                IssueKind::Unsupported,
                                Some("lane count mismatch"@),
                                tags_under(
                                    tags,
                                    set![key, "lanes"@, "lanes:forward"@, "lanes:backward"@],
                                ),
                            ),
                        )
                    } else {
                        Ok(Some(LaneDependentAccessView::LeftToRight(l)))
                    },
                    (None, Some(f), None) => Ok(Some(LaneDependentAccessView::Forward(f))),
                    (None, None, Some(b)) => Ok(Some(LaneDependentAccessView::Backward(b))),
                    (_, Some(f), Some(b)) => if f.len() + b.len() != n {
                        Err(
                            msg(
                                IssueKind::Unsupported,
                                Some("lane count mismatch"@),
                                tags_under(
                                    tags,
                                    set![kf, kb, "lanes"@, "lanes:forward"@, "lanes:backward"@],
                                ),
                            ),
                        )
                    } else {
                        Ok(Some(LaneDependentAccessView::ForwardBackward(f, b)))
                    },
                    (None, None, None) => Ok(None),
                    (Some(_), _, _) => Err(
                        msg(IssueKind::Ambiguous, None, tags_under(tags, set![key, kf, kb])),
                    ),
                },
            },
        },
    }
}

/// The warning that lane dependent access on a road adds: the total is given
/// beside the forward and backward lanes.
pub open spec fn spec_road_lane_access_warnings(tags: Seq<PairView>, key: Seq<char>, n: int) -> Seq<
    MsgView,
> {
    let kf = key + ":forward"@;
    let kb = key + ":backward"@;
    match (
        spec_get_lane_access(tags, key),
        spec_get_lane_access(tags, kf),
        spec_get_lane_access(tags, kb),
    ) {
        (Ok(Some(_)), Ok(Some(f)), Ok(Some(b))) => msg_if(
            f.len() + b.len() == n,
            msg(IssueKind::Ambiguous, None, tags_under(tags, set![key, kf, kb])),
        ),
        _ => Seq::empty(),
    }
}

/// Lane dependent access of a road.
#[derive(Debug)]
pub enum RoadLaneAccess {
    LeftToRight(Vec<Access>),
    Forward(Vec<Access>),
    Backward(Vec<Access>),
    ForwardBackward { forward: Vec<Access>, backward: Vec<Access> },
}

impl View for RoadLaneAccess {
    type V = LaneDependentAccessView;

    open spec fn view(&self) -> LaneDependentAccessView {
        match self {
            RoadLaneAccess::LeftToRight(v) => LaneDependentAccessView::LeftToRight(v@),
            RoadLaneAccess::Forward(v) => LaneDependentAccessView::Forward(v@),
            RoadLaneAccess::Backward(v) => LaneDependentAccessView::Backward(v@),
            RoadLaneAccess::ForwardBackward { forward, backward } => {
                LaneDependentAccessView::ForwardBackward(forward@, backward@)
            },
        }
    }
}

impl RoadLaneAccess {
    /// Reads lane dependent access under `key`, `key:forward` and
    /// `key:backward`, whose lanes must be as many as the road's.
    pub fn from_tags(
        key: &str,
        tags: &Tags,
        _locale: &Locale,
        road: &RoadBuilder,
        warnings: &mut RoadWarnings,
    ) -> (r: Result<Option<Self>, TagsToLanesMsg>)
        requires
            road.spec_len() <= usize::MAX,
        ensures
            match (r, spec_road_lane_access(tags@, key@, road.spec_len())) {
                (Ok(Some(a)), Ok(Some(v))) => a@ == v,
                (Ok(None), Ok(None)) => true,
                (Err(m), Err(e)) => m@ == e,
                _ => false,
            },
            r is Ok ==> final(warnings)@ == old(warnings)@ + spec_road_lane_access_warnings(
                tags@,
                key@,
                road.spec_len(),
            ),
            r is Err ==> final(warnings)@ == old(warnings)@,
    {
        proof {
            reveal_strlit(":forward");
            reveal_strlit(":backward");
            reveal_strlit("forward");
            reveal_strlit("backward");
            reveal_strlit("lane count mismatch");
        }
        let kf = TagKey::from_ref(key).join("forward");
        let kb = TagKey::from_ref(key).join("backward");
        assert(kf@ =~= key@ + ":forward"@);
        assert(kb@ =~= key@ + ":backward"@);
        let kfs: &str = kf.as_str();
        let kbs: &str = kb.as_str();
        let total = match get_lane_access(tags, key) {
            Ok(t) => t,
            Err(e) => return Err(e),
        };
        let forward = match get_lane_access(tags, kfs) {
            Ok(t) => t,
            Err(e) => return Err(e),
        };
        let backward = match get_lane_access(tags, kbs) {
            Ok(t) => t,
            Err(e) => return Err(e),
        };
        let n = road.len();
        match (total, forward, backward) {
            (Some(lanes), None, None) => {
                if lanes.len() != n {
                    let keys = vec![key, "lanes", "lanes:forward", "lanes:backward"];
                    assert(keys@ == seq![key, "lanes", "lanes:forward", "lanes:backward"]);
                    proof {
                        lemma_str_set4(key, "lanes", "lanes:forward", "lanes:backward");
                    }
                    return Err(TagsToLanesMsg::unsupported("lane count mismatch", tags.subset(keys.as_slice())));
                }
                assert(warnings@ =~= old(warnings)@ + spec_road_lane_access_warnings(tags@, key@, road.spec_len()));
                Ok(Some(RoadLaneAccess::LeftToRight(lanes)))
            },
            (None, Some(f), None) => {
                assert(warnings@ =~= old(warnings)@ + spec_road_lane_access_warnings(tags@, key@, road.spec_len()));
                Ok(Some(RoadLaneAccess::Forward(f)))
            },
            (None, None, Some(b)) => {
                assert(warnings@ =~= old(warnings)@ + spec_road_lane_access_warnings(tags@, key@, road.spec_len()));
                Ok(Some(RoadLaneAccess::Backward(b)))
            },
            (t, Some(f), Some(b)) => {
                if f.len().checked_add(b.len()) != Some(n) {
                    let keys = vec![kfs, kbs, "lanes", "lanes:forward", "lanes:backward"];
                    assert(keys@ == seq![kfs, kbs, "lanes", "lanes:forward", "lanes:backward"]);
                    proof {
                        crate::tags::lemma_str_set5(kfs, kbs, "lanes", "lanes:forward", "lanes:backward");
                    }
                    return Err(TagsToLanesMsg::unsupported("lane count mismatch", tags.subset(keys.as_slice())));
                }
                let keys = vec![key, kfs, kbs];
                assert(keys@ == seq![key, kfs, kbs]);
                proof {
                    lemma_str_set3(key, kfs, kbs);
                }
                push_when(warnings, t.is_some(), TagsToLanesMsg::ambiguous_tags(tags.subset(keys.as_slice())));
                assert(warnings@ =~= old(warnings)@ + spec_road_lane_access_warnings(tags@, key@, road.spec_len()));
                Ok(Some(RoadLaneAccess::ForwardBackward { forward: f, backward: b }))
            },
            (None, None, None) => {
                assert(warnings@ =~= old(warnings)@ + spec_road_lane_access_warnings(tags@, key@, road.spec_len()));
                Ok(None)
            },
            (Some(_), _, _) => {
                let keys = vec![key, kfs, kbs];
                assert(keys@ == seq![key, kfs, kbs]);
                proof {
                    lemma_str_set3(key, kfs, kbs);
                }
                Err(TagsToLanesMsg::ambiguous_tags(tags.subset(keys.as_slice())))
            },
        }
    }
}


/// The lane designated for buses.
pub open spec fn bus_lane(l: LaneBuilder) -> LaneBuilder {
    LaneBuilder { designated: Infer::Direct(Designated::Bus), ..l }
}

/// Lanes where the lanes with designated access are designated for buses; the
/// accesses are matched to the lanes from the first, and the shorter list ends
/// the matching.
pub open spec fn designate(lanes: Seq<LaneBuilder>, access: Seq<Access>) -> Seq<LaneBuilder> {
    Seq::new(
        lanes.len(),
        |i: int|
            if i < access.len() && access[i] == Access::Designated {
                bus_lane(lanes[i])
            } else {
                lanes[i]
            },
    )
}

/// The lanes in the given order: reversed or not.
pub open spec fn orient(s: Seq<LaneBuilder>, reversed: bool) -> Seq<LaneBuilder> {
    if reversed {
        s.reverse()
    } else {
        s
    }
}

/// Designating lanes one after another is designating them together.
pub proof fn lemma_designate_concat(a: Seq<LaneBuilder>, b: Seq<LaneBuilder>, access: Seq<Access>)
    ensures
        designate(a + b, access) == designate(a, access) + designate(
            b,
            access.skip(if a.len() <= access.len() {
                a.len() as int
            } else {
                access.len() as int
            }),
        ),
{
    assert(designate(a + b, access) =~= designate(a, access) + designate(
        b,
        access.skip(if a.len() <= access.len() {
            a.len() as int
        } else {
            access.len() as int
        }),
    ));
}

/// Read from a `|` separated lane access value (as under `bus:lanes`), a lane
/// whose value is `designated` is designated for buses, and a lane with any
/// other known value (`yes`, `no` or nothing) stays as it was.
pub proof fn lemma_designated_value_makes_bus_lane(lanes: Seq<LaneBuilder>, value: Seq<char>, i: int)
    requires
        spec_split_access(value) is Some,
        0 <= i < lanes.len(),
        i < split_on(value, '|').len(),
    ensures
        designate(lanes, spec_split_access(value).unwrap())[i] == if split_on(value, '|')[i]
            == "designated"@ {
            bus_lane(lanes[i])
        } else {
            lanes[i]
        },
{
    let parts = split_on(value, '|');
    let acc = spec_split_access(value).unwrap();
    assert(spec_parse_lane_access(parts[i]) is Some);
    assert(acc[i] == spec_parse_lane_access(parts[i]).unwrap());
    reveal_strlit("no");
    reveal_strlit("yes");
    reveal_strlit("designated");
    assert("no"@.len() == 2);
    assert("yes"@.len() == 3);
    assert("designated"@.len() == 10);
}

/// Lanes of one side with those designated for buses where the access, from
/// `offset`, is designated; the lanes are taken in the given order.
fn designate_vec(lanes: &Vec<LaneBuilder>, reversed: bool, access: &Vec<Access>, offset: usize) -> (r: Vec<
    LaneBuilder,
>)
    requires
        offset <= access@.len(),
    ensures
        orient(r@, reversed) == designate(orient(lanes@, reversed), access@.skip(offset as int)),
        r@.len() == lanes@.len(),
        forall|j: int|
            0 <= j < r@.len() ==> #[trigger] r@[j] == lanes@[j] || r@[j] == bus_lane(lanes@[j]),
{
    let ghost acc = access@.skip(offset as int);
    let n = lanes.len();
    let mut out: Vec<LaneBuilder> = Vec::new();
    let mut j: usize = 0;
    while j < n
        invariant
            n == lanes@.len(),
            j <= n,
            offset <= access@.len(),
            acc == access@.skip(offset as int),
            out@.len() == j,
            forall|k: int|
                0 <= k < j ==> #[trigger] out@[k] == {
                    let p = if reversed {
                        n - 1 - k
                    } else {
                        k
                    };
                    if p < acc.len() && acc[p] == Access::Designated {
                        bus_lane(lanes@[k])
                    } else {
                        lanes@[k]
                    }
                },
        decreases n - j,
    {
        let p = if reversed {
            n - 1 - j
        } else {
            j
        };
        let mut l = lanes[j];
        if p < access.len() - offset && access[offset + p] == Access::Designated {
            l.designated = Infer::Direct(Designated::Bus);
        }
        out.push(l);
        j = j + 1;
    }
    assert(orient(out@, reversed) =~= designate(orient(lanes@, reversed), acc));
    out
}

/// Designating lanes for buses keeps every lane buildable.
proof fn lemma_bus_lanes_kept(s: Seq<LaneBuilder>, t: Seq<LaneBuilder>)
    requires
        t.len() == s.len(),
        forall|j: int| 0 <= j < t.len() ==> #[trigger] t[j] == s[j] || t[j] == bus_lane(s[j]),
    ensures
        lanes_wf(s) ==> lanes_wf(t),
{
    if lanes_wf(s) {
        assert forall|j: int| 0 <= j < t.len() implies #[trigger] lane_builder_wf(t[j]) by {
            assert(lane_builder_wf(s[j]));
        }
    }
}

/// Lane dependent access applied to the lanes of a road: the lanes with
/// designated access are designated for buses.
pub open spec fn lane_access_applied(
    old_f: Seq<LaneBuilder>,
    old_b: Seq<LaneBuilder>,
    new_f: Seq<LaneBuilder>,
    new_b: Seq<LaneBuilder>,
    side: DrivingSide,
    a: LaneDependentAccessView,
) -> bool {
    &&& new_f.len() == old_f.len()
    &&& new_b.len() == old_b.len()
    &&& match a {
        LaneDependentAccessView::LeftToRight(acc) => spec_lanes_ltr(new_f, new_b, side) == designate(
            spec_lanes_ltr(old_f, old_b, side),
            acc,
        ),
        LaneDependentAccessView::Forward(acc) => spec_side_ltr(new_f, side) == designate(
            spec_side_ltr(old_f, side),
            acc,
        ) && new_b == old_b,
        LaneDependentAccessView::Backward(acc) => spec_side_ltr(new_b, side) == designate(
            spec_side_ltr(old_b, side),
            acc,
        ) && new_f == old_f,
        LaneDependentAccessView::ForwardBackward(f, b) => spec_side_ltr(new_f, side) == designate(
            spec_side_ltr(old_f, side),
            f,
        ) && spec_side_ltr(new_b, side) == designate(spec_side_ltr(old_b, side), b),
    }
}

/// Designates the lanes of the road for buses as the access says.
fn apply_lane_access(road: &mut RoadBuilder, locale: &Locale, a: &RoadLaneAccess)
    ensures
        lane_access_applied(
            old(road).forward_lanes@,
            old(road).backward_lanes@,
            final(road).forward_lanes@,
            final(road).backward_lanes@,
            locale.driving_side,
            a@,
        ),
        final(road).highway == old(road).highway,
        final(road).oneway == old(road).oneway,
        old(road).wf() ==> final(road).wf(),
{
    let left = match locale.driving_side {
        DrivingSide::Left => true,
        DrivingSide::Right => false,
    };
    let ghost of = road.forward_lanes@;
    let ghost ob = road.backward_lanes@;
    match a {
        RoadLaneAccess::LeftToRight(acc) => {
            assert(acc@.skip(0) =~= acc@);
            if left {
                let nf = road.forward_lanes.len();
                let f = designate_vec(&road.forward_lanes, true, acc, 0);
                let m = if nf <= acc.len() {
                    nf
                } else {
                    acc.len()
                };
                let b = designate_vec(&road.backward_lanes, false, acc, m);
                proof {
                    lemma_designate_concat(of.reverse(), ob, acc@);
                    assert(f@.reverse().len() == of.len());
                }
                proof {
                    lemma_bus_lanes_kept(of, f@);
                    lemma_bus_lanes_kept(ob, b@);
                }
                road.forward_lanes = f;
                road.backward_lanes = b;
            } else {
                let nb = road.backward_lanes.len();
                let b = designate_vec(&road.backward_lanes, true, acc, 0);
                let m = if nb <= acc.len() {
                    nb
                } else {
                    acc.len()
                };
                let f = designate_vec(&road.forward_lanes, false, acc, m);
                proof {
                    lemma_designate_concat(ob.reverse(), of, acc@);
                    assert(b@.reverse().len() == ob.len());
                    lemma_bus_lanes_kept(of, f@);
                    lemma_bus_lanes_kept(ob, b@);
                }
                road.forward_lanes = f;
                road.backward_lanes = b;
            }
        },
        RoadLaneAccess::Forward(acc) => {
            assert(acc@.skip(0) =~= acc@);
            let f = designate_vec(&road.forward_lanes, left, acc, 0);
            proof {
                assert(orient(f@, left).len() == of.len());
                lemma_bus_lanes_kept(of, f@);
            }
            road.forward_lanes = f;
        },
        RoadLaneAccess::Backward(acc) => {
            assert(acc@.skip(0) =~= acc@);
            let b = designate_vec(&road.backward_lanes, left, acc, 0);
            proof {
                assert(orient(b@, left).len() == ob.len());
                lemma_bus_lanes_kept(ob, b@);
            }
            road.backward_lanes = b;
        },
        RoadLaneAccess::ForwardBackward { forward, backward } => {
            assert(forward@.skip(0) =~= forward@);
            assert(backward@.skip(0) =~= backward@);
            let f = designate_vec(&road.forward_lanes, left, forward, 0);
            let b = designate_vec(&road.backward_lanes, left, backward, 0);
            proof {
                assert(orient(f@, left).len() == of.len());
                assert(orient(b@, left).len() == ob.len());
                lemma_bus_lanes_kept(of, f@);
                lemma_bus_lanes_kept(ob, b@);
            }
            road.forward_lanes = f;
            road.backward_lanes = b;
        },
    }
}

/// What `bus_lanes` does: the error, if any, and how the lanes change.
pub open spec fn bus_lanes_outcome(
    tags: Seq<PairView>,
    side: DrivingSide,
    old_f: Seq<LaneBuilder>,
    old_b: Seq<LaneBuilder>,
    new_f: Seq<LaneBuilder>,
    new_b: Seq<LaneBuilder>,
    old_w: Seq<MsgView>,
    new_w: Seq<MsgView>,
    r: Result<(), MsgView>,
) -> bool {
    let n = (old_f.len() + old_b.len()) as int;
    let unchanged = new_f == old_f && new_b == old_b;
    let wb = spec_road_lane_access_warnings(tags, "bus:lanes"@, n);
    let wp = spec_road_lane_access_warnings(tags, "psv:lanes"@, n);
    match (spec_road_lane_access(tags, "bus:lanes"@, n), spec_road_lane_access(tags, "psv:lanes"@, n)) {
        (Err(e), _) => r == Err::<(), MsgView>(e) && unchanged && new_w == old_w,
        (Ok(_), Err(e)) => r == Err::<(), MsgView>(e) && unchanged && new_w == old_w + wb,
        (Ok(Some(_)), Ok(Some(_))) => r == Err::<(), MsgView>(
            msg(
                IssueKind::Unsupported,
                Some("more than one bus:lanes used"@),
                tags_under(
                    tags,
                    crate::tags::str_set(
                        seq![
                            "bus:lanes",
                            "bus:lanes:forward",
                            "psv:lanes:backward",
                            "psv:lanes",
                            "psv:lanes:forward",
                            "psv:lanes:backward",
                        ],
                    ),
                ),
            ),
        ) && unchanged && new_w == old_w + wb + wp,
        (Ok(Some(a)), Ok(None)) | (Ok(None), Ok(Some(a))) => r == Ok::<(), MsgView>(())
            && lane_access_applied(old_f, old_b, new_f, new_b, side, a) && new_w == old_w + wb + wp,
        (Ok(None), Ok(None)) => r == Ok::<(), MsgView>(()) && unchanged && new_w == old_w + wb + wp,
    }
}

/// The lanes of one side in their own order, from the order left to right.
pub open spec fn side_from_ltr(lanes: Seq<LaneBuilder>, side: DrivingSide) -> Seq<LaneBuilder> {
    spec_side_ltr(lanes, side)
}

/// Lane dependent access applied to the lanes of a road: the lanes, forward
/// and backward, with those of designated access designated for buses.
pub open spec fn spec_apply_lane_access(
    f: Seq<LaneBuilder>,
    b: Seq<LaneBuilder>,
    side: DrivingSide,
    a: LaneDependentAccessView,
) -> (Seq<LaneBuilder>, Seq<LaneBuilder>) {
    match a {
        LaneDependentAccessView::LeftToRight(acc) => match side {
            DrivingSide::Left => {
                let d = designate(f.reverse() + b, acc);
                (d.take(f.len() as int).reverse(), d.skip(f.len() as int))
            },
            DrivingSide::Right => {
                let d = designate(b.reverse() + f, acc);
                (d.skip(b.len() as int), d.take(b.len() as int).reverse())
            },
        },
        LaneDependentAccessView::Forward(acc) => (
            side_from_ltr(designate(spec_side_ltr(f, side), acc), side),
            b,
        ),
        LaneDependentAccessView::Backward(acc) => (
            f,
            side_from_ltr(designate(spec_side_ltr(b, side), acc), side),
        ),
        LaneDependentAccessView::ForwardBackward(af, ab) => (
            side_from_ltr(designate(spec_side_ltr(f, side), af), side),
            side_from_ltr(designate(spec_side_ltr(b, side), ab), side),
        ),
    }
}

/// A side read left to right and back is the side itself.
proof fn lemma_side_ltr_back(s: Seq<LaneBuilder>, t: Seq<LaneBuilder>, side: DrivingSide)
    requires
        spec_side_ltr(t, side) == s,
    ensures
        t == side_from_ltr(s, side),
{
    if side == DrivingSide::Left {
        assert(t =~= t.reverse().reverse());
    }
}

/// Lane dependent access applied to the lanes of a road has one outcome.
pub proof fn lemma_lane_access_applied(
    old_f: Seq<LaneBuilder>,
    old_b: Seq<LaneBuilder>,
    new_f: Seq<LaneBuilder>,
    new_b: Seq<LaneBuilder>,
    side: DrivingSide,
    a: LaneDependentAccessView,
)
    requires
        lane_access_applied(old_f, old_b, new_f, new_b, side, a),
    ensures
        (new_f, new_b) == spec_apply_lane_access(old_f, old_b, side, a),
{
    match a {
        LaneDependentAccessView::LeftToRight(acc) => {
            match side {
                DrivingSide::Left => {
                    let d = designate(old_f.reverse() + old_b, acc);
                    assert(new_f.reverse() + new_b == d);
                    assert(d.take(old_f.len() as int) =~= new_f.reverse());
                    assert(d.skip(old_f.len() as int) =~= new_b);
                    assert(new_f =~= new_f.reverse().reverse());
                },
                DrivingSide::Right => {
                    let d = designate(old_b.reverse() + old_f, acc);
                    assert(new_b.reverse() + new_f == d);
                    assert(d.take(old_b.len() as int) =~= new_b.reverse());
                    assert(d.skip(old_b.len() as int) =~= new_f);
                    assert(new_b =~= new_b.reverse().reverse());
                },
            }
        },
        LaneDependentAccessView::Forward(acc) => {
            lemma_side_ltr_back(designate(spec_side_ltr(old_f, side), acc), new_f, side);
        },
        LaneDependentAccessView::Backward(acc) => {
            lemma_side_ltr_back(designate(spec_side_ltr(old_b, side), acc), new_b, side);
        },
        LaneDependentAccessView::ForwardBackward(af, ab) => {
            lemma_side_ltr_back(designate(spec_side_ltr(old_f, side), af), new_f, side);
            lemma_side_ltr_back(designate(spec_side_ltr(old_b, side), ab), new_b, side);
        },
    }
}

/// What `bus_lanes` gives: the lanes, forward and backward, or the error;
/// and the warnings it adds where it succeeds.
pub open spec fn spec_bus_lanes(
    tags: Seq<PairView>,
    side: DrivingSide,
    f: Seq<LaneBuilder>,
    b: Seq<LaneBuilder>,
) -> (Result<(Seq<LaneBuilder>, Seq<LaneBuilder>), MsgView>, Seq<MsgView>) {
    let n = (f.len() + b.len()) as int;
    let wb = spec_road_lane_access_warnings(tags, "bus:lanes"@, n);
    let wp = spec_road_lane_access_warnings(tags, "psv:lanes"@, n);
    match (spec_road_lane_access(tags, "bus:lanes"@, n), spec_road_lane_access(tags, "psv:lanes"@, n)) {
        (Err(e), _) => (Err(e), Seq::empty()),
        (Ok(_), Err(e)) => (Err(e), wb),
        (Ok(Some(_)), Ok(Some(_))) => (
            Err(
                msg(
                    IssueKind::Unsupported,
                    Some("more than one bus:lanes used"@),
                    tags_under(
                        tags,
                        crate::tags::str_set(
                            seq![
                                "bus:lanes",
                                "bus:lanes:forward",
                                "psv:lanes:backward",
                                "psv:lanes",
                                "psv:lanes:forward",
                                "psv:lanes:backward",
                            ],
                        ),
                    ),
                ),
            ),
            wb + wp,
        ),
        (Ok(Some(a)), Ok(None)) | (Ok(None), Ok(Some(a))) => (
            Ok(spec_apply_lane_access(f, b, side, a)),
            wb + wp,
        ),
        (Ok(None), Ok(None)) => (Ok((f, b)), wb + wp),
    }
}

/// What `bus_lanes` does is what `spec_bus_lanes` says.
pub proof fn lemma_bus_lanes_outcome(
    tags: Seq<PairView>,
    side: DrivingSide,
    old_f: Seq<LaneBuilder>,
    old_b: Seq<LaneBuilder>,
    new_f: Seq<LaneBuilder>,
    new_b: Seq<LaneBuilder>,
    old_w: Seq<MsgView>,
    new_w: Seq<MsgView>,
    r: Result<(), MsgView>,
)
    requires
        bus_lanes_outcome(tags, side, old_f, old_b, new_f, new_b, old_w, new_w, r),
    ensures
        ({
            let (res, w) = spec_bus_lanes(tags, side, old_f, old_b);
            match res {
                Err(e) => r == Err::<(), MsgView>(e),
                Ok((f, b)) => r == Ok::<(), MsgView>(()) && new_f == f && new_b == b && new_w == old_w + w,
            }
        }),
{
    let n = (old_f.len() + old_b.len()) as int;
    match (spec_road_lane_access(tags, "bus:lanes"@, n), spec_road_lane_access(tags, "psv:lanes"@, n)) {
        (Ok(Some(a)), Ok(None)) => {
            lemma_lane_access_applied(old_f, old_b, new_f, new_b, side, a);
        },
        (Ok(None), Ok(Some(a))) => {
            lemma_lane_access_applied(old_f, old_b, new_f, new_b, side, a);
        },
        _ => {},
    }
}

/// The view of a result with a message.
pub open spec fn result_view(r: Result<(), TagsToLanesMsg>) -> Result<(), MsgView> {
    match r {
        Ok(()) => Ok(()),
        Err(m) => Err(m@),
    }
}

/// Designates bus lanes from the `bus:lanes=*` or `psv:lanes=*` scheme.
pub fn bus_lanes(tags: &Tags, locale: &Locale, road: &mut RoadBuilder, warnings: &mut RoadWarnings) -> (r:
    Result<(), TagsToLanesMsg>)
    requires
        old(road).spec_len() <= usize::MAX,
    ensures
        bus_lanes_outcome(
            tags@,
            locale.driving_side,
            old(road).forward_lanes@,
            old(road).backward_lanes@,
            final(road).forward_lanes@,
            final(road).backward_lanes@,
            old(warnings)@,
            final(warnings)@,
            result_view(r),
        ),
        final(road).highway == old(road).highway,
        final(road).oneway == old(road).oneway,
        old(road).wf() ==> final(road).wf(),
{
    let bus = match RoadLaneAccess::from_tags("bus:lanes", tags, locale, road, warnings) {
        Ok(b) => b,
        Err(e) => return Err(e),
    };
    let psv = match RoadLaneAccess::from_tags("psv:lanes", tags, locale, road, warnings) {
        Ok(p) => p,
        Err(e) => return Err(e),
    };
    match (bus, psv) {
        (Some(a), None) | (None, Some(a)) => {
            apply_lane_access(road, locale, &a);
            Ok(())
        },
        (None, None) => Ok(()),
        (Some(_), Some(_)) => {
            let keys = vec![
                "bus:lanes",
                "bus:lanes:forward",
                "psv:lanes:backward",
                "psv:lanes",
                "psv:lanes:forward",
                "psv:lanes:backward",
            ];
            assert(keys@ == seq![
                "bus:lanes",
                "bus:lanes:forward",
                "psv:lanes:backward",
                "psv:lanes",
                "psv:lanes:forward",
                "psv:lanes:backward",
            ]);
            Err(TagsToLanesMsg::unsupported("more than one bus:lanes used", tags.subset(keys.as_slice())))
        },
    }
}


/// The busway applied to the lanes: the forward and backward lanes, and
/// whether there was a lane to apply it to. A forward busway designates the
/// outer-most forward lane; a backward busway the outer-most backward lane, or,
/// without backward lanes, the inner-most forward lane, which then runs
/// backward.
pub open spec fn spec_apply_busway(f: Seq<LaneBuilder>, b: Seq<LaneBuilder>, v: BuswayVariant) -> (
    Seq<LaneBuilder>,
    Seq<LaneBuilder>,
    bool,
) {
    let forward = v == BuswayVariant::Forward || v == BuswayVariant::Both;
    let backward = v == BuswayVariant::Backward || v == BuswayVariant::Both;
    if forward && f.len() == 0 {
        (f, b, false)
    } else {
        let f1 = if forward {
            f.update(f.len() - 1, bus_lane(f.last()))
        } else {
            f
        };
        if backward {
            if b.len() > 0 {
                (f1, b.update(b.len() - 1, bus_lane(b.last())), true)
            } else if f1.len() > 0 {
                (
                    f1.update(
                        0,
                        LaneBuilder { direction: Infer::Direct(Direction::Backward), ..bus_lane(f1[0]) },
                    ),
                    b,
                    true,
                )
            } else {
                (f1, b, false)
            }
        } else {
            (f1, b, true)
        }
    }
}

/// Applies the busway scheme to the lanes.
pub fn apply_busway(road: &mut RoadBuilder, scheme: &BuswayScheme, locale: &Locale) -> (r: Result<
    (),
    TagsToLanesMsg,
>)
    ensures
        ({
            let (f, b, ok) = spec_apply_busway(
                old(road).forward_lanes@,
                old(road).backward_lanes@,
                scheme.0,
            );
            &&& final(road).forward_lanes@ == f
            &&& final(road).backward_lanes@ == b
            &&& r is Ok <==> ok
            &&& r matches Err(m) ==> m@ == msg(
                IssueKind::Unsupported,
                Some("no forward lanes for busway"@),
                None,
            )
        }),
        final(road).highway == old(road).highway,
        final(road).oneway == old(road).oneway,
        old(road).wf() ==> final(road).wf(),
{
    let forward = scheme.forward();
    let backward = scheme.backward();
    if forward {
        let n = road.forward_len();
        if n == 0 {
            return Err(TagsToLanesMsg::unsupported_str("no forward lanes for busway"));
        }
        let ghost f0 = road.forward_lanes@;
        let mut l = road.forward_lanes[n - 1];
        l.set_bus(locale);
        road.set_forward(n - 1, l);
        proof {
            if lanes_wf(f0) {
                assert(lane_builder_wf(f0[n - 1]));
                lemma_wf_update(f0, n - 1, l);
            }
        }
    }
    if backward {
        let nb = road.backward_len();
        if nb > 0 {
            let ghost b0 = road.backward_lanes@;
            let mut l = road.backward_lanes[nb - 1];
            l.set_bus(locale);
            road.set_backward(nb - 1, l);
            proof {
                if lanes_wf(b0) {
                    assert(lane_builder_wf(b0[nb - 1]));
                    lemma_wf_update(b0, nb - 1, l);
                }
            }
        } else {
            if road.forward_len() == 0 {
                return Err(TagsToLanesMsg::unsupported_str("no forward lanes for busway"));
            }
            let ghost f0 = road.forward_lanes@;
            let mut l = road.forward_lanes[0];
            l.set_bus(locale);
            l.direction = Infer::Direct(Direction::Backward);
            road.set_forward(0, l);
            proof {
                if lanes_wf(f0) {
                    assert(lane_builder_wf(f0[0]));
                    lemma_wf_update(f0, 0, l);
                }
            }
        }
    }
    Ok(())
}

/// The keys of the `lanes:bus=*` and `lanes:psv=*` schemes.
pub open spec fn lanes_bus_keys() -> Set<Seq<char>> {
    str_set(
        seq![
            "lanes:psv",
            "lanes:psv:forward",
            "lanes:psv:backward",
            "lanes:psv:left",
            "lanes:psv:right",
            "lanes:bus",
            "lanes:bus:forward",
            "lanes:bus:backward",
            "lanes:bus:left",
            "lanes:bus:right",
        ],
    )
}

/// The `lanes:bus=*` and `lanes:psv=*` schemes are not implemented: warns about them.
pub fn lanes_bus(tags: &Tags, _locale: &Locale, _road: &mut RoadBuilder, warnings: &mut RoadWarnings) -> (r:
    Result<(), TagsToLanesMsg>)
    ensures
        r is Ok,
        final(warnings)@ == old(warnings)@.push(
            msg(IssueKind::Unimplemented, None, tags_under(tags@, lanes_bus_keys())),
        ),
        *final(_road) == *old(_road),
{
    let keys = vec![
        "lanes:psv",
        "lanes:psv:forward",
        "lanes:psv:backward",
        "lanes:psv:left",
        "lanes:psv:right",
        "lanes:bus",
        "lanes:bus:forward",
        "lanes:bus:backward",
        "lanes:bus:left",
        "lanes:bus:right",
    ];
    assert(keys@ == seq![
        "lanes:psv",
        "lanes:psv:forward",
        "lanes:psv:backward",
        "lanes:psv:left",
        "lanes:psv:right",
        "lanes:bus",
        "lanes:bus:forward",
        "lanes:bus:backward",
        "lanes:bus:left",
        "lanes:bus:right",
    ]);
    warnings.push(TagsToLanesMsg::unimplemented_tags(tags.subset(keys.as_slice())));
    Ok(())
}

/// The keys of the bus lane schemes.
pub open spec fn bus_scheme_keys() -> Set<Seq<char>> {
    str_set(seq!["busway", "lanes:bus", "lanes:psv", "bus:lanes", "psv:lanes"])
}

/// Which bus lane schemes are tagged: `busway`, `lanes:bus` or `lanes:psv`,
/// `bus:lanes` or `psv:lanes`.
pub open spec fn spec_bus_schemes(tags: Seq<PairView>) -> (bool, bool, bool) {
    (
        spec_has_tree(tags, "busway"@),
        spec_has_tree(tags, "lanes:bus"@) || spec_has_tree(tags, "lanes:psv"@),
        spec_has_tree(tags, "bus:lanes"@) || spec_has_tree(tags, "psv:lanes"@),
    )
}

/// Bus lanes, from one of three schemes: `busway=*` (as read beforehand),
/// `lanes:bus=*` (not implemented) or `bus:lanes=*`. More than one scheme is
/// an error.
pub fn bus(
    scheme: &BuswayScheme,
    tags: &Tags,
    locale: &Locale,
    road: &mut RoadBuilder,
    warnings: &mut RoadWarnings,
) -> (r: Result<(), TagsToLanesMsg>)
    requires
        old(road).spec_len() <= usize::MAX,
    ensures
        final(road).highway == old(road).highway,
        final(road).oneway == old(road).oneway,
        old(road).wf() ==> final(road).wf(),
        match spec_bus_schemes(tags@) {
            (false, false, false) => r is Ok && final(road).forward_lanes@ == old(road).forward_lanes@
                && final(road).backward_lanes@ == old(road).backward_lanes@ && final(warnings)@ == old(warnings)@,
            (true, _, false) => {
                let (f, b, ok) = spec_apply_busway(
                    old(road).forward_lanes@,
                    old(road).backward_lanes@,
                    scheme.0,
                );
                &&& final(road).forward_lanes@ == f
                &&& final(road).backward_lanes@ == b
                &&& r is Ok <==> ok
                &&& r matches Err(m) ==> m@ == msg(
                    IssueKind::Unsupported,
                    Some("no forward lanes for busway"@),
                    None,
                )
                &&& final(warnings)@ == old(warnings)@
            },
            (false, true, false) => r is Ok && final(road).forward_lanes@ == old(road).forward_lanes@
                && final(road).backward_lanes@ == old(road).backward_lanes@ && final(warnings)@ == old(warnings)@.push(msg(IssueKind::Unimplemented, None, tags_under(tags@, lanes_bus_keys()))),
            (false, false, true) => bus_lanes_outcome(
                tags@,
                locale.driving_side,
                old(road).forward_lanes@,
                old(road).backward_lanes@,
                final(road).forward_lanes@,
                final(road).backward_lanes@,
                old(warnings)@,
                final(warnings)@,
                result_view(r),
            ),
            _ => r matches Err(m) && m@ == msg(
                IssueKind::Unsupported,
                Some("more than one bus lanes scheme used"@),
                tags_under(tags@, bus_scheme_keys()),
            ) && final(road).forward_lanes@ == old(road).forward_lanes@ && final(road).backward_lanes@ == old(road).backward_lanes@ && final(warnings)@ == old(warnings)@,
        },
{
    let busway = tags.has_tree("busway");
    let lanes_bus_scheme = tags.has_tree("lanes:bus") || tags.has_tree("lanes:psv");
    let bus_lanes_scheme = tags.has_tree("bus:lanes") || tags.has_tree("psv:lanes");
    match (busway, lanes_bus_scheme, bus_lanes_scheme) {
        (false, false, false) => Ok(()),
        (true, _, false) => apply_busway(road, scheme, locale),
        (false, true, false) => lanes_bus(tags, locale, road, warnings),
        (false, false, true) => bus_lanes(tags, locale, road, warnings),
        _ => {
            let keys = vec!["busway", "lanes:bus", "lanes:psv", "bus:lanes", "psv:lanes"];
            assert(keys@ == seq!["busway", "lanes:bus", "lanes:psv", "bus:lanes", "psv:lanes"]);
            Err(
                TagsToLanesMsg::unsupported(
                    "more than one bus lanes scheme used",
                    tags.subset(keys.as_slice()),
                ),
            )
        },
    }
}

} // verus!
