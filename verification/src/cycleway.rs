//! Bicycle lanes and tracks, from `cycleway=*` and its sided forms,
//! <https://wiki.openstreetmap.org/wiki/Key:cycleway>.

use vstd::prelude::*;

use crate::builder::{
    lane_builder_wf, lanes_wf, lemma_wf_push, lemma_wf_update, AccessBuilder, LaneBuilder, LaneType, Oneway,
    RoadBuilder, Width,
};
use crate::bus::{msg_if, side_key};
use crate::infer::Infer;
use crate::locale::{DrivingSide, Locale};
use crate::metric::{parse_milli, spec_parse_milli, Metre};
use crate::msg::{msg, IssueKind, MsgView, RoadWarnings, TagsToLanesMsg};
use crate::road::{AccessAndDirection, Designated, Direction};
use crate::schemes::Access;
use crate::tags::{key_set, lookup, tags_map, PairView, TagKey, Tags};
use crate::text::{chars_of, str_eq};

verus! {

/// How bicycles travel along a side of the way.
#[derive(Clone, Copy, Debug, PartialEq, Eq, Structural)]
pub enum Variant {
    /// Sharing the lane with motor traffic.
    SharedMotor,
    Lane,
    Track,
}

impl Variant {
    /// `lane` or `track`.
    pub fn as_str(&self) -> (r: &'static str)
        requires
            *self != Variant::SharedMotor,
        ensures
            r@ == if *self == Variant::Lane {
                "lane"@
            } else {
                "track"@
            },
    {
        match self {
            Variant::Lane => "lane",
            _ => "track",
        }
    }
}

/// A value that may be missing, `no`, or given.
#[derive(Clone, Copy, Debug, PartialEq, Eq, Structural)]
pub enum OptionNo<T> {
    /// Not tagged.
    Untagged,
    No,
    Value(T),
}

impl<T> OptionNo<T> {
    /// The value, if one is given.
    pub fn value(self) -> (r: Option<T>)
        ensures
            r == match self {
                OptionNo::Value(v) => Some(v),
                _ => None,
            },
    {
        match self {
            OptionNo::Value(v) => Some(v),
            _ => None,
        }
    }
}

/// The values of `cycleway*` that are known but not implemented.
pub open spec fn unimplemented_variant(v: Seq<char>) -> bool {
    v == "shared_lane"@ || v == "share_busway"@ || v == "opposite_share_busway"@ || v == "shared"@
        || v == "shoulder"@ || v == "separate"@
}

/// What a `cycleway*` key holds: the variant and whether it is opposite, or
/// the message about an unknown or unimplemented value.
pub open spec fn spec_variant(tags: Seq<PairView>, key: Seq<char>) -> Result<
    OptionNo<(Variant, bool)>,
    MsgView,
> {
    match lookup(tags, key) {
        None => Ok(OptionNo::Untagged),
        Some(v) => if v == "lane"@ {
            Ok(OptionNo::Value((Variant::Lane, false)))
        } else if v == "track"@ {
            Ok(OptionNo::Value((Variant::Track, false)))
        } else if v == "opposite_lane"@ {
            Ok(OptionNo::Value((Variant::Lane, true)))
        } else if v == "opposite_track"@ {
            Ok(OptionNo::Value((Variant::Track, true)))
        } else if v == "opposite"@ {
            Ok(OptionNo::Value((Variant::SharedMotor, true)))
        } else if v == "no"@ {
            Ok(OptionNo::No)
        } else if unimplemented_variant(v) {
            Err(msg(IssueKind::Unimplemented, None, Some(map![key => v])))
        } else {
            Err(msg(IssueKind::Unsupported, None, Some(map![key => v])))
        },
    }
}

/// Reads a `cycleway*` key.
fn get_variant(tags: &Tags, key: &str) -> (r: Result<OptionNo<(Variant, bool)>, TagsToLanesMsg>)
    ensures
        match (r, spec_variant(tags@, key@)) {
            (Ok(a), Ok(b)) => a == b,
            (Err(m), Err(e)) => m@ == e,
            _ => false,
        },
{
    proof {
        reveal_strlit("lane");
        reveal_strlit("track");
        reveal_strlit("opposite_lane");
        reveal_strlit("opposite_track");
        reveal_strlit("opposite");
        reveal_strlit("no");
    }
    match tags.get(key) {
        None => Ok(OptionNo::Untagged),
        Some(v) => if str_eq(v, "lane") {
            Ok(OptionNo::Value((Variant::Lane, false)))
        } else if str_eq(v, "track") {
            Ok(OptionNo::Value((Variant::Track, false)))
        } else if str_eq(v, "opposite_lane") {
            Ok(OptionNo::Value((Variant::Lane, true)))
        } else if str_eq(v, "opposite_track") {
            Ok(OptionNo::Value((Variant::Track, true)))
        } else if str_eq(v, "opposite") {
            Ok(OptionNo::Value((Variant::SharedMotor, true)))
        } else if str_eq(v, "no") {
            Ok(OptionNo::No)
        } else if str_eq(v, "shared_lane") || str_eq(v, "share_busway") || str_eq(
            v,
            "opposite_share_busway",
        ) || str_eq(v, "shared") || str_eq(v, "shoulder") || str_eq(v, "separate") {
            Err(TagsToLanesMsg::unimplemented_tag(key, v))
        } else {
            Err(TagsToLanesMsg::unsupported_tag(key, v))
        },
    }
}

/// A bicycle way on one side of the road.
#[derive(Clone, Copy, Debug, PartialEq, Eq, Structural)]
pub struct Way {
    pub variant: Variant,
    pub direction: Direction,
    pub width: Option<Width>,
}

/// Where the bicycle ways are.
#[derive(Clone, Copy, Debug, PartialEq, Eq, Structural)]
pub enum Location {
    /// No bicycle way.
    Absent,
    Forward(Way),
    Backward(Way),
    Both { forward: Way, backward: Way },
}

/// A bicycle lane or track scheme: where the ways are, and the keys it was
/// read from.
#[derive(Debug)]
pub struct Scheme {
    pub location: Location,
    pub keys: Vec<TagKey>,
}

/// What a scheme holds.
#[verifier::ext_equal]
pub struct SchemeView {
    pub location: Location,
    pub keys: Seq<Seq<char>>,
}

impl View for Scheme {
    type V = SchemeView;

    open spec fn view(&self) -> SchemeView {
        SchemeView { location: self.location, keys: self.keys@.map_values(|k: TagKey| k@) }
    }
}

/// The keys of a list, as a set.
pub open spec fn seq_key_set(keys: Seq<Seq<char>>) -> Set<Seq<char>> {
    Set::new(|k: Seq<char>| exists|i: int| 0 <= i < keys.len() && #[trigger] keys[i] == k)
}

/// The optional view of a scheme.
pub open spec fn opt_scheme_view(s: Option<Scheme>) -> Option<SchemeView> {
    match s {
        Some(s) => Some(s@),
        None => None,
    }
}

/// A scheme of one location and one key.
pub open spec fn scheme_of(location: Location, key: Seq<char>) -> SchemeView {
    SchemeView { location, keys: seq![key] }
}

/// A way with no width.
pub open spec fn way(variant: Variant, direction: Direction) -> Way {
    Way { variant, direction, width: None }
}

/// Ways on both sides.
pub open spec fn both_ways(variant: Variant) -> Location {
    Location::Both {
        forward: way(variant, Direction::Forward),
        backward: way(variant, Direction::Backward),
    }
}

/// The keys of a bicycle way on the side opposite to the driving side.
pub open spec fn opposite_side_key(side: DrivingSide) -> Seq<char> {
    side_key("cycleway"@, side.spec_opposite())
}

/// What `Scheme::from_tags_cycleway` gives, and the warnings it adds.
#[verifier::opaque]
pub open spec fn spec_from_tags_cycleway(
    tags: Seq<PairView>,
    side: DrivingSide,
    oneway: Oneway,
) -> (Result<Option<SchemeView>, MsgView>, Seq<MsgView>) {
    let key = "cycleway"@;
    match spec_variant(tags, key) {
        Ok(OptionNo::Value((variant, opposite))) => if oneway == Oneway::Yes {
            if !opposite {
                (Ok(Some(scheme_of(Location::Forward(way(variant, Direction::Forward)), key))), Seq::empty())
            } else {
                let ok = opposite_side_key(side);
                (
                    Ok(Some(scheme_of(Location::Backward(way(variant, Direction::Backward)), key))),
                    msg_if(
                        variant != Variant::SharedMotor,
                        MsgView {
                            kind: IssueKind::Deprecated,
                            description: None,
                            tags: Some(tags_map(tags).restrict(set![key])),
                            suggested: Some(
                                map![
                                    ok => if variant == Variant::Lane { "lane"@ } else { "track"@ },
                                    ok + ":oneway"@ => "-1"@,
                                ],
                            ),
                            lanes: None,
                        },
                    ),
                )
            }
        } else {
            if opposite {
                (
                    Err(
                        msg(
                            IssueKind::Unsupported,
                            None,
                            Some(tags_map(tags).restrict(set!["oneway"@, key])),
                        ),
                    ),
                    Seq::empty(),
                )
            } else {
                (Ok(Some(scheme_of(both_ways(variant), key))), Seq::empty())
            }
        },
        Ok(OptionNo::No) => (Ok(Some(scheme_of(Location::Absent, key))), Seq::empty()),
        Ok(OptionNo::Untagged) => (Ok(None), Seq::empty()),
        Err(e) => (Ok(None), seq![e]),
    }
}

/// What `Scheme::from_tags_cycleway_both` gives, and the warnings it adds.
#[verifier::opaque]
pub open spec fn spec_from_tags_cycleway_both(tags: Seq<PairView>) -> (Option<SchemeView>, Seq<MsgView>) {
    let key = "cycleway:both"@;
    match spec_variant(tags, key) {
        Ok(OptionNo::Value((variant, opposite))) => (
            Some(scheme_of(both_ways(variant), key)),
            msg_if(opposite, msg(IssueKind::Unsupported, None, Some(tags_map(tags).restrict(set![key])))),
        ),
        Ok(OptionNo::No) => (Some(scheme_of(Location::Absent, key)), Seq::empty()),
        Ok(OptionNo::Untagged) => (None, Seq::empty()),
        Err(e) => (None, seq![e]),
    }
}

/// The width of a bicycle way tagged under `key`, in metres, and the warning
/// about a value that is no number.
pub open spec fn spec_way_width(tags: Seq<PairView>, key: Seq<char>) -> (Option<Width>, Seq<MsgView>) {
    match lookup(tags, key) {
        Some(v) => match spec_parse_milli(v) {
            Some(mm) => (
                Some(
                    Width {
                        min: Infer::Unset,
                        target: Infer::Direct(Metre { millimetres: mm as i64 }),
                        max: Infer::Unset,
                    },
                ),
                Seq::empty(),
            ),
            None => (None, seq![msg(IssueKind::Unsupported, None, Some(map![key => v]))]),
        },
        None => (None, Seq::empty()),
    }
}

/// Reads the width of a bicycle way.
fn way_width(tags: &Tags, key: &str, warnings: &mut RoadWarnings) -> (r: Option<Width>)
    ensures
        r == spec_way_width(tags@, key@).0,
        final(warnings)@ == old(warnings)@ + spec_way_width(tags@, key@).1,
{
    match tags.get(key) {
        Some(v) => {
            let cs = chars_of(v);
            match parse_milli(cs.as_slice()) {
                Some(mm) => {
                    assert(warnings@ =~= old(warnings)@ + spec_way_width(tags@, key@).1);
                    Some(
                        Width {
                            min: Infer::Unset,
                            target: Infer::Direct(Metre::from_millimetres(mm)),
                            max: Infer::Unset,
                        },
                    )
                },
                None => {
                    warnings.push(TagsToLanesMsg::unsupported_tag(key, v));
                    assert(warnings@ =~= old(warnings)@ + spec_way_width(tags@, key@).1);
                    None
                },
            }
        },
        None => {
            assert(warnings@ =~= old(warnings)@ + spec_way_width(tags@, key@).1);
            None
        },
    }
}

/// What `Scheme::from_tags_cycleway_forward` gives, and the warnings it adds.
#[verifier::opaque]
pub open spec fn spec_from_tags_cycleway_forward(tags: Seq<PairView>, side: DrivingSide) -> (
    Option<SchemeView>,
    Seq<MsgView>,
) {
    let key = side_key("cycleway"@, side);
    match spec_variant(tags, key) {
        Ok(OptionNo::Value((variant, _))) => {
            let (width, w) = spec_way_width(tags, key + ":width"@);
            let direction = if lookup(tags, key + ":oneway"@) == Some("no"@) || lookup(
                tags,
                "oneway:bicycle"@,
            ) == Some("no"@) {
                Direction::Both
            } else {
                Direction::Forward
            };
            (
                Some(scheme_of(Location::Forward(Way { variant, direction, width }), key)),
                w,
            )
        },
        Ok(OptionNo::No) => (Some(scheme_of(Location::Absent, key)), Seq::empty()),
        Ok(OptionNo::Untagged) => (None, Seq::empty()),
        Err(e) => (None, seq![e]),
    }
}

/// What `Scheme::from_tags_cycleway_backward` gives, and the warnings it adds.
#[verifier::opaque]
pub open spec fn spec_from_tags_cycleway_backward(
    tags: Seq<PairView>,
    side: DrivingSide,
    oneway: Oneway,
) -> (Option<SchemeView>, Seq<MsgView>) {
    let key = opposite_side_key(side);
    let width_key = key + ":width"@;
    let oneway_key = key + ":oneway"@;
    match spec_variant(tags, key) {
        Ok(OptionNo::Value((variant, _))) => {
            let (width, w) = spec_way_width(tags, width_key);
            let ov = lookup(tags, oneway_key);
            let (direction, keys) = if ov == Some("yes"@) {
                (Direction::Forward, seq![key, width_key, oneway_key])
            } else if ov == Some("-1"@) {
                (Direction::Backward, seq![key, width_key, oneway_key])
            } else if ov == Some("no"@) || lookup(tags, "oneway:bicycle"@) == Some("no"@) {
                (Direction::Both, seq![key, width_key, oneway_key])
            } else if oneway == Oneway::Yes {
                (Direction::Forward, seq![key, width_key, oneway_key, "oneway"@])
            } else {
                (Direction::Backward, seq![key, width_key, oneway_key, "oneway"@])
            };
            (
                Some(
                    SchemeView {
                        location: Location::Backward(Way { variant, direction, width }),
                        keys,
                    },
                ),
                w,
            )
        },
        Ok(OptionNo::No) => (Some(scheme_of(Location::Absent, key)), Seq::empty()),
        Ok(OptionNo::Untagged) => (None, Seq::empty()),
        Err(e) => (None, seq![e]),
    }
}

/// The warning that a scheme is given beside another one.
pub open spec fn beside(tags: Seq<PairView>, s: SchemeView, other: Option<SchemeView>) -> Seq<MsgView> {
    match other {
        Some(o) => seq![
            msg(
                IssueKind::Unsupported,
                None,
                Some(tags_map(tags).restrict(seq_key_set(s.keys + o.keys))),
            ),
        ],
        None => Seq::empty(),
    }
}

/// What `Scheme::from_tags` gives from the four schemes, and the warnings that
/// combining them adds.
pub open spec fn spec_combine_schemes(
    tags: Seq<PairView>,
    c: Option<SchemeView>,
    b: Option<SchemeView>,
    f: Option<SchemeView>,
    k: Option<SchemeView>,
) -> (SchemeView, Seq<MsgView>) {
    match (c, b) {
        (Some(s), _) => (s, beside(tags, s, b) + beside(tags, s, f) + beside(tags, s, k)),
        (None, Some(s)) => (s, beside(tags, s, f) + beside(tags, s, k)),
        (None, None) => match (f, k) {
            (Some(x), None) | (None, Some(x)) => (x, Seq::empty()),
            (Some(x), Some(y)) => if y.location == Location::Absent {
                (x, Seq::empty())
            } else if x.location == Location::Absent {
                (y, Seq::empty())
            } else {
                match (x.location, y.location) {
                    (Location::Forward(fw), Location::Backward(bw)) => (
                        SchemeView {
                            location: Location::Both { forward: fw, backward: bw },
                            keys: x.keys + y.keys,
                        },
                        Seq::empty(),
                    ),
                    _ => (x, Seq::empty()),
                }
            },
            (None, None) => (SchemeView { location: Location::Absent, keys: Seq::empty() }, Seq::empty()),
        },
    }
}

/// What `Scheme::from_tags` gives, and the warnings it adds.
pub open spec fn spec_cycleway_scheme(tags: Seq<PairView>, side: DrivingSide, oneway: Oneway) -> (
    Result<SchemeView, MsgView>,
    Seq<MsgView>,
) {
    let (c, wc) = spec_from_tags_cycleway(tags, side, oneway);
    match c {
        Err(e) => (Err(e), wc),
        Ok(c) => {
            let (b, wb) = spec_from_tags_cycleway_both(tags);
            let (f, wf) = spec_from_tags_cycleway_forward(tags, side);
            let (k, wk) = spec_from_tags_cycleway_backward(tags, side, oneway);
            let (s, ws) = spec_combine_schemes(tags, c, b, f, k);
            (Ok(s), wc + wb + wf + wk + ws)
        },
    }
}

/// A list of keys, each by its text.
pub open spec fn keys_view(keys: Seq<TagKey>) -> Seq<Seq<char>> {
    keys.map_values(|k: TagKey| k@)
}

/// The set of a list of keys is the set of their texts.
proof fn lemma_key_set(keys: Seq<TagKey>)
    ensures
        key_set(keys) == seq_key_set(keys_view(keys)),
{
    assert forall|k: Seq<char>| key_set(keys).contains(k) implies seq_key_set(keys_view(keys)).contains(k) by {
        let j = choose|j: int| 0 <= j < keys.len() && #[trigger] keys[j]@ == k;
        assert(keys_view(keys)[j] == k);
    }
    assert forall|k: Seq<char>| seq_key_set(keys_view(keys)).contains(k) implies key_set(keys).contains(k) by {
        let j = choose|j: int| 0 <= j < keys_view(keys).len() && #[trigger] keys_view(keys)[j] == k;
        assert(keys[j]@ == k);
    }
    assert(key_set(keys) =~= seq_key_set(keys_view(keys)));
}

/// A list of one key.
fn one_key(key: &str) -> (r: Vec<TagKey>)
    ensures
        keys_view(r@) == seq![key@],
{
    let mut v: Vec<TagKey> = Vec::new();
    v.push(TagKey::from_ref(key));
    assert(keys_view(v@) =~= seq![key@]);
    v
}

/// The keys of two lists, one after the other.
fn concat_keys(a: &Vec<TagKey>, b: &Vec<TagKey>) -> (r: Vec<TagKey>)
    ensures
        keys_view(r@) == keys_view(a@) + keys_view(b@),
{
    let mut out: Vec<TagKey> = Vec::new();
    let mut i: usize = 0;
    while i < a.len()
        invariant
            i <= a@.len(),
            keys_view(out@) == keys_view(a@).take(i as int),
        decreases a@.len() - i,
    {
        let ghost before = out@;
        let k = TagKey::from_ref(a[i].as_str());
        out.push(k);
        assert(out@ == before.push(k));
        assert(keys_view(out@) =~= keys_view(before).push(k@));
        assert(k@ == keys_view(a@)[i as int]);
        assert(keys_view(out@) =~= keys_view(a@).take(i + 1));
        i = i + 1;
    }
    let mut j: usize = 0;
    while j < b.len()
        invariant
            j <= b@.len(),
            keys_view(out@) == keys_view(a@) + keys_view(b@).take(j as int),
        decreases b@.len() - j,
    {
        let ghost before = out@;
        let k = TagKey::from_ref(b[j].as_str());
        out.push(k);
        assert(out@ == before.push(k));
        assert(keys_view(out@) =~= keys_view(before).push(k@));
        assert(k@ == keys_view(b@)[j as int]);
        assert(keys_view(out@) =~= keys_view(a@) + keys_view(b@).take(j + 1));
        j = j + 1;
    }
    assert(keys_view(a@).take(a@.len() as int) =~= keys_view(a@));
    assert(keys_view(b@).take(b@.len() as int) =~= keys_view(b@));
    out
}

/// Warns that `s` is given beside `other`.
fn warn_beside(tags: &Tags, s: &Scheme, other: &Option<Scheme>, warnings: &mut RoadWarnings)
    ensures
        final(warnings)@ == old(warnings)@ + beside(tags@, s@, opt_scheme_view(*other)),
{
    match other {
        Some(o) => {
            let keys = concat_keys(&s.keys, &o.keys);
            proof {
                lemma_key_set(keys@);
            }
            warnings.push(TagsToLanesMsg::unsupported_tags(tags.subset_keys(&keys)));
            assert(warnings@ =~= old(warnings)@ + beside(tags@, s@, opt_scheme_view(*other)));
        },
        None => {
            assert(warnings@ =~= old(warnings)@ + beside(tags@, s@, opt_scheme_view(*other)));
        },
    }
}

/// The key `cycleway:<side>`.
fn cycleway_key(side: DrivingSide) -> (r: TagKey)
    ensures
        r@ == side_key("cycleway"@, side),
{
    let t = side.tag();
    TagKey::from_ref("cycleway").join(t.as_str())
}

impl Scheme {
    /// Reads `cycleway=*`: `None` if it is not tagged or its value is not
    /// known (which is warned about), a scheme without ways for `no`.
    pub fn from_tags_cycleway(
        tags: &Tags,
        locale: &Locale,
        road_oneway: Oneway,
        warnings: &mut RoadWarnings,
    ) -> (r: Result<Option<Self>, TagsToLanesMsg>)
        ensures
            ({
                let (res, w) = spec_from_tags_cycleway(tags@, locale.driving_side, road_oneway);
                &&& match (r, res) {
                    (Ok(s), Ok(v)) => opt_scheme_view(s) == v,
                    (Err(m), Err(e)) => m@ == e,
                    _ => false,
                }
                &&& final(warnings)@ == old(warnings)@ + w
            }),
    {
        reveal(spec_from_tags_cycleway);
        let ghost spec = spec_from_tags_cycleway(tags@, locale.driving_side, road_oneway);
        match get_variant(tags, "cycleway") {
            Ok(OptionNo::Value((variant, opposite))) => {
                if road_oneway.is_yes() {
                    if !opposite {
                        let s = Scheme {
                            location: Location::Forward(Way { variant, direction: Direction::Forward, width: None }),
                            keys: one_key("cycleway"),
                        };
                        assert(warnings@ =~= old(warnings)@ + spec.1);
                        Ok(Some(s))
                    } else {
                        if variant != Variant::SharedMotor {
                            let side_key_text = cycleway_key(locale.driving_side.opposite());
                            let oneway_key = side_key_text.join("oneway");
                            let keys = vec!["cycleway"];
                            assert(keys@ == seq!["cycleway"]);
                            proof {
                                crate::tags::lemma_str_set1("cycleway");
                                reveal_strlit(":oneway");
                                reveal_strlit("oneway");
                                reveal_strlit("lane");
                                reveal_strlit("track");
                                reveal_strlit("-1");
                                assert(oneway_key@ =~= side_key_text@ + ":oneway"@);
                                assert(side_key_text@ != oneway_key@) by {
                                    assert(side_key_text@.len() != oneway_key@.len());
                                }
                            }
                            let vs: &str = variant.as_str();
                            let pairs = vec![(side_key_text.as_str(), vs), (oneway_key.as_str(), "-1")];
                            let suggested = match Tags::from_pairs(pairs.as_slice()) {
                                Ok(t) => t,
                                Err(_) => {
                                    proof {
                                        let input = crate::tags::str_pairs_view(pairs@);
                                        assert(input[0].0 != input[1].0);
                                        assert(crate::tags::distinct_keys(input));
                                    }
                                    return Err(TagsToLanesMsg::internal("duplicate key"));
                                },
                            };
                            proof {
                                let input = crate::tags::str_pairs_view(pairs@);
                                let m = map![
                                    side_key_text@ => if variant == Variant::Lane { "lane"@ } else { "track"@ },
                                    side_key_text@ + ":oneway"@ => "-1"@,
                                ];
                                assert(input[0] == (side_key_text@, vs@));
                                assert(crate::tags::key_at(input, side_key_text@, 0));
                                assert(crate::tags::key_at(input, oneway_key@, 1));
                                assert forall|k: Seq<char>| #![auto] crate::tags::lookup(input, k) == if m.dom().contains(k) {
                                    Some(m[k])
                                } else {
                                    None
                                } by {
                                    if crate::tags::has_key(input, k) {
                                        let j = choose|j: int| #[trigger] crate::tags::key_at(input, k, j);
                                        assert(j == 0 || j == 1);
                                    }
                                }
                                assert(tags_map(suggested@) =~= m);
                            }
                            warnings.push(
                                TagsToLanesMsg::deprecated(tags.subset(keys.as_slice()), suggested),
                            );
                        }
                        let s = Scheme {
                            location: Location::Backward(
                                Way { variant, direction: Direction::Backward, width: None },
                            ),
                            keys: one_key("cycleway"),
                        };
                        assert(warnings@ =~= old(warnings)@ + spec.1);
                        Ok(Some(s))
                    }
                } else {
                    if opposite {
                        let keys = vec!["oneway", "cycleway"];
                        assert(keys@ == seq!["oneway", "cycleway"]);
                        proof {
                            crate::tags::lemma_str_set2("oneway", "cycleway");
                        }
                        return Err(TagsToLanesMsg::unsupported_tags(tags.subset(keys.as_slice())));
                    }
                    let s = Scheme {
                        location: Location::Both {
                            forward: Way { variant, direction: Direction::Forward, width: None },
                            backward: Way { variant, direction: Direction::Backward, width: None },
                        },
                        keys: one_key("cycleway"),
                    };
                    assert(warnings@ =~= old(warnings)@ + spec.1);
                    Ok(Some(s))
                }
            },
            Ok(OptionNo::No) => {
                assert(warnings@ =~= old(warnings)@ + spec.1);
                Ok(Some(Scheme { location: Location::Absent, keys: one_key("cycleway") }))
            },
            Ok(OptionNo::Untagged) => {
                assert(warnings@ =~= old(warnings)@ + spec.1);
                Ok(None)
            },
            Err(e) => {
                warnings.push(e);
                assert(warnings@ =~= old(warnings)@ + spec.1);
                Ok(None)
            },
        }
    }

    /// Reads `cycleway:both=*`: `None` if it is not tagged or its value is not
    /// known (which is warned about), a scheme without ways for `no`.
    pub fn from_tags_cycleway_both(
        tags: &Tags,
        _locale: &Locale,
        _road_oneway: Oneway,
        warnings: &mut RoadWarnings,
    ) -> (r: Option<Self>)
        ensures
            opt_scheme_view(r) == spec_from_tags_cycleway_both(tags@).0,
            final(warnings)@ == old(warnings)@ + spec_from_tags_cycleway_both(tags@).1,
    {
        reveal(spec_from_tags_cycleway_both);
        let ghost spec = spec_from_tags_cycleway_both(tags@);
        match get_variant(tags, "cycleway:both") {
            Ok(OptionNo::Value((variant, opposite))) => {
                if opposite {
                    let keys = vec!["cycleway:both"];
                    assert(keys@ == seq!["cycleway:both"]);
                    proof {
                        crate::tags::lemma_str_set1("cycleway:both");
                    }
                    warnings.push(TagsToLanesMsg::unsupported_tags(tags.subset(keys.as_slice())));
                }
                assert(warnings@ =~= old(warnings)@ + spec.1);
                Some(
                    Scheme {
                        location: Location::Both {
                            forward: Way { variant, direction: Direction::Forward, width: None },
                            backward: Way { variant, direction: Direction::Backward, width: None },
                        },
                        keys: one_key("cycleway:both"),
                    },
                )
            },
            Ok(OptionNo::No) => {
                assert(warnings@ =~= old(warnings)@ + spec.1);
                Some(Scheme { location: Location::Absent, keys: one_key("cycleway:both") })
            },
            Ok(OptionNo::Untagged) => {
                assert(warnings@ =~= old(warnings)@ + spec.1);
                None
            },
            Err(e) => {
                warnings.push(e);
                assert(warnings@ =~= old(warnings)@ + spec.1);
                None
            },
        }
    }

    /// Reads `cycleway:<driving side>=*` with its width and `oneway`:
    /// `None` if it is not tagged or its value is not known (which is warned
    /// about), a scheme without ways for `no`.
    pub fn from_tags_cycleway_forward(
        tags: &Tags,
        locale: &Locale,
        _road_oneway: Oneway,
        warnings: &mut RoadWarnings,
    ) -> (r: Result<Option<Self>, TagsToLanesMsg>)
        ensures
            r matches Ok(s) && opt_scheme_view(s) == spec_from_tags_cycleway_forward(
                tags@,
                locale.driving_side,
            ).0,
            final(warnings)@ == old(warnings)@ + spec_from_tags_cycleway_forward(
                tags@,
                locale.driving_side,
            ).1,
    {
        reveal(spec_from_tags_cycleway_forward);
        let ghost spec = spec_from_tags_cycleway_forward(tags@, locale.driving_side);
        let key = cycleway_key(locale.driving_side);
        proof {
            reveal_strlit(":width");
            reveal_strlit("width");
            reveal_strlit(":oneway");
            reveal_strlit("oneway");
            reveal_strlit("no");
        }
        match get_variant(tags, key.as_str()) {
            Ok(OptionNo::Value((variant, _))) => {
                let width_key = key.join("width");
                assert(width_key@ =~= key@ + ":width"@);
                let width = way_width(tags, width_key.as_str(), warnings);
                let oneway_key = key.join("oneway");
                assert(oneway_key@ =~= key@ + ":oneway"@);
                let direction = if tags.is(oneway_key.as_str(), "no") || tags.is("oneway:bicycle", "no") {
                    Direction::Both
                } else {
                    Direction::Forward
                };
                let mut keys: Vec<TagKey> = Vec::new();
                keys.push(key);
                assert(keys_view(keys@) =~= seq![side_key("cycleway"@, locale.driving_side)]);
                Ok(Some(Scheme { location: Location::Forward(Way { variant, direction, width }), keys }))
            },
            Ok(OptionNo::No) => {
                assert(warnings@ =~= old(warnings)@ + spec.1);
                let mut keys: Vec<TagKey> = Vec::new();
                keys.push(key);
                assert(keys_view(keys@) =~= seq![side_key("cycleway"@, locale.driving_side)]);
                Ok(Some(Scheme { location: Location::Absent, keys }))
            },
            Ok(OptionNo::Untagged) => {
                assert(warnings@ =~= old(warnings)@ + spec.1);
                Ok(None)
            },
            Err(e) => {
                warnings.push(e);
                assert(warnings@ =~= old(warnings)@ + spec.1);
                Ok(None)
            },
        }
    }

    /// Reads `cycleway:<opposite side>=*` with its width and `oneway`:
    /// `None` if it is not tagged or its value is not known (which is warned
    /// about), a scheme without ways for `no`.
    pub fn from_tags_cycleway_backward(
        tags: &Tags,
        locale: &Locale,
        road_oneway: Oneway,
        warnings: &mut RoadWarnings,
    ) -> (r: Result<Option<Self>, TagsToLanesMsg>)
        ensures
            r matches Ok(s) && opt_scheme_view(s) == spec_from_tags_cycleway_backward(
                tags@,
                locale.driving_side,
                road_oneway,
            ).0,
            final(warnings)@ == old(warnings)@ + spec_from_tags_cycleway_backward(
                tags@,
                locale.driving_side,
                road_oneway,
            ).1,
    {
        reveal(spec_from_tags_cycleway_backward);
        let ghost spec = spec_from_tags_cycleway_backward(tags@, locale.driving_side, road_oneway);
        let key = cycleway_key(locale.driving_side.opposite());
        proof {
            reveal_strlit(":width");
            reveal_strlit("width");
            reveal_strlit(":oneway");
            reveal_strlit("oneway");
            reveal_strlit("no");
            reveal_strlit("yes");
            reveal_strlit("-1");
        }
        match get_variant(tags, key.as_str()) {
            Ok(OptionNo::Value((variant, _))) => {
                let width_key = key.join("width");
                assert(width_key@ =~= key@ + ":width"@);
                let width = way_width(tags, width_key.as_str(), warnings);
                let oneway_key = key.join("oneway");
                assert(oneway_key@ =~= key@ + ":oneway"@);
                let ov_yes = tags.is(oneway_key.as_str(), "yes");
                let ov_back = tags.is(oneway_key.as_str(), "-1");
                let ov_no = tags.is(oneway_key.as_str(), "no") || tags.is("oneway:bicycle", "no");
                let mut keys: Vec<TagKey> = Vec::new();
                let ghost k0 = key@;
                let ghost kw = width_key@;
                let ghost ko = oneway_key@;
                keys.push(key);
                keys.push(width_key);
                keys.push(oneway_key);
                let direction = if ov_yes {
                    Direction::Forward
                } else if ov_back {
                    Direction::Backward
                } else if ov_no {
                    Direction::Both
                } else {
                    keys.push(TagKey::from_ref("oneway"));
                    if road_oneway.is_yes() {
                        Direction::Forward
                    } else {
                        Direction::Backward
                    }
                };
                proof {
                    if ov_yes || ov_back || ov_no {
                        assert(keys_view(keys@) =~= seq![k0, kw, ko]);
                    } else {
                        assert(keys_view(keys@) =~= seq![k0, kw, ko, "oneway"@]);
                    }
                }
                Ok(Some(Scheme { location: Location::Backward(Way { variant, direction, width }), keys }))
            },
            Ok(OptionNo::No) => {
                assert(warnings@ =~= old(warnings)@ + spec.1);
                let mut keys: Vec<TagKey> = Vec::new();
                keys.push(key);
                assert(keys_view(keys@) =~= seq![opposite_side_key(locale.driving_side)]);
                Ok(Some(Scheme { location: Location::Absent, keys }))
            },
            Ok(OptionNo::Untagged) => {
                assert(warnings@ =~= old(warnings)@ + spec.1);
                Ok(None)
            },
            Err(e) => {
                warnings.push(e);
                assert(warnings@ =~= old(warnings)@ + spec.1);
                Ok(None)
            },
        }
    }
}


/// A scheme read from the forward side has its ways forward, if any.
pub proof fn lemma_forward_scheme_shape(tags: Seq<PairView>, side: DrivingSide)
    ensures
        spec_from_tags_cycleway_forward(tags, side).0 matches Some(sv) ==> (sv.location is Forward
            || sv.location is Absent),
{
    reveal(spec_from_tags_cycleway_forward);
}

/// A scheme read from the backward side has its ways backward, if any.
pub proof fn lemma_backward_scheme_shape(tags: Seq<PairView>, side: DrivingSide, oneway: Oneway)
    ensures
        spec_from_tags_cycleway_backward(tags, side, oneway).0 matches Some(sv) ==> (sv.location is Backward
            || sv.location is Absent),
{
    reveal(spec_from_tags_cycleway_backward);
}

impl Scheme {
    /// Reads the bicycle lane or track scheme from `cycleway=*`,
    /// `cycleway:both=*` and the sided `cycleway:<side>=*`. Where `cycleway=*`
    /// or `cycleway:both=*` is given, any other of these is warned about; the
    /// two sided keys together give ways on both sides.
    pub fn from_tags(tags: &Tags, locale: &Locale, road_oneway: Oneway, warnings: &mut RoadWarnings) -> (r:
        Result<Self, TagsToLanesMsg>)
        ensures
            ({
                let (res, w) = spec_cycleway_scheme(tags@, locale.driving_side, road_oneway);
                &&& match (r, res) {
                    (Ok(s), Ok(v)) => s@ == v,
                    (Err(m), Err(e)) => m@ == e,
                    _ => false,
                }
                &&& final(warnings)@ == old(warnings)@ + w
            }),
    {
        let ghost w0 = warnings@;
        let c = match Self::from_tags_cycleway(tags, locale, road_oneway, warnings) {
            Ok(c) => c,
            Err(e) => return Err(e),
        };
        let ghost w1 = warnings@;
        let b = Self::from_tags_cycleway_both(tags, locale, road_oneway, warnings);
        let ghost w2 = warnings@;
        let f = match Self::from_tags_cycleway_forward(tags, locale, road_oneway, warnings) {
            Ok(f) => f,
            Err(e) => return Err(e),
        };
        let ghost w3 = warnings@;
        let k = match Self::from_tags_cycleway_backward(tags, locale, road_oneway, warnings) {
            Ok(k) => k,
            Err(e) => return Err(e),
        };
        let ghost w4 = warnings@;
        proof {
            lemma_forward_scheme_shape(tags@, locale.driving_side);
            lemma_backward_scheme_shape(tags@, locale.driving_side, road_oneway);
        }
        let ghost (sv, ws) = spec_combine_schemes(
            tags@,
            opt_scheme_view(c),
            opt_scheme_view(b),
            opt_scheme_view(f),
            opt_scheme_view(k),
        );
        let result = match (c, b) {
            (Some(s), b) => {
                warn_beside(tags, &s, &b, warnings);
                warn_beside(tags, &s, &f, warnings);
                warn_beside(tags, &s, &k, warnings);
                assert(warnings@ =~= w4 + ws);
                s
            },
            (None, Some(s)) => {
                warn_beside(tags, &s, &f, warnings);
                warn_beside(tags, &s, &k, warnings);
                assert(warnings@ =~= w4 + ws);
                s
            },
            (None, None) => {
                assert(warnings@ =~= w4 + ws);
                match (f, k) {
                    (Some(x), None) => x,
                    (None, Some(x)) => x,
                    (Some(x), Some(y)) => {
                        if y.location == Location::Absent {
                            x
                        } else if x.location == Location::Absent {
                            y
                        } else {
                            match (x.location, y.location) {
                                (Location::Forward(fw), Location::Backward(bw)) => {
                                    let keys = concat_keys(&x.keys, &y.keys);
                                    Scheme { location: Location::Both { forward: fw, backward: bw }, keys }
                                },
                                _ => {
                                    assert(false);
                                    x
                                },
                            }
                        }
                    },
                    (None, None) => {
                        let keys: Vec<TagKey> = Vec::new();
                        assert(keys_view(keys@) =~= Seq::<Seq<char>>::empty());
                        Scheme { location: Location::Absent, keys }
                    },
                }
            },
        };
        assert(result@ =~= sv);
        assert(warnings@ =~= old(warnings)@ + spec_cycleway_scheme(tags@, locale.driving_side, road_oneway).1);
        Ok(result)
    }
}

/// The lane builder of a bicycle way.
pub open spec fn spec_cycle_lane(way: Way) -> LaneBuilder {
    LaneBuilder {
        lane_type: Infer::Direct(LaneType::Travel),
        direction: Infer::Direct(way.direction),
        designated: Infer::Direct(Designated::Bicycle),
        width: match way.width {
            Some(w) => w,
            None => Width { min: Infer::Unset, target: Infer::Unset, max: Infer::Unset },
        },
        max_speed: Infer::Unset,
        access: AccessBuilder { foot: Infer::Unset, bicycle: Infer::Unset, motor: Infer::Unset },
        cycleway_variant: Some(way.variant),
    }
}

impl LaneBuilder {
    /// The lane builder of a bicycle way.
    pub fn cycle(way: Way) -> (r: Self)
        ensures
            r == spec_cycle_lane(way),
    {
        LaneBuilder {
            lane_type: Infer::Direct(LaneType::Travel),
            direction: Infer::Direct(way.direction),
            designated: Infer::Direct(Designated::Bicycle),
            width: match way.width {
                Some(w) => w,
                None => Width::unknown(),
            },
            max_speed: Infer::Unset,
            access: AccessBuilder { foot: Infer::Unset, bicycle: Infer::Unset, motor: Infer::Unset },
            cycleway_variant: Some(way.variant),
        }
    }
}

/// The lanes after adding the bicycle ways of a location, or `None` where a
/// shared backward way has no forward lane to share.
pub open spec fn spec_apply_cycleway(f: Seq<LaneBuilder>, b: Seq<LaneBuilder>, location: Location) -> Option<
    (Seq<LaneBuilder>, Seq<LaneBuilder>),
> {
    match location {
        Location::Absent => Some((f, b)),
        Location::Forward(way) => if way.variant != Variant::SharedMotor {
            Some((f.push(spec_cycle_lane(way)), b))
        } else {
            Some((f, b))
        },
        Location::Backward(way) => if way.variant != Variant::SharedMotor {
            Some((f, b.push(spec_cycle_lane(way))))
        } else if f.len() > 0 {
            let l = f.last();
            Some(
                (
                    f.update(
                        f.len() - 1,
                        LaneBuilder {
                            access: AccessBuilder {
                                bicycle: Infer::Direct(
                                    AccessAndDirection {
                                        access: Access::Yes,
                                        direction: Some(Direction::Both),
                                    },
                                ),
                                ..l.access
                            },
                            ..l
                        },
                    ),
                    b,
                ),
            )
        } else {
            None
        },
        Location::Both { forward, backward } => Some(
            (f.push(spec_cycle_lane(forward)), b.push(spec_cycle_lane(backward))),
        ),
    }
}

/// A way whose width, if any, has no bounds.
pub open spec fn way_width_ok(w: Way) -> bool {
    w.width matches Some(width) ==> width.min is Unset && width.max is Unset
}

/// The ways of a location have widths without bounds.
pub open spec fn location_widths_ok(l: Location) -> bool {
    match l {
        Location::Absent => true,
        Location::Forward(w) | Location::Backward(w) => way_width_ok(w),
        Location::Both { forward, backward } => way_width_ok(forward) && way_width_ok(backward),
    }
}

/// The ways that the cycleway scheme reads have widths without bounds.
pub proof fn lemma_scheme_widths(tags: Seq<PairView>, side: DrivingSide, oneway: Oneway)
    ensures
        spec_cycleway_scheme(tags, side, oneway).0 matches Ok(sv) ==> location_widths_ok(sv.location),
{
    reveal(spec_from_tags_cycleway);
    reveal(spec_from_tags_cycleway_both);
    reveal(spec_from_tags_cycleway_forward);
    reveal(spec_from_tags_cycleway_backward);
}

/// The lane of a way without width bounds can be built.
pub proof fn lemma_cycle_lane_wf(way: Way)
    requires
        way_width_ok(way),
    ensures
        lane_builder_wf(spec_cycle_lane(way)),
{
}

/// Bicycle lanes and tracks: reads the cycleway scheme and adds its ways on
/// the outside of the road.
pub fn bicycle(tags: &Tags, locale: &Locale, road: &mut RoadBuilder, warnings: &mut RoadWarnings) -> (r:
    Result<(), TagsToLanesMsg>)
    ensures
        ({
            let (res, w) = spec_cycleway_scheme(tags@, locale.driving_side, old(road).oneway);
            &&& final(warnings)@ == old(warnings)@ + w
            &&& match res {
                Err(e) => r matches Err(m) && m@ == e && final(road).forward_lanes@ == old(
                    road,
                ).forward_lanes@ && final(road).backward_lanes@ == old(road).backward_lanes@,
                Ok(sv) => match spec_apply_cycleway(
                    old(road).forward_lanes@,
                    old(road).backward_lanes@,
                    sv.location,
                ) {
                    Some((nf, nb)) => r is Ok && final(road).forward_lanes@ == nf
                        && final(road).backward_lanes@ == nb,
                    None => r matches Err(m) && m@ == msg(
                        IssueKind::Unsupported,
                        Some("no forward lanes for cycleway"@),
                        None,
                    ) && final(road).forward_lanes@ == old(road).forward_lanes@
                        && final(road).backward_lanes@ == old(road).backward_lanes@,
                },
            }
        }),
        final(road).highway == old(road).highway,
        final(road).oneway == old(road).oneway,
        old(road).wf() ==> final(road).wf(),
{
    let ghost f0 = road.forward_lanes@;
    let ghost b0 = road.backward_lanes@;
    proof {
        lemma_scheme_widths(tags@, locale.driving_side, road.oneway);
    }
    let scheme = match Scheme::from_tags(tags, locale, road.oneway, warnings) {
        Ok(s) => s,
        Err(e) => return Err(e),
    };
    match scheme.location {
        Location::Absent => {},
        Location::Forward(way) => {
            if way.variant != Variant::SharedMotor {
                road.push_forward_outside(LaneBuilder::cycle(way));
            }
        },
        Location::Backward(way) => {
            if way.variant != Variant::SharedMotor {
                road.push_backward_outside(LaneBuilder::cycle(way));
            } else {
                let n = road.forward_len();
                if n == 0 {
                    return Err(TagsToLanesMsg::unsupported_str("no forward lanes for cycleway"));
                }
                let mut l = road.forward_lanes[n - 1];
                l.access.bicycle = Infer::Direct(
                    AccessAndDirection { access: Access::Yes, direction: Some(Direction::Both) },
                );
                road.set_forward(n - 1, l);
            }
        },
        Location::Both { forward, backward } => {
            road.push_forward_outside(LaneBuilder::cycle(forward));
            road.push_backward_outside(LaneBuilder::cycle(backward));
        },
    }
    proof {
        kept_after_cycleway(f0, b0, road.forward_lanes@, road.backward_lanes@, scheme.location);
    }
    Ok(())
}

/// Adding the ways of a location keeps every lane buildable and every maximum
/// speed classed.
proof fn kept_after_cycleway(
    f0: Seq<LaneBuilder>,
    b0: Seq<LaneBuilder>,
    f1: Seq<LaneBuilder>,
    b1: Seq<LaneBuilder>,
    location: Location,
)
    requires
        location_widths_ok(location),
        spec_apply_cycleway(f0, b0, location) == Some((f1, b1)),
    ensures
        lanes_wf(f0) ==> lanes_wf(f1),
        lanes_wf(b0) ==> lanes_wf(b1),
{
    match location {
        Location::Absent => {},
        Location::Forward(way) => {
            if way.variant != Variant::SharedMotor && lanes_wf(f0) {
                lemma_wf_push(f0, spec_cycle_lane(way));
            }
        },
        Location::Backward(way) => {
            if way.variant != Variant::SharedMotor {
                if lanes_wf(b0) {
                    lemma_wf_push(b0, spec_cycle_lane(way));
                }
            } else if lanes_wf(f0) {
                assert(lane_builder_wf(f0[f0.len() - 1]));
                lemma_wf_update(f0, f0.len() - 1, f1[f0.len() - 1]);
            }
        },
        Location::Both { forward, backward } => {
            if lanes_wf(f0) {
                lemma_wf_push(f0, spec_cycle_lane(forward));
            }
            if lanes_wf(b0) {
                lemma_wf_push(b0, spec_cycle_lane(backward));
            }
        },
    }
}

} // verus!
