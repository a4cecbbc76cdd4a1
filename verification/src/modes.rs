//! Footways, shoulders, parking and paths, and the tags that are not supported.

use vstd::prelude::*;

use crate::builder::{
    lane_builder_wf, lanes_wf, lemma_wf_push, lemma_wf_update, AccessBuilder, LaneBuilder, LaneType, Oneway,
    RoadBuilder, Width,
};
use crate::bus::{msg_if, side_key, tags_under};
use crate::infer::{infer_value, spec_set, Infer};
use crate::locale::{in_country, netherlands_value, side_name, spec_has_shoulder, DrivingSide, Locale};
use crate::metric::Metre;
use crate::msg::{msg, IssueKind, MsgView, RoadWarnings, TagsToLanesMsg};
use crate::road::{AccessAndDirection, Designated, Direction};
use crate::schemes::Access;
use crate::tags::{lookup, str_set, tags_map, PairView, TagKey, Tags};
use crate::text::str_eq;

verus! {

/// Whether a road is one way, from `oneway=*` and `junction=roundabout`, or
/// the message about tags that do not say.
pub open spec fn spec_oneway(tags: Seq<PairView>) -> Result<Oneway, MsgView> {
    let roundabout = lookup(tags, "junction"@) == Some("roundabout"@);
    match lookup(tags, "oneway"@) {
        Some(v) => if v == "yes"@ {
            Ok(Oneway::Yes)
        } else if v == "no"@ {
            if roundabout {
                Err(msg(IssueKind::Ambiguous, None, tags_under(tags, set!["oneway"@, "junction"@])))
            } else {
                Ok(Oneway::No)
            }
        } else {
            Err(msg(IssueKind::Unimplemented, None, Some(map!["oneway"@ => v])))
        },
        None => Ok(
            if roundabout {
                Oneway::Yes
            } else {
                Oneway::No
            },
        ),
    }
}

impl Oneway {
    /// Reads whether the road is one way: `oneway=yes`, or a roundabout.
    pub fn from_tags(tags: &Tags, _locale: &Locale, _warnings: &mut RoadWarnings) -> (r: Result<
        Self,
        TagsToLanesMsg,
    >)
        ensures
            match (r, spec_oneway(tags@)) {
                (Ok(a), Ok(b)) => a == b,
                (Err(m), Err(e)) => m@ == e,
                _ => false,
            },
            final(_warnings)@ == old(_warnings)@,
    {
        proof {
            reveal_strlit("yes");
            reveal_strlit("no");
        }
        let roundabout = tags.is("junction", "roundabout");
        match tags.get("oneway") {
            Some(v) => if str_eq(v, "yes") {
                Ok(Oneway::Yes)
            } else if str_eq(v, "no") {
                if roundabout {
                    let keys = vec!["oneway", "junction"];
                    assert(keys@ == seq!["oneway", "junction"]);
                    proof {
                        crate::tags::lemma_str_set2("oneway", "junction");
                    }
                    Err(TagsToLanesMsg::ambiguous_tags(tags.subset(keys.as_slice())))
                } else {
                    Ok(Oneway::No)
                }
            } else {
                Err(TagsToLanesMsg::unimplemented_tag("oneway", v))
            },
            None => Ok(Oneway::from_bool(roundabout)),
        }
    }
}

/// The keys of transport mode restrictions,
/// <https://wiki.openstreetmap.org/wiki/Key:access#Transport_mode_restrictions>.
pub open spec fn access_keys() -> Seq<&'static str> {
    seq![
        "access",
        "dog",
        "ski",
        "inline_skates",
        "horse",
        "vehicle",
        "bicycle",
        "electric_bicycle",
        "carriage",
        "hand_cart",
        "quadracycle",
        "trailer",
        "caravan",
        "motor_vehicle",
        "motorcycle",
        "moped",
        "mofa",
        "motorcar",
        "motorhome",
        "tourist_bus",
        "coach",
        "goods",
        "hgv",
        "hgv_articulated",
        "bdouble",
        "agricultural",
        "golf_cart",
        "atv",
        "snowmobile",
        "psv",
        "bus",
        "taxi",
        "minibus",
        "share_taxi",
        "hov",
        "car_sharing",
        "emergency",
        "hazmat",
        "disabled",
        "roadtrain",
        "hgv_caravan",
        "lhv",
        "tank",
    ]
}

/// Whether a transport mode restriction is tagged.
pub open spec fn has_access_tag(tags: Seq<PairView>) -> bool {
    exists|i: int| 0 <= i < access_keys().len() && lookup(tags, #[trigger] access_keys()[i]@) is Some
}

/// Tags that are not supported: transport mode restrictions are warned about,
/// and a reversible or reverse one way road is an error.
pub fn unsupported(tags: &Tags, _locale: &Locale, warnings: &mut RoadWarnings) -> (r: Result<
    (),
    TagsToLanesMsg,
>)
    ensures
        final(warnings)@ == old(warnings)@ + msg_if(
            has_access_tag(tags@),
            msg(
                IssueKind::Unimplemented,
                Some("access"@),
                tags_under(tags@, str_set(access_keys())),
            ),
        ),
        match lookup(tags@, "oneway"@) {
            Some(v) => if v == "reversible"@ || v == "-1"@ {
                r matches Err(m) && m@ == msg(IssueKind::Unimplemented, None, Some(map!["oneway"@ => v]))
            } else {
                r is Ok
            },
            None => r is Ok,
        },
{
    let keys = vec![
        "access",
        "dog",
        "ski",
        "inline_skates",
        "horse",
        "vehicle",
        "bicycle",
        "electric_bicycle",
        "carriage",
        "hand_cart",
        "quadracycle",
        "trailer",
        "caravan",
        "motor_vehicle",
        "motorcycle",
        "moped",
        "mofa",
        "motorcar",
        "motorhome",
        "tourist_bus",
        "coach",
        "goods",
        "hgv",
        "hgv_articulated",
        "bdouble",
        "agricultural",
        "golf_cart",
        "atv",
        "snowmobile",
        "psv",
        "bus",
        "taxi",
        "minibus",
        "share_taxi",
        "hov",
        "car_sharing",
        "emergency",
        "hazmat",
        "disabled",
        "roadtrain",
        "hgv_caravan",
        "lhv",
        "tank",
    ];
    assert(keys@ == access_keys());
    let mut any = false;
    let mut i: usize = 0;
    while i < keys.len()
        invariant
            keys@ == access_keys(),
            i <= keys@.len(),
            any == exists|j: int| 0 <= j < i && lookup(tags@, #[trigger] access_keys()[j]@) is Some,
        decreases keys@.len() - i,
    {
        if tags.get(keys[i]).is_some() {
            any = true;
        }
        i = i + 1;
    }
    if any {
        warnings.push(TagsToLanesMsg::unimplemented("access", tags.subset(keys.as_slice())));
    }
    assert(warnings@ =~= old(warnings)@ + msg_if(
        has_access_tag(tags@),
        msg(IssueKind::Unimplemented, Some("access"@), tags_under(tags@, str_set(access_keys()))),
    ));
    proof {
        reveal_strlit("reversible");
        reveal_strlit("-1");
    }
    match tags.get("oneway") {
        Some(v) => if str_eq(v, "reversible") || str_eq(v, "-1") {
            Err(TagsToLanesMsg::unimplemented_tag("oneway", v))
        } else {
            Ok(())
        },
        None => Ok(()),
    }
}

/// A sidewalk on one side.
#[derive(Clone, Copy, Debug, PartialEq, Eq, Structural)]
pub enum Sidewalk {
    /// Not tagged: to be inferred.
    Untagged,
    No,
    Yes,
    Separate,
}

/// The message about sidewalk tags that do not fit together.
pub open spec fn sidewalk_error(tags: Seq<PairView>, side: DrivingSide) -> MsgView {
    msg(
        IssueKind::Unsupported,
        None,
        tags_under(
            tags,
            set!["sidewalk"@, side_key("sidewalk"@, side), side_key("sidewalk"@, side.spec_opposite())],
        ),
    )
}

/// The sidewalks, forward and backward, that the sidewalk tags give, or the
/// message about them; and the warnings.
pub open spec fn spec_sidewalk(tags: Seq<PairView>, side: DrivingSide) -> (
    Result<(Sidewalk, Sidewalk), MsgView>,
    Seq<MsgView>,
) {
    let err = sidewalk_error(tags, side);
    let fname = side_name(side);
    let bname = side_name(side.spec_opposite());
    let f = lookup(tags, side_key("sidewalk"@, side));
    let b = lookup(tags, side_key("sidewalk"@, side.spec_opposite()));
    match (lookup(tags, "sidewalk"@), lookup(tags, "sidewalk:both"@)) {
        (Some(v), None) => if f is Some || b is Some {
            (Err(err), Seq::empty())
        } else if v == "none"@ {
            (Err(msg(IssueKind::Deprecated, None, Some(map!["sidewalk"@ => "none"@]))), Seq::empty())
        } else if v == "no"@ {
            (Ok((Sidewalk::No, Sidewalk::No)), Seq::empty())
        } else if v == "yes"@ {
            (
                Ok((Sidewalk::Yes, Sidewalk::Yes)),
                seq![
                    msg(
                        IssueKind::Ambiguous,
                        None,
                        tags_under(tags, set!["sidewalk"@, "sidewalk:both"@]),
                    ),
                ],
            )
        } else if v == "both"@ {
            (Ok((Sidewalk::Yes, Sidewalk::Yes)), Seq::empty())
        } else if v == fname {
            (Ok((Sidewalk::Yes, Sidewalk::No)), Seq::empty())
        } else if v == bname {
            (Ok((Sidewalk::No, Sidewalk::Yes)), Seq::empty())
        } else if v == "separate"@ {
            (Ok((Sidewalk::Separate, Sidewalk::Separate)), Seq::empty())
        } else {
            (Err(err), Seq::empty())
        },
        (None, Some(v)) => if f is Some || b is Some {
            (Err(err), Seq::empty())
        } else if v == "no"@ {
            (Ok((Sidewalk::No, Sidewalk::No)), Seq::empty())
        } else if v == "yes"@ {
            (Ok((Sidewalk::Yes, Sidewalk::Yes)), Seq::empty())
        } else if v == "separate"@ {
            (Ok((Sidewalk::Separate, Sidewalk::Separate)), Seq::empty())
        } else {
            (Err(err), Seq::empty())
        },
        (None, None) => (
            match (f, b) {
                (None, None) => Ok((Sidewalk::Untagged, Sidewalk::Untagged)),
                (Some(x), Some(y)) => if x == "yes"@ && y == "yes"@ {
                    Ok((Sidewalk::Yes, Sidewalk::Yes))
                } else if x == "yes"@ && y == "no"@ {
                    Ok((Sidewalk::Yes, Sidewalk::No))
                } else if x == "no"@ && y == "yes"@ {
                    Ok((Sidewalk::No, Sidewalk::Yes))
                } else {
                    Err(err)
                },
                (Some(x), None) => if x == "yes"@ {
                    Ok((Sidewalk::Yes, Sidewalk::No))
                } else if x == "separate"@ {
                    Ok((Sidewalk::Separate, Sidewalk::No))
                } else {
                    Err(err)
                },
                (None, Some(y)) => if y == "yes"@ {
                    Ok((Sidewalk::No, Sidewalk::Yes))
                } else if y == "separate"@ {
                    Ok((Sidewalk::No, Sidewalk::Separate))
                } else {
                    Err(err)
                },
            },
            Seq::empty(),
        ),
        (Some(_), Some(_)) => (Err(err), Seq::empty()),
    }
}

impl Sidewalk {
    /// Reads the sidewalks, forward and backward, from `sidewalk=*`,
    /// `sidewalk:both=*` and the sided `sidewalk:<side>=*`; a sided key implies
    /// no sidewalk on the other side. Tags that do not fit together are an error.
    pub fn from_tags(tags: &Tags, locale: &Locale, warnings: &mut RoadWarnings) -> (r: Result<
        (Self, Self),
        TagsToLanesMsg,
    >)
        ensures
            ({
                let (res, w) = spec_sidewalk(tags@, locale.driving_side);
                &&& match (r, res) {
                    (Ok(a), Ok(b)) => a == b,
                    (Err(m), Err(e)) => m@ == e,
                    _ => false,
                }
                &&& final(warnings)@ == old(warnings)@ + w
            }),
    {
        proof {
            reveal_strlit("none");
            reveal_strlit("no");
            reveal_strlit("yes");
            reveal_strlit("both");
            reveal_strlit("separate");
        }
        let fkey = TagKey::from_ref("sidewalk").join(locale.driving_side.tag().as_str());
        let bkey = TagKey::from_ref("sidewalk").join(locale.driving_side.opposite().tag().as_str());
        let fk: &str = fkey.as_str();
        let bk: &str = bkey.as_str();
        let fside = locale.driving_side.to_string();
        let bside = locale.driving_side.opposite().to_string();
        let keys = vec!["sidewalk", fk, bk];
        assert(keys@ == seq!["sidewalk", fk, bk]);
        proof {
            crate::tags::lemma_str_set3("sidewalk", fk, bk);
        }
        let f = tags.get(fk);
        let b = tags.get(bk);
        assert(warnings@ =~= old(warnings)@ + Seq::<MsgView>::empty());
        match (tags.get("sidewalk"), tags.get("sidewalk:both")) {
            (Some(v), None) => {
                if f.is_some() || b.is_some() {
                    return Err(TagsToLanesMsg::unsupported_tags(tags.subset(keys.as_slice())));
                }
                if str_eq(v, "none") {
                    Err(TagsToLanesMsg::deprecated_tag("sidewalk", "none"))
                } else if str_eq(v, "no") {
                    Ok((Sidewalk::No, Sidewalk::No))
                } else if str_eq(v, "yes") {
                    let ks = vec!["sidewalk", "sidewalk:both"];
                    assert(ks@ == seq!["sidewalk", "sidewalk:both"]);
                    proof {
                        crate::tags::lemma_str_set2("sidewalk", "sidewalk:both");
                    }
                    warnings.push(TagsToLanesMsg::ambiguous_tags(tags.subset(ks.as_slice())));
                    assert(warnings@ =~= old(warnings)@ + spec_sidewalk(tags@, locale.driving_side).1);
                    Ok((Sidewalk::Yes, Sidewalk::Yes))
                } else if str_eq(v, "both") {
                    Ok((Sidewalk::Yes, Sidewalk::Yes))
                } else if str_eq(v, fside.as_str()) {
                    Ok((Sidewalk::Yes, Sidewalk::No))
                } else if str_eq(v, bside.as_str()) {
                    Ok((Sidewalk::No, Sidewalk::Yes))
                } else if str_eq(v, "separate") {
                    Ok((Sidewalk::Separate, Sidewalk::Separate))
                } else {
                    Err(TagsToLanesMsg::unsupported_tags(tags.subset(keys.as_slice())))
                }
            },
            (None, Some(v)) => {
                if f.is_some() || b.is_some() {
                    return Err(TagsToLanesMsg::unsupported_tags(tags.subset(keys.as_slice())));
                }
                if str_eq(v, "no") {
                    Ok((Sidewalk::No, Sidewalk::No))
                } else if str_eq(v, "yes") {
                    Ok((Sidewalk::Yes, Sidewalk::Yes))
                } else if str_eq(v, "separate") {
                    Ok((Sidewalk::Separate, Sidewalk::Separate))
                } else {
                    Err(TagsToLanesMsg::unsupported_tags(tags.subset(keys.as_slice())))
                }
            },
            (None, None) => match (f, b) {
                (None, None) => Ok((Sidewalk::Untagged, Sidewalk::Untagged)),
                (Some(x), Some(y)) => {
                    if str_eq(x, "yes") && str_eq(y, "yes") {
                        Ok((Sidewalk::Yes, Sidewalk::Yes))
                    } else if str_eq(x, "yes") && str_eq(y, "no") {
                        Ok((Sidewalk::Yes, Sidewalk::No))
                    } else if str_eq(x, "no") && str_eq(y, "yes") {
                        Ok((Sidewalk::No, Sidewalk::Yes))
                    } else {
                        Err(TagsToLanesMsg::unsupported_tags(tags.subset(keys.as_slice())))
                    }
                },
                (Some(x), None) => {
                    if str_eq(x, "yes") {
                        Ok((Sidewalk::Yes, Sidewalk::No))
                    } else if str_eq(x, "separate") {
                        Ok((Sidewalk::Separate, Sidewalk::No))
                    } else {
                        Err(TagsToLanesMsg::unsupported_tags(tags.subset(keys.as_slice())))
                    }
                },
                (None, Some(y)) => {
                    if str_eq(y, "yes") {
                        Ok((Sidewalk::No, Sidewalk::Yes))
                    } else if str_eq(y, "separate") {
                        Ok((Sidewalk::No, Sidewalk::Separate))
                    } else {
                        Err(TagsToLanesMsg::unsupported_tags(tags.subset(keys.as_slice())))
                    }
                },
            },
            (Some(_), Some(_)) => Err(TagsToLanesMsg::unsupported_tags(tags.subset(keys.as_slice()))),
        }
    }
}

/// A shoulder on one side.
#[derive(Clone, Copy, Debug, PartialEq, Eq, Structural)]
pub enum Shoulder {
    /// Not tagged: to be inferred.
    Untagged,
    Yes,
    No,
}

/// The shoulders, forward and backward, that `shoulder=*` gives, or the
/// message about an unknown value.
pub open spec fn spec_shoulder(tags: Seq<PairView>, side: DrivingSide) -> Result<(Shoulder, Shoulder), MsgView> {
    match lookup(tags, "shoulder"@) {
        None => Ok((Shoulder::Untagged, Shoulder::Untagged)),
        Some(v) => if v == "no"@ {
            Ok((Shoulder::No, Shoulder::No))
        } else if v == "yes"@ || v == "both"@ {
            Ok((Shoulder::Yes, Shoulder::Yes))
        } else if v == side_name(side) {
            Ok((Shoulder::Yes, Shoulder::No))
        } else if v == side_name(side.spec_opposite()) {
            Ok((Shoulder::No, Shoulder::Yes))
        } else {
            Err(msg(IssueKind::Unsupported, None, Some(map!["shoulder"@ => v])))
        },
    }
}

impl Shoulder {
    /// Reads the shoulders, forward and backward, from `shoulder=*`.
    pub fn from_tags(tags: &Tags, locale: &Locale, _warnings: &mut RoadWarnings) -> (r: Result<
        (Self, Self),
        TagsToLanesMsg,
    >)
        ensures
            match (r, spec_shoulder(tags@, locale.driving_side)) {
                (Ok(a), Ok(b)) => a == b,
                (Err(m), Err(e)) => m@ == e,
                _ => false,
            },
            final(_warnings)@ == old(_warnings)@,
    {
        proof {
            reveal_strlit("no");
            reveal_strlit("yes");
            reveal_strlit("both");
        }
        let fside = locale.driving_side.to_string();
        let bside = locale.driving_side.opposite().to_string();
        match tags.get("shoulder") {
            None => Ok((Shoulder::Untagged, Shoulder::Untagged)),
            Some(v) => if str_eq(v, "no") {
                Ok((Shoulder::No, Shoulder::No))
            } else if str_eq(v, "yes") || str_eq(v, "both") {
                Ok((Shoulder::Yes, Shoulder::Yes))
            } else if str_eq(v, fside.as_str()) {
                Ok((Shoulder::Yes, Shoulder::No))
            } else if str_eq(v, bside.as_str()) {
                Ok((Shoulder::No, Shoulder::Yes))
            } else {
                Err(TagsToLanesMsg::unsupported_tag("shoulder", v))
            },
        }
    }
}

/// The lane builder of a shoulder: 0.6 m wide by default in the Netherlands.
pub open spec fn spec_shoulder_lane(country_nl: bool) -> LaneBuilder {
    LaneBuilder {
        lane_type: Infer::Direct(LaneType::Shoulder),
        direction: Infer::Unset,
        designated: Infer::Unset,
        width: Width {
            min: Infer::Unset,
            target: if country_nl {
                Infer::Default(Metre { millimetres: 600 })
            } else {
                Infer::Unset
            },
            max: Infer::Unset,
        },
        max_speed: Infer::Unset,
        access: AccessBuilder { foot: Infer::Unset, bicycle: Infer::Unset, motor: Infer::Unset },
        cycleway_variant: None,
    }
}

/// The lane builder of a sidewalk.
pub open spec fn spec_foot_lane() -> LaneBuilder {
    LaneBuilder {
        lane_type: Infer::Direct(LaneType::Travel),
        direction: Infer::Unset,
        designated: Infer::Direct(Designated::Foot),
        width: Width { min: Infer::Unset, target: Infer::Unset, max: Infer::Unset },
        max_speed: Infer::Unset,
        access: AccessBuilder { foot: Infer::Unset, bicycle: Infer::Unset, motor: Infer::Unset },
        cycleway_variant: None,
    }
}

/// The lane builder of a parking lane.
pub open spec fn spec_parking_lane(direction: Direction) -> LaneBuilder {
    LaneBuilder {
        lane_type: Infer::Direct(LaneType::Parking),
        direction: Infer::Direct(direction),
        designated: Infer::Direct(Designated::Motor),
        width: Width { min: Infer::Unset, target: Infer::Unset, max: Infer::Unset },
        max_speed: Infer::Unset,
        access: AccessBuilder { foot: Infer::Unset, bicycle: Infer::Unset, motor: Infer::Unset },
        cycleway_variant: None,
    }
}

impl LaneBuilder {
    /// A shoulder.
    pub fn shoulder(locale: &Locale) -> (r: Self)
        ensures
            r == spec_shoulder_lane(in_country(locale.country, netherlands_value())),
    {
        let mut shoulder = LaneBuilder::empty();
        shoulder.lane_type = Infer::Direct(LaneType::Shoulder);
        let nl = match &locale.country {
            Some(c) => c.value == 528,
            None => false,
        };
        if nl {
            shoulder.width = Width {
                min: Infer::Unset,
                target: Infer::Default(Metre::from_millimetres(600)),
                max: Infer::Unset,
            };
        }
        shoulder
    }

    /// A sidewalk.
    pub fn foot(_locale: &Locale) -> (r: Self)
        ensures
            r == spec_foot_lane(),
    {
        let mut foot = LaneBuilder::empty();
        foot.lane_type = Infer::Direct(LaneType::Travel);
        foot.designated = Infer::Direct(Designated::Foot);
        foot
    }

    /// A forward parking lane.
    pub fn parking_forward(_locale: &Locale) -> (r: Self)
        ensures
            r == spec_parking_lane(Direction::Forward),
    {
        let mut l = LaneBuilder::empty();
        l.lane_type = Infer::Direct(LaneType::Parking);
        l.direction = Infer::Direct(Direction::Forward);
        l.designated = Infer::Direct(Designated::Motor);
        l
    }

    /// A backward parking lane.
    pub fn parking_backward(_locale: &Locale) -> (r: Self)
        ensures
            r == spec_parking_lane(Direction::Backward),
    {
        let mut l = LaneBuilder::empty();
        l.lane_type = Infer::Direct(LaneType::Parking);
        l.direction = Infer::Direct(Direction::Backward);
        l.designated = Infer::Direct(Designated::Motor);
        l
    }
}

/// Pushing a buildable lane keeps every lane buildable.
pub proof fn lemma_push_kept(s: Seq<LaneBuilder>, l: LaneBuilder)
    requires
        lane_builder_wf(l),
    ensures
        lanes_wf(s) ==> lanes_wf(s.push(l)),
{
    if lanes_wf(s) {
        lemma_wf_push(s, l);
    }
}

/// The lanes of one side after adding its sidewalk and shoulder, or the
/// message about them.
pub open spec fn spec_add_sidewalk_shoulder(
    lanes: Seq<LaneBuilder>,
    sidewalk: Sidewalk,
    shoulder: Shoulder,
    forward: bool,
    tags: Seq<PairView>,
    shoulder_by_default: bool,
    oneway: Oneway,
    country_nl: bool,
) -> Result<Seq<LaneBuilder>, MsgView> {
    match (sidewalk, shoulder) {
        (Sidewalk::Separate, _) => Err(msg(IssueKind::Unsupported, None, Some(map!["sidewalk"@ => "separate"@]))),
        (Sidewalk::Yes, Shoulder::Yes) => Err(
            msg(
                IssueKind::Unsupported,
                Some("shoulder and sidewalk on same side"@),
                tags_under(tags, set!["sidewalk"@, "shoulder"@]),
            ),
        ),
        (Sidewalk::Yes, _) => Ok(lanes.push(spec_foot_lane())),
        (_, Shoulder::Yes) => Ok(lanes.push(spec_shoulder_lane(country_nl))),
        (_, Shoulder::No) => Ok(lanes),
        (_, Shoulder::Untagged) => {
            let has_bicycle_lane = lanes.len() > 0 && infer_value(lanes.last().designated) == Some(
                Designated::Bicycle,
            );
            if !has_bicycle_lane && shoulder_by_default && (forward || oneway == Oneway::No) && lookup(
                tags,
                "parking:condition:both"@,
            ) != Some("no_stopping"@) {
                Ok(lanes.push(spec_shoulder_lane(country_nl)))
            } else {
                Ok(lanes)
            }
        },
    }
}

impl RoadBuilder {
    /// Adds the sidewalk and the shoulder of one side. Without tags, a shoulder
    /// is assumed where the highway has shoulders by default, unless a bicycle
    /// lane stands there already.
    pub fn add_sidewalk_shoulder(
        &mut self,
        sidewalk: Sidewalk,
        shoulder: Shoulder,
        forward: bool,
        tags: &Tags,
        locale: &Locale,
    ) -> (r: Result<(), TagsToLanesMsg>)
        ensures
            final(self).highway == old(self).highway,
            final(self).oneway == old(self).oneway,
            old(self).wf() ==> final(self).wf(),
            ({
                let side = if forward {
                    old(self).forward_lanes@
                } else {
                    old(self).backward_lanes@
                };
                let res = spec_add_sidewalk_shoulder(
                    side,
                    sidewalk,
                    shoulder,
                    forward,
                    tags@,
                    spec_has_shoulder(old(self).highway.spec_type()),
                    old(self).oneway,
                    in_country(locale.country, netherlands_value()),
                );
                &&& match (r, res) {
                    (Ok(_), Ok(_)) => true,
                    (Err(m), Err(e)) => m@ == e,
                    _ => false,
                }
                &&& forward ==> final(self).backward_lanes@ == old(self).backward_lanes@
                &&& !forward ==> final(self).forward_lanes@ == old(self).forward_lanes@
                &&& match res {
                    Ok(new_side) => if forward {
                        final(self).forward_lanes@ == new_side
                    } else {
                        final(self).backward_lanes@ == new_side
                    },
                    Err(_) => final(self).forward_lanes@ == old(self).forward_lanes@
                        && final(self).backward_lanes@ == old(self).backward_lanes@,
                }
            }),
    {
        proof {
            reveal_strlit("no_stopping");
            reveal_strlit("separate");
            lemma_push_kept(self.forward_lanes@, spec_foot_lane());
            lemma_push_kept(self.backward_lanes@, spec_foot_lane());
            lemma_push_kept(self.forward_lanes@, spec_shoulder_lane(in_country(locale.country, netherlands_value())));
            lemma_push_kept(self.backward_lanes@, spec_shoulder_lane(in_country(locale.country, netherlands_value())));
        }
        match (sidewalk, shoulder) {
            (Sidewalk::Separate, _) => Err(TagsToLanesMsg::unsupported_tag("sidewalk", "separate")),
            (Sidewalk::Yes, Shoulder::Yes) => {
                let keys = vec!["sidewalk", "shoulder"];
                assert(keys@ == seq!["sidewalk", "shoulder"]);
                proof {
                    crate::tags::lemma_str_set2("sidewalk", "shoulder");
                }
                Err(
                    TagsToLanesMsg::unsupported(
                        "shoulder and sidewalk on same side",
                        tags.subset(keys.as_slice()),
                    ),
                )
            },
            (Sidewalk::Yes, _) => {
                self.push_outside(LaneBuilder::foot(locale), forward);
                Ok(())
            },
            (_, Shoulder::Yes) => {
                self.push_outside(LaneBuilder::shoulder(locale), forward);
                Ok(())
            },
            (_, Shoulder::No) => Ok(()),
            (_, Shoulder::Untagged) => {
                let has_bicycle_lane = match self.lane_outside(forward) {
                    Some(l) => l.is_bicycle(),
                    None => false,
                };
                if !has_bicycle_lane && locale.has_shoulder(self.highway.highway_type()) && (forward
                    || !self.oneway.is_yes()) && !tags.is("parking:condition:both", "no_stopping") {
                    self.push_outside(LaneBuilder::shoulder(locale), forward);
                }
                Ok(())
            },
        }
    }
}

/// Sidewalks and shoulders on each side of the road.
pub fn foot_and_shoulder(tags: &Tags, locale: &Locale, road: &mut RoadBuilder, warnings: &mut RoadWarnings) -> (r:
    Result<(), TagsToLanesMsg>)
    ensures
        final(road).highway == old(road).highway,
        final(road).oneway == old(road).oneway,
        old(road).wf() ==> final(road).wf(),
        ({
            let (sw, w) = spec_sidewalk(tags@, locale.driving_side);
            let sh = spec_shoulder(tags@, locale.driving_side);
            let nl = in_country(locale.country, netherlands_value());
            let by_default = spec_has_shoulder(old(road).highway.spec_type());
            &&& final(warnings)@ == old(warnings)@ + w
            &&& match (sw, sh) {
                (Err(e), _) => r matches Err(m) && m@ == e,
                (Ok(_), Err(e)) => r matches Err(m) && m@ == e,
                (Ok((swf, swb)), Ok((shf, shb))) => match spec_add_sidewalk_shoulder(
                    old(road).forward_lanes@,
                    swf,
                    shf,
                    true,
                    tags@,
                    by_default,
                    old(road).oneway,
                    nl,
                ) {
                    Err(e) => r matches Err(m) && m@ == e,
                    Ok(nf) => match spec_add_sidewalk_shoulder(
                        old(road).backward_lanes@,
                        swb,
                        shb,
                        false,
                        tags@,
                        by_default,
                        old(road).oneway,
                        nl,
                    ) {
                        Err(e) => r matches Err(m) && m@ == e,
                        Ok(nb) => r is Ok && final(road).forward_lanes@ == nf
                            && final(road).backward_lanes@ == nb,
                    },
                },
            }
        }),
{
    let sidewalk = match Sidewalk::from_tags(tags, locale, warnings) {
        Ok(s) => s,
        Err(e) => return Err(e),
    };
    let shoulder = match Shoulder::from_tags(tags, locale, warnings) {
        Ok(s) => s,
        Err(e) => return Err(e),
    };
    match road.add_sidewalk_shoulder(sidewalk.0, shoulder.0, true, tags, locale) {
        Ok(()) => {},
        Err(e) => return Err(e),
    }
    road.add_sidewalk_shoulder(sidewalk.1, shoulder.1, false, tags, locale)
}

/// Whether a parking lane is tagged under `key`.
pub open spec fn is_parking(tags: Seq<PairView>, key: Seq<char>) -> bool {
    let v = lookup(tags, key);
    v == Some("parallel"@) || v == Some("diagonal"@) || v == Some("perpendicular"@)
}

/// Parking lanes, from `parking:lane:{right,left,both}=*`; right and left are
/// taken as forward and backward.
pub fn parking(tags: &Tags, locale: &Locale, road: &mut RoadBuilder) -> (r: Result<(), TagsToLanesMsg>)
    ensures
        r is Ok,
        final(road).highway == old(road).highway,
        final(road).oneway == old(road).oneway,
        old(road).wf() ==> final(road).wf(),

        final(road).forward_lanes@ == if is_parking(tags@, "parking:lane:right"@) || is_parking(
            tags@,
            "parking:lane:both"@,
        ) {
            old(road).forward_lanes@.push(spec_parking_lane(Direction::Forward))
        } else {
            old(road).forward_lanes@
        },
        final(road).backward_lanes@ == if is_parking(tags@, "parking:lane:left"@) || is_parking(
            tags@,
            "parking:lane:both"@,
        ) {
            old(road).backward_lanes@.push(spec_parking_lane(Direction::Backward))
        } else {
            old(road).backward_lanes@
        },
{
    let has_parking = vec!["parallel", "diagonal", "perpendicular"];
    assert(has_parking@ == seq!["parallel", "diagonal", "perpendicular"]);
    let fwd = tags.is_any("parking:lane:right", has_parking.as_slice()) || tags.is_any(
        "parking:lane:both",
        has_parking.as_slice(),
    );
    let back = tags.is_any("parking:lane:left", has_parking.as_slice()) || tags.is_any(
        "parking:lane:both",
        has_parking.as_slice(),
    );
    proof {
        assert(fwd == (is_parking(tags@, "parking:lane:right"@) || is_parking(tags@, "parking:lane:both"@))) by {
            assert(has_parking@[0]@ == "parallel"@);
            assert(has_parking@[1]@ == "diagonal"@);
            assert(has_parking@[2]@ == "perpendicular"@);
        }
        assert(back == (is_parking(tags@, "parking:lane:left"@) || is_parking(tags@, "parking:lane:both"@))) by {
            assert(has_parking@[0]@ == "parallel"@);
            assert(has_parking@[1]@ == "diagonal"@);
            assert(has_parking@[2]@ == "perpendicular"@);
        }
    }
    proof {
        lemma_push_kept(road.forward_lanes@, spec_parking_lane(Direction::Forward));
        lemma_push_kept(road.backward_lanes@, spec_parking_lane(Direction::Backward));
    }
    if fwd {
        road.push_forward_outside(LaneBuilder::parking_forward(locale));
    }
    if back {
        road.push_backward_outside(LaneBuilder::parking_backward(locale));
    }
    Ok(())
}

/// The path lane: designated for pedestrians, both ways, with designated foot
/// access and no motor access.
pub open spec fn spec_path_lane(l: LaneBuilder) -> Option<LaneBuilder> {
    let (designated, ok1) = spec_set(l.designated, Infer::Direct(Designated::Foot));
    let (direction, ok2) = spec_set(l.direction, Infer::Direct(Direction::Both));
    let (foot, ok3) = spec_set(
        l.access.foot,
        Infer::Direct(AccessAndDirection { access: Access::Designated, direction: None }),
    );
    let (motor, ok4) = spec_set(
        l.access.motor,
        Infer::Direct(AccessAndDirection { access: Access::No, direction: None }),
    );
    if ok1 && ok2 && ok3 && ok4 {
        Some(
            LaneBuilder {
                designated,
                direction,
                access: AccessBuilder { foot, motor, ..l.access },
                ..l
            },
        )
    } else {
        None
    }
}

/// Whether the way is steps or a path.
pub open spec fn is_steps_or_path(tags: Seq<PairView>) -> bool {
    lookup(tags, "highway"@) == Some("steps"@) || lookup(tags, "highway"@) == Some("path"@)
}

/// Steps and paths: their one lane is for pedestrians in both directions.
/// Steps are warned about, as they become a sidewalk. A conflict with what is
/// known of the lane is an error, and leaves the road unchanged.
pub fn non_motorized(tags: &Tags, _locale: &Locale, road: &mut RoadBuilder, warnings: &mut RoadWarnings) -> (r:
    Result<(), TagsToLanesMsg>)
    requires
        is_steps_or_path(tags@) ==> old(road).forward_lanes@.len() == 1 && old(
            road,
        ).backward_lanes@.len() == 0,
    ensures
        final(road).highway == old(road).highway,
        final(road).oneway == old(road).oneway,
        final(road).backward_lanes@ == old(road).backward_lanes@,
        old(road).wf() ==> final(road).wf(),

        !is_steps_or_path(tags@) ==> r is Ok && final(road).forward_lanes@ == old(road).forward_lanes@
            && final(warnings)@ == old(warnings)@,
        is_steps_or_path(tags@) ==> match spec_path_lane(old(road).forward_lanes@[0]) {
            Some(l) => r is Ok && final(road).forward_lanes@ == seq![l] && final(warnings)@ == old(
                warnings,
            )@ + msg_if(
                lookup(tags@, "highway"@) == Some("steps"@),
                msg(
                    IssueKind::Unimplemented,
                    Some("steps becomes sidewalk"@),
                    tags_under(tags@, set!["highway"@]),
                ),
            ),
            None => r matches Err(m) && m@ == msg(IssueKind::Internal, Some("infer conflict"@), None)
                && final(road).forward_lanes@ == old(road).forward_lanes@ && final(warnings)@ == old(
                warnings,
            )@,
        },
{
    proof {
        reveal_strlit("steps");
        reveal_strlit("path");
    }
    let (steps, path) = match tags.get("highway") {
        Some(v) => (str_eq(v, "steps"), str_eq(v, "path")),
        None => (false, false),
    };
    if steps || path {
        let mut lane = road.forward_lanes[0];
        let ok1 = lane.designated.set(Infer::Direct(Designated::Foot)).is_ok();
        let ok2 = lane.direction.set(Infer::Direct(Direction::Both)).is_ok();
        let ok3 = lane.access.foot.set(
            Infer::Direct(AccessAndDirection { access: Access::Designated, direction: None }),
        ).is_ok();
        let ok4 = lane.access.motor.set(
            Infer::Direct(AccessAndDirection { access: Access::No, direction: None }),
        ).is_ok();
        if !(ok1 && ok2 && ok3 && ok4) {
            return Err(TagsToLanesMsg::internal("infer conflict"));
        }
        let ghost f0 = road.forward_lanes@;
        road.set_forward(0, lane);
        assert(road.forward_lanes@ =~= seq![lane]);
        proof {
            if lanes_wf(f0) {
                assert(lane_builder_wf(f0[0]));
                lemma_wf_update(f0, 0, lane);
            }
        }
        if steps {
            let keys = vec!["highway"];
            assert(keys@ == seq!["highway"]);
            proof {
                crate::tags::lemma_str_set1("highway");
            }
            warnings.push(
                TagsToLanesMsg::unimplemented("steps becomes sidewalk", tags.subset(keys.as_slice())),
            );
        }
        assert(warnings@ =~= old(warnings)@ + msg_if(
            lookup(tags@, "highway"@) == Some("steps"@),
            msg(IssueKind::Unimplemented, Some("steps becomes sidewalk"@), tags_under(tags@, set!["highway"@])),
        ));
    }
    Ok(())
}

} // verus!
