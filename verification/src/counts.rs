//! The number of lanes for motor traffic, from `lanes=*`, its directional forms
//! and `centre_turn_lane=*`, <https://wiki.openstreetmap.org/wiki/Key:lanes>.

use vstd::prelude::*;

use crate::builder::Oneway;
use crate::bus::BusLaneCount;
use crate::highway::Highway;
use crate::highway::HighwayType;
use crate::infer::{infer_value, Infer};
use crate::locale::{spec_has_split_lanes, Locale};
use crate::metric::{all_digits, digits_value};
use crate::msg::{msg, IssueKind, MsgView, RoadWarnings, TagsToLanesMsg};
use crate::tags::{
    lemma_str_set1, lemma_str_set2, lemma_str_set3, lemma_str_set5, lookup, tags_map, PairView, Tags,
};
use crate::text::{chars_of, str_eq};

verus! {

/// What `usize::from_str` reads: an optional `+`, then decimal digits, of a
/// value that fits in `usize`.
pub open spec fn spec_parse_usize(s: Seq<char>) -> Option<usize> {
    let body = if s.len() > 0 && s[0] == '+' {
        s.drop_first()
    } else {
        s
    };
    if body.len() > 0 && all_digits(body) && digits_value(body) <= usize::MAX {
        Some(digits_value(body) as usize)
    } else {
        None
    }
}

proof fn lemma_digits_nonneg(d: Seq<char>)
    requires
        all_digits(d),
    ensures
        digits_value(d) >= 0,
    decreases d.len(),
{
    if d.len() > 0 {
        assert(all_digits(d.drop_last()));
        lemma_digits_nonneg(d.drop_last());
        assert('0' <= d[d.len() - 1] <= '9');
    }
}

proof fn lemma_digits_prefix(d: Seq<char>, i: int)
    requires
        all_digits(d),
        0 <= i <= d.len(),
    ensures
        digits_value(d.take(i)) <= digits_value(d),
    decreases d.len(),
{
    if i == d.len() {
        assert(d.take(i) =~= d);
    } else {
        assert(all_digits(d.drop_last()));
        lemma_digits_prefix(d.drop_last(), i);
        assert(d.drop_last().take(i) =~= d.take(i));
        lemma_digits_nonneg(d.drop_last());
        assert('0' <= d[d.len() - 1] <= '9');
    }
}

/// Parses an unsigned number as `usize::from_str` does.
pub fn parse_usize(s: &str) -> (r: Option<usize>)
    ensures
        r == spec_parse_usize(s@),
{
    let cs = chars_of(s);
    let start: usize = if cs.len() > 0 && cs[0] == '+' {
        1
    } else {
        0
    };
    let ghost body = if s@.len() > 0 && s@[0] == '+' {
        s@.drop_first()
    } else {
        s@
    };
    assert(body =~= cs@.subrange(start as int, cs@.len() as int));
    if start == cs.len() {
        return None;
    }
    let mut acc: usize = 0;
    let mut i: usize = start;
    while i < cs.len()
        invariant
            cs@ == s@,
            body == (if s@.len() > 0 && s@[0] == '+' {
                s@.drop_first()
            } else {
                s@
            }),
            start <= i <= cs@.len(),
            start < cs@.len(),
            body == cs@.subrange(start as int, cs@.len() as int),
            all_digits(body.take(i - start)),
            acc == digits_value(body.take(i - start)),
        decreases cs@.len() - i,
    {
        let c = cs[i];
        if !('0' <= c && c <= '9') {
            assert(body[i - start] == c);
            assert(!all_digits(body));
            return None;
        }
        assert(body.take(i + 1 - start).drop_last() =~= body.take(i - start));
        assert(all_digits(body.take(i + 1 - start)));
        let d = (c as u32 - '0' as u32) as usize;
        if acc > (usize::MAX - d) / 10 {
            proof {
                assert(digits_value(body.take(i + 1 - start)) == acc * 10 + d);
                assert(acc * 10 + d > usize::MAX) by (nonlinear_arith)
                    requires
                        acc > (usize::MAX - d) / 10,
                        d <= 9,
                ;
                if all_digits(body) {
                    lemma_digits_prefix(body, i + 1 - start);
                }
            }
            return None;
        }
        assert(acc * 10 + d <= usize::MAX) by (nonlinear_arith)
            requires
                acc <= (usize::MAX - d) / 10,
                d <= 9,
        ;
        acc = acc * 10 + d;
        i = i + 1;
    }
    assert(body.take(i - start) =~= body);
    Some(acc)
}

/// The warning that reading a number under `key` gives, if its value is not one.
pub open spec fn spec_parse_warning(tags: Seq<PairView>, key: Seq<char>) -> Seq<MsgView> {
    match lookup(tags, key) {
        Some(v) => if spec_parse_usize(v) is None {
            seq![msg(IssueKind::Unsupported, None, Some(map![key => v]))]
        } else {
            Seq::empty()
        },
        None => Seq::empty(),
    }
}

/// The number under `key`, if it is one.
pub open spec fn spec_get_parsed(tags: Seq<PairView>, key: Seq<char>) -> Option<usize> {
    match lookup(tags, key) {
        Some(v) => spec_parse_usize(v),
        None => None,
    }
}

/// Reads the number under `key`; a value that is no number is warned about.
pub fn get_parsed_usize(tags: &Tags, key: &str, warnings: &mut RoadWarnings) -> (r: Option<usize>)
    ensures
        r == spec_get_parsed(tags@, key@),
        final(warnings)@ == old(warnings)@ + spec_parse_warning(tags@, key@),
{
    match tags.get(key) {
        Some(val) => match parse_usize(val) {
            Some(w) => {
                assert(old(warnings)@ + Seq::<MsgView>::empty() =~= old(warnings)@);
                Some(w)
            },
            None => {
                warnings.push(TagsToLanesMsg::unsupported_tag(key, val));
                assert(old(warnings)@.push(msg(IssueKind::Unsupported, None, Some(map![key@ => val@])))
                    =~= old(warnings)@ + spec_parse_warning(tags@, key@));
                None
            },
        },
        None => {
            assert(old(warnings)@ + Seq::<MsgView>::empty() =~= old(warnings)@);
            None
        },
    }
}

/// The `lanes` and directional `lanes:*` scheme.
#[derive(Clone, Copy, Debug, PartialEq, Eq, Structural)]
pub struct LanesDirectionScheme {
    pub total: Option<usize>,
    pub forward: Option<usize>,
    pub backward: Option<usize>,
    /// Whether `lanes:both_ways=1`.
    pub both_ways: bool,
}

/// What `LanesDirectionScheme::from_tags` reads.
pub open spec fn spec_lanes_direction(tags: Seq<PairView>) -> LanesDirectionScheme {
    LanesDirectionScheme {
        total: spec_get_parsed(tags, "lanes"@),
        forward: spec_get_parsed(tags, "lanes:forward"@),
        backward: spec_get_parsed(tags, "lanes:backward"@),
        both_ways: spec_get_parsed(tags, "lanes:both_ways"@) == Some(1usize),
    }
}

/// The warnings of `LanesDirectionScheme::from_tags`.
#[verifier::opaque]
pub open spec fn spec_lanes_direction_warnings(tags: Seq<PairView>) -> Seq<MsgView> {
    spec_parse_warning(tags, "lanes:both_ways"@) + (if spec_get_parsed(tags, "lanes:both_ways"@) matches Some(
        v,
    ) && v != 1 {
        seq![
            msg(
                IssueKind::Unsupported,
                Some("lanes:both_ways must be 1"@),
                Some(tags_map(tags).restrict(set!["lanes:both_ways"@])),
            ),
        ]
    } else {
        Seq::empty()
    }) + spec_parse_warning(tags, "lanes"@) + spec_parse_warning(tags, "lanes:forward"@)
        + spec_parse_warning(tags, "lanes:backward"@)
}

impl LanesDirectionScheme {
    /// Reads `lanes`, `lanes:forward`, `lanes:backward` and `lanes:both_ways`;
    /// a value that is no number, or `lanes:both_ways` other than 1, is warned about.
    pub fn from_tags(
        tags: &Tags,
        _oneway: Oneway,
        _locale: &Locale,
        warnings: &mut RoadWarnings,
    ) -> (r: Self)
        ensures
            r == spec_lanes_direction(tags@),
            final(warnings)@ == old(warnings)@ + spec_lanes_direction_warnings(tags@),
    {
        reveal(spec_lanes_direction_warnings);
        let ghost w0 = warnings@;
        let both_ways_value = get_parsed_usize(tags, "lanes:both_ways", warnings);
        let ghost w1 = warnings@;
        let ghost extra = if spec_get_parsed(tags@, "lanes:both_ways"@) matches Some(v) && v != 1 {
            seq![
                msg(
                    IssueKind::Unsupported,
                    Some("lanes:both_ways must be 1"@),
                    Some(tags_map(tags@).restrict(set!["lanes:both_ways"@])),
                ),
            ]
        } else {
            Seq::<MsgView>::empty()
        };
        let both_ways = match both_ways_value {
            Some(v) => if v == 1 {
                assert(w1 + extra =~= w1);
                true
            } else {
                let keys = vec!["lanes:both_ways"];
                assert(keys@ == seq!["lanes:both_ways"]);
                let sub = tags.subset(keys.as_slice());
                proof {
                    lemma_str_set1("lanes:both_ways");
                }
                warnings.push(TagsToLanesMsg::unsupported("lanes:both_ways must be 1", sub));
                assert(warnings@ =~= w1 + extra);
                false
            },
            None => {
                assert(w1 + extra =~= w1);
                false
            },
        };
        assert(warnings@ == w1 + extra);
        let total = get_parsed_usize(tags, "lanes", warnings);
        let forward = get_parsed_usize(tags, "lanes:forward", warnings);
        let backward = get_parsed_usize(tags, "lanes:backward", warnings);
        assert(warnings@ =~= old(warnings)@ + spec_lanes_direction_warnings(tags@));
        LanesDirectionScheme { total, forward, backward, both_ways }
    }
}


/// The deprecated `centre_turn_lane=*` scheme,
/// <https://wiki.openstreetmap.org/wiki/Key:centre_turn_lane>.
#[derive(Clone, Copy, Debug, PartialEq, Eq, Structural)]
pub struct CentreTurnLaneScheme(pub Option<bool>);

/// What `CentreTurnLaneScheme::from_tags` reads.
pub open spec fn spec_centre_turn_lane(tags: Seq<PairView>) -> Option<bool> {
    match lookup(tags, "centre_turn_lane"@) {
        Some(v) => if v == "yes"@ {
            Some(true)
        } else if v == "no"@ {
            Some(false)
        } else {
            None
        },
        None => None,
    }
}

/// The warnings of `CentreTurnLaneScheme::from_tags`: the tag is deprecated,
/// and a value other than `yes` or `no` is unsupported.
#[verifier::opaque]
pub open spec fn spec_centre_turn_lane_warnings(tags: Seq<PairView>) -> Seq<MsgView> {
    let sub = Some(tags_map(tags).restrict(set!["centre_turn_lane"@]));
    match lookup(tags, "centre_turn_lane"@) {
        Some(v) => seq![msg(IssueKind::Deprecated, None, sub)] + if v == "yes"@ || v == "no"@ {
            Seq::empty()
        } else {
            seq![msg(IssueKind::Unsupported, None, sub)]
        },
        None => Seq::empty(),
    }
}

impl CentreTurnLaneScheme {
    /// Reads `centre_turn_lane=*`, which is deprecated and warned about.
    pub fn from_tags(
        tags: &Tags,
        _oneway: Oneway,
        _locale: &Locale,
        warnings: &mut RoadWarnings,
    ) -> (r: Self)
        ensures
            r.0 == spec_centre_turn_lane(tags@),
            final(warnings)@ == old(warnings)@ + spec_centre_turn_lane_warnings(tags@),
    {
        reveal(spec_centre_turn_lane_warnings);
        proof {
            reveal_strlit("yes");
            reveal_strlit("no");
            lemma_str_set1("centre_turn_lane");
        }
        match tags.get("centre_turn_lane") {
            Some(v) => {
                let keys = vec!["centre_turn_lane"];
                assert(keys@ == seq!["centre_turn_lane"]);
                warnings.push(TagsToLanesMsg::deprecated_tags(tags.subset(keys.as_slice())));
                if str_eq(v, "yes") {
                    assert(warnings@ =~= old(warnings)@ + spec_centre_turn_lane_warnings(tags@));
                    Self(Some(true))
                } else if str_eq(v, "no") {
                    assert(warnings@ =~= old(warnings)@ + spec_centre_turn_lane_warnings(tags@));
                    Self(Some(false))
                } else {
                    warnings.push(TagsToLanesMsg::unsupported_tags(tags.subset(keys.as_slice())));
                    assert(warnings@ =~= old(warnings)@ + spec_centre_turn_lane_warnings(tags@));
                    Self(None)
                }
            },
            None => {
                assert(warnings@ =~= old(warnings)@ + spec_centre_turn_lane_warnings(tags@));
                Self(None)
            },
        }
    }

    /// The value of the scheme.
    pub fn some(&self) -> (r: Option<bool>)
        ensures
            r == self.0,
    {
        self.0
    }
}

/// The number of lanes for motor vehicle traffic.
#[derive(Clone, Copy, Debug, PartialEq, Eq, Structural)]
pub struct Counts {
    pub lanes: Infer<usize>,
    pub forward: Infer<usize>,
    pub backward: Infer<usize>,
    pub both_ways: Infer<usize>,
}

/// Whether a number fits in `usize`.
pub open spec fn fits(x: int) -> bool {
    0 <= x <= usize::MAX
}

/// The lanes in both directions from `lanes:both_ways` and `centre_turn_lane`.
pub open spec fn spec_centre_both_ways(both_ways: bool, centre: Option<bool>) -> Infer<usize> {
    match (both_ways, centre) {
        (true, Some(false)) => Infer::Default(1),
        (true, _) => Infer::Direct(1),
        (false, Some(true)) => Infer::Calculated(1),
        (false, Some(false)) => Infer::Calculated(0),
        (false, None) => Infer::Default(0),
    }
}

/// The counts of the lanes in each direction, or `None` where counting them
/// leaves the range of `usize`.
#[verifier::opaque]
pub open spec fn spec_counts(
    ld: LanesDirectionScheme,
    oneway: Oneway,
    split: bool,
    centre: Option<bool>,
    bf: usize,
    bb: usize,
) -> Option<Counts> {
    let cbi = spec_centre_both_ways(ld.both_ways, centre);
    let cb = infer_value(cbi).unwrap() as int;
    if oneway == Oneway::Yes {
        match ld.total {
            Some(l) => if bb > 0 {
                if l >= 1 {
                    Some(
                        Counts {
                            lanes: Infer::Direct(l),
                            forward: Infer::Calculated((l - 1) as usize),
                            backward: Infer::Calculated(1),
                            both_ways: cbi,
                        },
                    )
                } else {
                    None
                }
            } else {
                Some(
                    Counts {
                        lanes: Infer::Direct(l),
                        forward: Infer::Calculated(l),
                        backward: Infer::Default(0),
                        both_ways: cbi,
                    },
                )
            },
            None => match ld.forward {
                Some(f) => Some(
                    Counts {
                        lanes: Infer::Calculated(f),
                        forward: Infer::Direct(f),
                        backward: Infer::Default(0),
                        both_ways: cbi,
                    },
                ),
                None => if fits(1 + bf) {
                    Some(
                        Counts {
                            lanes: Infer::Default((1 + bf) as usize),
                            forward: Infer::Default((1 + bf) as usize),
                            backward: Infer::Default(0),
                            both_ways: cbi,
                        },
                    )
                } else {
                    None
                },
            },
        }
    } else {
        match (ld.total, ld.forward, ld.backward) {
            (Some(l), Some(f), Some(b)) => if fits(f + b + cb) {
                Some(
                    Counts {
                        lanes: Infer::Direct(l),
                        forward: Infer::Direct(f),
                        backward: Infer::Direct(b),
                        both_ways: cbi,
                    },
                )
            } else {
                None
            },
            (None, Some(f), Some(b)) => if fits(f + b + cb) {
                Some(
                    Counts {
                        lanes: Infer::Calculated((f + b + cb) as usize),
                        forward: Infer::Direct(f),
                        backward: Infer::Direct(b),
                        both_ways: cbi,
                    },
                )
            } else {
                None
            },
            (Some(l), Some(f), None) => if l - f >= 0 && l - f - cb >= 0 {
                Some(
                    Counts {
                        lanes: Infer::Direct(l),
                        forward: Infer::Direct(f),
                        backward: Infer::Calculated((l - f - cb) as usize),
                        both_ways: cbi,
                    },
                )
            } else {
                None
            },
            (Some(l), None, Some(b)) => if l - b >= 0 && l - b - cb >= 0 {
                Some(
                    Counts {
                        lanes: Infer::Direct(l),
                        forward: Infer::Calculated((l - b - cb) as usize),
                        backward: Infer::Direct(b),
                        both_ways: cbi,
                    },
                )
            } else {
                None
            },
            (Some(l), None, None) => if l == 1 {
                Some(
                    Counts {
                        lanes: Infer::Direct(1),
                        forward: Infer::Default(0),
                        backward: Infer::Default(0),
                        both_ways: Infer::Default(1),
                    },
                )
            } else if l % 2 == 0 && centre == Some(true) {
                Some(
                    Counts {
                        lanes: Infer::Calculated((l + 1) as usize),
                        forward: Infer::Default((l / 2) as usize),
                        backward: Infer::Default((l / 2) as usize),
                        both_ways: Infer::Calculated(1),
                    },
                )
            } else {
                let rem = l - cb - bf - bb;
                let half = (rem + 1) / 2;
                if l - cb >= 0 && l - cb - bf >= 0 && rem >= 0 && fits(rem + 1) && fits(half + bf)
                    && fits(rem - half + bb) {
                    Some(
                        Counts {
                            lanes: Infer::Direct(l),
                            forward: Infer::Default((half + bf) as usize),
                            backward: Infer::Default((rem - half + bb) as usize),
                            both_ways: cbi,
                        },
                    )
                } else {
                    None
                }
            },
            (None, None, None) => if split || bf > 0 || bb > 0 {
                if fits(1 + bf) && fits(1 + bb) {
                    Some(
                        Counts {
                            lanes: Infer::Default((2 + cb) as usize),
                            forward: Infer::Default((1 + bf) as usize),
                            backward: Infer::Default((1 + bb) as usize),
                            both_ways: cbi,
                        },
                    )
                } else {
                    None
                }
            } else {
                Some(
                    Counts {
                        lanes: Infer::Default(1),
                        forward: Infer::Default(0),
                        backward: Infer::Default(0),
                        both_ways: Infer::Default(1),
                    },
                )
            },
            (None, _, _) => if split {
                let f: int = match ld.forward {
                    Some(f) => f as int,
                    None => 1 + bf,
                };
                let b: int = match ld.backward {
                    Some(b) => b as int,
                    None => 1 + bb,
                };
                if fits(1 + bf) && fits(1 + bb) && fits(f + b + cb) {
                    Some(
                        Counts {
                            lanes: Infer::Default((f + b + cb) as usize),
                            forward: if ld.forward is Some {
                                Infer::Direct(f as usize)
                            } else {
                                Infer::Default(f as usize)
                            },
                            backward: if ld.backward is Some {
                                Infer::Direct(b as usize)
                            } else {
                                Infer::Default(b as usize)
                            },
                            both_ways: cbi,
                        },
                    )
                } else {
                    None
                }
            } else {
                Some(
                    Counts {
                        lanes: Infer::Default(1),
                        forward: Infer::Default(0),
                        backward: Infer::Default(0),
                        both_ways: Infer::Default(1),
                    },
                )
            },
        }
    }
}

/// Ambiguous tags, the ones under the given keys.
pub open spec fn ambiguous(tags: Seq<PairView>, keys: Set<Seq<char>>) -> MsgView {
    msg(IssueKind::Ambiguous, None, Some(tags_map(tags).restrict(keys)))
}

/// The warnings that counting the lanes adds after those of reading the
/// `lanes` scheme.
#[verifier::opaque]
pub open spec fn spec_counts_warnings(
    tags: Seq<PairView>,
    ld: LanesDirectionScheme,
    oneway: Oneway,
    centre: Option<bool>,
    bf: usize,
    bb: usize,
    counts: Counts,
) -> Seq<MsgView> {
    let cb = infer_value(spec_centre_both_ways(ld.both_ways, centre)).unwrap() as int;
    let centre_warning = if ld.both_ways && centre == Some(false) {
        seq![ambiguous(tags, set!["lanes:both_ways"@, "centre_turn_lane"@])]
    } else {
        Seq::empty()
    };
    centre_warning + if oneway == Oneway::Yes {
        (if ld.both_ways || ld.backward is Some {
            seq![ambiguous(tags, set!["oneway"@, "lanes:both_ways"@, "lanes:backward"@])]
        } else {
            Seq::empty()
        }) + if ld.total is Some && ld.forward is Some && ld.forward != infer_value(counts.forward) {
            seq![ambiguous(tags, set!["oneway"@, "lanes"@, "lanes:forward"@])]
        } else {
            Seq::empty()
        }
    } else {
        match (ld.total, ld.forward, ld.backward) {
            (Some(l), Some(f), Some(b)) => if l != f + b + cb {
                seq![
                    ambiguous(
                        tags,
                        set![
                            "lanes"@,
                            "lanes:forward"@,
                            "lanes:backward"@,
                            "lanes:both_ways"@,
                            "center_turn_lanes"@,
                        ],
                    ),
                ]
            } else {
                Seq::empty()
            },
            (Some(l), None, None) => if l != 1 && !(l % 2 == 0 && centre == Some(true)) && (l - cb
                - bf - bb) % 2 != 0 {
                seq![
                    msg(
                        IssueKind::Ambiguous,
                        Some(
                            "Total lane count cannot be evenly divided between the forward and backward"@,
                        ),
                        None,
                    ),
                ]
            } else {
                Seq::empty()
            },
            _ => Seq::empty(),
        }
    }
}

/// Whether counting the lanes stays in the range of `usize`.
pub open spec fn counts_fit(
    tags: Seq<PairView>,
    oneway: Oneway,
    highway: Highway,
    centre: CentreTurnLaneScheme,
    bus: BusLaneCount,
) -> bool {
    spec_counts(
        spec_lanes_direction(tags),
        oneway,
        spec_has_split_lanes(highway.spec_type()),
        centre.0,
        bus.forward,
        bus.backward,
    ) is Some
}

/// Whether the lanes can be counted within the range of `usize`.
#[verifier::rlimit(100)]
pub fn counts_defined(
    ld: &LanesDirectionScheme,
    oneway: Oneway,
    split: bool,
    centre: Option<bool>,
    bf: usize,
    bb: usize,
) -> (r: bool)
    ensures
        r == spec_counts(*ld, oneway, split, centre, bf, bb) is Some,
{
    reveal(spec_counts);
    let max: i128 = usize::MAX as i128;
    let cb: i128 = match (ld.both_ways, centre) {
        (true, _) | (false, Some(true)) => 1,
        _ => 0,
    };
    let bf_i = bf as i128;
    let bb_i = bb as i128;
    if oneway == Oneway::Yes {
        match ld.total {
            Some(l) => bb == 0 || l >= 1,
            None => match ld.forward {
                Some(_) => true,
                None => 1 + bf_i <= max,
            },
        }
    } else {
        match (ld.total, ld.forward, ld.backward) {
            (Some(_), Some(f), Some(b)) | (None, Some(f), Some(b)) => f as i128 + b as i128 + cb <= max,
            (Some(l), Some(f), None) => l as i128 - f as i128 - cb >= 0,
            (Some(l), None, Some(b)) => l as i128 - b as i128 - cb >= 0,
            (Some(l), None, None) => {
                let li = l as i128;
                if l == 1 {
                    true
                } else if l % 2 == 0 && centre == Some(true) {
                    true
                } else {
                    let rem = li - cb - bf_i - bb_i;
                    let half = (rem + 1) / 2;
                    li - cb >= 0 && li - cb - bf_i >= 0 && rem >= 0 && rem + 1 <= max && half + bf_i
                        <= max && rem - half + bb_i <= max
                }
            },
            (None, None, None) => if split || bf > 0 || bb > 0 {
                1 + bf_i <= max && 1 + bb_i <= max
            } else {
                true
            },
            (None, _, _) => if split {
                let f: i128 = match ld.forward {
                    Some(f) => f as i128,
                    None => 1 + bf_i,
                };
                let b: i128 = match ld.backward {
                    Some(b) => b as i128,
                    None => 1 + bb_i,
                };
                1 + bf_i <= max && 1 + bb_i <= max && f + b + cb <= max
            } else {
                true
            },
        }
    }
}

impl Counts {
    /// Parses and validates the `lanes` scheme (which excludes parking lanes,
    /// bike lanes, etc.): `lanes[:{forward,both_ways,backward}]=*` and
    /// `centre_turn_lane=yes`, guessing what is not tagged.
    #[verifier::rlimit(50)]
    pub fn new(
        tags: &Tags,
        oneway: Oneway,
        highway: &Highway,
        centre_turn_lane: &CentreTurnLaneScheme,
        bus: &BusLaneCount,
        locale: &Locale,
        warnings: &mut RoadWarnings,
    ) -> (r: Self)
        requires
            counts_fit(tags@, oneway, *highway, *centre_turn_lane, *bus),
        ensures
            Some(r) == spec_counts(
                spec_lanes_direction(tags@),
                oneway,
                spec_has_split_lanes(highway.spec_type()),
                centre_turn_lane.0,
                bus.forward,
                bus.backward,
            ),
            final(warnings)@ == old(warnings)@ + spec_lanes_direction_warnings(tags@)
                + spec_counts_warnings(
                tags@,
                spec_lanes_direction(tags@),
                oneway,
                centre_turn_lane.0,
                bus.forward,
                bus.backward,
                r,
            ),
    {
        reveal(spec_counts);
        reveal(spec_counts_warnings);
        let lanes = LanesDirectionScheme::from_tags(tags, oneway, locale, warnings);
        let ghost w1 = warnings@;
        let centre = centre_turn_lane.some();
        let centre_both_ways: Infer<usize> = match (lanes.both_ways, centre) {
            (true, Some(false)) => {
                let keys = vec!["lanes:both_ways", "centre_turn_lane"];
                assert(keys@ == seq!["lanes:both_ways", "centre_turn_lane"]);
                proof {
                    lemma_str_set2("lanes:both_ways", "centre_turn_lane");
                }
                warnings.push(TagsToLanesMsg::ambiguous_tags(tags.subset(keys.as_slice())));
                Infer::Default(1)
            },
            (true, _) => Infer::Direct(1),
            (false, Some(true)) => Infer::Calculated(1),
            (false, Some(false)) => Infer::Calculated(0),
            (false, None) => Infer::Default(0),
        };
        let ghost w2 = warnings@;
        let cb: usize = match centre_both_ways {
            Infer::Direct(v) | Infer::Calculated(v) | Infer::Default(v) => v,
            Infer::Unset => 0,
        };
        let ghost split = spec_has_split_lanes(highway.spec_type());
        let result = if oneway.is_yes() {
            if lanes.both_ways || lanes.backward.is_some() {
                let keys = vec!["oneway", "lanes:both_ways", "lanes:backward"];
                assert(keys@ == seq!["oneway", "lanes:both_ways", "lanes:backward"]);
                proof {
                    lemma_str_set3("oneway", "lanes:both_ways", "lanes:backward");
                }
                warnings.push(TagsToLanesMsg::ambiguous_tags(tags.subset(keys.as_slice())));
            }
            match lanes.total {
                Some(l) => {
                    let result = if bus.backward > 0 {
                        Counts {
                            lanes: Infer::Direct(l),
                            forward: Infer::Calculated(l - 1),
                            backward: Infer::Calculated(1),
                            both_ways: centre_both_ways,
                        }
                    } else {
                        Counts {
                            lanes: Infer::Direct(l),
                            forward: Infer::Calculated(l),
                            backward: Infer::Default(0),
                            both_ways: centre_both_ways,
                        }
                    };
                    let result_forward: usize = if bus.backward > 0 {
                        l - 1
                    } else {
                        l
                    };
                    match lanes.forward {
                        Some(f) => if f != result_forward {
                            let keys = vec!["oneway", "lanes", "lanes:forward"];
                            assert(keys@ == seq!["oneway", "lanes", "lanes:forward"]);
                            proof {
                                lemma_str_set3("oneway", "lanes", "lanes:forward");
                            }
                            warnings.push(TagsToLanesMsg::ambiguous_tags(tags.subset(keys.as_slice())));
                        },
                        None => {},
                    }
                    result
                },
                None => match lanes.forward {
                    Some(f) => Counts {
                        lanes: Infer::Calculated(f),
                        forward: Infer::Direct(f),
                        backward: Infer::Default(0),
                        both_ways: centre_both_ways,
                    },
                    None => {
                        let assumed_forward: usize = 1;
                        Counts {
                            lanes: Infer::Default(assumed_forward + bus.forward),
                            forward: Infer::Default(assumed_forward + bus.forward),
                            backward: Infer::Default(0),
                            both_ways: centre_both_ways,
                        }
                    },
                },
            }
        } else {
            match (lanes.total, lanes.forward, lanes.backward) {
                (Some(l), Some(f), Some(b)) => {
                    if l != f + b + cb {
                        let keys = vec![
                            "lanes",
                            "lanes:forward",
                            "lanes:backward",
                            "lanes:both_ways",
                            "center_turn_lanes",
                        ];
                        assert(keys@ == seq![
                            "lanes",
                            "lanes:forward",
                            "lanes:backward",
                            "lanes:both_ways",
                            "center_turn_lanes",
                        ]);
                        proof {
                            lemma_str_set5(
                                "lanes",
                                "lanes:forward",
                                "lanes:backward",
                                "lanes:both_ways",
                                "center_turn_lanes",
                            );
                        }
                        warnings.push(TagsToLanesMsg::ambiguous_tags(tags.subset(keys.as_slice())));
                    }
                    Counts {
                        lanes: Infer::Direct(l),
                        forward: Infer::Direct(f),
                        backward: Infer::Direct(b),
                        both_ways: centre_both_ways,
                    }
                },
                (None, Some(f), Some(b)) => Counts {
                    lanes: Infer::Calculated(f + b + cb),
                    forward: Infer::Direct(f),
                    backward: Infer::Direct(b),
                    both_ways: centre_both_ways,
                },
                (Some(l), Some(f), None) => Counts {
                    lanes: Infer::Direct(l),
                    forward: Infer::Direct(f),
                    backward: Infer::Calculated(l - f - cb),
                    both_ways: centre_both_ways,
                },
                (Some(l), None, Some(b)) => Counts {
                    lanes: Infer::Direct(l),
                    forward: Infer::Calculated(l - b - cb),
                    backward: Infer::Direct(b),
                    both_ways: centre_both_ways,
                },
                (Some(l), None, None) => {
                    if l == 1 {
                        Counts {
                            lanes: Infer::Direct(1),
                            forward: Infer::Default(0),
                            backward: Infer::Default(0),
                            both_ways: Infer::Default(1),
                        }
                    } else if l % 2 == 0 && centre == Some(true) {
                        Counts {
                            lanes: Infer::Calculated(l + 1),
                            forward: Infer::Default(l / 2),
                            backward: Infer::Default(l / 2),
                            both_ways: Infer::Calculated(1),
                        }
                    } else {
                        let remaining_lanes = l - cb - bus.forward - bus.backward;
                        if remaining_lanes % 2 != 0 {
                            proof {
                                reveal_strlit(
                                    "Total lane count cannot be evenly divided between the forward and backward",
                                );
                            }
                            warnings.push(
                                TagsToLanesMsg::ambiguous_str(
                                    "Total lane count cannot be evenly divided between the forward and backward",
                                ),
                            );
                        }
                        let half = (remaining_lanes + 1) / 2;
                        Counts {
                            lanes: Infer::Direct(l),
                            forward: Infer::Default(half + bus.forward),
                            backward: Infer::Default(remaining_lanes - half + bus.backward),
                            both_ways: centre_both_ways,
                        }
                    }
                },
                (None, None, None) => {
                    if locale.has_split_lanes(highway.highway_type()) || bus.forward > 0
                        || bus.backward > 0 {
                        Counts {
                            lanes: Infer::Default(1 + 1 + cb),
                            forward: Infer::Default(1 + bus.forward),
                            backward: Infer::Default(1 + bus.backward),
                            both_ways: centre_both_ways,
                        }
                    } else {
                        Counts {
                            lanes: Infer::Default(1),
                            forward: Infer::Default(0),
                            backward: Infer::Default(0),
                            both_ways: Infer::Default(1),
                        }
                    }
                },
                (None, _, _) => {
                    if locale.has_split_lanes(highway.highway_type()) {
                        let default_f = 1 + bus.forward;
                        let default_b = 1 + bus.backward;
                        let f = match lanes.forward {
                            Some(f) => f,
                            None => default_f,
                        };
                        let b = match lanes.backward {
                            Some(b) => b,
                            None => default_b,
                        };
                        let forward = if lanes.forward.is_some() {
                            Infer::Direct(f)
                        } else {
                            Infer::Default(f)
                        };
                        let backward = if lanes.backward.is_some() {
                            Infer::Direct(b)
                        } else {
                            Infer::Default(b)
                        };
                        Counts {
                            lanes: Infer::Default(f + b + cb),
                            forward,
                            backward,
                            both_ways: centre_both_ways,
                        }
                    } else {
                        Counts {
                            lanes: Infer::Default(1),
                            forward: Infer::Default(0),
                            backward: Infer::Default(0),
                            both_ways: Infer::Default(1),
                        }
                    }
                },
            }
        };
        assert(warnings@ =~= old(warnings)@ + spec_lanes_direction_warnings(tags@)
            + spec_counts_warnings(
            tags@,
            spec_lanes_direction(tags@),
            oneway,
            centre_turn_lane.0,
            bus.forward,
            bus.backward,
            result,
        ));
        result
    }
}

} // verus!
