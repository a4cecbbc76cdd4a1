//! The lanes of a road under construction, left to right, with the separators
//! between them.

use vstd::prelude::*;

use crate::builder::{lane_builder_wf, lanes_wf, spec_build, spec_lanes_ltr, LaneBuilder, RoadBuilder};
use crate::highway::Highway;
use crate::locale::{DrivingSide, Locale};
use crate::msg::{msg, IssueKind, MsgView, RoadError, RoadWarnings, TagsToLanesMsg};
use crate::road::{Color, Lane, LaneView, Style};
use crate::separator::{
    count_motor, hard_edge_markings, lane_to_inner_edge_separator, lane_to_outer_edge_separator, mk,
    is_pair_speed_ok, pair_speed_ok, sep, separator_between, spec_outer_edge, spec_separator_between,
    spec_separator_between_warnings,
};
use crate::builder::Oneway;
use crate::tags::{PairView, Tags};

verus! {

/// The lanes present, in order.
pub open spec fn flat(s: Seq<Option<LaneView>>) -> Seq<LaneView>
    decreases s.len(),
{
    if s.len() == 0 {
        Seq::empty()
    } else {
        flat(s.drop_last()) + match s.last() {
            Some(v) => seq![v],
            None => Seq::empty(),
        }
    }
}

/// Flattening two lists one after the other.
pub proof fn lemma_flat_concat(a: Seq<Option<LaneView>>, b: Seq<Option<LaneView>>)
    ensures
        flat(a + b) == flat(a) + flat(b),
    decreases b.len(),
{
    if b.len() == 0 {
        assert(a + b =~= a);
        assert(flat(b) =~= Seq::<LaneView>::empty());
        assert(flat(a) + flat(b) =~= flat(a));
    } else {
        lemma_flat_concat(a, b.drop_last());
        assert((a + b).drop_last() =~= a + b.drop_last());
        assert((a + b).last() == b.last());
        assert(flat(a + b) =~= flat(a) + flat(b));
    }
}

/// The views of optional lanes.
pub open spec fn opt_views(s: Seq<Option<Lane>>) -> Seq<Option<LaneView>> {
    s.map_values(|o: Option<Lane>| match o {
        Some(l) => Some(l@),
        None => None,
    })
}

/// The view of an optional lane.
pub open spec fn opt_view(o: Option<Lane>) -> Option<LaneView> {
    match o {
        Some(l) => Some(l@),
        None => None,
    }
}

/// Moves the lanes present, in order or reversed, to the end of `out`.
fn append_flat(out: &mut Vec<Lane>, items: Vec<Option<Lane>>, reversed: bool)
    ensures
        final(out)@.map_values(|l: Lane| l@) == old(out)@.map_values(|l: Lane| l@) + flat(
            if reversed {
                opt_views(items@).reverse()
            } else {
                opt_views(items@)
            },
        ),
    decreases
            if reversed {
                0int
            } else {
                1int
            },
{
    let mut items = items;
    let ghost whole = opt_views(items@);
    let ghost start = out@.map_values(|l: Lane| l@);
    if reversed {
        while items.len() > 0
            invariant
                whole == opt_views(items@) + whole.skip(items@.len() as int),
                items@.len() <= whole.len(),
                out@.map_values(|l: Lane| l@) == start + flat(whole.skip(items@.len() as int).reverse()),
            decreases items@.len(),
        {
            let ghost n = items@.len();
            let ghost before = out@.map_values(|l: Lane| l@);
            let ghost items_before = items@;
            let item = items.pop().unwrap();
            assert(items_before == items@.push(item));
            assert(opt_views(items@) =~= opt_views(items_before).drop_last());
            proof {
                assert(opt_views(items_before)[n - 1] == opt_view(item));
                assert(whole[n - 1] == opt_view(item));
                assert(whole.skip(n - 1) =~= seq![opt_view(item)] + whole.skip(n as int));
                assert(whole.skip(n - 1).reverse() =~= whole.skip(n as int).reverse() + seq![opt_view(item)]);
                lemma_flat_concat(whole.skip(n as int).reverse(), seq![opt_view(item)]);
                assert(seq![opt_view(item)].drop_last() =~= Seq::<Option<LaneView>>::empty());
                assert(flat(Seq::<Option<LaneView>>::empty()) =~= Seq::<LaneView>::empty());
            }
            match item {
                Some(l) => {
                    let ghost out_before = out@;
                    out.push(l);
                    assert(out@ == out_before.push(l));
                    assert(out@.map_values(|l: Lane| l@) =~= before.push(l@));
                    assert(flat(seq![Some(l@)]) =~= seq![l@]);
                },
                None => {
                    assert(flat(seq![None::<LaneView>]) =~= Seq::<LaneView>::empty());
                },
            }
            assert(out@.map_values(|l: Lane| l@) =~= start + flat(whole.skip(n - 1).reverse()));
            assert(whole =~= opt_views(items@) + whole.skip(n - 1));
        }
        assert(whole.skip(0) =~= whole);
    } else {
        let mut backwards: Vec<Option<Lane>> = Vec::new();
        while items.len() > 0
            invariant
                whole == opt_views(items@) + opt_views(backwards@).reverse(),
            decreases items@.len(),
        {
            let item = items.pop().unwrap();
            let ghost b0 = backwards@;
            backwards.push(item);
            assert(opt_views(items@) =~= opt_views(items@.push(item)).drop_last());
            assert(opt_views(backwards@).reverse() =~= seq![opt_view(item)] + opt_views(b0).reverse());
            assert(whole =~= opt_views(items@) + opt_views(backwards@).reverse());
        }
        assert(opt_views(items@) =~= Seq::<Option<LaneView>>::empty());
        assert(opt_views(backwards@).reverse() =~= whole);
        let ghost rev = opt_views(backwards@);
        assert(rev.reverse() =~= whole);
        append_flat(out, backwards, true);
    }
}

/// The lanes of one side with the separators between them and, after the
/// last, the edge separator: lane, separator, lane, separator, ..., lane, edge.
pub open spec fn side_items(
    lanes: Seq<LaneBuilder>,
    count: nat,
    tags: Seq<PairView>,
    locale: &Locale,
    edge: Option<LaneView>,
) -> Seq<Option<LaneView>> {
    Seq::new(
        2 * lanes.len(),
        |k: int|
            if k % 2 == 0 {
                Some(spec_build(lanes[k / 2]))
            } else if k / 2 + 1 < lanes.len() {
                spec_separator_between(lanes[k / 2], lanes[k / 2 + 1], count, tags, locale)
            } else {
                edge
            },
    )
}

/// The warnings of the separators between the first `upto + 1` lanes.
pub open spec fn window_warnings(
    lanes: Seq<LaneBuilder>,
    count: nat,
    tags: Seq<PairView>,
    locale: &Locale,
    upto: int,
) -> Seq<MsgView>
    decreases upto,
{
    if upto <= 0 {
        Seq::empty()
    } else {
        window_warnings(lanes, count, tags, locale, upto - 1) + spec_separator_between_warnings(
            lanes[upto - 1],
            lanes[upto],
            count,
            tags,
            locale,
        )
    }
}

/// The separator on the outer edge of the last lane, if any.
pub open spec fn spec_edge(lanes: Seq<LaneBuilder>, tags: Seq<PairView>, locale: &Locale) -> Option<
    LaneView,
> {
    if lanes.len() > 0 && spec_outer_edge(lanes.last(), tags, locale) is Some {
        Some(sep(hard_edge_markings()))
    } else {
        None
    }
}

/// The separator between the inner-most lanes of both sides.
pub open spec fn spec_middle(
    forward: Seq<LaneBuilder>,
    backward: Seq<LaneBuilder>,
    count: nat,
    tags: Seq<PairView>,
    locale: &Locale,
) -> Option<LaneView> {
    if forward.len() > 0 && backward.len() > 0 {
        spec_separator_between(forward[0], backward[0], count, tags, locale)
    } else {
        Some(sep(seq![mk(Style::SolidLine, Some(Color::White), 200)]))
    }
}

/// The warnings of the separator between the inner-most lanes of both sides.
pub open spec fn spec_middle_warnings(
    forward: Seq<LaneBuilder>,
    backward: Seq<LaneBuilder>,
    count: nat,
    tags: Seq<PairView>,
    locale: &Locale,
) -> Seq<MsgView> {
    if forward.len() > 0 && backward.len() > 0 {
        spec_separator_between_warnings(forward[0], backward[0], count, tags, locale)
    } else {
        Seq::empty()
    }
}

/// The lanes, left to right, with separators where asked for.
pub open spec fn spec_ltr(
    forward: Seq<LaneBuilder>,
    backward: Seq<LaneBuilder>,
    tags: Seq<PairView>,
    locale: &Locale,
    include_separators: bool,
) -> Seq<LaneView> {
    if include_separators {
        let count = count_motor(spec_lanes_ltr(forward, backward, locale.driving_side));
        let fi = side_items(forward, count, tags, locale, spec_edge(forward, tags, locale));
        let bi = side_items(backward, count, tags, locale, spec_edge(backward, tags, locale));
        let mid = seq![spec_middle(forward, backward, count, tags, locale)];
        match locale.driving_side {
            DrivingSide::Left => flat(fi.reverse() + mid + bi),
            DrivingSide::Right => flat(bi.reverse() + mid + fi),
        }
    } else {
        spec_lanes_ltr(forward, backward, locale.driving_side).map_values(|l: LaneBuilder| spec_build(l))
    }
}

/// The warnings of finding the separators.
pub open spec fn spec_ltr_warnings(
    forward: Seq<LaneBuilder>,
    backward: Seq<LaneBuilder>,
    tags: Seq<PairView>,
    locale: &Locale,
    include_separators: bool,
) -> Seq<MsgView> {
    if include_separators {
        let count = count_motor(spec_lanes_ltr(forward, backward, locale.driving_side));
        spec_middle_warnings(forward, backward, count, tags, locale) + window_warnings(
            forward,
            count,
            tags,
            locale,
            forward.len() - 1,
        ) + window_warnings(backward, count, tags, locale, backward.len() - 1)
    } else {
        Seq::empty()
    }
}

/// The separators between the lanes of one side can be found.
pub open spec fn side_speeds_ok(lanes: Seq<LaneBuilder>) -> bool {
    forall|i: int| 0 <= i < lanes.len() - 1 ==> #[trigger] pair_speed_ok(lanes[i], lanes[i + 1])
}

/// The separators between the lanes of a road can be found: on each side,
/// and between the inner-most lanes of both sides.
pub open spec fn ltr_speeds_ok(forward: Seq<LaneBuilder>, backward: Seq<LaneBuilder>) -> bool {
    &&& side_speeds_ok(forward)
    &&& side_speeds_ok(backward)
    &&& forward.len() > 0 && backward.len() > 0 ==> pair_speed_ok(forward[0], backward[0])
}

/// Tests whether the separators between the lanes of one side can be found.
fn is_side_speeds_ok(lanes: &Vec<LaneBuilder>) -> (r: bool)
    ensures
        r == side_speeds_ok(lanes@),
{
    let mut i: usize = 0;
    while i < lanes.len() && i + 1 < lanes.len()
        invariant
            i <= lanes@.len(),
            forall|j: int| 0 <= j < i && j < lanes@.len() - 1 ==> #[trigger] pair_speed_ok(lanes@[j], lanes@[j + 1]),
        decreases lanes@.len() - i,
    {
        if !is_pair_speed_ok(&lanes[i], &lanes[i + 1]) {
            return false;
        }
        i = i + 1;
    }
    true
}

/// Tests whether the separators between the lanes of a road can be found.
pub fn is_ltr_speeds_ok(forward: &Vec<LaneBuilder>, backward: &Vec<LaneBuilder>) -> (r: bool)
    ensures
        r == ltr_speeds_ok(forward@, backward@),
{
    if !is_side_speeds_ok(forward) || !is_side_speeds_ok(backward) {
        return false;
    }
    if forward.len() > 0 && backward.len() > 0 {
        is_pair_speed_ok(&forward[0], &backward[0])
    } else {
        true
    }
}

/// The lanes of one side, each followed by the separator to the next lane or,
/// for the last, by the edge.
fn side_with_separators(
    lanes: &Vec<LaneBuilder>,
    edge: Option<Lane>,
    road: &RoadBuilder,
    tags: &Tags,
    locale: &Locale,
    warnings: &mut RoadWarnings,
) -> (r: Vec<Option<Lane>>)
    requires
        lanes_wf(lanes@),
        side_speeds_ok(lanes@),
    ensures
        ({
            let count = count_motor(
                spec_lanes_ltr(road.forward_lanes@, road.backward_lanes@, locale.driving_side),
            );
            &&& opt_views(r@) == side_items(lanes@, count, tags@, locale, opt_view(edge))
            &&& final(warnings)@ == old(warnings)@ + window_warnings(
                lanes@,
                count,
                tags@,
                locale,
                lanes@.len() - 1,
            )
        }),
{
    let ghost count = count_motor(
        spec_lanes_ltr(road.forward_lanes@, road.backward_lanes@, locale.driving_side),
    );
    let ghost ev = opt_view(edge);
    let ghost target = side_items(lanes@, count, tags@, locale, ev);
    let mut edge = edge;
    let mut out: Vec<Option<Lane>> = Vec::new();
    let n = lanes.len();
    let mut i: usize = 0;
    while i < n
        invariant
            n == lanes@.len(),
            i <= n,
            lanes_wf(lanes@),
            side_speeds_ok(lanes@),
            count == count_motor(
                spec_lanes_ltr(road.forward_lanes@, road.backward_lanes@, locale.driving_side),
            ),
            target == side_items(lanes@, count, tags@, locale, ev),
            i < n ==> opt_view(edge) == ev,
            opt_views(out@) == target.take(2 * i),
            warnings@ == old(warnings)@ + window_warnings(
                lanes@,
                count,
                tags@,
                locale,
                if i <= n - 1 {
                    i as int
                } else {
                    n - 1
                },
            ),
        decreases n - i,
    {
        let ghost before_out = out@;
        let ghost w0 = warnings@;
        assert(lane_builder_wf(lanes@[i as int]));
        let built = lanes[i].build();
        let ghost b = Some(built);
        out.push(Some(built));
        let ghost mid_out = out@;
        let ghost second: Option<LaneView>;
        if i + 1 < n {
            assert(pair_speed_ok(lanes@[i as int], lanes@[i + 1]));
            let s = separator_between(&lanes[i], &lanes[i + 1], road, tags, locale, warnings);
            proof {
                second = opt_view(s);
            }
            out.push(s);
            assert(window_warnings(lanes@, count, tags@, locale, i + 1) == window_warnings(
                lanes@,
                count,
                tags@,
                locale,
                i as int,
            ) + spec_separator_between_warnings(lanes@[i as int], lanes@[i + 1], count, tags@, locale));
            assert(warnings@ =~= old(warnings)@ + window_warnings(lanes@, count, tags@, locale, i + 1));
        } else {
            let e = edge.take();
            proof {
                second = opt_view(e);
            }
            out.push(e);
        }
        proof {
            assert((2 * i) % 2 == 0 && (2 * i) / 2 == i) by (nonlinear_arith);
            assert((2 * i + 1) % 2 == 1 && (2 * i + 1) / 2 == i) by (nonlinear_arith);
            assert(target[2 * i] == Some(spec_build(lanes@[i as int])));
            assert(target[2 * i + 1] == second);
            assert(opt_views(out@) =~= opt_views(before_out).push(Some(built@)).push(second));
            assert(opt_views(out@) =~= target.take(2 * (i + 1)));
        }
        i = i + 1;
    }
    assert(target.take(2 * n) =~= target);
    out
}

/// The lanes left to right, with the separators between them where asked for;
/// a road without lanes has no separators.
pub fn into_ltr(
    road: RoadBuilder,
    tags: &Tags,
    locale: &Locale,
    include_separators: bool,
    warnings: &mut RoadWarnings,
) -> (r: Result<(Vec<Lane>, Highway, Oneway), RoadError>)
    requires
        road.wf(),
        include_separators ==> ltr_speeds_ok(road.forward_lanes@, road.backward_lanes@),
    ensures
        match r {
            Err(RoadError::Msg(m)) => include_separators && road.forward_lanes@.len() == 0
                && road.backward_lanes@.len() == 0 && m@ == msg(IssueKind::Internal, Some("no lanes"@), None)
                && final(warnings)@ == old(warnings)@,
            Err(_) => false,
            Ok((lanes, h, o)) => !(include_separators && road.forward_lanes@.len() == 0
                && road.backward_lanes@.len() == 0) && lanes@.map_values(|l: Lane| l@) == spec_ltr(
                road.forward_lanes@,
                road.backward_lanes@,
                tags@,
                locale,
                include_separators,
            ) && h == road.highway && o == road.oneway && final(warnings)@ == old(warnings)@
                + spec_ltr_warnings(
                road.forward_lanes@,
                road.backward_lanes@,
                tags@,
                locale,
                include_separators,
            ),
        },
{
    let mut lanes: Vec<Lane> = Vec::new();
    if include_separators {
        let ghost count = count_motor(
            spec_lanes_ltr(road.forward_lanes@, road.backward_lanes@, locale.driving_side),
        );
        let forward_edge = match road.forward_outside() {
            Some(l) => lane_to_outer_edge_separator(&l, &road, tags, locale, warnings),
            None => None,
        };
        let backward_edge = match road.backward_outside() {
            Some(l) => lane_to_outer_edge_separator(&l, &road, tags, locale, warnings),
            None => None,
        };
        assert(opt_view(forward_edge) == spec_edge(road.forward_lanes@, tags@, locale));
        assert(opt_view(backward_edge) == spec_edge(road.backward_lanes@, tags@, locale));
        let ghost w0 = warnings@;
        let middle = match (road.forward_inside(), road.backward_inside()) {
            (Some(forward), Some(backward)) => {
                separator_between(&forward, &backward, &road, tags, locale, warnings)
            },
            (Some(lane), None) => lane_to_inner_edge_separator(lane.mirror()),
            (None, Some(lane)) => lane_to_inner_edge_separator(lane.mirror()),
            (None, None) => {
                return Err(RoadError::Msg(TagsToLanesMsg::internal("no lanes")));
            },
        };
        assert(warnings@ =~= w0 + spec_middle_warnings(
            road.forward_lanes@,
            road.backward_lanes@,
            count,
            tags@,
            locale,
        ));
        let forward_items = side_with_separators(&road.forward_lanes, forward_edge, &road, tags, locale, warnings);
        let backward_items = side_with_separators(&road.backward_lanes, backward_edge, &road, tags, locale, warnings);
        let ghost fi = opt_views(forward_items@);
        let ghost bi = opt_views(backward_items@);
        let ghost mid = seq![opt_view(middle)];
        let mut middle_items: Vec<Option<Lane>> = Vec::new();
        middle_items.push(middle);
        assert(opt_views(middle_items@) =~= mid);
        match locale.driving_side {
            DrivingSide::Left => {
                append_flat(&mut lanes, forward_items, true);
                append_flat(&mut lanes, middle_items, false);
                append_flat(&mut lanes, backward_items, false);
                proof {
                    lemma_flat_concat(fi.reverse(), mid);
                    lemma_flat_concat(fi.reverse() + mid, bi);
                    assert(Seq::<LaneView>::empty() + flat(fi.reverse()) + flat(mid) + flat(bi) =~= flat(
                        fi.reverse() + mid + bi,
                    ));
                }
            },
            DrivingSide::Right => {
                append_flat(&mut lanes, backward_items, true);
                append_flat(&mut lanes, middle_items, false);
                append_flat(&mut lanes, forward_items, false);
                proof {
                    lemma_flat_concat(bi.reverse(), mid);
                    lemma_flat_concat(bi.reverse() + mid, fi);
                    assert(Seq::<LaneView>::empty() + flat(bi.reverse()) + flat(mid) + flat(fi) =~= flat(
                        bi.reverse() + mid + fi,
                    ));
                }
            },
        }
        assert(warnings@ =~= old(warnings)@ + spec_ltr_warnings(
            road.forward_lanes@,
            road.backward_lanes@,
            tags@,
            locale,
            include_separators,
        ));
    } else {
        let ltr = road.lanes_ltr(locale);
        let ghost target = spec_lanes_ltr(road.forward_lanes@, road.backward_lanes@, locale.driving_side);
        assert(lanes_wf(target)) by {
            assert forall|i: int| 0 <= i < target.len() implies #[trigger] lane_builder_wf(target[i]) by {
                match locale.driving_side {
                    DrivingSide::Left => {
                        if i < road.forward_lanes@.len() {
                            assert(target[i] == road.forward_lanes@[road.forward_lanes@.len() - 1 - i]);
                        } else {
                            assert(target[i] == road.backward_lanes@[i - road.forward_lanes@.len()]);
                        }
                    },
                    DrivingSide::Right => {
                        if i < road.backward_lanes@.len() {
                            assert(target[i] == road.backward_lanes@[road.backward_lanes@.len() - 1 - i]);
                        } else {
                            assert(target[i] == road.forward_lanes@[i - road.backward_lanes@.len()]);
                        }
                    },
                }
            }
        }
        let mut i: usize = 0;
        while i < ltr.len()
            invariant
                ltr@ == target,
                lanes_wf(target),
                i <= ltr@.len(),
                lanes@.map_values(|l: Lane| l@) == target.take(i as int).map_values(
                    |l: LaneBuilder| spec_build(l),
                ),
            decreases ltr@.len() - i,
        {
            assert(lane_builder_wf(target[i as int]));
            let ghost before = lanes@;
            let l = ltr[i].build();
            let ghost lv = l@;
            lanes.push(l);
            assert(lanes@.map_values(|l: Lane| l@) =~= before.map_values(|l: Lane| l@).push(lv));
            assert(lanes@.map_values(|l: Lane| l@) =~= target.take(i + 1).map_values(
                |l: LaneBuilder| spec_build(l),
            ));
            i = i + 1;
        }
        assert(target.take(ltr@.len() as int) =~= target);
        assert(warnings@ =~= old(warnings)@ + spec_ltr_warnings(
            road.forward_lanes@,
            road.backward_lanes@,
            tags@,
            locale,
            include_separators,
        ));
    }
    Ok((lanes, road.highway, road.oneway))
}

/// The lanes of a sequence that are no separators, in order.
pub open spec fn without_separators(s: Seq<LaneView>) -> Seq<LaneView>
    decreases s.len(),
{
    if s.len() == 0 {
        Seq::empty()
    } else {
        without_separators(s.drop_last()) + if s.last() is Separator {
            Seq::<LaneView>::empty()
        } else {
            seq![s.last()]
        }
    }
}

/// A lane that is no separator, alone, or nothing.
pub open spec fn kept(x: LaneView) -> Seq<LaneView> {
    if x is Separator {
        Seq::empty()
    } else {
        seq![x]
    }
}

/// A lane that is present, alone, or nothing.
pub open spec fn present(o: Option<LaneView>) -> Seq<LaneView> {
    match o {
        Some(v) => seq![v],
        None => Seq::empty(),
    }
}

/// Dropping the separators of one lane.
proof fn lemma_without_single(x: LaneView)
    ensures
        without_separators(seq![x]) == kept(x),
{
    assert(seq![x].drop_last() =~= Seq::<LaneView>::empty());
    assert(without_separators(Seq::<LaneView>::empty()) == Seq::<LaneView>::empty());
    assert(without_separators(seq![x]) =~= kept(x));
}

/// Flattening one optional lane.
proof fn lemma_flat_single(o: Option<LaneView>)
    ensures
        flat(seq![o]) == present(o),
{
    assert(seq![o].drop_last() =~= Seq::<Option<LaneView>>::empty());
    assert(flat(Seq::<Option<LaneView>>::empty()) == Seq::<LaneView>::empty());
    assert(flat(seq![o]) =~= present(o));
}

/// Dropping the separators of two sequences one after the other.
proof fn lemma_without_concat(a: Seq<LaneView>, b: Seq<LaneView>)
    ensures
        without_separators(a + b) == without_separators(a) + without_separators(b),
    decreases b.len(),
{
    if b.len() == 0 {
        assert(a + b =~= a);
        assert(without_separators(a) + without_separators(b) =~= without_separators(a));
    } else {
        lemma_without_concat(a, b.drop_last());
        assert((a + b).drop_last() =~= a + b.drop_last());
        assert((a + b).last() == b.last());
        assert(without_separators(a + b) =~= without_separators(a) + without_separators(b));
    }
}

/// Dropping the separators of a reversed sequence.
proof fn lemma_without_reverse(a: Seq<LaneView>)
    ensures
        without_separators(a.reverse()) == without_separators(a).reverse(),
    decreases a.len(),
{
    if a.len() == 0 {
        assert(a.reverse() =~= a);
        assert(without_separators(a).reverse() =~= Seq::<LaneView>::empty());
    } else {
        let d = a.drop_last();
        let x = a.last();
        lemma_without_reverse(d);
        assert(a.reverse() =~= seq![x] + d.reverse());
        lemma_without_concat(seq![x], d.reverse());
        lemma_without_single(x);
        let e = kept(x);
        assert(without_separators(a) == without_separators(d) + e);
        assert((without_separators(d) + e).reverse() =~= e.reverse() + without_separators(d).reverse());
        assert(e.reverse() =~= e);
    }
}

/// Flattening a reversed list.
proof fn lemma_flat_reverse(s: Seq<Option<LaneView>>)
    ensures
        flat(s.reverse()) == flat(s).reverse(),
    decreases s.len(),
{
    if s.len() == 0 {
        assert(s.reverse() =~= s);
        assert(flat(s).reverse() =~= Seq::<LaneView>::empty());
    } else {
        let d = s.drop_last();
        let x = s.last();
        lemma_flat_reverse(d);
        assert(s.reverse() =~= seq![x] + d.reverse());
        lemma_flat_concat(seq![x], d.reverse());
        lemma_flat_single(x);
        let e = present(x);
        assert(flat(s) == flat(d) + e);
        assert((flat(d) + e).reverse() =~= e.reverse() + flat(d).reverse());
        assert(e.reverse() =~= e);
    }
}

/// Slot `k` of a list of one side holds lane `k` built, then a separator
/// or nothing.
pub open spec fn slot_ok(items: Seq<Option<LaneView>>, lanes: Seq<LaneBuilder>, k: int) -> bool {
    &&& items[2 * k] == Some(spec_build(lanes[k]))
    &&& items[2 * k + 1] matches Some(v) ==> v is Separator
}

/// A built lane is no separator.
proof fn lemma_built_kept(l: LaneBuilder)
    ensures
        kept(spec_build(l)) == seq![spec_build(l)],
{
}

/// A list that holds a built lane, then a separator or nothing, for each
/// lane gives the built lanes once the separators are dropped.
proof fn lemma_side_lanes(items: Seq<Option<LaneView>>, lanes: Seq<LaneBuilder>)
    requires
        items.len() == 2 * lanes.len(),
        forall|k: int| 0 <= k < lanes.len() ==> #[trigger] slot_ok(items, lanes, k),
    ensures
        without_separators(flat(items)) == lanes.map_values(|l: LaneBuilder| spec_build(l)),
    decreases lanes.len(),
{
    let n = lanes.len() as int;
    if n == 0 {
        assert(items =~= Seq::<Option<LaneView>>::empty());
        assert(lanes.map_values(|l: LaneBuilder| spec_build(l)) =~= Seq::<LaneView>::empty());
    } else {
        let pre = items.subrange(0, 2 * n - 2);
        let post = items.subrange(2 * n - 2, 2 * n);
        let dl = lanes.drop_last();
        assert forall|k: int| 0 <= k < dl.len() implies #[trigger] slot_ok(pre, dl, k) by {
            assert(slot_ok(items, lanes, k));
            assert(pre[2 * k] == items[2 * k]);
            assert(pre[2 * k + 1] == items[2 * k + 1]);
        }
        lemma_side_lanes(pre, dl);
        assert(items =~= pre + post);
        lemma_flat_concat(pre, post);
        lemma_without_concat(flat(pre), flat(post));
        let last = lanes[n - 1];
        assert(slot_ok(items, lanes, n - 1));
        assert(post[0] == Some(spec_build(last)));
        assert(post =~= seq![post[0]] + seq![post[1]]);
        lemma_flat_concat(seq![post[0]], seq![post[1]]);
        lemma_flat_single(post[0]);
        lemma_flat_single(post[1]);
        let e = present(post[1]);
        lemma_without_concat(seq![spec_build(last)], e);
        lemma_without_single(spec_build(last));
        lemma_built_kept(last);
        if e.len() > 0 {
            lemma_without_single(e[0]);
            assert(e =~= seq![e[0]]);
        } else {
            assert(e =~= Seq::<LaneView>::empty());
        }
        assert(without_separators(e) =~= Seq::<LaneView>::empty());
        assert(lanes.map_values(|l: LaneBuilder| spec_build(l)) =~= dl.map_values(|l: LaneBuilder| spec_build(l)).push(
            spec_build(last),
        ));
    }
}

/// The lanes of one side with their separators give the built lanes once the
/// separators are dropped.
proof fn lemma_side_items_lanes(
    lanes: Seq<LaneBuilder>,
    count: nat,
    tags: Seq<PairView>,
    locale: &Locale,
    edge: Option<LaneView>,
)
    requires
        edge matches Some(v) ==> v is Separator,
    ensures
        without_separators(flat(side_items(lanes, count, tags, locale, edge))) == lanes.map_values(
            |l: LaneBuilder| spec_build(l),
        ),
{
    let items = side_items(lanes, count, tags, locale, edge);
    assert forall|k: int| 0 <= k < lanes.len() implies #[trigger] slot_ok(items, lanes, k) by {
        assert((2 * k) % 2 == 0 && (2 * k) / 2 == k) by (nonlinear_arith);
        assert((2 * k + 1) % 2 == 1 && (2 * k + 1) / 2 == k) by (nonlinear_arith);
    }
    lemma_side_lanes(items, lanes);
}

/// The separator between the inner-most lanes leaves nothing once the
/// separators are dropped.
proof fn lemma_middle_dropped(
    forward: Seq<LaneBuilder>,
    backward: Seq<LaneBuilder>,
    count: nat,
    tags: Seq<PairView>,
    locale: &Locale,
)
    ensures
        without_separators(flat(seq![spec_middle(forward, backward, count, tags, locale)])) == Seq::<
            LaneView,
        >::empty(),
{
    let m = spec_middle(forward, backward, count, tags, locale);
    lemma_flat_single(m);
    match m {
        Some(v) => {
            lemma_without_single(v);
        },
        None => {
            assert(present(m) =~= Seq::<LaneView>::empty());
        },
    }
}

/// Separators are added once all lanes are placed: dropping the separators
/// from the lanes left to right with separators gives the lanes left to
/// right without them.
#[verifier::rlimit(50)]
pub proof fn lemma_separators_only_added(
    forward: Seq<LaneBuilder>,
    backward: Seq<LaneBuilder>,
    tags: Seq<PairView>,
    locale: &Locale,
)
    ensures
        without_separators(spec_ltr(forward, backward, tags, locale, true)) == spec_ltr(
            forward,
            backward,
            tags,
            locale,
            false,
        ),
{
    let count = count_motor(spec_lanes_ltr(forward, backward, locale.driving_side));
    let fi = side_items(forward, count, tags, locale, spec_edge(forward, tags, locale));
    let bi = side_items(backward, count, tags, locale, spec_edge(backward, tags, locale));
    let mid = seq![spec_middle(forward, backward, count, tags, locale)];
    let fl = forward.map_values(|l: LaneBuilder| spec_build(l));
    let bl = backward.map_values(|l: LaneBuilder| spec_build(l));
    lemma_side_items_lanes(forward, count, tags, locale, spec_edge(forward, tags, locale));
    lemma_side_items_lanes(backward, count, tags, locale, spec_edge(backward, tags, locale));
    lemma_middle_dropped(forward, backward, count, tags, locale);
    lemma_flat_reverse(fi);
    lemma_flat_reverse(bi);
    lemma_without_reverse(flat(fi));
    lemma_without_reverse(flat(bi));
    match locale.driving_side {
        DrivingSide::Left => {
            lemma_flat_concat(fi.reverse(), mid);
            lemma_flat_concat(fi.reverse() + mid, bi);
            lemma_without_concat(flat(fi.reverse()), flat(mid));
            lemma_without_concat(flat(fi.reverse()) + flat(mid), flat(bi));
            assert((forward.reverse() + backward).map_values(|l: LaneBuilder| spec_build(l)) =~= fl.reverse()
                + bl);
            assert(fl.reverse() + Seq::<LaneView>::empty() + bl =~= fl.reverse() + bl);
        },
        DrivingSide::Right => {
            lemma_flat_concat(bi.reverse(), mid);
            lemma_flat_concat(bi.reverse() + mid, fi);
            lemma_without_concat(flat(bi.reverse()), flat(mid));
            lemma_without_concat(flat(bi.reverse()) + flat(mid), flat(fi));
            assert((backward.reverse() + forward).map_values(|l: LaneBuilder| spec_build(l)) =~= bl.reverse()
                + fl);
            assert(bl.reverse() + Seq::<LaneView>::empty() + fl =~= bl.reverse() + fl);
        },
    }
}

} // verus!
