//! Lanes and a road under construction, before their values are final.

use vstd::prelude::*;

use crate::cycleway::Variant as CyclewayVariant;
use crate::highway::Highway;
use crate::infer::{infer_value, Infer, InferValue};
use crate::locale::{DrivingSide, Locale};
use crate::metric::{Metre, Speed};
use crate::road::{AccessAndDirection, AccessByType, Designated, Direction, Lane, LaneView};

verus! {

impl InferValue for Metre {
    fn same_value(&self, other: &Self) -> (r: bool) {
        *self == *other
    }
}

impl InferValue for Speed {
    fn same_value(&self, other: &Self) -> (r: bool) {
        *self == *other
    }
}

impl InferValue for Direction {
    fn same_value(&self, other: &Self) -> (r: bool) {
        *self == *other
    }
}

impl InferValue for Designated {
    fn same_value(&self, other: &Self) -> (r: bool) {
        *self == *other
    }
}

impl InferValue for AccessAndDirection {
    fn same_value(&self, other: &Self) -> (r: bool) {
        *self == *other
    }
}

impl InferValue for LaneType {
    fn same_value(&self, other: &Self) -> (r: bool) {
        *self == *other
    }
}

/// Whether a road is one way.
#[derive(Clone, Copy, Debug, PartialEq, Eq, Structural)]
pub enum Oneway {
    Yes,
    No,
}

impl Oneway {
    /// `Yes` for true.
    pub fn from_bool(oneway: bool) -> (r: Self)
        ensures
            r == if oneway {
                Oneway::Yes
            } else {
                Oneway::No
            },
    {
        if oneway {
            Oneway::Yes
        } else {
            Oneway::No
        }
    }

    /// True for `Yes`.
    pub fn is_yes(&self) -> (r: bool)
        ensures
            r == (*self == Oneway::Yes),
    {
        match self {
            Oneway::Yes => true,
            Oneway::No => false,
        }
    }
}

/// The kind of a lane that is not a separator.
#[derive(Clone, Copy, Debug, PartialEq, Eq, Structural)]
pub enum LaneType {
    Travel,
    Parking,
    Shoulder,
}

/// The width of a lane: bounds and a target.
#[derive(Clone, Copy, Debug, PartialEq, Eq, Structural)]
pub struct Width {
    pub min: Infer<Metre>,
    pub target: Infer<Metre>,
    pub max: Infer<Metre>,
}

impl Width {
    /// No width known.
    pub fn unknown() -> (r: Self)
        ensures
            r.min is Unset,
            r.target is Unset,
            r.max is Unset,
    {
        Width { min: Infer::Unset, target: Infer::Unset, max: Infer::Unset }
    }
}

/// Access of a lane under construction, by type of traffic.
#[derive(Clone, Copy, Debug, PartialEq, Eq, Structural)]
pub struct AccessBuilder {
    pub foot: Infer<AccessAndDirection>,
    pub bicycle: Infer<AccessAndDirection>,
    pub motor: Infer<AccessAndDirection>,
}

/// A lane under construction.
#[derive(Clone, Copy, Debug, PartialEq, Eq, Structural)]
pub struct LaneBuilder {
    pub lane_type: Infer<LaneType>,
    /// Direction, always relative to the way.
    pub direction: Infer<Direction>,
    pub designated: Infer<Designated>,
    pub width: Width,
    pub max_speed: Infer<Speed>,
    pub access: AccessBuilder,
    pub cycleway_variant: Option<CyclewayVariant>,
}

/// The target width lies within the bounds: where a bound is known, so is
/// the target, and it does not pass the bound.
pub open spec fn width_within(w: Width) -> bool {
    &&& infer_value(w.min) matches Some(m) ==> (infer_value(w.target) matches Some(t) && m.millimetres
        <= t.millimetres)
    &&& infer_value(w.max) matches Some(m) ==> (infer_value(w.target) matches Some(t) && t.millimetres
        <= m.millimetres)
}

/// A lane builder that can be built: its type is known, a travel lane knows
/// who it is designated for, a parking lane also its direction, and its target
/// width lies within its bounds.
pub open spec fn lane_builder_wf(l: LaneBuilder) -> bool {
    &&& l.lane_type !is Unset
    &&& width_within(l.width)
    &&& infer_value(l.lane_type) == Some(LaneType::Travel) ==> l.designated !is Unset
    &&& infer_value(l.lane_type) == Some(LaneType::Parking) ==> l.designated !is Unset
        && l.direction !is Unset
}

/// The access of a built lane: none when nothing is known.
pub open spec fn spec_build_access(a: AccessBuilder) -> Option<AccessByType> {
    if a.foot is Unset && a.bicycle is Unset && a.motor is Unset {
        None
    } else {
        Some(
            AccessByType {
                foot: infer_value(a.foot),
                bicycle: infer_value(a.bicycle),
                motor: infer_value(a.motor),
            },
        )
    }
}

/// The lane a lane builder builds.
pub open spec fn spec_build(l: LaneBuilder) -> LaneView {
    match infer_value(l.lane_type) {
        Some(LaneType::Travel) => LaneView::Travel {
            direction: infer_value(l.direction),
            designated: infer_value(l.designated).unwrap(),
            width: infer_value(l.width.target),
            max_speed: infer_value(l.max_speed),
            access: spec_build_access(l.access),
        },
        Some(LaneType::Parking) => LaneView::Parking {
            direction: infer_value(l.direction).unwrap(),
            designated: infer_value(l.designated).unwrap(),
            width: infer_value(l.width.target),
        },
        _ => LaneView::Shoulder { width: infer_value(l.width.target) },
    }
}

/// A lane builder with nothing known.
pub open spec fn spec_empty_lane() -> LaneBuilder {
    LaneBuilder {
        lane_type: Infer::Unset,
        direction: Infer::Unset,
        designated: Infer::Unset,
        width: Width { min: Infer::Unset, target: Infer::Unset, max: Infer::Unset },
        max_speed: Infer::Unset,
        access: AccessBuilder { foot: Infer::Unset, bicycle: Infer::Unset, motor: Infer::Unset },
        cycleway_variant: None,
    }
}

impl LaneBuilder {
    /// A lane builder with nothing known.
    pub fn empty() -> (r: Self)
        ensures
            r == spec_empty_lane(),
    {
        LaneBuilder {
            lane_type: Infer::Unset,
            direction: Infer::Unset,
            designated: Infer::Unset,
            width: Width::unknown(),
            max_speed: Infer::Unset,
            access: AccessBuilder { foot: Infer::Unset, bicycle: Infer::Unset, motor: Infer::Unset },
            cycleway_variant: None,
        }
    }

    /// Builds the lane.
    pub fn build(self) -> (r: Lane)
        requires
            lane_builder_wf(self),
        ensures
            r@ == spec_build(self),
    {
        let width = self.width.target.some();
        match self.lane_type.some() {
            Some(LaneType::Travel) => {
                let access = match (self.access.foot, self.access.bicycle, self.access.motor) {
                    (Infer::Unset, Infer::Unset, Infer::Unset) => None,
                    _ => Some(
                        AccessByType {
                            foot: self.access.foot.some(),
                            bicycle: self.access.bicycle.some(),
                            motor: self.access.motor.some(),
                        },
                    ),
                };
                Lane::Travel {
                    direction: self.direction.some(),
                    designated: self.designated.some().unwrap(),
                    width,
                    max_speed: self.max_speed.some(),
                    access,
                }
            },
            Some(LaneType::Parking) => Lane::Parking {
                direction: self.direction.some().unwrap(),
                designated: self.designated.some().unwrap(),
                width,
            },
            _ => Lane::Shoulder { width },
        }
    }

    /// A mirrored version of the lane: for now the same lane.
    pub fn mirror(&self) -> (r: &Self)
        ensures
            *r == *self,
    {
        self
    }

    /// Whether the lane is designated for bicycles.
    pub fn is_bicycle(&self) -> (r: bool)
        ensures
            r == (infer_value(self.designated) == Some(Designated::Bicycle)),
    {
        match self.designated.some() {
            Some(Designated::Bicycle) => true,
            _ => false,
        }
    }

    /// Designates the lane for buses.
    pub fn set_bus(&mut self, _locale: &Locale)
        ensures
            *final(self) == (LaneBuilder { designated: Infer::Direct(Designated::Bus), ..*old(self) }),
    {
        self.designated = Infer::Direct(Designated::Bus);
    }
}

/// A road under construction: lanes on each side, inside to outside, with the
/// highway and whether it is one way.
#[derive(Debug)]
pub struct RoadBuilder {
    /// Forward lanes, from the centre of the road outwards.
    pub forward_lanes: Vec<LaneBuilder>,
    /// Backward lanes, from the centre of the road outwards.
    pub backward_lanes: Vec<LaneBuilder>,
    pub highway: Highway,
    pub oneway: Oneway,
}

/// Every lane builder can be built.
pub open spec fn lanes_wf(s: Seq<LaneBuilder>) -> bool {
    forall|i: int| 0 <= i < s.len() ==> #[trigger] lane_builder_wf(s[i])
}

/// Pushing a lane that can be built keeps every lane buildable.
pub proof fn lemma_wf_push(s: Seq<LaneBuilder>, l: LaneBuilder)
    requires
        lanes_wf(s),
        lane_builder_wf(l),
    ensures
        lanes_wf(s.push(l)),
{
    assert forall|i: int| 0 <= i < s.push(l).len() implies #[trigger] lane_builder_wf(s.push(l)[i]) by {
        if i < s.len() {
            assert(s.push(l)[i] == s[i]);
        }
    }
}

/// Replacing a lane with one that can be built keeps every lane buildable.
pub proof fn lemma_wf_update(s: Seq<LaneBuilder>, k: int, l: LaneBuilder)
    requires
        lanes_wf(s),
        lane_builder_wf(l),
        0 <= k < s.len(),
    ensures
        lanes_wf(s.update(k, l)),
{
    assert forall|i: int| 0 <= i < s.len() implies #[trigger] lane_builder_wf(s.update(k, l)[i]) by {
        if i != k {
            assert(s.update(k, l)[i] == s[i]);
        }
    }
}

/// The lanes of a road under construction, left to right.
pub open spec fn spec_lanes_ltr(
    forward: Seq<LaneBuilder>,
    backward: Seq<LaneBuilder>,
    side: DrivingSide,
) -> Seq<LaneBuilder> {
    match side {
        DrivingSide::Left => forward.reverse() + backward,
        DrivingSide::Right => backward.reverse() + forward,
    }
}

/// Read with the other driving side, the lanes of a road are the same lanes in
/// the opposite order.
pub proof fn lemma_lanes_ltr_opposite_side(
    forward: Seq<LaneBuilder>,
    backward: Seq<LaneBuilder>,
    side: DrivingSide,
)
    ensures
        spec_lanes_ltr(forward, backward, side.spec_opposite()) == spec_lanes_ltr(
            forward,
            backward,
            side,
        ).reverse(),
{
    let a = spec_lanes_ltr(forward, backward, side.spec_opposite());
    let b = spec_lanes_ltr(forward, backward, side);
    assert(a.len() == b.len());
    assert forall|i: int| 0 <= i < a.len() implies a[i] == b.reverse()[i] by {
        let n = forward.len() as int;
        let m = backward.len() as int;
        match side {
            DrivingSide::Left => {
                if i < m {
                    assert(a[i] == backward[m - 1 - i]);
                } else {
                    assert(a[i] == forward[i - m]);
                }
            },
            DrivingSide::Right => {
                if i < n {
                    assert(a[i] == forward[n - 1 - i]);
                } else {
                    assert(a[i] == backward[i - n]);
                }
            },
        }
    }
    assert(a =~= b.reverse());
}

/// The lanes of one side, left to right.
pub open spec fn spec_side_ltr(lanes: Seq<LaneBuilder>, side: DrivingSide) -> Seq<LaneBuilder> {
    match side {
        DrivingSide::Left => lanes.reverse(),
        DrivingSide::Right => lanes,
    }
}

impl RoadBuilder {
    /// Every lane of the road can be built.
    pub open spec fn wf(&self) -> bool {
        &&& lanes_wf(self.forward_lanes@)
        &&& lanes_wf(self.backward_lanes@)
    }

    /// The number of lanes.
    pub open spec fn spec_len(&self) -> int {
        (self.forward_lanes@.len() + self.backward_lanes@.len()) as int
    }

    /// The number of lanes.
    pub fn len(&self) -> (r: usize)
        requires
            self.spec_len() <= usize::MAX,
        ensures
            r == self.spec_len(),
    {
        self.forward_lanes.len() + self.backward_lanes.len()
    }

    /// The number of forward lanes.
    pub fn forward_len(&self) -> (r: usize)
        ensures
            r == self.forward_lanes@.len(),
    {
        self.forward_lanes.len()
    }

    /// The number of backward lanes.
    pub fn backward_len(&self) -> (r: usize)
        ensures
            r == self.backward_lanes@.len(),
    {
        self.backward_lanes.len()
    }

    /// The inner-most forward lane.
    pub fn forward_inside(&self) -> (r: Option<LaneBuilder>)
        ensures
            r == if self.forward_lanes@.len() > 0 {
                Some(self.forward_lanes@[0])
            } else {
                None
            },
    {
        if self.forward_lanes.len() > 0 {
            Some(self.forward_lanes[0])
        } else {
            None
        }
    }

    /// The outer-most forward lane.
    pub fn forward_outside(&self) -> (r: Option<LaneBuilder>)
        ensures
            r == if self.forward_lanes@.len() > 0 {
                Some(self.forward_lanes@.last())
            } else {
                None
            },
    {
        let n = self.forward_lanes.len();
        if n > 0 {
            Some(self.forward_lanes[n - 1])
        } else {
            None
        }
    }

    /// The inner-most backward lane.
    pub fn backward_inside(&self) -> (r: Option<LaneBuilder>)
        ensures
            r == if self.backward_lanes@.len() > 0 {
                Some(self.backward_lanes@[0])
            } else {
                None
            },
    {
        if self.backward_lanes.len() > 0 {
            Some(self.backward_lanes[0])
        } else {
            None
        }
    }

    /// The outer-most backward lane.
    pub fn backward_outside(&self) -> (r: Option<LaneBuilder>)
        ensures
            r == if self.backward_lanes@.len() > 0 {
                Some(self.backward_lanes@.last())
            } else {
                None
            },
    {
        let n = self.backward_lanes.len();
        if n > 0 {
            Some(self.backward_lanes[n - 1])
        } else {
            None
        }
    }

    /// The outer-most lane of one side.
    pub fn lane_outside(&self, forward: bool) -> (r: Option<LaneBuilder>)
        ensures
            r == if forward {
                if self.forward_lanes@.len() > 0 {
                    Some(self.forward_lanes@.last())
                } else {
                    None
                }
            } else {
                if self.backward_lanes@.len() > 0 {
                    Some(self.backward_lanes@.last())
                } else {
                    None
                }
            },
    {
        if forward {
            self.forward_outside()
        } else {
            self.backward_outside()
        }
    }

    /// Pushes a new inner-most forward lane.
    pub fn push_forward_inside(&mut self, lane: LaneBuilder)
        ensures
            final(self).forward_lanes@ == seq![lane] + old(self).forward_lanes@,
            final(self).backward_lanes@ == old(self).backward_lanes@,
            final(self).highway == old(self).highway,
            final(self).oneway == old(self).oneway,
    {
        self.forward_lanes.insert(0, lane);
        assert(self.forward_lanes@ =~= seq![lane] + old(self).forward_lanes@);
    }

    /// Pushes a new outer-most forward lane.
    pub fn push_forward_outside(&mut self, lane: LaneBuilder)
        ensures
            final(self).forward_lanes@ == old(self).forward_lanes@.push(lane),
            final(self).backward_lanes@ == old(self).backward_lanes@,
            final(self).highway == old(self).highway,
            final(self).oneway == old(self).oneway,
    {
        self.forward_lanes.push(lane);
    }

    /// Pushes a new outer-most backward lane.
    pub fn push_backward_outside(&mut self, lane: LaneBuilder)
        ensures
            final(self).backward_lanes@ == old(self).backward_lanes@.push(lane),
            final(self).forward_lanes@ == old(self).forward_lanes@,
            final(self).highway == old(self).highway,
            final(self).oneway == old(self).oneway,
    {
        self.backward_lanes.push(lane);
    }

    /// Pushes a new outer-most lane on one side.
    pub fn push_outside(&mut self, lane: LaneBuilder, forward: bool)
        ensures
            forward ==> final(self).forward_lanes@ == old(self).forward_lanes@.push(lane)
                && final(self).backward_lanes@ == old(self).backward_lanes@,
            !forward ==> final(self).backward_lanes@ == old(self).backward_lanes@.push(lane)
                && final(self).forward_lanes@ == old(self).forward_lanes@,
            final(self).highway == old(self).highway,
            final(self).oneway == old(self).oneway,
    {
        if forward {
            self.push_forward_outside(lane);
        } else {
            self.push_backward_outside(lane);
        }
    }

    /// Replaces the forward lane at `i`.
    pub fn set_forward(&mut self, i: usize, lane: LaneBuilder)
        requires
            i < old(self).forward_lanes@.len(),
        ensures
            final(self).forward_lanes@ == old(self).forward_lanes@.update(i as int, lane),
            final(self).backward_lanes@ == old(self).backward_lanes@,
            final(self).highway == old(self).highway,
            final(self).oneway == old(self).oneway,
    {
        self.forward_lanes.set(i, lane);
    }

    /// Replaces the backward lane at `i`.
    pub fn set_backward(&mut self, i: usize, lane: LaneBuilder)
        requires
            i < old(self).backward_lanes@.len(),
        ensures
            final(self).backward_lanes@ == old(self).backward_lanes@.update(i as int, lane),
            final(self).forward_lanes@ == old(self).forward_lanes@,
            final(self).highway == old(self).highway,
            final(self).oneway == old(self).oneway,
    {
        self.backward_lanes.set(i, lane);
    }

    /// The lanes left to right.
    pub fn lanes_ltr(&self, locale: &Locale) -> (r: Vec<LaneBuilder>)
        ensures
            r@ == spec_lanes_ltr(self.forward_lanes@, self.backward_lanes@, locale.driving_side),
    {
        let (first, second) = match locale.driving_side {
            DrivingSide::Left => (&self.forward_lanes, &self.backward_lanes),
            DrivingSide::Right => (&self.backward_lanes, &self.forward_lanes),
        };
        let mut out: Vec<LaneBuilder> = Vec::new();
        let n = first.len();
        let mut i: usize = 0;
        while i < n
            invariant
                n == first@.len(),
                i <= n,
                out@ == first@.reverse().take(i as int),
            decreases n - i,
        {
            out.push(first[n - 1 - i]);
            assert(out@ =~= first@.reverse().take(i + 1));
            i = i + 1;
        }
        let mut j: usize = 0;
        while j < second.len()
            invariant
                j <= second@.len(),
                out@ == first@.reverse() + second@.take(j as int),
            decreases second@.len() - j,
        {
            out.push(second[j]);
            assert(out@ =~= first@.reverse() + second@.take(j + 1));
            j = j + 1;
        }
        assert(second@.take(second@.len() as int) =~= second@);
        assert(first@.reverse().take(n as int) =~= first@.reverse());
        out
    }
}

} // verus!
