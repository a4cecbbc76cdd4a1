//! A road: its metadata and its lanes from left to right.

use vstd::prelude::*;

use crate::highway::{Highway, HighwayType};
use crate::metric::{Metre, Speed};
use crate::schemes::{Access, Lit, Smoothness, TrackType};

verus! {

/// The direction of travel of a lane, relative to the way.
#[derive(Clone, Copy, Debug, PartialEq, Eq, Structural)]
pub enum Direction {
    Forward,
    Backward,
    Both,
}

impl Direction {
    /// An arrow for the direction.
    pub fn as_utf8(&self) -> (r: char)
        ensures
            r == match *self {
                Direction::Forward => '↑',
                Direction::Backward => '↓',
                Direction::Both => '↕',
            },
    {
        match self {
            Direction::Forward => '↑',
            Direction::Backward => '↓',
            Direction::Both => '↕',
        }
    }
}

/// Who a lane is designated for.
#[derive(Clone, Copy, Debug, PartialEq, Eq, Structural)]
pub enum Designated {
    Foot,
    Bicycle,
    Motor,
    Bus,
}

/// An access value with an optional direction.
#[derive(Clone, Copy, Debug, PartialEq, Eq, Structural)]
pub struct AccessAndDirection {
    pub access: Access,
    pub direction: Option<Direction>,
}

/// Access of a lane by type of traffic.
#[derive(Clone, Copy, Debug, PartialEq, Eq, Structural)]
pub struct AccessByType {
    pub foot: Option<AccessAndDirection>,
    pub bicycle: Option<AccessAndDirection>,
    pub motor: Option<AccessAndDirection>,
}

/// The semantic kind of a separator.
#[derive(Clone, Copy, Debug, PartialEq, Eq, Structural)]
pub enum Semantic {
    Buffer,
    Centre,
    Hard,
    Kerb,
    Lane,
    Modal,
    Shoulder,
    Verge,
}

/// The style of a road marking.
#[derive(Clone, Copy, Debug, PartialEq, Eq, Structural)]
pub enum Style {
    SolidLine,
    BrokenLine,
    DashedLine,
    DottedLine,
    NoFill,
    /// Up and down are left to right.
    KerbUp,
    KerbDown,
}

impl Style {
    /// UTF8 representation of markings.
    pub fn as_utf8(&self) -> (r: char)
        ensures
            r == match *self {
                Style::SolidLine => '|',
                Style::BrokenLine => '¦',
                Style::DashedLine => ':',
                Style::DottedLine => '᛫',
                Style::KerbDown => '\\',
                Style::KerbUp => '/',
                Style::NoFill => ' ',
            },
    {
        match self {
            Self::SolidLine => '|',
            Self::BrokenLine => '¦',
            Self::DashedLine => ':',
            Self::DottedLine => '᛫',
            Self::KerbDown => '\\',
            Self::KerbUp => '/',
            Self::NoFill => ' ',
        }
    }

    /// The style seen from the other side: kerbs go the other way.
    pub open spec fn spec_opposite(self) -> Style {
        match self {
            Style::KerbDown => Style::KerbUp,
            Style::KerbUp => Style::KerbDown,
            other => other,
        }
    }

    /// Opposite marking style.
    pub fn opposite(&self) -> (r: Self)
        ensures
            r == self.spec_opposite(),
    {
        match self {
            Self::SolidLine => Self::SolidLine,
            Self::BrokenLine => Self::BrokenLine,
            Self::DashedLine => Self::DashedLine,
            Self::DottedLine => Self::DottedLine,
            Self::KerbDown => Self::KerbUp,
            Self::KerbUp => Self::KerbDown,
            Self::NoFill => Self::NoFill,
        }
    }
}

/// Taking the opposite style twice gives the style back.
pub proof fn lemma_style_opposite_involution(s: Style)
    ensures
        s.spec_opposite().spec_opposite() == s,
{
}

/// The colour of a road marking.
#[derive(Clone, Copy, Debug, PartialEq, Eq, Structural)]
pub enum Color {
    White,
    Yellow,
    Red,
    Green,
}

impl Color {
    /// A letter for the colour.
    pub fn as_ascii(&self) -> (r: char)
        ensures
            r == match *self {
                Color::White => 'w',
                Color::Yellow => 'y',
                Color::Red => 'r',
                Color::Green => 'g',
            },
    {
        match self {
            Self::White => 'w',
            Self::Yellow => 'y',
            Self::Red => 'r',
            Self::Green => 'g',
        }
    }

    /// A character for the colour.
    pub fn as_utf8(&self) -> (r: char)
        ensures
            r == match *self {
                Color::White => 'w',
                Color::Yellow => 'y',
                Color::Red => 'r',
                Color::Green => 'g',
            },
    {
        self.as_ascii()
    }
}

/// One road marking.
#[derive(Clone, Copy, Debug, PartialEq, Eq, Structural)]
pub struct Marking {
    pub style: Style,
    pub width: Option<Metre>,
    pub color: Option<Color>,
}

/// The default width of a marking, 0.2 m.
pub open spec fn spec_default_marking_width() -> Metre {
    Metre { millimetres: 200 }
}

/// The default space between markings, 0.1 m.
pub open spec fn spec_default_marking_space() -> Metre {
    Metre { millimetres: 100 }
}

impl Marking {
    /// The default width of a marking, 0.2 m.
    pub fn default_width() -> (r: Metre)
        ensures
            r == spec_default_marking_width(),
    {
        Metre::from_millimetres(200)
    }

    /// The default space between markings, 0.1 m.
    pub fn default_space() -> (r: Metre)
        ensures
            r == spec_default_marking_space(),
    {
        Metre::from_millimetres(100)
    }

    /// Inverts the marking: its style becomes the opposite style.
    pub fn invert(&mut self)
        ensures
            *final(self) == (Marking { style: old(self).style.spec_opposite(), ..*old(self) }),
    {
        self.style = self.style.opposite();
    }
}

/// The markings of a separator, left to right.
#[derive(Debug)]
pub struct Markings {
    pub markings: Vec<Marking>,
}

impl Clone for Markings {
    /// The same markings.
    fn clone(&self) -> (r: Self)
        ensures
            r@ == self@,
    {
        let mut markings: Vec<Marking> = Vec::new();
        let mut i: usize = 0;
        while i < self.markings.len()
            invariant
                i <= self.markings@.len(),
                markings@ == self.markings@.take(i as int),
            decreases self.markings@.len() - i,
        {
            markings.push(self.markings[i]);
            assert(markings@ =~= self.markings@.take(i + 1));
            i = i + 1;
        }
        assert(markings@ =~= self.markings@);
        Markings { markings }
    }
}

/// Markings flipped: reversed, and each marking inverted.
pub open spec fn flipped(m: Seq<Marking>) -> Seq<Marking> {
    Seq::new(
        m.len(),
        |i: int| Marking { style: m[m.len() - 1 - i].style.spec_opposite(), ..m[m.len() - 1 - i] },
    )
}

/// The width of markings, a missing width counting as the default width.
pub open spec fn markings_width(m: Seq<Marking>) -> int
    decreases m.len(),
{
    if m.len() == 0 {
        0
    } else {
        markings_width(m.drop_last()) + match m.last().width {
            Some(w) => w.millimetres as int,
            None => spec_default_marking_width().millimetres as int,
        }
    }
}

impl View for Markings {
    type V = Seq<Marking>;

    open spec fn view(&self) -> Seq<Marking> {
        self.markings@
    }
}

impl Markings {
    pub fn new(markings: Vec<Marking>) -> (r: Self)
        ensures
            r@ == markings@,
    {
        Markings { markings }
    }

    /// Flip left and right: reverses the order of markings and inverts them in place.
    pub fn flip(&mut self)
        ensures
            final(self)@ == flipped(old(self)@),
    {
        let ghost m = self.markings@;
        let n = self.markings.len();
        let mut out: Vec<Marking> = Vec::new();
        let mut i: usize = 0;
        while i < n
            invariant
                n == m.len(),
                self.markings@ == m,
                i <= n,
                out@ == flipped(m).take(i as int),
            decreases n - i,
        {
            let mut mk = self.markings[n - 1 - i];
            mk.invert();
            out.push(mk);
            assert(out@ =~= flipped(m).take(i + 1));
            i = i + 1;
        }
        assert(flipped(m).take(n as int) =~= flipped(m));
        self.markings = out;
    }

    /// The total width of the markings, in millimetres; a missing width counts
    /// as the default width.
    pub fn width(&self) -> (r: Option<Metre>)
        ensures
            match r {
                Some(w) => w.millimetres == markings_width(self@),
                None => !(i64::MIN <= markings_width(self@) <= i64::MAX),
            },
    {
        let mut total: i128 = 0;
        let mut i: usize = 0;
        while i < self.markings.len()
            invariant
                i <= self@.len(),
                total == markings_width(self@.take(i as int)),
                -(i as int) * 0x8000_0000_0000_0000 <= total <= (i as int) * 0x8000_0000_0000_0000,
            decreases self@.len() - i,
        {
            assert(self@.take(i + 1).drop_last() =~= self@.take(i as int));
            let w: i64 = match self.markings[i].width {
                Some(w) => w.millimetres,
                None => 200,
            };
            total = total + w as i128;
            i = i + 1;
        }
        assert(self@.take(self@.len() as int) =~= self@);
        if total < -0x8000_0000_0000_0000i128 || total > 0x7fff_ffff_ffff_ffffi128 {
            return None;
        }
        let total: i64 = total as i64;
        Some(Metre::from_millimetres(total))
    }
}

/// Flipping markings twice gives them back.
pub proof fn lemma_flip_involution(m: Seq<Marking>)
    ensures
        flipped(flipped(m)) == m,
{
    assert(flipped(flipped(m)) =~= m);
}

/// A lane of a road, including separators between lanes.
#[derive(Debug)]
pub enum Lane {
    Travel {
        /// Direction of travel, relative to the way.
        direction: Option<Direction>,
        designated: Designated,
        width: Option<Metre>,
        max_speed: Option<Speed>,
        access: Option<AccessByType>,
    },
    Parking { direction: Direction, designated: Designated, width: Option<Metre> },
    Shoulder { width: Option<Metre> },
    Separator { markings: Markings },
}

/// A lane, by its contents.
pub enum LaneView {
    Travel {
        direction: Option<Direction>,
        designated: Designated,
        width: Option<Metre>,
        max_speed: Option<Speed>,
        access: Option<AccessByType>,
    },
    Parking { direction: Direction, designated: Designated, width: Option<Metre> },
    Shoulder { width: Option<Metre> },
    Separator { markings: Seq<Marking> },
}

impl View for Lane {
    type V = LaneView;

    open spec fn view(&self) -> LaneView {
        match self {
            Lane::Travel { direction, designated, width, max_speed, access } => LaneView::Travel {
                direction: *direction,
                designated: *designated,
                width: *width,
                max_speed: *max_speed,
                access: *access,
            },
            Lane::Parking { direction, designated, width } => LaneView::Parking {
                direction: *direction,
                designated: *designated,
                width: *width,
            },
            Lane::Shoulder { width } => LaneView::Shoulder { width: *width },
            Lane::Separator { markings } => LaneView::Separator { markings: markings@ },
        }
    }
}

impl Clone for Lane {
    /// The same lane.
    fn clone(&self) -> (r: Self)
        ensures
            r@ == self@,
    {
        match self {
            Lane::Travel { direction, designated, width, max_speed, access } => Lane::Travel {
                direction: *direction,
                designated: *designated,
                width: *width,
                max_speed: *max_speed,
                access: *access,
            },
            Lane::Parking { direction, designated, width } => Lane::Parking {
                direction: *direction,
                designated: *designated,
                width: *width,
            },
            Lane::Shoulder { width } => Lane::Shoulder { width: *width },
            Lane::Separator { markings } => Lane::Separator { markings: markings.clone() },
        }
    }
}

/// The same lanes.
pub fn clone_lanes(lanes: &Vec<Lane>) -> (r: Vec<Lane>)
    ensures
        lanes_view(r@) == lanes_view(lanes@),
{
    let mut out: Vec<Lane> = Vec::new();
    let mut i: usize = 0;
    while i < lanes.len()
        invariant
            i <= lanes@.len(),
            out@.len() == i,
            forall|j: int| 0 <= j < i ==> (#[trigger] out@[j])@ == lanes@[j]@,
        decreases lanes@.len() - i,
    {
        out.push(lanes[i].clone());
        i = i + 1;
    }
    assert(lanes_view(out@) =~= lanes_view(lanes@));
    out
}

/// The lanes of a road, by their contents.
pub open spec fn lanes_view(lanes: Seq<Lane>) -> Seq<LaneView> {
    lanes.map_values(|l: Lane| l@)
}

impl LaneView {
    pub open spec fn is_separator(self) -> bool {
        self is Separator
    }

    pub open spec fn is_shoulder(self) -> bool {
        self is Shoulder
    }

    pub open spec fn is_travel_designated(self, d: Designated) -> bool {
        self matches LaneView::Travel { designated, .. } && designated == d
    }

    pub open spec fn is_motor(self) -> bool {
        self.is_travel_designated(Designated::Motor)
    }

    pub open spec fn is_foot(self) -> bool {
        self.is_travel_designated(Designated::Foot)
    }

    pub open spec fn is_bicycle(self) -> bool {
        self.is_travel_designated(Designated::Bicycle)
    }

    pub open spec fn is_bus(self) -> bool {
        self.is_travel_designated(Designated::Bus)
    }

    /// The direction of a travel lane.
    pub open spec fn direction(self) -> Option<Direction> {
        match self {
            LaneView::Travel { direction, .. } => direction,
            _ => None,
        }
    }
}

impl Lane {
    pub fn is_separator(&self) -> (r: bool)
        ensures
            r == self@.is_separator(),
    {
        matches!(self, Lane::Separator { .. })
    }

    pub fn is_shoulder(&self) -> (r: bool)
        ensures
            r == self@.is_shoulder(),
    {
        matches!(self, Lane::Shoulder { .. })
    }

    pub fn is_motor(&self) -> (r: bool)
        ensures
            r == self@.is_motor(),
    {
        match self {
            Lane::Travel { designated: Designated::Motor, .. } => true,
            _ => false,
        }
    }

    pub fn is_foot(&self) -> (r: bool)
        ensures
            r == self@.is_foot(),
    {
        match self {
            Lane::Travel { designated: Designated::Foot, .. } => true,
            _ => false,
        }
    }

    pub fn is_bicycle(&self) -> (r: bool)
        ensures
            r == self@.is_bicycle(),
    {
        match self {
            Lane::Travel { designated: Designated::Bicycle, .. } => true,
            _ => false,
        }
    }

    pub fn is_bus(&self) -> (r: bool)
        ensures
            r == self@.is_bus(),
    {
        match self {
            Lane::Travel { designated: Designated::Bus, .. } => true,
            _ => false,
        }
    }

    /// The direction of a travel lane.
    pub fn direction(&self) -> (r: Option<Direction>)
        ensures
            r == self@.direction(),
    {
        match self {
            Lane::Travel { direction, .. } => *direction,
            _ => None,
        }
    }

    /// A mirrored version of the lane: the same lane.
    pub fn mirror(self) -> (r: Lane)
        ensures
            r@ == self@,
    {
        self
    }

    /// Whether two lanes are the same.
    pub fn same_as(&self, other: &Lane) -> (r: bool)
        ensures
            r == (self@ == other@),
    {
        match (self, other) {
            (
                Lane::Travel { direction: d1, designated: g1, width: w1, max_speed: s1, access: a1 },
                Lane::Travel { direction: d2, designated: g2, width: w2, max_speed: s2, access: a2 },
            ) => *d1 == *d2 && *g1 == *g2 && *w1 == *w2 && *s1 == *s2 && *a1 == *a2,
            (
                Lane::Parking { direction: d1, designated: g1, width: w1 },
                Lane::Parking { direction: d2, designated: g2, width: w2 },
            ) => *d1 == *d2 && *g1 == *g2 && *w1 == *w2,
            (Lane::Shoulder { width: w1 }, Lane::Shoulder { width: w2 }) => *w1 == *w2,
            (Lane::Separator { markings: m1 }, Lane::Separator { markings: m2 }) => {
                if m1.markings.len() != m2.markings.len() {
                    assert(m1@.len() != m2@.len());
                    assert(self@ != other@);
                    return false;
                }
                let mut i: usize = 0;
                while i < m1.markings.len()
                    invariant
                        self@ == (LaneView::Separator { markings: m1@ }),
                        other@ == (LaneView::Separator { markings: m2@ }),
                        m1@.len() == m2@.len(),
                        i <= m1@.len(),
                        forall|j: int| 0 <= j < i ==> m1@[j] == m2@[j],
                    decreases m1@.len() - i,
                {
                    if m1.markings[i] != m2.markings[i] {
                        assert(m1@[i as int] != m2@[i as int]);
                        assert(m1@ != m2@);
                        assert(self@ != other@);
                        return false;
                    }
                    i = i + 1;
                }
                assert(m1@ =~= m2@);
                true
            },
            _ => false,
        }
    }
}

/// Whether two lists of lanes are the same.
pub fn lanes_equal(a: &Vec<Lane>, b: &Vec<Lane>) -> (r: bool)
    ensures
        r == (lanes_view(a@) == lanes_view(b@)),
{
    if a.len() != b.len() {
        assert(lanes_view(a@).len() != lanes_view(b@).len());
        return false;
    }
    let mut i: usize = 0;
    while i < a.len()
        invariant
            a@.len() == b@.len(),
            i <= a@.len(),
            forall|j: int| 0 <= j < i ==> a@[j]@ == b@[j]@,
        decreases a@.len() - i,
    {
        if !a[i].same_as(&b[i]) {
            assert(lanes_view(a@)[i as int] != lanes_view(b@)[i as int]);
            return false;
        }
        i = i + 1;
    }
    assert(lanes_view(a@) =~= lanes_view(b@));
    true
}

/// A road: its metadata and its lanes from left to right.
#[derive(Debug)]
pub struct Road {
    pub name: Option<String>,
    pub reference: Option<String>,
    pub highway: Highway,
    pub lit: Option<Lit>,
    pub tracktype: Option<TrackType>,
    pub smoothness: Option<Smoothness>,
    pub lanes: Vec<Lane>,
}

/// The view of an optional string.
pub open spec fn opt_text(o: Option<String>) -> Option<Seq<char>> {
    match o {
        Some(s) => Some(s@),
        None => None,
    }
}

/// Clones an optional string.
fn clone_text(o: &Option<String>) -> (r: Option<String>)
    ensures
        opt_text(r) == opt_text(*o),
{
    match o {
        Some(s) => Some(s.clone()),
        None => None,
    }
}

impl Clone for Road {
    /// The same road.
    fn clone(&self) -> (r: Self)
        ensures
            opt_text(r.name) == opt_text(self.name),
            opt_text(r.reference) == opt_text(self.reference),
            r.highway == self.highway,
            r.lit == self.lit,
            r.tracktype == self.tracktype,
            r.smoothness == self.smoothness,
            lanes_view(r.lanes@) == lanes_view(self.lanes@),
    {
        Road {
            name: clone_text(&self.name),
            reference: clone_text(&self.reference),
            highway: self.highway,
            lit: self.lit,
            tracktype: self.tracktype,
            smoothness: self.smoothness,
            lanes: clone_lanes(&self.lanes),
        }
    }
}

impl Road {
    /// A road without any metadata or lanes filled out.
    pub fn empty() -> (r: Self)
        ensures
            r.name is None,
            r.reference is None,
            r.highway.spec_type() == HighwayType::UnknownRoad,
            r.highway.spec_lifecycle() == crate::highway::Lifecycle::Active,
            r.lit is None,
            r.tracktype is None,
            r.smoothness is None,
            r.lanes@.len() == 0,
    {
        Self {
            name: None,
            reference: None,
            highway: Highway::active(HighwayType::UnknownRoad),
            lit: None,
            tracktype: None,
            smoothness: None,
            lanes: Vec::new(),
        }
    }

    /// Whether some lane is a separator.
    pub fn has_separators(&self) -> (r: bool)
        ensures
            r == exists|i: int| 0 <= i < self.lanes@.len() && (#[trigger] self.lanes@[i])@.is_separator(),
    {
        let mut i: usize = 0;
        while i < self.lanes.len()
            invariant
                i <= self.lanes@.len(),
                forall|j: int| 0 <= j < i ==> !(#[trigger] self.lanes@[j])@.is_separator(),
            decreases self.lanes@.len() - i,
        {
            if self.lanes[i].is_separator() {
                return true;
            }
            i = i + 1;
        }
        false
    }
}

} // verus!
