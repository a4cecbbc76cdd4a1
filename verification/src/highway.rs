//! The `highway=*` tag: the type of a way and its lifecycle.

use vstd::prelude::*;

use crate::tags::{lookup, Tags};
use crate::text::str_eq;

verus! {

/// How important a classified road is.
#[derive(Clone, Copy, Debug, PartialEq, Eq, Structural)]
pub enum HighwayImportance {
    Motorway,
    Trunk,
    Primary,
    Secondary,
    Tertiary,
}

/// Highways not meant for travel.
#[derive(Clone, Copy, Debug, PartialEq, Eq, Structural)]
pub enum NonTravel {
    Escape,
    Raceway,
}

/// The value of `highway=*`.
#[derive(Clone, Copy, Debug, PartialEq, Eq, Structural)]
pub enum HighwayType {
    Classified(HighwayImportance),
    Link(HighwayImportance),
    NonTravel(NonTravel),
    // Roads
    Residential,
    Service,
    Unclassified,
    /// <https://wiki.openstreetmap.org/wiki/Tag:highway%3Droad>
    UnknownRoad,
    // Mixed
    Track,
    LivingStreet,
    // Motorized
    BusGuideway,
    // Non-motorized
    Bridleway,
    Corridor,
    Cycleway,
    Footway,
    Path,
    Pedestrian,
    Steps,
}

/// The name of an importance, as tagged.
pub open spec fn importance_name(i: HighwayImportance) -> Seq<char> {
    match i {
        HighwayImportance::Motorway => "motorway"@,
        HighwayImportance::Trunk => "trunk"@,
        HighwayImportance::Primary => "primary"@,
        HighwayImportance::Secondary => "secondary"@,
        HighwayImportance::Tertiary => "tertiary"@,
    }
}

/// The value of `highway=*` for a type.
pub open spec fn highway_type_name(t: HighwayType) -> Seq<char> {
    match t {
        HighwayType::Classified(i) => importance_name(i),
        HighwayType::Link(i) => importance_name(i) + "_link"@,
        HighwayType::NonTravel(NonTravel::Escape) => "escape"@,
        HighwayType::NonTravel(NonTravel::Raceway) => "raceway"@,
        HighwayType::Bridleway => "bridleway"@,
        HighwayType::BusGuideway => "bus_guideway"@,
        HighwayType::Corridor => "corridor"@,
        HighwayType::Cycleway => "cycleway"@,
        HighwayType::Footway => "footway"@,
        HighwayType::LivingStreet => "living_street"@,
        HighwayType::Path => "path"@,
        HighwayType::Pedestrian => "pedestrian"@,
        HighwayType::Residential => "residential"@,
        HighwayType::Service => "service"@,
        HighwayType::Steps => "steps"@,
        HighwayType::Track => "track"@,
        HighwayType::Unclassified => "unclassified"@,
        HighwayType::UnknownRoad => "road"@,
    }
}

/// The type that a value of `highway=*` names, if it names one.
pub open spec fn spec_parse_highway_type(s: Seq<char>) -> Option<HighwayType> {
    if s == "motorway"@ {
        Some(HighwayType::Classified(HighwayImportance::Motorway))
    } else if s == "trunk"@ {
        Some(HighwayType::Classified(HighwayImportance::Trunk))
    } else if s == "primary"@ {
        Some(HighwayType::Classified(HighwayImportance::Primary))
    } else if s == "secondary"@ {
        Some(HighwayType::Classified(HighwayImportance::Secondary))
    } else if s == "tertiary"@ {
        Some(HighwayType::Classified(HighwayImportance::Tertiary))
    } else if s == "motorway_link"@ {
        Some(HighwayType::Link(HighwayImportance::Motorway))
    } else if s == "trunk_link"@ {
        Some(HighwayType::Link(HighwayImportance::Trunk))
    } else if s == "primary_link"@ {
        Some(HighwayType::Link(HighwayImportance::Primary))
    } else if s == "secondary_link"@ {
        Some(HighwayType::Link(HighwayImportance::Secondary))
    } else if s == "tertiary_link"@ {
        Some(HighwayType::Link(HighwayImportance::Tertiary))
    } else if s == "raceway"@ {
        Some(HighwayType::NonTravel(NonTravel::Raceway))
    } else if s == "escape"@ {
        Some(HighwayType::NonTravel(NonTravel::Escape))
    } else if s == "bridleway"@ {
        Some(HighwayType::Bridleway)
    } else if s == "bus_guideway"@ {
        Some(HighwayType::BusGuideway)
    } else if s == "corridor"@ {
        Some(HighwayType::Corridor)
    } else if s == "cycleway"@ {
        Some(HighwayType::Cycleway)
    } else if s == "footway"@ {
        Some(HighwayType::Footway)
    } else if s == "living_street"@ {
        Some(HighwayType::LivingStreet)
    } else if s == "path"@ {
        Some(HighwayType::Path)
    } else if s == "pedestrian"@ {
        Some(HighwayType::Pedestrian)
    } else if s == "residential"@ {
        Some(HighwayType::Residential)
    } else if s == "road"@ {
        Some(HighwayType::UnknownRoad)
    } else if s == "service"@ {
        Some(HighwayType::Service)
    } else if s == "steps"@ {
        Some(HighwayType::Steps)
    } else if s == "track"@ {
        Some(HighwayType::Track)
    } else if s == "unclassified"@ {
        Some(HighwayType::Unclassified)
    } else {
        None
    }
}

impl HighwayImportance {
    /// The name of the importance, as tagged.
    pub fn as_str(&self) -> (r: &'static str)
        ensures
            r@ == importance_name(*self),
    {
        match self {
            Self::Motorway => "motorway",
            Self::Trunk => "trunk",
            Self::Primary => "primary",
            Self::Secondary => "secondary",
            Self::Tertiary => "tertiary",
        }
    }
}

impl NonTravel {
    /// The name, as tagged.
    pub fn as_str(&self) -> (r: &'static str)
        ensures
            r@ == highway_type_name(HighwayType::NonTravel(*self)),
    {
        match self {
            Self::Escape => "escape",
            Self::Raceway => "raceway",
        }
    }
}

impl HighwayType {
    /// Parses the value of `highway=*`; the error is the unknown value.
    pub fn from_str(s: &str) -> (r: Result<Self, String>)
        ensures
            match r {
                Ok(t) => spec_parse_highway_type(s@) == Some(t),
                Err(e) => spec_parse_highway_type(s@) is None && e@ == s@,
            },
    {
        if str_eq(s, "motorway") {
            Ok(Self::Classified(HighwayImportance::Motorway))
        } else if str_eq(s, "trunk") {
            Ok(Self::Classified(HighwayImportance::Trunk))
        } else if str_eq(s, "primary") {
            Ok(Self::Classified(HighwayImportance::Primary))
        } else if str_eq(s, "secondary") {
            Ok(Self::Classified(HighwayImportance::Secondary))
        } else if str_eq(s, "tertiary") {
            Ok(Self::Classified(HighwayImportance::Tertiary))
        } else if str_eq(s, "motorway_link") {
            Ok(Self::Link(HighwayImportance::Motorway))
        } else if str_eq(s, "trunk_link") {
            Ok(Self::Link(HighwayImportance::Trunk))
        } else if str_eq(s, "primary_link") {
            Ok(Self::Link(HighwayImportance::Primary))
        } else if str_eq(s, "secondary_link") {
            Ok(Self::Link(HighwayImportance::Secondary))
        } else if str_eq(s, "tertiary_link") {
            Ok(Self::Link(HighwayImportance::Tertiary))
        } else if str_eq(s, "raceway") {
            Ok(Self::NonTravel(NonTravel::Raceway))
        } else if str_eq(s, "escape") {
            Ok(Self::NonTravel(NonTravel::Escape))
        } else if str_eq(s, "bridleway") {
            Ok(Self::Bridleway)
        } else if str_eq(s, "bus_guideway") {
            Ok(Self::BusGuideway)
        } else if str_eq(s, "corridor") {
            Ok(Self::Corridor)
        } else if str_eq(s, "cycleway") {
            Ok(Self::Cycleway)
        } else if str_eq(s, "footway") {
            Ok(Self::Footway)
        } else if str_eq(s, "living_street") {
            Ok(Self::LivingStreet)
        } else if str_eq(s, "path") {
            Ok(Self::Path)
        } else if str_eq(s, "pedestrian") {
            Ok(Self::Pedestrian)
        } else if str_eq(s, "residential") {
            Ok(Self::Residential)
        } else if str_eq(s, "road") {
            Ok(Self::UnknownRoad)
        } else if str_eq(s, "service") {
            Ok(Self::Service)
        } else if str_eq(s, "steps") {
            Ok(Self::Steps)
        } else if str_eq(s, "track") {
            Ok(Self::Track)
        } else if str_eq(s, "unclassified") {
            Ok(Self::Unclassified)
        } else {
            Err(s.to_owned())
        }
    }

    /// The value of `highway=*` for this type.
    pub fn to_string(&self) -> (r: String)
        ensures
            r@ == highway_type_name(*self),
    {
        match self {
            Self::Classified(importance) => importance.as_str().to_owned(),
            Self::Link(importance) => {
                let mut s = importance.as_str().to_owned();
                s.append("_link");
                s
            },
            Self::NonTravel(v) => v.as_str().to_owned(),
            Self::Bridleway => "bridleway".to_owned(),
            Self::BusGuideway => "bus_guideway".to_owned(),
            Self::Corridor => "corridor".to_owned(),
            Self::Cycleway => "cycleway".to_owned(),
            Self::Footway => "footway".to_owned(),
            Self::LivingStreet => "living_street".to_owned(),
            Self::Path => "path".to_owned(),
            Self::Pedestrian => "pedestrian".to_owned(),
            Self::Residential => "residential".to_owned(),
            Self::Service => "service".to_owned(),
            Self::Steps => "steps".to_owned(),
            Self::Track => "track".to_owned(),
            Self::Unclassified => "unclassified".to_owned(),
            Self::UnknownRoad => "road".to_owned(),
        }
    }
}

/// Writing a highway type and reading it back gives the same type.
/// Writing a highway type and reading it back gives the same type.
#[verifier::rlimit(40)]
pub proof fn lemma_highway_type_name_parses(t: HighwayType)
    ensures
        spec_parse_highway_type(highway_type_name(t)) == Some(t),
{
    reveal_strlit("motorway");
    reveal_strlit("trunk");
    reveal_strlit("primary");
    reveal_strlit("secondary");
    reveal_strlit("tertiary");
    reveal_strlit("motorway_link");
    reveal_strlit("trunk_link");
    reveal_strlit("primary_link");
    reveal_strlit("secondary_link");
    reveal_strlit("tertiary_link");
    reveal_strlit("raceway");
    reveal_strlit("escape");
    reveal_strlit("bridleway");
    reveal_strlit("bus_guideway");
    reveal_strlit("corridor");
    reveal_strlit("cycleway");
    reveal_strlit("footway");
    reveal_strlit("living_street");
    reveal_strlit("path");
    reveal_strlit("pedestrian");
    reveal_strlit("residential");
    reveal_strlit("road");
    reveal_strlit("service");
    reveal_strlit("steps");
    reveal_strlit("track");
    reveal_strlit("unclassified");
    reveal_strlit("_link");
    assert("motorway"@.len() == 8);
    assert("trunk"@.len() == 5);
    assert("primary"@.len() == 7);
    assert("secondary"@.len() == 9);
    assert("tertiary"@.len() == 8);
    assert("motorway_link"@.len() == 13);
    assert("trunk_link"@.len() == 10);
    assert("primary_link"@.len() == 12);
    assert("secondary_link"@.len() == 14);
    assert("tertiary_link"@.len() == 13);
    assert("raceway"@.len() == 7);
    assert("escape"@.len() == 6);
    assert("bridleway"@.len() == 9);
    assert("bus_guideway"@.len() == 12);
    assert("corridor"@.len() == 8);
    assert("cycleway"@.len() == 8);
    assert("footway"@.len() == 7);
    assert("living_street"@.len() == 13);
    assert("path"@.len() == 4);
    assert("pedestrian"@.len() == 10);
    assert("residential"@.len() == 11);
    assert("road"@.len() == 4);
    assert("service"@.len() == 7);
    assert("steps"@.len() == 5);
    assert("track"@.len() == 5);
    assert("unclassified"@.len() == 12);
    assert("_link"@.len() == 5);
    match t {
        HighwayType::Classified(HighwayImportance::Motorway) => {
            assert(spec_parse_highway_type("motorway"@) == Some(t));
        },
        HighwayType::Classified(HighwayImportance::Trunk) => {
            assert(spec_parse_highway_type("trunk"@) == Some(t));
        },
        HighwayType::Classified(HighwayImportance::Primary) => {
            assert(spec_parse_highway_type("primary"@) == Some(t));
        },
        HighwayType::Classified(HighwayImportance::Secondary) => {
            assert(spec_parse_highway_type("secondary"@) == Some(t));
        },
        HighwayType::Classified(HighwayImportance::Tertiary) => {
            assert("tertiary"@[0] != "motorway"@[0]);
            assert(spec_parse_highway_type("tertiary"@) == Some(t));
        },
        HighwayType::Link(HighwayImportance::Motorway) => {
            assert(highway_type_name(t) =~= "motorway_link"@);
            assert(spec_parse_highway_type("motorway_link"@) == Some(t));
        },
        HighwayType::Link(HighwayImportance::Trunk) => {
            assert(highway_type_name(t) =~= "trunk_link"@);
            assert(spec_parse_highway_type("trunk_link"@) == Some(t));
        },
        HighwayType::Link(HighwayImportance::Primary) => {
            assert(highway_type_name(t) =~= "primary_link"@);
            assert(spec_parse_highway_type("primary_link"@) == Some(t));
        },
        HighwayType::Link(HighwayImportance::Secondary) => {
            assert(highway_type_name(t) =~= "secondary_link"@);
            assert(spec_parse_highway_type("secondary_link"@) == Some(t));
        },
        HighwayType::Link(HighwayImportance::Tertiary) => {
            assert(highway_type_name(t) =~= "tertiary_link"@);
            assert("tertiary_link"@[0] != "motorway_link"@[0]);
            assert(spec_parse_highway_type("tertiary_link"@) == Some(t));
        },
        HighwayType::NonTravel(NonTravel::Raceway) => {
            assert("raceway"@[0] != "primary"@[0]);
            assert(spec_parse_highway_type("raceway"@) == Some(t));
        },
        HighwayType::NonTravel(NonTravel::Escape) => {
            assert(spec_parse_highway_type("escape"@) == Some(t));
        },
        HighwayType::Bridleway => {
            assert("bridleway"@[0] != "secondary"@[0]);
            assert(spec_parse_highway_type("bridleway"@) == Some(t));
        },
        HighwayType::BusGuideway => {
            assert("bus_guideway"@[0] != "primary_link"@[0]);
            assert(spec_parse_highway_type("bus_guideway"@) == Some(t));
        },
        HighwayType::Corridor => {
            assert("corridor"@[0] != "motorway"@[0]);
            assert("corridor"@[0] != "tertiary"@[0]);
            assert(spec_parse_highway_type("corridor"@) == Some(t));
        },
        HighwayType::Cycleway => {
            assert("cycleway"@[0] != "motorway"@[0]);
            assert("cycleway"@[0] != "tertiary"@[0]);
            assert("cycleway"@[1] != "corridor"@[1]);
            assert(spec_parse_highway_type("cycleway"@) == Some(t));
        },
        HighwayType::Footway => {
            assert("footway"@[0] != "primary"@[0]);
            assert("footway"@[0] != "raceway"@[0]);
            assert(spec_parse_highway_type("footway"@) == Some(t));
        },
        HighwayType::LivingStreet => {
            assert("living_street"@[0] != "motorway_link"@[0]);
            assert("living_street"@[0] != "tertiary_link"@[0]);
            assert(spec_parse_highway_type("living_street"@) == Some(t));
        },
        HighwayType::Path => {
            assert(spec_parse_highway_type("path"@) == Some(t));
        },
        HighwayType::Pedestrian => {
            assert("pedestrian"@[0] != "trunk_link"@[0]);
            assert(spec_parse_highway_type("pedestrian"@) == Some(t));
        },
        HighwayType::Residential => {
            assert(spec_parse_highway_type("residential"@) == Some(t));
        },
        HighwayType::UnknownRoad => {
            assert("road"@[0] != "path"@[0]);
            assert(spec_parse_highway_type("road"@) == Some(t));
        },
        HighwayType::Service => {
            assert("service"@[0] != "primary"@[0]);
            assert("service"@[0] != "raceway"@[0]);
            assert("service"@[0] != "footway"@[0]);
            assert(spec_parse_highway_type("service"@) == Some(t));
        },
        HighwayType::Steps => {
            assert("steps"@[0] != "trunk"@[0]);
            assert(spec_parse_highway_type("steps"@) == Some(t));
        },
        HighwayType::Track => {
            assert("track"@[2] != "trunk"@[2]);
            assert("track"@[0] != "steps"@[0]);
            assert(spec_parse_highway_type("track"@) == Some(t));
        },
        HighwayType::Unclassified => {
            assert("unclassified"@[0] != "primary_link"@[0]);
            assert("unclassified"@[0] != "bus_guideway"@[0]);
            assert(spec_parse_highway_type("unclassified"@) == Some(t));
        },
    }
}

/// The lifecycle of a highway.
#[derive(Clone, Copy, Debug, PartialEq, Eq, Structural)]
pub enum Lifecycle {
    Active,
    Construction,
    Proposed,
}

impl Default for Lifecycle {
    fn default() -> (r: Self)
        ensures
            r == Lifecycle::Active,
    {
        Self::Active
    }
}

/// Whether a lifecycle is the default one, `Active`.
pub fn is_default(v: &Lifecycle) -> (r: bool)
    ensures
        r == (*v == Lifecycle::Active),
{
    *v == Lifecycle::Active
}

/// A highway: its type and its lifecycle.
#[derive(Clone, Copy, Debug, PartialEq, Eq, Structural)]
pub struct Highway {
    highway: HighwayType,
    lifecycle: Lifecycle,
}

/// What `Highway::from_tags` gives: the type and lifecycle, or the missing
/// (`None`) or unknown (`Some`) value.
#[verifier::opaque]
pub open spec fn spec_highway_from_tags(tags: Seq<(Seq<char>, Seq<char>)>) -> Result<
    (HighwayType, Lifecycle),
    Option<Seq<char>>,
> {
    match lookup(tags, "highway"@) {
        None => Err(None),
        Some(s) => if s == "construction"@ {
            match lookup(tags, "construction"@) {
                None => Ok((HighwayType::UnknownRoad, Lifecycle::Construction)),
                Some(c) => match spec_parse_highway_type(c) {
                    Some(t) => Ok((t, Lifecycle::Construction)),
                    None => Err(Some(c)),
                },
            }
        } else if s == "proposed"@ {
            match lookup(tags, "proposed"@) {
                None => Ok((HighwayType::UnknownRoad, Lifecycle::Proposed)),
                Some(c) => match spec_parse_highway_type(c) {
                    Some(t) => Ok((t, Lifecycle::Proposed)),
                    None => Err(Some(c)),
                },
            }
        } else {
            match spec_parse_highway_type(s) {
                Some(t) => Ok((t, Lifecycle::Active)),
                None => Err(Some(s)),
            }
        },
    }
}

impl Highway {
    /// The type of the highway.
    pub closed spec fn spec_type(&self) -> HighwayType {
        self.highway
    }

    /// The lifecycle of the highway.
    pub closed spec fn spec_lifecycle(&self) -> Lifecycle {
        self.lifecycle
    }

    /// A highway from its type and lifecycle.
    pub fn new(highway: HighwayType, lifecycle: Lifecycle) -> (r: Self)
        ensures
            r.spec_type() == highway,
            r.spec_lifecycle() == lifecycle,
    {
        Highway { highway, lifecycle }
    }

    /// Reads the highway from `highway=*`, and for a highway under construction or
    /// proposed, from `construction=*` or `proposed=*`.
    ///
    /// # Errors
    ///
    /// `None` if `highway` is missing, `Some` with the unknown value otherwise.
    pub fn from_tags(tags: &Tags) -> (r: Result<Self, Option<String>>)
        ensures
            match (r, spec_highway_from_tags(tags@)) {
                (Ok(h), Ok((t, l))) => h.spec_type() == t && h.spec_lifecycle() == l,
                (Err(None), Err(None)) => true,
                (Err(Some(s)), Err(Some(v))) => s@ == v,
                _ => false,
            },
    {
        reveal(spec_highway_from_tags);
        match tags.get("highway") {
            None => Err(None),
            Some(s) => {
                if str_eq(s, "construction") {
                    match tags.get("construction") {
                        None => Ok(Highway { highway: HighwayType::UnknownRoad, lifecycle: Lifecycle::Construction }),
                        Some(c) => match HighwayType::from_str(c) {
                            Ok(t) => Ok(Highway { highway: t, lifecycle: Lifecycle::Construction }),
                            Err(e) => Err(Some(e)),
                        },
                    }
                } else if str_eq(s, "proposed") {
                    match tags.get("proposed") {
                        None => Ok(Highway { highway: HighwayType::UnknownRoad, lifecycle: Lifecycle::Proposed }),
                        Some(c) => match HighwayType::from_str(c) {
                            Ok(t) => Ok(Highway { highway: t, lifecycle: Lifecycle::Proposed }),
                            Err(e) => Err(Some(e)),
                        },
                    }
                } else {
                    match HighwayType::from_str(s) {
                        Ok(t) => Ok(Highway { highway: t, lifecycle: Lifecycle::Active }),
                        Err(e) => Err(Some(e)),
                    }
                }
            },
        }
    }

    /// An active highway of the given type.
    pub fn active(highway_type: HighwayType) -> (r: Self)
        ensures
            r.spec_type() == highway_type,
            r.spec_lifecycle() == Lifecycle::Active,
    {
        Self { highway: highway_type, lifecycle: Lifecycle::Active }
    }

    /// Whether the highway is under construction.
    pub fn is_construction(&self) -> (r: bool)
        ensures
            r == (self.spec_lifecycle() == Lifecycle::Construction),
    {
        matches!(self.lifecycle, Lifecycle::Construction)
    }

    /// Whether the highway is proposed.
    pub fn is_proposed(&self) -> (r: bool)
        ensures
            r == (self.spec_lifecycle() == Lifecycle::Proposed),
    {
        matches!(self.lifecycle, Lifecycle::Proposed)
    }

    /// The type of the highway, independent from its lifecycle.
    pub fn highway_type(&self) -> (r: HighwayType)
        ensures
            r == self.spec_type(),
    {
        self.highway
    }

    /// The lifecycle of the highway.
    pub fn lifecycle(&self) -> (r: Lifecycle)
        ensures
            r == self.spec_lifecycle(),
    {
        self.lifecycle
    }

    /// Supported and predominantly motorized: a road type that is active or
    /// under construction.
    pub open spec fn spec_is_supported_road(&self) -> bool {
        &&& match self.spec_type() {
            HighwayType::Classified(_) | HighwayType::Link(_) | HighwayType::Residential
            | HighwayType::Service | HighwayType::Unclassified | HighwayType::UnknownRoad => true,
            _ => false,
        }
        &&& (self.spec_lifecycle() == Lifecycle::Active || self.spec_lifecycle() == Lifecycle::Construction)
    }

    /// Supported and predominantly non-motorized: a path type that is active.
    pub open spec fn spec_is_supported_non_motorized(&self) -> bool {
        &&& match self.spec_type() {
            HighwayType::Cycleway | HighwayType::Footway | HighwayType::Path
            | HighwayType::Pedestrian | HighwayType::Steps | HighwayType::Track => true,
            _ => false,
        }
        &&& self.spec_lifecycle() == Lifecycle::Active
    }

    /// Whether the highway is supported.
    pub fn is_supported(&self) -> (r: bool)
        ensures
            r == (self.spec_is_supported_road() || self.spec_is_supported_non_motorized()),
    {
        self.is_supported_road() || self.is_supported_non_motorized()
    }

    /// Whether the highway is supported and predominantly motorized.
    pub fn is_supported_road(&self) -> (r: bool)
        ensures
            r == self.spec_is_supported_road(),
    {
        let road_type = match self.highway {
            HighwayType::Classified(_) | HighwayType::Link(_) | HighwayType::Residential
            | HighwayType::Service | HighwayType::Unclassified | HighwayType::UnknownRoad => true,
            _ => false,
        };
        road_type && match self.lifecycle {
            Lifecycle::Active | Lifecycle::Construction => true,
            Lifecycle::Proposed => false,
        }
    }

    /// Whether the highway is supported and predominantly non-motorized.
    pub fn is_supported_non_motorized(&self) -> (r: bool)
        ensures
            r == self.spec_is_supported_non_motorized(),
    {
        let path_type = match self.highway {
            HighwayType::Cycleway | HighwayType::Footway | HighwayType::Path
            | HighwayType::Pedestrian | HighwayType::Steps | HighwayType::Track => true,
            _ => false,
        };
        path_type && match self.lifecycle {
            Lifecycle::Active => true,
            _ => false,
        }
    }

    /// The highway written as its type, as tagged.
    pub fn to_string(&self) -> (r: String)
        ensures
            r@ == highway_type_name(self.spec_type()),
    {
        self.highway.to_string()
    }
}

} // verus!
