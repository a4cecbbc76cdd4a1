//! Tagging schemes read from a way's tags: lighting, track type, smoothness,
//! access, and the generic schemes of a way.

use vstd::prelude::*;

use crate::highway::{spec_highway_from_tags, Highway};
use crate::tags::{lookup, opt_str_view, TagKey, Tags};
use crate::text::str_eq;

verus! {

/// A single tagged key value pair: left untagged, tagged with a known value,
/// or tagged with an unknown value.
pub enum Tagged<T> {
    /// Untagged
    Untagged,
    /// Tagged with a known value
    Known(T),
    /// Tagged with an unknown value
    Unknown(String),
}

/// A tag with an unknown value.
#[derive(Debug)]
pub struct TagError {
    pub key: TagKey,
    pub val: String,
}

impl<T> Tagged<T> {
    /// The known value; only called on a known value.
    pub fn unwrap(self) -> (r: T)
        requires
            self is Known,
        ensures
            self == Tagged::Known(r),
    {
        match self {
            Tagged::Known(v) => v,
            Tagged::Untagged => {
                vstd::pervasive::unreached()
            },
            Tagged::Unknown(_) => {
                vstd::pervasive::unreached()
            },
        }
    }

    /// The known value, if any.
    pub fn ok(self) -> (r: Option<T>)
        ensures
            match self {
                Tagged::Known(v) => r == Some(v),
                _ => r is None,
            },
    {
        match self {
            Tagged::Untagged | Tagged::Unknown(_) => None,
            Tagged::Known(v) => Some(v),
        }
    }

    /// Applies `f` to a known value.
    pub fn map<U, F: FnOnce(T) -> U>(self, f: F) -> (r: Tagged<U>)
        requires
            self matches Tagged::Known(t) ==> f.requires((t,)),
        ensures
            match self {
                Tagged::Untagged => r is Untagged,
                Tagged::Known(t) => r matches Tagged::Known(u) && f.ensures((t,), u),
                Tagged::Unknown(s) => r matches Tagged::Unknown(s2) && s2 == s,
            },
    {
        match self {
            Tagged::Untagged => Tagged::Untagged,
            Tagged::Known(t) => Tagged::Known(f(t)),
            Tagged::Unknown(s) => Tagged::Unknown(s),
        }
    }

    /// `Result<Option>`: an unknown value is an error naming `key`.
    pub fn ok_with(self, key: TagKey) -> (r: Result<Option<T>, TagError>)
        ensures
            match self {
                Tagged::Untagged => r == Ok::<Option<T>, TagError>(None),
                Tagged::Known(v) => r == Ok::<Option<T>, TagError>(Some(v)),
                Tagged::Unknown(s) => r matches Err(e) && e.key@ == key@ && e.val@ == s@,
            },
    {
        match self {
            Tagged::Untagged => Ok(None),
            Tagged::Known(val) => Ok(Some(val)),
            Tagged::Unknown(s) => Err(TagError { key, val: s }),
        }
    }
}

/// Lighting, `lit=*`.
#[derive(Clone, Copy, Debug, PartialEq, Eq, Structural)]
pub enum Lit {
    Yes,
    No,
    SunsetSunrise,
    Automatic,
}

/// The value of `lit=*` for each variant.
pub open spec fn lit_name(v: Lit) -> Seq<char> {
    match v {
        Lit::Yes => "yes"@,
        Lit::No => "no"@,
        Lit::SunsetSunrise => "sunset-sunrise"@,
        Lit::Automatic => "automatic"@,
    }
}

/// The variant a value of `lit=*` names.
pub open spec fn spec_parse_lit(s: Seq<char>) -> Option<Lit> {
    if s == "yes"@ {
        Some(Lit::Yes)
    } else if s == "no"@ {
        Some(Lit::No)
    } else if s == "sunset-sunrise"@ {
        Some(Lit::SunsetSunrise)
    } else if s == "automatic"@ {
        Some(Lit::Automatic)
    } else {
        None
    }
}

impl Lit {
    pub fn from_str(s: &str) -> (r: Option<Self>)
        ensures
            r == spec_parse_lit(s@),
    {
        if str_eq(s, "yes") {
            Some(Lit::Yes)
        } else if str_eq(s, "no") {
            Some(Lit::No)
        } else if str_eq(s, "sunset-sunrise") {
            Some(Lit::SunsetSunrise)
        } else if str_eq(s, "automatic") {
            Some(Lit::Automatic)
        } else {
            None
        }
    }

    pub fn as_str(&self) -> (r: &'static str)
        ensures
            r@ == lit_name(*self),
    {
        match self {
            Lit::Yes => "yes",
            Lit::No => "no",
            Lit::SunsetSunrise => "sunset-sunrise",
            Lit::Automatic => "automatic",
        }
    }

    /// From the value of `lit=*`.
    pub fn from_tags_default(tags: &Tags) -> (r: Tagged<Self>)
        ensures
            match lookup(tags@, "lit"@) {
                None => r is Untagged,
                Some(s) => match spec_parse_lit(s) {
                    Some(v) => r == Tagged::Known(v),
                    None => r matches Tagged::Unknown(u) && u@ == s,
                },
            },
    {
        match tags.get("lit") {
            Some(s) => match Self::from_str(s) {
                Some(v) => Tagged::Known(v),
                None => Tagged::Unknown(s.to_owned()),
            },
            None => Tagged::Untagged,
        }
    }
}

/// Track type, `tracktype=*`.
#[derive(Clone, Copy, Debug, PartialEq, Eq, Structural)]
pub enum TrackType {
    Grade1,
    Grade2,
    Grade3,
    Grade4,
    Grade5,
}

/// The value of `tracktype=*` for each variant.
pub open spec fn track_type_name(v: TrackType) -> Seq<char> {
    match v {
        TrackType::Grade1 => "grade1"@,
        TrackType::Grade2 => "grade2"@,
        TrackType::Grade3 => "grade3"@,
        TrackType::Grade4 => "grade4"@,
        TrackType::Grade5 => "grade5"@,
    }
}

/// The variant a value of `tracktype=*` names.
pub open spec fn spec_parse_track_type(s: Seq<char>) -> Option<TrackType> {
    if s == "grade1"@ {
        Some(TrackType::Grade1)
    } else if s == "grade2"@ {
        Some(TrackType::Grade2)
    } else if s == "grade3"@ {
        Some(TrackType::Grade3)
    } else if s == "grade4"@ {
        Some(TrackType::Grade4)
    } else if s == "grade5"@ {
        Some(TrackType::Grade5)
    } else {
        None
    }
}

impl TrackType {
    pub fn from_str(s: &str) -> (r: Option<Self>)
        ensures
            r == spec_parse_track_type(s@),
    {
        if str_eq(s, "grade1") {
            Some(TrackType::Grade1)
        } else if str_eq(s, "grade2") {
            Some(TrackType::Grade2)
        } else if str_eq(s, "grade3") {
            Some(TrackType::Grade3)
        } else if str_eq(s, "grade4") {
            Some(TrackType::Grade4)
        } else if str_eq(s, "grade5") {
            Some(TrackType::Grade5)
        } else {
            None
        }
    }

    pub fn as_str(&self) -> (r: &'static str)
        ensures
            r@ == track_type_name(*self),
    {
        match self {
            TrackType::Grade1 => "grade1",
            TrackType::Grade2 => "grade2",
            TrackType::Grade3 => "grade3",
            TrackType::Grade4 => "grade4",
            TrackType::Grade5 => "grade5",
        }
    }

    /// From the value of `tracktype=*`.
    pub fn from_tags_default(tags: &Tags) -> (r: Tagged<Self>)
        ensures
            match lookup(tags@, "tracktype"@) {
                None => r is Untagged,
                Some(s) => match spec_parse_track_type(s) {
                    Some(v) => r == Tagged::Known(v),
                    None => r matches Tagged::Unknown(u) && u@ == s,
                },
            },
    {
        match tags.get("tracktype") {
            Some(s) => match Self::from_str(s) {
                Some(v) => Tagged::Known(v),
                None => Tagged::Unknown(s.to_owned()),
            },
            None => Tagged::Untagged,
        }
    }
}

/// Surface smoothness, `smoothness=*`.
#[derive(Clone, Copy, Debug, PartialEq, Eq, Structural)]
pub enum Smoothness {
    Impassable,
    VeryHorrible,
    Horrible,
    VeryBad,
    Bad,
    Intermediate,
    Good,
    Excellent,
}

/// The value of `smoothness=*` for each variant.
pub open spec fn smoothness_name(v: Smoothness) -> Seq<char> {
    match v {
        Smoothness::Impassable => "impassable"@,
        Smoothness::VeryHorrible => "very_horrible"@,
        Smoothness::Horrible => "horrible"@,
        Smoothness::VeryBad => "very_bad"@,
        Smoothness::Bad => "bad"@,
        Smoothness::Intermediate => "intermediate"@,
        Smoothness::Good => "good"@,
        Smoothness::Excellent => "excellent"@,
    }
}

/// The variant a value of `smoothness=*` names.
pub open spec fn spec_parse_smoothness(s: Seq<char>) -> Option<Smoothness> {
    if s == "impassable"@ {
        Some(Smoothness::Impassable)
    } else if s == "very_horrible"@ {
        Some(Smoothness::VeryHorrible)
    } else if s == "horrible"@ {
        Some(Smoothness::Horrible)
    } else if s == "very_bad"@ {
        Some(Smoothness::VeryBad)
    } else if s == "bad"@ {
        Some(Smoothness::Bad)
    } else if s == "intermediate"@ {
        Some(Smoothness::Intermediate)
    } else if s == "good"@ {
        Some(Smoothness::Good)
    } else if s == "excellent"@ {
        Some(Smoothness::Excellent)
    } else {
        None
    }
}

impl Smoothness {
    pub fn from_str(s: &str) -> (r: Option<Self>)
        ensures
            r == spec_parse_smoothness(s@),
    {
        if str_eq(s, "impassable") {
            Some(Smoothness::Impassable)
        } else if str_eq(s, "very_horrible") {
            Some(Smoothness::VeryHorrible)
        } else if str_eq(s, "horrible") {
            Some(Smoothness::Horrible)
        } else if str_eq(s, "very_bad") {
            Some(Smoothness::VeryBad)
        } else if str_eq(s, "bad") {
            Some(Smoothness::Bad)
        } else if str_eq(s, "intermediate") {
            Some(Smoothness::Intermediate)
        } else if str_eq(s, "good") {
            Some(Smoothness::Good)
        } else if str_eq(s, "excellent") {
            Some(Smoothness::Excellent)
        } else {
            None
        }
    }

    pub fn as_str(&self) -> (r: &'static str)
        ensures
            r@ == smoothness_name(*self),
    {
        match self {
            Smoothness::Impassable => "impassable",
            Smoothness::VeryHorrible => "very_horrible",
            Smoothness::Horrible => "horrible",
            Smoothness::VeryBad => "very_bad",
            Smoothness::Bad => "bad",
            Smoothness::Intermediate => "intermediate",
            Smoothness::Good => "good",
            Smoothness::Excellent => "excellent",
        }
    }

    /// From the value of `smoothness=*`.
    pub fn from_tags_default(tags: &Tags) -> (r: Tagged<Self>)
        ensures
            match lookup(tags@, "smoothness"@) {
                None => r is Untagged,
                Some(s) => match spec_parse_smoothness(s) {
                    Some(v) => r == Tagged::Known(v),
                    None => r matches Tagged::Unknown(u) && u@ == s,
                },
            },
    {
        match tags.get("smoothness") {
            Some(s) => match Self::from_str(s) {
                Some(v) => Tagged::Known(v),
                None => Tagged::Unknown(s.to_owned()),
            },
            None => Tagged::Untagged,
        }
    }
}

/// Access variants from <https://wiki.openstreetmap.org/wiki/Key:access#List_of_possible_values>
#[derive(Clone, Copy, Debug, PartialEq, Eq, Structural)]
pub enum Access {
    Yes,
    No,
    Private,
    Permissive,
    Permit,
    Destination,
    Delivery,
    Customers,
    Designated,
}

/// The value of `access=*` for each variant.
pub open spec fn access_name(v: Access) -> Seq<char> {
    match v {
        Access::Yes => "yes"@,
        Access::No => "no"@,
        Access::Private => "private"@,
        Access::Permissive => "permissive"@,
        Access::Permit => "permit"@,
        Access::Destination => "destination"@,
        Access::Delivery => "delivery"@,
        Access::Customers => "customers"@,
        Access::Designated => "designated"@,
    }
}

/// The variant a value of `access=*` names.
pub open spec fn spec_parse_access(s: Seq<char>) -> Option<Access> {
    if s == "yes"@ {
        Some(Access::Yes)
    } else if s == "no"@ {
        Some(Access::No)
    } else if s == "private"@ {
        Some(Access::Private)
    } else if s == "permissive"@ {
        Some(Access::Permissive)
    } else if s == "permit"@ {
        Some(Access::Permit)
    } else if s == "destination"@ {
        Some(Access::Destination)
    } else if s == "delivery"@ {
        Some(Access::Delivery)
    } else if s == "customers"@ {
        Some(Access::Customers)
    } else if s == "designated"@ {
        Some(Access::Designated)
    } else {
        None
    }
}

impl Access {
    pub fn from_str(s: &str) -> (r: Option<Self>)
        ensures
            r == spec_parse_access(s@),
    {
        if str_eq(s, "yes") {
            Some(Access::Yes)
        } else if str_eq(s, "no") {
            Some(Access::No)
        } else if str_eq(s, "private") {
            Some(Access::Private)
        } else if str_eq(s, "permissive") {
            Some(Access::Permissive)
        } else if str_eq(s, "permit") {
            Some(Access::Permit)
        } else if str_eq(s, "destination") {
            Some(Access::Destination)
        } else if str_eq(s, "delivery") {
            Some(Access::Delivery)
        } else if str_eq(s, "customers") {
            Some(Access::Customers)
        } else if str_eq(s, "designated") {
            Some(Access::Designated)
        } else {
            None
        }
    }

    pub fn as_str(&self) -> (r: &'static str)
        ensures
            r@ == access_name(*self),
    {
        match self {
            Access::Yes => "yes",
            Access::No => "no",
            Access::Private => "private",
            Access::Permissive => "permissive",
            Access::Permit => "permit",
            Access::Destination => "destination",
            Access::Delivery => "delivery",
            Access::Customers => "customers",
            Access::Designated => "designated",
        }
    }
}

/// The generic schemes of a way.
pub struct Schemes {
    pub name: Option<String>,
    pub reference: Option<String>,
    pub highway: Result<Option<Highway>, String>,
    pub lit: Result<Option<Lit>, TagError>,
    pub tracktype: Result<Option<TrackType>, TagError>,
    pub smoothness: Result<Option<Smoothness>, TagError>,
}

/// An optional owned string, by its characters.
pub open spec fn opt_string_view(o: Option<String>) -> Option<Seq<char>> {
    match o {
        Some(s) => Some(s@),
        None => None,
    }
}

/// A parsed tag as `Result<Option>`: an unknown value is an error naming the key.
pub open spec fn tag_result_matches<T>(
    r: Result<Option<T>, TagError>,
    key: Seq<char>,
    value: Option<Seq<char>>,
    parsed: Option<T>,
) -> bool {
    match value {
        None => r == Ok::<Option<T>, TagError>(None),
        Some(s) => match parsed {
            Some(v) => r == Ok::<Option<T>, TagError>(Some(v)),
            None => r matches Err(e) && e.key@ == key && e.val@ == s,
        },
    }
}

impl Schemes {
    /// Reads the generic schemes from the tags.
    pub fn from_tags(tags: &Tags) -> (r: Self)
        ensures
            opt_string_view(r.name) == lookup(tags@, "name"@),
            opt_string_view(r.reference) == lookup(tags@, "ref"@),
            match (r.highway, spec_highway_from_tags(tags@)) {
                (Ok(Some(h)), Ok((t, l))) => h.spec_type() == t && h.spec_lifecycle() == l,
                (Ok(None), Err(None)) => true,
                (Err(s), Err(Some(v))) => s@ == v,
                _ => false,
            },
            tag_result_matches(
                r.lit,
                "lit"@,
                lookup(tags@, "lit"@),
                match lookup(tags@, "lit"@) {
                    Some(s) => spec_parse_lit(s),
                    None => None,
                },
            ),
            tag_result_matches(
                r.tracktype,
                "tracktype"@,
                lookup(tags@, "tracktype"@),
                match lookup(tags@, "tracktype"@) {
                    Some(s) => spec_parse_track_type(s),
                    None => None,
                },
            ),
            tag_result_matches(
                r.smoothness,
                "smoothness"@,
                lookup(tags@, "smoothness"@),
                match lookup(tags@, "smoothness"@) {
                    Some(s) => spec_parse_smoothness(s),
                    None => None,
                },
            ),
    {
        let name = match tags.get("name") {
            Some(s) => Some(s.to_owned()),
            None => None,
        };
        let reference = match tags.get("ref") {
            Some(s) => Some(s.to_owned()),
            None => None,
        };
        let highway = match Highway::from_tags(tags) {
            Ok(h) => Ok(Some(h)),
            Err(None) => Ok(None),
            Err(Some(s)) => Err(s),
        };
        let lit = Lit::from_tags_default(tags).ok_with(TagKey::from_ref("lit"));
        let tracktype = TrackType::from_tags_default(tags).ok_with(TagKey::from_ref("tracktype"));
        let smoothness = Smoothness::from_tags_default(tags).ok_with(TagKey::from_ref("smoothness"));
        Schemes { name, reference, highway, lit, tracktype, smoothness }
    }
}


/// The value of each variant of `Lit` reads back as that variant.
pub proof fn lemma_lit_name_parses(v: Lit)
    ensures
        spec_parse_lit(lit_name(v)) == Some(v),
{
    reveal_strlit("yes");
    reveal_strlit("no");
    reveal_strlit("sunset-sunrise");
    reveal_strlit("automatic");
    assert("yes"@.len() == 3);
    assert("no"@.len() == 2);
    assert("sunset-sunrise"@.len() == 14);
    assert("automatic"@.len() == 9);
}

/// The value of each variant of `TrackType` reads back as that variant.
pub proof fn lemma_track_type_name_parses(v: TrackType)
    ensures
        spec_parse_track_type(track_type_name(v)) == Some(v),
{
    reveal_strlit("grade1");
    reveal_strlit("grade2");
    reveal_strlit("grade3");
    reveal_strlit("grade4");
    reveal_strlit("grade5");
    assert("grade1"@.len() == 6);
    assert("grade2"@.len() == 6);
    assert("grade3"@.len() == 6);
    assert("grade4"@.len() == 6);
    assert("grade5"@.len() == 6);
    assert("grade1"@[5] == '1');
    assert("grade2"@[5] == '2');
    assert("grade3"@[5] == '3');
    assert("grade4"@[5] == '4');
    assert("grade5"@[5] == '5');
}

/// The value of each variant of `Smoothness` reads back as that variant.
pub proof fn lemma_smoothness_name_parses(v: Smoothness)
    ensures
        spec_parse_smoothness(smoothness_name(v)) == Some(v),
{
    reveal_strlit("impassable");
    reveal_strlit("very_horrible");
    reveal_strlit("horrible");
    reveal_strlit("very_bad");
    reveal_strlit("bad");
    reveal_strlit("intermediate");
    reveal_strlit("good");
    reveal_strlit("excellent");
    assert("impassable"@.len() == 10);
    assert("very_horrible"@.len() == 13);
    assert("horrible"@.len() == 8);
    assert("very_bad"@.len() == 8);
    assert("horrible"@[0] == 'h');
    assert("very_bad"@[0] == 'v');
    assert("bad"@.len() == 3);
    assert("intermediate"@.len() == 12);
    assert("good"@.len() == 4);
    assert("excellent"@.len() == 9);
}

/// The value of each variant of `Access` reads back as that variant.
pub proof fn lemma_access_name_parses(v: Access)
    ensures
        spec_parse_access(access_name(v)) == Some(v),
{
    reveal_strlit("yes");
    reveal_strlit("no");
    reveal_strlit("private");
    reveal_strlit("permissive");
    reveal_strlit("permit");
    reveal_strlit("destination");
    reveal_strlit("delivery");
    reveal_strlit("customers");
    reveal_strlit("designated");
    assert("yes"@.len() == 3);
    assert("no"@.len() == 2);
    assert("private"@.len() == 7);
    assert("permissive"@.len() == 10);
    assert("designated"@.len() == 10);
    assert("permissive"@[0] == 'p');
    assert("designated"@[0] == 'd');
    assert("permit"@.len() == 6);
    assert("destination"@.len() == 11);
    assert("delivery"@.len() == 8);
    assert("customers"@.len() == 9);
}

} // verus!
