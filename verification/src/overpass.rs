//! What an answer of the Overpass API holds: elements with their tags, from
//! which the tags of a way and the locale around it are read.

use vstd::prelude::*;

use crate::locale::{celes_alpha2_country, celes_alpha3_country, opt_view, side_name, spec_iso_3166, DrivingSide, Locale};
use crate::tags::{lookup, opt_str_view, Tags};

verus! {

/// The type of an element.
#[derive(Clone, Copy, Debug, PartialEq, Eq, Structural)]
pub enum ElementType {
    Node,
    Way,
    Area,
}

/// An element of an answer: its type, identifier and tags. Its geometry, in
/// floating point, stays with the caller.
#[derive(Debug)]
pub struct Element {
    pub element_type: ElementType,
    pub id: u64,
    pub tags: Tags,
}

/// The elements of an answer, in their order.
#[derive(Debug)]
pub struct OverpassResponse {
    pub elements: Vec<Element>,
}

/// Why an answer does not give the way asked for.
#[derive(Clone, Copy, Debug, PartialEq, Eq, Structural)]
pub enum OverpassError {
    /// No element.
    Empty,
    /// Not the one way asked for.
    Malformed,
}

impl OverpassError {
    /// What the error says.
    pub open spec fn spec_text(self) -> Seq<char> {
        match self {
            OverpassError::Empty => "overpass response empty"@,
            OverpassError::Malformed => "overpass response malformed"@,
        }
    }

    /// The error as written.
    pub fn to_string(&self) -> (r: String)
        ensures
            r@ == self.spec_text(),
    {
        match self {
            OverpassError::Empty => "overpass response empty".to_owned(),
            OverpassError::Malformed => "overpass response malformed".to_owned(),
        }
    }
}

/// The first value under `key` among the tags of the elements.
pub open spec fn first_tag(elements: Seq<Element>, key: Seq<char>) -> Option<Seq<char>>
    decreases elements.len(),
{
    if elements.len() == 0 {
        None
    } else {
        match lookup(elements[0].tags@, key) {
            Some(v) => Some(v),
            None => first_tag(elements.drop_first(), key),
        }
    }
}

proof fn lemma_first_tag(elements: Seq<Element>, key: Seq<char>, i: int)
    requires
        0 <= i <= elements.len(),
        forall|j: int| 0 <= j < i ==> lookup((#[trigger] elements[j]).tags@, key) is None,
    ensures
        first_tag(elements, key) == if i < elements.len() && lookup(elements[i].tags@, key) is Some {
            lookup(elements[i].tags@, key)
        } else if i < elements.len() {
            first_tag(elements.skip(i + 1), key)
        } else {
            None
        },
    decreases i,
{
    if i > 0 {
        let t = elements.drop_first();
        assert forall|j: int| 0 <= j < i - 1 implies lookup((#[trigger] t[j]).tags@, key) is None by {
            assert(t[j] == elements[j + 1]);
        }
        assert(lookup(elements[0].tags@, key) is None);
        lemma_first_tag(t, key, i - 1);
        if i < elements.len() {
            assert(t[i - 1] == elements[i]);
            assert(t.skip(i) =~= elements.skip(i + 1));
        }
    } else if elements.len() > 0 {
        assert(elements.skip(1) =~= elements.drop_first());
    }
}

/// The first value under `key` among the tags of the elements.
fn find_tag<'a>(elements: &'a Vec<Element>, key: &str) -> (r: Option<&'a str>)
    ensures
        opt_str_view(r) == first_tag(elements@, key@),
{
    let mut i: usize = 0;
    while i < elements.len()
        invariant
            i <= elements@.len(),
            forall|j: int| 0 <= j < i ==> lookup((#[trigger] elements@[j]).tags@, key@) is None,
        decreases elements@.len() - i,
    {
        match elements[i].tags.get(key) {
            Some(v) => {
                proof {
                    lemma_first_tag(elements@, key@, i as int);
                }
                return Some(v);
            },
            None => {},
        }
        i = i + 1;
    }
    proof {
        lemma_first_tag(elements@, key@, i as int);
    }
    None
}

/// The code of the locale: the first ISO 3166-2 code, else the first ISO
/// 3166-1 code.
pub open spec fn locale_code(elements: Seq<Element>) -> Option<Seq<char>> {
    match first_tag(elements, "ISO3166-2"@) {
        Some(c) => Some(c),
        None => first_tag(elements, "ISO3166-1"@),
    }
}

/// A code that `Config::iso_3166` can read.
pub open spec fn code_readable(c: Seq<char>) -> bool {
    forall|s: &str| s@ == c ==> (#[trigger] spec_iso_3166(s)) is Some
}

/// The country and subdivision of a locale are those of the codes read.
pub open spec fn locale_from_codes(
    codes: (Option<Seq<char>>, Option<Seq<char>>, Option<Seq<char>>),
    r: Locale,
) -> bool {
    let (a2, a3, sub) = codes;
    &&& opt_view(r.iso_3166_2_subdivision) == sub
    &&& match (a2, a3) {
        (Some(a), _) => match r.country {
            Some(c) => celes_alpha2_country(a) == Some(c@),
            None => celes_alpha2_country(a) is None,
        },
        (None, Some(a)) => match r.country {
            Some(c) => celes_alpha3_country(a) == Some(c@),
            None => celes_alpha3_country(a) is None,
        },
        (None, None) => r.country is None,
    }
}

/// The driving side as tagged: left where `driving_side=left`, right
/// otherwise.
pub open spec fn tagged_side(elements: Seq<Element>) -> DrivingSide {
    if first_tag(elements, "driving_side"@) == Some("left"@) {
        DrivingSide::Left
    } else {
        DrivingSide::Right
    }
}

impl OverpassResponse {
    /// The first ISO 3166-2 code among the elements.
    pub fn iso3166_2(&self) -> (r: Option<&str>)
        ensures
            opt_str_view(r) == first_tag(self.elements@, "ISO3166-2"@),
    {
        find_tag(&self.elements, "ISO3166-2")
    }

    /// The first ISO 3166-1 code among the elements.
    pub fn iso3166_1(&self) -> (r: Option<&str>)
        ensures
            opt_str_view(r) == first_tag(self.elements@, "ISO3166-1"@),
    {
        find_tag(&self.elements, "ISO3166-1")
    }

    /// The first driving side among the elements.
    pub fn driving_side(&self) -> (r: Option<&str>)
        ensures
            opt_str_view(r) == first_tag(self.elements@, "driving_side"@),
    {
        find_tag(&self.elements, "driving_side")
    }

    /// The locale of the elements: the driving side tagged, right by default,
    /// and the country of the ISO 3166-2 code, else of the ISO 3166-1 code.
    pub fn locale(&self) -> (r: Locale)
        requires
            first_tag(self.elements@, "driving_side"@) matches Some(d) ==> d == "right"@ || d
                == "left"@,
            locale_code(self.elements@) matches Some(c) ==> code_readable(c),
        ensures
            r.driving_side == tagged_side(self.elements@),
            match locale_code(self.elements@) {
                Some(c) => forall|s: &str| s@ == c ==> locale_from_codes(#[trigger] spec_iso_3166(s).unwrap(), r),
                None => r.country is None && r.iso_3166_2_subdivision is None,
            },
    {
        let side = match self.driving_side() {
            Some(d) => match DrivingSide::from_str(d) {
                Ok(side) => side,
                Err(_) => {
                    proof {
                        reveal_strlit("right");
                        reveal_strlit("left");
                        assert("right"@ =~= side_name(DrivingSide::Right));
                        assert("left"@ =~= side_name(DrivingSide::Left));
                        assert(false);
                    }
                    DrivingSide::Right
                },
            },
            None => DrivingSide::Right,
        };
        proof {
            reveal_strlit("right");
            reveal_strlit("left");
            assert("left"@ =~= side_name(DrivingSide::Left));
            assert("right"@ =~= side_name(DrivingSide::Right));
        }
        let code = match self.iso3166_2() {
            Some(c) => Some(c),
            None => self.iso3166_1(),
        };
        let r = Locale::builder().driving_side(side).iso_3166_option(code).build();
        proof {
            match code {
                Some(c) => {
                    assert forall|s: &str| s@ == c@ implies locale_from_codes(
                        #[trigger] spec_iso_3166(s).unwrap(),
                        r,
                    ) by {
                        assert(s.len() == c.len());
                        assert(spec_iso_3166(s) == spec_iso_3166(c));
                    }
                },
                None => {},
            }
        }
        r
    }

    /// The tags of the way asked for: the answer must hold one element, that
    /// way.
    pub fn way_tags(self, id: u64) -> (r: Result<Tags, OverpassError>)
        ensures
            self.elements@.len() == 0 ==> r == Err::<Tags, OverpassError>(OverpassError::Empty),
            self.elements@.len() > 1 ==> r == Err::<Tags, OverpassError>(OverpassError::Malformed),
            self.elements@.len() == 1 ==> match r {
                Ok(t) => self.elements@[0].element_type == ElementType::Way && self.elements@[0].id == id
                    && t == self.elements@[0].tags,
                Err(e) => e == OverpassError::Malformed && !(self.elements@[0].element_type
                    == ElementType::Way && self.elements@[0].id == id),
            },
    {
        let mut elements = self.elements;
        let way = match elements.pop() {
            Some(e) => e,
            None => return Err(OverpassError::Empty),
        };
        if elements.len() != 0 || way.element_type != ElementType::Way || way.id != id {
            return Err(OverpassError::Malformed);
        }
        Ok(way.tags)
    }

    /// The first element, where it is the way asked for.
    pub fn way_element(self, id: u64) -> (r: Result<Element, OverpassError>)
        ensures
            self.elements@.len() == 0 ==> r == Err::<Element, OverpassError>(OverpassError::Empty),
            self.elements@.len() > 0 ==> match r {
                Ok(e) => self.elements@[0].element_type == ElementType::Way && self.elements@[0].id == id
                    && e == self.elements@[0],
                Err(e) => e == OverpassError::Malformed && !(self.elements@[0].element_type
                    == ElementType::Way && self.elements@[0].id == id),
            },
    {
        let mut elements = self.elements;
        elements.truncate(1);
        let way = match elements.pop() {
            Some(e) => e,
            None => return Err(OverpassError::Empty),
        };
        if way.element_type != ElementType::Way || way.id != id {
            return Err(OverpassError::Malformed);
        }
        Ok(way)
    }
}

} // verus!
