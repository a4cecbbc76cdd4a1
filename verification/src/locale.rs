//! Context about the place where an OSM way exists: its country and driving side.

use vstd::prelude::*;

use crate::highway::{HighwayImportance, HighwayType};
use crate::metric::Metre;
use crate::road::{Color, Designated};
use crate::tags::TagKey;
use crate::text::{chars_of, split_once_chars, str_eq, string_from_chars};

verus! {

/// The country that `celes::Country::from_alpha2` finds for a code, if it
/// finds one: its numeric, two letter and three letter codes.
pub uninterp spec fn celes_alpha2_country(code: Seq<char>) -> Option<(usize, Seq<char>, Seq<char>)>;

/// The country that `celes::Country::from_alpha3` finds for a code, if it
/// finds one: its numeric, two letter and three letter codes.
pub uninterp spec fn celes_alpha3_country(code: Seq<char>) -> Option<(usize, Seq<char>, Seq<char>)>;

/// The region code that `locale_codes::country::lookup` gives a country code.
pub uninterp spec fn region_code_of(code: Seq<char>) -> Option<u16>;

/// The region name that `locale_codes::region::lookup` gives a region code.
pub uninterp spec fn region_name_of(code: u16) -> Option<Seq<char>>;

/// A country according to ISO 3166; two countries are equal when their
/// numeric codes are.
#[derive(Debug)]
pub struct Country {
    /// The ISO 3166-1 numeric code.
    pub value: usize,
    /// The two letter code.
    pub alpha2: String,
    /// The three letter code.
    pub alpha3: String,
}

impl View for Country {
    type V = (usize, Seq<char>, Seq<char>);

    open spec fn view(&self) -> (usize, Seq<char>, Seq<char>) {
        (self.value, self.alpha2@, self.alpha3@)
    }
}

impl PartialEq for Country {
    fn eq(&self, other: &Self) -> (r: bool) {
        self.value == other.value
    }
}

impl vstd::std_specs::cmp::PartialEqSpecImpl for Country {
    open spec fn obeys_eq_spec() -> bool {
        true
    }

    open spec fn eq_spec(&self, other: &Country) -> bool {
        self.value == other.value
    }
}

impl Clone for Country {
    fn clone(&self) -> (r: Self)
        ensures
            r.value == self.value,
            r.alpha2@ == self.alpha2@,
            r.alpha3@ == self.alpha3@,
    {
        Country { value: self.value, alpha2: self.alpha2.clone(), alpha3: self.alpha3.clone() }
    }
}

/// Calls `celes::Country::from_alpha2`, which lowercases the code (Unicode
/// lowercasing) and looks it up in a fixed table. The contract names the
/// codes of what it finds.
#[verifier::external_body]
fn celes_from_alpha2(code: &str) -> (r: Option<Country>)
    ensures
        match r {
            Some(c) => celes_alpha2_country(code@) == Some(c@),
            None => celes_alpha2_country(code@) is None,
        },
{
    celes::Country::from_alpha2(code).ok().map(
        |c| Country { value: c.value, alpha2: c.alpha2.to_owned(), alpha3: c.alpha3.to_owned() },
    )
}

/// Calls `celes::Country::from_alpha3`, which lowercases the code (Unicode
/// lowercasing) and looks it up in a fixed table. The contract names the
/// codes of what it finds.
#[verifier::external_body]
fn celes_from_alpha3(code: &str) -> (r: Option<Country>)
    ensures
        match r {
            Some(c) => celes_alpha3_country(code@) == Some(c@),
            None => celes_alpha3_country(code@) is None,
        },
{
    celes::Country::from_alpha3(code).ok().map(
        |c| Country { value: c.value, alpha2: c.alpha2.to_owned(), alpha3: c.alpha3.to_owned() },
    )
}

/// Calls `celes::Country::the_netherlands`, whose source gives the numeric
/// code 528 and the codes NL and NLD.
#[verifier::external_body]
fn celes_the_netherlands() -> (r: Country)
    ensures
        r.value == 528,
        r.alpha2@ == seq!['N', 'L'],
        r.alpha3@ == seq!['N', 'L', 'D'],
{
    let c = celes::Country::the_netherlands();
    Country { value: c.value, alpha2: c.alpha2.to_owned(), alpha3: c.alpha3.to_owned() }
}

/// Calls `celes::Country::the_united_kingdom_of_great_britain_and_northern_ireland`,
/// whose source gives the numeric code 826 and the codes GB and GBR.
#[verifier::external_body]
fn celes_the_united_kingdom() -> (r: Country)
    ensures
        r.value == 826,
        r.alpha2@ == seq!['G', 'B'],
        r.alpha3@ == seq!['G', 'B', 'R'],
{
    let c = celes::Country::the_united_kingdom_of_great_britain_and_northern_ireland();
    Country { value: c.value, alpha2: c.alpha2.to_owned(), alpha3: c.alpha3.to_owned() }
}

/// Calls `celes::Country::germany`, whose source gives the numeric code 276
/// and the codes DE and DEU.
#[verifier::external_body]
fn celes_germany() -> (r: Country)
    ensures
        r.value == 276,
        r.alpha2@ == seq!['D', 'E'],
        r.alpha3@ == seq!['D', 'E', 'U'],
{
    let c = celes::Country::germany();
    Country { value: c.value, alpha2: c.alpha2.to_owned(), alpha3: c.alpha3.to_owned() }
}

/// Calls `celes::Country::get_countries`, whose source gives a table of 250
/// countries with pairwise distinct two letter codes. Each is what
/// `celes::Country::from_alpha2` finds by its own code, and whatever that
/// function finds is in the table. The order of the table is not stated.
#[verifier::external_body]
pub(crate) fn celes_countries() -> (r: Vec<Country>)
    ensures
        r@.len() == 250,
        forall|i: int| 0 <= i < r@.len() ==> celes_alpha2_country((#[trigger] r@[i]).alpha2@) == Some(r@[i]@),
        forall|i: int, j: int| 0 <= i < j < r@.len() ==> (#[trigger] r@[i]).alpha2@ != (#[trigger] r@[j]).alpha2@,
        forall|code: Seq<char>|
            #[trigger] celes_alpha2_country(code) matches Some(v) ==> exists|i: int|
                0 <= i < r@.len() && (#[trigger] r@[i])@ == v,
{
    celes::Country::get_countries().iter().map(
        |c| Country { value: c.value, alpha2: c.alpha2.to_owned(), alpha3: c.alpha3.to_owned() },
    ).collect()
}

/// Calls `locale_codes::country::lookup` and reads the region code of what it
/// finds. That function asserts that the code is two or three bytes long.
#[verifier::external_body]
fn locale_region_code(code: &str) -> (r: Option<u16>)
    requires
        code.len() == 2 || code.len() == 3,
    ensures
        r == region_code_of(code@),
{
    locale_codes::country::lookup(code).and_then(|c| c.region_code)
}

/// Calls `locale_codes::region::lookup` and reads the name of what it finds.
#[verifier::external_body]
fn locale_region_name(code: u16) -> (r: Option<String>)
    ensures
        match r {
            Some(s) => region_name_of(code) == Some(s@),
            None => region_name_of(code) is None,
        },
{
    locale_codes::region::lookup(code).map(|region| region.name.clone())
}

impl Country {
    /// The country with the given two letter code, in any case.
    pub fn from_alpha2(code: &str) -> (r: Option<Country>)
        ensures
            match r {
                Some(c) => celes_alpha2_country(code@) == Some(c@),
                None => celes_alpha2_country(code@) is None,
            },
    {
        celes_from_alpha2(code)
    }

    /// The country with the given three letter code, in any case.
    pub fn from_alpha3(code: &str) -> (r: Option<Country>)
        ensures
            match r {
                Some(c) => celes_alpha3_country(code@) == Some(c@),
                None => celes_alpha3_country(code@) is None,
            },
    {
        celes_from_alpha3(code)
    }

    /// The Netherlands.
    pub fn the_netherlands() -> (r: Country)
        ensures
            r.value == 528,
            r.alpha3@ == seq!['N', 'L', 'D'],
    {
        celes_the_netherlands()
    }

    /// The United Kingdom.
    pub fn the_united_kingdom_of_great_britain_and_northern_ireland() -> (r: Country)
        ensures
            r.value == 826,
            r.alpha3@ == seq!['G', 'B', 'R'],
    {
        celes_the_united_kingdom()
    }

    /// Germany.
    pub fn germany() -> (r: Country)
        ensures
            r.value == 276,
            r.alpha3@ == seq!['D', 'E', 'U'],
    {
        celes_germany()
    }
}

/// The numeric code of the Netherlands.
pub open spec fn netherlands_value() -> usize {
    528
}

/// The numeric code of the United Kingdom.
pub open spec fn united_kingdom_value() -> usize {
    826
}

/// Whether the locale is in the country with the given numeric code.
pub open spec fn in_country(country: Option<Country>, value: usize) -> bool {
    country matches Some(c) && c.value == value
}

/// Do vehicles travel on the right or left side of a road?
#[derive(Clone, Copy, Debug, PartialEq, Eq, Structural)]
pub enum DrivingSide {
    Right,
    Left,
}

/// The name of a driving side, as tags write it.
pub open spec fn side_name(s: DrivingSide) -> Seq<char> {
    match s {
        DrivingSide::Right => seq!['r', 'i', 'g', 'h', 't'],
        DrivingSide::Left => seq!['l', 'e', 'f', 't'],
    }
}

impl DrivingSide {
    /// The other side.
    pub open spec fn spec_opposite(self) -> DrivingSide {
        match self {
            DrivingSide::Right => DrivingSide::Left,
            DrivingSide::Left => DrivingSide::Right,
        }
    }

    /// The other side.
    pub fn opposite(&self) -> (r: Self)
        ensures
            r == self.spec_opposite(),
    {
        match self {
            Self::Right => Self::Left,
            Self::Left => Self::Right,
        }
    }

    /// `right` or `left`.
    pub fn from_str(s: &str) -> (r: Result<Self, String>)
        ensures
            match r {
                Ok(d) => side_name(d) == s@,
                Err(e) => e@ == s@ && s@ != side_name(DrivingSide::Right) && s@ != side_name(
                    DrivingSide::Left,
                ),
            },
    {
        proof {
            reveal_strlit("right");
            reveal_strlit("left");
            assert("right"@ =~= side_name(DrivingSide::Right));
            assert("left"@ =~= side_name(DrivingSide::Left));
        }
        if str_eq(s, "right") {
            Ok(Self::Right)
        } else if str_eq(s, "left") {
            Ok(Self::Left)
        } else {
            Err(s.to_owned())
        }
    }

    /// `right` or `left`.
    pub fn to_string(&self) -> (r: String)
        ensures
            r@ == side_name(*self),
    {
        proof {
            reveal_strlit("right");
            reveal_strlit("left");
        }
        match self {
            Self::Right => "right".to_owned(),
            Self::Left => "left".to_owned(),
        }
    }

    /// The side as a key part: `right` or `left`.
    pub fn tag(&self) -> (r: TagKey)
        ensures
            r@ == side_name(*self),
    {
        proof {
            reveal_strlit("right");
            reveal_strlit("left");
        }
        match self {
            Self::Right => TagKey::from_ref("right"),
            Self::Left => TagKey::from_ref("left"),
        }
    }
}

/// Taking the opposite side twice gives the side back.
pub proof fn lemma_driving_side_opposite_involution(s: DrivingSide)
    ensures
        s.spec_opposite().spec_opposite() == s,
        s.spec_opposite() != s,
{
}

/// Writing a driving side and reading it back gives the side.
pub proof fn lemma_driving_side_name_roundtrip(a: DrivingSide, b: DrivingSide)
    ensures
        side_name(a) == side_name(b) <==> a == b,
{
    if a != b {
        assert(side_name(a).len() != side_name(b).len());
    }
}

/// A side of a way.
#[derive(Clone, Copy, Debug, PartialEq, Eq, Structural)]
pub enum WaySide {
    Both,
    Right,
    Left,
}

/// The name of a way side, as tags write it.
pub open spec fn way_side_name(s: WaySide) -> Seq<char> {
    match s {
        WaySide::Both => seq!['b', 'o', 't', 'h'],
        WaySide::Right => seq!['r', 'i', 'g', 'h', 't'],
        WaySide::Left => seq!['l', 'e', 'f', 't'],
    }
}

impl WaySide {
    /// `both`, `right` or `left`.
    pub fn as_str(&self) -> (r: &'static str)
        ensures
            r@ == way_side_name(*self),
    {
        proof {
            reveal_strlit("both");
            reveal_strlit("right");
            reveal_strlit("left");
        }
        match self {
            Self::Both => "both",
            Self::Right => "right",
            Self::Left => "left",
        }
    }

    /// The way side of a driving side.
    pub fn from_driving_side(side: DrivingSide) -> (r: Self)
        ensures
            way_side_name(r) == side_name(side),
            r != WaySide::Both,
    {
        match side {
            DrivingSide::Right => Self::Right,
            DrivingSide::Left => Self::Left,
        }
    }
}

/// Context about the place where an OSM way exists.
#[derive(Debug)]
pub struct Locale {
    /// The ISO 3166 country.
    pub country: Option<Country>,
    pub iso_3166_2_subdivision: Option<String>,
    /// The driving side.
    pub driving_side: DrivingSide,
}

/// The width of a travel lane in millimetres, by who it is designated for.
pub open spec fn spec_travel_width(country: Option<Country>, designated: Designated) -> i64 {
    match designated {
        Designated::Motor | Designated::Bus => if in_country(country, united_kingdom_value()) {
            3000
        } else if in_country(country, netherlands_value()) {
            3350
        } else {
            3500
        },
        Designated::Foot => 2500,
        Designated::Bicycle => 2000,
    }
}

/// Whether the region of a country is the Americas, as `locale_codes` knows it.
pub open spec fn in_americas(country: Option<Country>) -> bool {
    match country {
        Some(c) => {
            &&& c.alpha3@.len() == 3
            &&& vstd::string::string_is_ascii(&c.alpha3)
            &&& region_code_of(c.alpha3@) matches Some(rc)
            &&& region_name_of(rc) == Some(seq!['A', 'm', 'e', 'r', 'i', 'c', 'a', 's'])
        },
        None => false,
    }
}

/// Highway types with two lanes in opposite directions when no lanes are tagged.
pub open spec fn spec_has_split_lanes(highway: HighwayType) -> bool {
    match highway {
        HighwayType::Classified(_) | HighwayType::Link(_) | HighwayType::Residential => true,
        _ => false,
    }
}

/// Highway types with shoulders by default.
pub open spec fn spec_has_shoulder(highway: HighwayType) -> bool {
    match highway {
        HighwayType::Classified(i) | HighwayType::Link(i) => i != HighwayImportance::Tertiary,
        _ => false,
    }
}

impl Locale {
    /// A configuration to build a locale with.
    pub fn builder() -> (r: Config)
        ensures
            r.iso_3166_1_alpha_2 is None,
            r.iso_3166_1_alpha_3 is None,
            r.iso_3166_2_subdivision is None,
            r.country is None,
            r.driving_side is None,
    {
        Config::new()
    }

    /// Whether the locale is in the country with the given numeric code.
    fn is_country(&self, value: usize) -> (r: bool)
        ensures
            r == in_country(self.country, value),
    {
        match &self.country {
            Some(c) => c.value == value,
            None => false,
        }
    }

    /// The width of a travel lane designated for `designated`.
    pub fn travel_width(&self, designated: &Designated, _highway: HighwayType) -> (r: Metre)
        ensures
            r.millimetres == spec_travel_width(self.country, *designated),
    {
        match designated {
            Designated::Motor | Designated::Bus => {
                if self.is_country(826) {
                    Metre::from_millimetres(3000)
                } else if self.is_country(528) {
                    Metre::from_millimetres(3350)
                } else {
                    Metre::from_millimetres(3500)
                }
            },
            Designated::Foot => Metre::from_millimetres(2500),
            Designated::Bicycle => Metre::from_millimetres(2000),
        }
    }

    /// Road paint colour separating opposite directions of motor traffic:
    /// yellow in the Americas, white elsewhere.
    pub fn separator_motor_color(&self) -> (r: Color)
        ensures
            r == if in_americas(self.country) {
                Color::Yellow
            } else {
                Color::White
            },
    {
        broadcast use vstd::string::is_ascii_spec_bytes;

        match &self.country {
            None => Color::White,
            Some(c) => {
                let code = c.alpha3.as_str();
                if !code.is_ascii() || code.unicode_len() != 3 {
                    return Color::White;
                }
                assert(code.len() == 3);
                match locale_region_code(code) {
                    None => Color::White,
                    Some(rc) => match locale_region_name(rc) {
                        Some(name) => {
                            proof {
                                reveal_strlit("Americas");
                                assert("Americas"@ =~= seq!['A', 'm', 'e', 'r', 'i', 'c', 'a', 's']);
                            }
                            if str_eq(name.as_str(), "Americas") {
                                Color::Yellow
                            } else {
                                Color::White
                            }
                        },
                        None => Color::White,
                    },
                }
            },
        }
    }

    /// Road marking width separating opposite directions of motor traffic.
    pub fn separator_motor_width(&self) -> (r: Metre)
        ensures
            r.millimetres == if in_country(self.country, united_kingdom_value()) {
                100i64
            } else {
                200i64
            },
    {
        if self.is_country(826) {
            Metre::from_millimetres(100)
        } else {
            Metre::from_millimetres(200)
        }
    }

    /// Whether a highway without `lanes=*` has two lanes in opposite directions
    /// (rather than one lane with travel in both directions).
    pub fn has_split_lanes(&self, highway: HighwayType) -> (r: bool)
        ensures
            r == spec_has_split_lanes(highway),
    {
        match highway {
            HighwayType::Classified(_) | HighwayType::Link(_) | HighwayType::Residential => true,
            _ => false,
        }
    }

    /// Whether a highway has shoulders by default.
    pub fn has_shoulder(&self, highway: HighwayType) -> (r: bool)
        ensures
            r == spec_has_shoulder(highway),
    {
        match highway {
            HighwayType::Classified(i) | HighwayType::Link(i) => match i {
                HighwayImportance::Tertiary => false,
                _ => true,
            },
            _ => false,
        }
    }
}

/// Configuration to build a locale.
#[derive(Debug)]
pub struct Config {
    pub iso_3166_1_alpha_2: Option<String>,
    pub iso_3166_1_alpha_3: Option<String>,
    pub iso_3166_2_subdivision: Option<String>,
    pub country: Option<Country>,
    pub driving_side: Option<DrivingSide>,
}

/// What `Config::iso_3166` does with a code: the two letter code, the three
/// letter code and the subdivision it records, or `None` where it cannot read
/// the code.
pub open spec fn spec_iso_3166(code: &str) -> Option<
    (Option<Seq<char>>, Option<Seq<char>>, Option<Seq<char>>),
> {
    if code.len() == 2 {
        Some((Some(code@), None, None))
    } else if code.len() == 3 {
        Some((None, Some(code@), None))
    } else {
        match crate::text::split_once_at(code@, '-') {
            Some((a, b)) => Some((Some(a), None, Some(b))),
            None => None,
        }
    }
}

/// The view of an optional string.
pub open spec fn opt_view(o: Option<String>) -> Option<Seq<char>> {
    match o {
        Some(s) => Some(s@),
        None => None,
    }
}

impl Config {
    /// An empty configuration.
    pub fn new() -> (r: Self)
        ensures
            r.iso_3166_1_alpha_2 is None,
            r.iso_3166_1_alpha_3 is None,
            r.iso_3166_2_subdivision is None,
            r.country is None,
            r.driving_side is None,
    {
        Config {
            iso_3166_1_alpha_2: None,
            iso_3166_1_alpha_3: None,
            iso_3166_2_subdivision: None,
            country: None,
            driving_side: None,
        }
    }

    /// Assigns an ISO 3166 code: ISO 3166-1 alpha-2, ISO 3166-1 alpha-3, or an
    /// ISO 3166-2 code (`alpha-2` `-` subdivision). A code that is none of these
    /// is not accepted.
    pub fn iso_3166(self, code: &str) -> (r: Self)
        requires
            spec_iso_3166(code) is Some,
        ensures
            ({
                let (a2, a3, sub) = spec_iso_3166(code).unwrap();
                &&& opt_view(r.iso_3166_1_alpha_2) == if a2 is Some {
                    a2
                } else {
                    opt_view(self.iso_3166_1_alpha_2)
                }
                &&& opt_view(r.iso_3166_1_alpha_3) == if a3 is Some {
                    a3
                } else {
                    opt_view(self.iso_3166_1_alpha_3)
                }
                &&& opt_view(r.iso_3166_2_subdivision) == if sub is Some {
                    sub
                } else {
                    opt_view(self.iso_3166_2_subdivision)
                }
            }),
            r.country == self.country,
            r.driving_side == self.driving_side,
    {
        let mut s = self;
        if code.len() == 2 {
            s.iso_3166_1_alpha_2 = Some(code.to_owned());
        } else if code.len() == 3 {
            s.iso_3166_1_alpha_3 = Some(code.to_owned());
        } else {
            let cs = chars_of(code);
            match split_once_chars(cs.as_slice(), '-') {
                Some((alpha_2, subdivision)) => {
                    s.iso_3166_1_alpha_2 = Some(string_from_chars(alpha_2.as_slice()));
                    s.iso_3166_2_subdivision = Some(string_from_chars(subdivision.as_slice()));
                },
                None => {
                    assert(false);
                },
            }
        }
        s
    }

    /// Assigns an ISO 3166 code when one is given.
    pub fn iso_3166_option(self, code: Option<&str>) -> (r: Self)
        requires
            code matches Some(c) ==> spec_iso_3166(c) is Some,
        ensures
            code is None ==> r == self,
            code matches Some(c) ==> ({
                let (a2, a3, sub) = spec_iso_3166(c).unwrap();
                &&& opt_view(r.iso_3166_1_alpha_2) == if a2 is Some {
                    a2
                } else {
                    opt_view(self.iso_3166_1_alpha_2)
                }
                &&& opt_view(r.iso_3166_1_alpha_3) == if a3 is Some {
                    a3
                } else {
                    opt_view(self.iso_3166_1_alpha_3)
                }
                &&& opt_view(r.iso_3166_2_subdivision) == if sub is Some {
                    sub
                } else {
                    opt_view(self.iso_3166_2_subdivision)
                }
                &&& r.country == self.country
                &&& r.driving_side == self.driving_side
            }),
    {
        match code {
            Some(code) => self.iso_3166(code),
            None => self,
        }
    }

    /// Assigns the country.
    pub fn country(self, country: Country) -> (r: Self)
        ensures
            r.country == Some(country),
            r.iso_3166_1_alpha_2 == self.iso_3166_1_alpha_2,
            r.iso_3166_1_alpha_3 == self.iso_3166_1_alpha_3,
            r.iso_3166_2_subdivision == self.iso_3166_2_subdivision,
            r.driving_side == self.driving_side,
    {
        let mut s = self;
        s.country = Some(country);
        s
    }

    /// Assigns the driving side.
    pub fn driving_side(self, side: DrivingSide) -> (r: Self)
        ensures
            r.driving_side == Some(side),
            r.iso_3166_1_alpha_2 == self.iso_3166_1_alpha_2,
            r.iso_3166_1_alpha_3 == self.iso_3166_1_alpha_3,
            r.iso_3166_2_subdivision == self.iso_3166_2_subdivision,
            r.country == self.country,
    {
        let mut s = self;
        s.driving_side = Some(side);
        s
    }

    /// Builds the locale. The country comes from the two letter code, the three
    /// letter code or the country given, of which at most one may be set; the
    /// driving side defaults to the right.
    pub fn build(&self) -> (r: Locale)
        requires
            !(self.country is Some && (self.iso_3166_1_alpha_2 is Some
                || self.iso_3166_1_alpha_3 is Some)),
            !(self.iso_3166_1_alpha_2 is Some && self.iso_3166_1_alpha_3 is Some),
        ensures
            match (self.iso_3166_1_alpha_2, self.iso_3166_1_alpha_3, self.country) {
                (Some(a), _, _) => match r.country {
                    Some(c) => celes_alpha2_country(a@) == Some(c@),
                    None => celes_alpha2_country(a@) is None,
                },
                (_, Some(a), _) => match r.country {
                    Some(c) => celes_alpha3_country(a@) == Some(c@),
                    None => celes_alpha3_country(a@) is None,
                },
                (_, _, Some(c)) => r.country matches Some(rc) && rc@ == c@,
                (None, None, None) => r.country is None,
            },
            opt_view(r.iso_3166_2_subdivision) == opt_view(self.iso_3166_2_subdivision),
            r.driving_side == match self.driving_side {
                Some(s) => s,
                None => DrivingSide::Right,
            },
    {
        let country = match (&self.iso_3166_1_alpha_2, &self.iso_3166_1_alpha_3, &self.country) {
            (Some(c), _, _) => Country::from_alpha2(c.as_str()),
            (_, Some(c), _) => Country::from_alpha3(c.as_str()),
            (_, _, Some(c)) => Some(c.clone()),
            (None, None, None) => None,
        };
        let iso_3166_2_subdivision = match &self.iso_3166_2_subdivision {
            Some(s) => Some(s.clone()),
            None => None,
        };
        Locale {
            country,
            iso_3166_2_subdivision,
            driving_side: match self.driving_side {
                Some(s) => s,
                None => DrivingSide::Right,
            },
        }
    }
}

} // verus!
