//! The decisions of an interactive editor of tags: what it holds, how each
//! event changes it, and what it shows for the tags typed.

use vstd::prelude::*;

use crate::lanes_to_tags::{lanes_to_tags, spec_lanes_to_tags, Config as LanesToTagsConfig, TagMap};
use crate::locale::{celes_countries, Country, Locale};
use crate::metric::{i64_to_string, int_digits, nat_digits, u64_to_string};
use crate::overpass::{code_readable, OverpassError};
use crate::test_case::{example_locale, TestCase};
use crate::msg::{issue_text, warnings_text, MsgView, RoadError, RoadFromTags, TagsToLanesMsg};
use crate::road::{lanes_view, Road};
use crate::tags::{
    join_with, keys_sorted, pair_line, read_tags, spec_text_tags, spec_text_tags_error, tags_map, PairView, Tags,
};
use crate::text::{chars_of, compare_chars, lemma_seq_lt_transitive, lemma_seq_lt_trichotomy, seq_lt, KeyOrder};
use crate::transform::{
    is_tags_to_lanes_defined, road_tags_kept, spec_tags_to_lanes, tags_to_lanes, tags_to_lanes_defined,
    Config, RoadErrorView,
};

verus! {

/// The configuration of the transformation in the editor: warnings stay
/// warnings, and separators are included.
pub open spec fn editor_config() -> Config {
    Config { error_on_warnings: false, include_separators: true }
}

/// Whether the transformation of the tags typed is defined, where they read
/// as tags.
pub open spec fn edit_defined(text: Seq<char>, locale: &Locale) -> bool {
    spec_text_tags(text) matches Some(t) ==> tags_to_lanes_defined(t, locale, editor_config())
}

/// `s` is how a message with the view `m` is written.
pub open spec fn written_as(m: MsgView, s: Seq<char>) -> bool {
    exists|e: TagsToLanesMsg| #[trigger] issue_text(e.issue) == s && e@ == m
}

/// `s` is how warnings with the views `w` are written.
pub open spec fn warnings_written_as(w: Seq<MsgView>, s: Seq<char>) -> bool {
    exists|ws: Seq<TagsToLanesMsg>|
        #[trigger] warnings_text(ws) == s && ws.map_values(|m: TagsToLanesMsg| m@) == w
}

/// `s` is the tags of the map `m`, one `key=value` per line in key order.
pub open spec fn tags_written_as(m: TagMap, s: Seq<char>) -> bool {
    exists|u: Seq<PairView>|
        #[trigger] tags_map(u) == m && keys_sorted(u) && s == join_with(
            u.map_values(|p: PairView| pair_line(p)),
            '\n',
        )
}

/// The error of lanes that cannot be written as tags, as the editor writes it.
pub open spec fn lanes_error_text(d: Seq<char>) -> Seq<char> {
    "Lanes to Tags Error: unimplemented: '"@ + d + "'"@
}

/// What the editor shows for the tags typed, in a locale: the road found,
/// the tags it normalises to, and a message. Tags that cannot be read, or a
/// transformation that fails, show no road and the error; warnings are shown
/// as the message, before an error of writing the lanes back as tags.
pub open spec fn shows(
    text: Seq<char>,
    locale: &Locale,
    road: Option<Road>,
    normalized: Option<String>,
    message: Option<String>,
) -> bool {
    match spec_text_tags(text) {
        None => {
            &&& road is None
            &&& normalized is None
            &&& message matches Some(s) && s@ == "Conversion Error: "@ + spec_text_tags_error(text)
        },
        Some(t) => match spec_tags_to_lanes(t, locale, editor_config()) {
            Err(RoadErrorView::Msg(m)) => {
                &&& road is None
                &&& normalized is None
                &&& message matches Some(s) && exists|x: Seq<char>|
                    #[trigger] written_as(m, x) && s@ == "Conversion Error: "@ + x
            },
            Err(RoadErrorView::Warnings(w)) => {
                &&& road is None
                &&& normalized is None
                &&& message matches Some(s) && s@ == "Conversion Error: "@ + nat_digits(w.len()) + " warnings"@
            },
            Ok((lanes, w)) => {
                &&& road matches Some(r) && lanes_view(r.lanes@) == lanes && road_tags_kept(t, r)
                &&& match spec_lanes_to_tags(lanes, road.unwrap().highway, locale) {
                    Ok(m) => {
                        &&& normalized matches Some(n) && tags_written_as(m, n@)
                        &&& if w.len() == 0 {
                            message is None
                        } else {
                            message matches Some(s) && warnings_written_as(w, s@)
                        }
                    },
                    Err(d) => {
                        &&& normalized is None
                        &&& message matches Some(s) && if w.len() == 0 {
                            s@ == lanes_error_text(d)
                        } else {
                            exists|x: Seq<char>|
                                #[trigger] warnings_written_as(w, x) && s@ == x + "\n"@ + lanes_error_text(d)
                        }
                    },
                }
            },
        },
    }
}

/// What the editor holds.
pub struct EditorState {
    /// Where the way is.
    pub locale: Locale,
    /// The id of the way being edited.
    pub id: Option<String>,
    /// The tags as typed, one `key=value` per line.
    pub edit_tags: String,
    /// The tags of the road found, normalised.
    pub normalized_tags: Option<String>,
    /// The road found.
    pub road: Option<Road>,
    /// A message for the user.
    pub message: Option<String>,
}

/// An event of the editor.
pub enum EditorMsg {
    /// New tags were typed.
    TagsSet(String),
    /// A way was loaded: its id, tags and locale.
    TagsLocaleSet { id: String, tags: Tags, locale: Locale },
    /// The driving side was switched.
    ToggleDrivingSide,
    /// A country was chosen, or could not be.
    CountrySet(Result<Country, String>),
    /// A way is to be fetched; the id as typed.
    WayFetch(String),
    /// Something failed.
    Error(String),
}

/// What the editor does after an event, besides showing its state.
#[derive(Clone, Copy, Debug, PartialEq, Eq, Structural)]
pub enum EditorAction {
    /// Nothing more.
    Show,
    /// Read the tags again, with `update_tags`.
    Refresh,
    /// Fetch the way with this id.
    FetchWay(u64),
}

/// Why a way id cannot be read, as the standard library names it.
#[derive(Clone, Copy, Debug, PartialEq, Eq, Structural)]
pub enum WayIdError {
    /// Nothing was typed.
    Empty,
    /// A character is no digit.
    InvalidDigit,
    /// The number is too large for an id.
    TooLarge,
}

/// Why a way id cannot be read, as written.
pub open spec fn way_id_error_text(e: WayIdError) -> Seq<char> {
    match e {
        WayIdError::Empty => "cannot parse integer from empty string"@,
        WayIdError::InvalidDigit => "invalid digit found in string"@,
        WayIdError::TooLarge => "number too large to fit in target type"@,
    }
}

impl WayIdError {
    /// The error as written.
    pub fn to_string(&self) -> (r: String)
        ensures
            r@ == way_id_error_text(*self),
    {
        match self {
            WayIdError::Empty => "cannot parse integer from empty string".to_owned(),
            WayIdError::InvalidDigit => "invalid digit found in string".to_owned(),
            WayIdError::TooLarge => "number too large to fit in target type".to_owned(),
        }
    }
}

/// A decimal digit.
pub open spec fn is_digit(c: char) -> bool {
    '0' <= c <= '9'
}

/// The number that decimal digits write.
pub open spec fn digits_value(s: Seq<char>) -> nat
    decreases s.len(),
{
    if s.len() == 0 {
        0
    } else {
        digits_value(s.drop_last()) * 10 + (s.last() as int - '0' as int) as nat
    }
}

/// The digits of a way id: the text, without a leading `+`.
pub open spec fn id_digits(s: Seq<char>) -> Seq<char> {
    if s.len() > 0 && s[0] == '+' {
        s.drop_first()
    } else {
        s
    }
}

/// Reading digits stops at `i`: every digit before it is read and the
/// number so far fits, and at `i` there is no digit or the number grows too
/// large.
pub open spec fn stops_at(d: Seq<char>, i: int) -> bool {
    &&& 0 <= i < d.len()
    &&& !is_digit(d[i]) || digits_value(d.take(i + 1)) > u64::MAX
    &&& forall|j: int| 0 <= j < i ==> is_digit(#[trigger] d[j]) && digits_value(d.take(j + 1)) <= u64::MAX
}

/// A way id as the standard library reads an unsigned 64-bit number:
/// decimal digits after an optional `+`.
pub open spec fn spec_parse_way_id(s: Seq<char>) -> Result<u64, WayIdError> {
    let d = id_digits(s);
    if s.len() == 0 {
        Err(WayIdError::Empty)
    } else if d.len() == 0 {
        Err(WayIdError::InvalidDigit)
    } else if exists|i: int| stops_at(d, i) {
        let i = choose|i: int| stops_at(d, i);
        if !is_digit(d[i]) {
            Err(WayIdError::InvalidDigit)
        } else {
            Err(WayIdError::TooLarge)
        }
    } else {
        Ok(digits_value(d) as u64)
    }
}

/// The value of digits grows by one digit at a time.
proof fn lemma_digits_step(d: Seq<char>, k: int)
    requires
        0 <= k < d.len(),
        is_digit(d[k]),
    ensures
        digits_value(d.take(k + 1)) == digits_value(d.take(k)) * 10 + (d[k] as int - '0' as int),
{
    assert(d.take(k + 1).drop_last() =~= d.take(k));
    assert(d.take(k + 1).last() == d[k]);
}

/// Reads a way id typed.
pub fn parse_way_id(s: &str) -> (r: Result<u64, WayIdError>)
    ensures
        r == spec_parse_way_id(s@),
{
    let cs = chars_of(s);
    if cs.len() == 0 {
        return Err(WayIdError::Empty);
    }
    let start: usize = if cs[0] == '+' {
        1
    } else {
        0
    };
    let ghost d = id_digits(s@);
    assert(d =~= cs@.skip(start as int));
    if start == cs.len() {
        return Err(WayIdError::InvalidDigit);
    }
    let mut value: u64 = 0;
    let mut i: usize = start;
    assert(d.take(0) =~= Seq::<char>::empty());
    while i < cs.len()
        invariant
            start <= i <= cs@.len(),
            start < cs@.len(),
            cs@ == s@,
            d == cs@.skip(start as int),
            d == id_digits(s@),
            value == digits_value(d.take(i - start)),
            forall|j: int| 0 <= j < i - start ==> is_digit(#[trigger] d[j]) && digits_value(d.take(j + 1)) <= u64::MAX,
        decreases cs@.len() - i,
    {
        let c = cs[i];
        let ghost k: int = i - start;
        assert(d[k] == c);
        if !('0' <= c && c <= '9') {
            proof {
                assert(stops_at(d, k));
                let x = choose|x: int| stops_at(d, x);
                if x < k {
                    assert(is_digit(d[x]) && digits_value(d.take(x + 1)) <= u64::MAX);
                } else if k < x {
                    assert(is_digit(d[k]));
                }
            }
            return Err(WayIdError::InvalidDigit);
        }
        let digit: u64 = (c as u32 - '0' as u32) as u64;
        proof {
            lemma_digits_step(d, k);
        }
        let next = match value.checked_mul(10) {
            Some(m) => m.checked_add(digit),
            None => None,
        };
        match next {
            Some(v) => {
                value = v;
            },
            None => {
                proof {
                    assert(stops_at(d, k));
                    let x = choose|x: int| stops_at(d, x);
                    if x < k {
                        assert(is_digit(d[x]) && digits_value(d.take(x + 1)) <= u64::MAX);
                    } else if k < x {
                        assert(digits_value(d.take(k + 1)) <= u64::MAX);
                    }
                }
                return Err(WayIdError::TooLarge);
            },
        }
        i = i + 1;
    }
    proof {
        assert(d.take(d.len() as int) =~= d);
        assert forall|x: int| !stops_at(d, x) by {
            if 0 <= x < d.len() {
                assert(is_digit(d[x]) && digits_value(d.take(x + 1)) <= u64::MAX);
            }
        }
    }
    Ok(value)
}

/// Tests whether the transformation of the tags typed is defined: the test
/// to make before `update_tags`.
pub fn is_edit_defined(text: &str, locale: &Locale) -> (r: bool)
    ensures
        r == edit_defined(text@, locale),
{
    match read_tags(text) {
        Ok(tags) => is_tags_to_lanes_defined(&tags, locale, &Config::default()),
        Err(_) => true,
    }
}

impl EditorState {
    /// The state the editor starts in: a locale in France, and tags still
    /// loading.
    pub fn new() -> (r: Self)
        ensures
            r.edit_tags@ == "Loading..."@,
            r.id is None,
            r.normalized_tags is None,
            r.road is None,
            r.message is None,
            r.locale.driving_side == crate::locale::DrivingSide::Right,
            r.locale.iso_3166_2_subdivision is None,
            match r.locale.country {
                Some(c) => crate::locale::celes_alpha2_country("FR"@) == Some(c@),
                None => crate::locale::celes_alpha2_country("FR"@) is None,
            },
    {
        proof {
            reveal_strlit("FR");
            vstd::string::is_ascii_spec_bytes("FR");
            assert("FR".len() == 2);
        }
        let locale = Locale::builder().iso_3166("FR").build();
        EditorState {
            locale,
            id: None,
            edit_tags: "Loading...".to_owned(),
            normalized_tags: None,
            road: None,
            message: None,
        }
    }

    /// Reads the tags typed: the road they give, the tags it normalises to,
    /// and a message of the warnings or the error.
    #[verifier::rlimit(50)]
    pub fn update_tags(&mut self)
        requires
            edit_defined(old(self).edit_tags@, &old(self).locale),
        ensures
            final(self).locale == old(self).locale,
            final(self).id == old(self).id,
            final(self).edit_tags == old(self).edit_tags,
            shows(
                old(self).edit_tags@,
                &old(self).locale,
                final(self).road,
                final(self).normalized_tags,
                final(self).message,
            ),
    {
        proof {
            reveal_strlit("\nLanes to Tags Error: ");
            reveal_strlit("\n");
            reveal_strlit("Lanes to Tags Error: ");
            reveal_strlit("Lanes to Tags Error: unimplemented: '");
            reveal_strlit("unimplemented: '");
        }
        match read_tags(self.edit_tags.as_str()) {
            Ok(tags) => {
                let config = Config::default();
                match tags_to_lanes(&tags, &self.locale, &config) {
                    Ok(result) => {
                        let RoadFromTags { road, warnings } = result;
                        let ghost w = warnings@;
                        let written = warnings.to_string();
                        proof {
                            assert(warnings_written_as(w, written@));
                        }
                        match lanes_to_tags(&road, &self.locale, &LanesToTagsConfig::new(false)) {
                            Ok(normal) => {
                                let n = normal.to_string();
                                proof {
                                    assert(tags_written_as(tags_map(normal@), n@));
                                }
                                self.road = Some(road);
                                self.normalized_tags = Some(n);
                                if warnings.is_empty() {
                                    self.message = None;
                                } else {
                                    self.message = Some(written);
                                }
                            },
                            Err(error) => {
                                let e = error.to_string();
                                let mut m = if warnings.is_empty() {
                                    "Lanes to Tags Error: ".to_owned()
                                } else {
                                    let mut x = written;
                                    x.append("\nLanes to Tags Error: ");
                                    x
                                };
                                let ghost before = m@;
                                m.append(e.as_str());
                                proof {
                                    let d = spec_lanes_to_tags(lanes_view(road.lanes@), road.highway, &self.locale)->Err_0;
                                    assert(e@ == "unimplemented: '"@ + d + "'"@);
                                    assert(lanes_error_text(d) =~= "Lanes to Tags Error: "@ + e@);
                                    if w.len() > 0 {
                                        assert(before =~= written@ + "\n"@ + "Lanes to Tags Error: "@);
                                        assert(m@ =~= written@ + "\n"@ + lanes_error_text(d));
                                    }
                                }
                                self.road = Some(road);
                                self.normalized_tags = None;
                                self.message = Some(m);
                            },
                        }
                    },
                    Err(road_error) => {
                        let mut m = "Conversion Error: ".to_owned();
                        let e = road_error.to_string();
                        proof {
                            match road_error {
                                RoadError::Msg(x) => {
                                    assert(written_as(x@, e@));
                                },
                                _ => {},
                            }
                        }
                        m.append(e.as_str());
                        self.road = None;
                        self.normalized_tags = None;
                        self.message = Some(m);
                    },
                }
            },
            Err(e) => {
                let mut m = "Conversion Error: ".to_owned();
                m.append(e.as_str());
                self.road = None;
                self.normalized_tags = None;
                self.message = Some(m);
            },
        }
    }

    /// Applies an event: new tags or a new locale are to be read again, a
    /// failure becomes the message, and a way id that can be read is to be
    /// fetched.
    pub fn update(&mut self, msg: EditorMsg) -> (r: EditorAction)
        ensures
            match msg {
                EditorMsg::TagsSet(t) => {
                    &&& r is Refresh
                    &&& final(self).edit_tags@ == t@
                    &&& final(self).locale == old(self).locale
                    &&& final(self).id == old(self).id
                },
                EditorMsg::TagsLocaleSet { id, tags, locale } => {
                    &&& r is Refresh
                    &&& final(self).edit_tags@ == join_with(tags@.map_values(|p: PairView| pair_line(p)), '\n')
                    &&& final(self).locale == locale
                    &&& final(self).id == Some(id)
                },
                EditorMsg::ToggleDrivingSide => {
                    &&& r is Refresh
                    &&& final(self).locale.driving_side == old(self).locale.driving_side.spec_opposite()
                    &&& final(self).locale.country == old(self).locale.country
                    &&& final(self).locale.iso_3166_2_subdivision == old(self).locale.iso_3166_2_subdivision
                },
                EditorMsg::CountrySet(Ok(c)) => {
                    &&& r is Refresh
                    &&& final(self).locale.driving_side == old(self).locale.driving_side
                    &&& final(self).locale.country matches Some(fc) && fc@ == c@
                    &&& final(self).locale.iso_3166_2_subdivision is None
                    &&& final(self).message == old(self).message
                },
                EditorMsg::CountrySet(Err(e)) => {
                    &&& r is Show
                    &&& final(self).locale == old(self).locale
                    &&& final(self).message == Some(e)
                },
                EditorMsg::WayFetch(text) => {
                    &&& final(self).locale == old(self).locale
                    &&& match spec_parse_way_id(text@) {
                        Ok(id) => r == EditorAction::FetchWay(id) && final(self).message == old(self).message,
                        Err(e) => {
                            &&& r is Show
                            &&& final(self).message matches Some(m) && m@ == "Invalid way id: "@ + way_id_error_text(e)
                        },
                    }
                },
                EditorMsg::Error(e) => {
                    &&& r is Show
                    &&& final(self).locale == old(self).locale
                    &&& final(self).message matches Some(m) && m@ == "Error: "@ + e@
                },
            },
            !(msg is TagsSet || msg is TagsLocaleSet) ==> final(self).edit_tags == old(self).edit_tags,
            !(msg is TagsLocaleSet) ==> final(self).id == old(self).id,
            final(self).road == old(self).road,
            final(self).normalized_tags == old(self).normalized_tags,
            !(msg is CountrySet || msg is WayFetch || msg is Error) ==> final(self).message == old(self).message,
    {
        match msg {
            EditorMsg::TagsSet(t) => {
                self.edit_tags = t;
                EditorAction::Refresh
            },
            EditorMsg::TagsLocaleSet { id, tags, locale } => {
                self.edit_tags = tags.to_string();
                self.locale = locale;
                self.id = Some(id);
                EditorAction::Refresh
            },
            EditorMsg::ToggleDrivingSide => {
                self.locale.driving_side = self.locale.driving_side.opposite();
                EditorAction::Refresh
            },
            EditorMsg::CountrySet(Ok(country)) => {
                let side = self.locale.driving_side;
                self.locale = Locale::builder().driving_side(side).country(country).build();
                EditorAction::Refresh
            },
            EditorMsg::CountrySet(Err(e)) => {
                self.message = Some(e);
                EditorAction::Show
            },
            EditorMsg::WayFetch(text) => match parse_way_id(text.as_str()) {
                Ok(id) => EditorAction::FetchWay(id),
                Err(e) => {
                    let mut m = "Invalid way id: ".to_owned();
                    let t = e.to_string();
                    m.append(t.as_str());
                    self.message = Some(m);
                    EditorAction::Show
                },
            },
            EditorMsg::Error(e) => {
                let mut m = "Error: ".to_owned();
                m.append(e.as_str());
                self.message = Some(m);
                EditorAction::Show
            },
        }
    }
}

/// The event that loads an example into the editor: its way id, tags and
/// locale.
pub fn example_event(test: &TestCase) -> (r: EditorMsg)
    requires
        test.way_id is Some,
        test.iso_3166_2 matches Some(c) ==> code_readable(c@),
    ensures
        r matches EditorMsg::TagsLocaleSet { id, tags, locale } && id@ == int_digits(test.way_id.unwrap() as int)
            && tags@ == test.tags@ && example_locale(*test, locale),
{
    let id = match test.way_id {
        Some(id) => i64_to_string(id),
        None => String::new(),
    };
    EditorMsg::TagsLocaleSet { id, tags: test.tags.clone(), locale: test.locale() }
}

/// The event that fetching a way gives the editor: the way loaded, or the
/// error.
pub fn fetched_event(id: u64, fetched: Result<(Tags, Locale), OverpassError>) -> (r: EditorMsg)
    ensures
        match fetched {
            Ok((t, l)) => r matches EditorMsg::TagsLocaleSet { id: i, tags, locale } && i@ == nat_digits(id as nat)
                && tags == t && locale == l,
            Err(e) => r matches EditorMsg::Error(m) && m@ == e.spec_text(),
        },
{
    match fetched {
        Ok((tags, locale)) => EditorMsg::TagsLocaleSet { id: u64_to_string(id), tags, locale },
        Err(e) => EditorMsg::Error(e.to_string()),
    }
}

/// The event that a search for the way nearest to a point gives the editor:
/// the way found, or the error, which is `no ways found` where there is none.
pub fn nearby_event(found: Result<(u64, Tags, Locale), OverpassError>) -> (r: EditorMsg)
    ensures
        match found {
            Ok((id, t, l)) => r matches EditorMsg::TagsLocaleSet { id: i, tags, locale } && i@ == nat_digits(
                id as nat,
            ) && tags == t && locale == l,
            Err(OverpassError::Empty) => r matches EditorMsg::Error(m) && m@ == "no ways found"@,
            Err(e) => r matches EditorMsg::Error(m) && m@ == e.spec_text(),
        },
{
    match found {
        Ok((id, tags, locale)) => EditorMsg::TagsLocaleSet { id: u64_to_string(id), tags, locale },
        Err(OverpassError::Empty) => EditorMsg::Error("no ways found".to_owned()),
        Err(e) => EditorMsg::Error(e.to_string()),
    }
}

/// A country as offered to choose from: its two letter code, and whether it
/// is the country chosen (the same numeric code).
pub open spec fn country_option(c: Country, chosen: Option<Country>) -> (Seq<char>, bool) {
    (c.alpha2@, chosen matches Some(x) && x.value == c.value)
}

/// The view of the options offered.
pub open spec fn options_view(r: Seq<(String, bool)>) -> Seq<(Seq<char>, bool)> {
    r.map_values(|p: (String, bool)| (p.0@, p.1))
}

/// Options in order of their codes: no code comes before an earlier one.
pub open spec fn options_sorted(s: Seq<(Seq<char>, bool)>) -> bool {
    forall|i: int, j: int| 0 <= i < j < s.len() ==> !seq_lt(#[trigger] s[j].0, #[trigger] s[i].0)
}

/// The countries offered to choose from, in order of their two letter codes,
/// each with whether it is the country chosen.
pub fn country_options(countries: &Vec<Country>, chosen: &Option<Country>) -> (r: Vec<(String, bool)>)
    ensures
        options_sorted(options_view(r@)),
        options_view(r@).to_multiset() == countries@.map_values(|c: Country| country_option(c, *chosen)).to_multiset(),
{
    let ghost all = countries@.map_values(|c: Country| country_option(c, *chosen));
    let mut out: Vec<(String, bool)> = Vec::new();
    let mut i: usize = 0;
    assert(options_view(out@) =~= Seq::<(Seq<char>, bool)>::empty());
    assert(all.take(0) =~= Seq::<(Seq<char>, bool)>::empty());
    while i < countries.len()
        invariant
            i <= countries@.len(),
            all == countries@.map_values(|c: Country| country_option(c, *chosen)),
            options_sorted(options_view(out@)),
            options_view(out@).to_multiset() == all.take(i as int).to_multiset(),
        decreases countries@.len() - i,
    {
        let c = &countries[i];
        let selected = match chosen {
            Some(x) => x.value == c.value,
            None => false,
        };
        let key = chars_of(c.alpha2.as_str());
        let ghost x = (c.alpha2@, selected);
        assert(x == all[i as int]);
        let ghost before = options_view(out@);
        let mut j: usize = 0;
        while j < out.len()
            invariant_except_break
                forall|m: int| 0 <= m < j ==> !seq_lt(key@, (#[trigger] before[m]).0),
            invariant
                j <= out@.len(),
                before == options_view(out@),
                key@ == x.0,
            ensures
                j <= out@.len(),
                forall|m: int| 0 <= m < j ==> !seq_lt(key@, (#[trigger] before[m]).0),
                j < out@.len() ==> seq_lt(key@, before[j as int].0),
            decreases out@.len() - j,
        {
            let other = chars_of(out[j].0.as_str());
            assert(other@ == before[j as int].0);
            match compare_chars(key.as_slice(), other.as_slice()) {
                KeyOrder::Less => {
                    break;
                },
                _ => {
                    j = j + 1;
                },
            }
        }
        out.insert(j, (c.alpha2.clone(), selected));
        proof {
            let after = options_view(out@);
            assert(after =~= before.insert(j as int, x));
            assert forall|a: int, b: int| 0 <= a < b < after.len() implies !seq_lt(
                #[trigger] after[b].0,
                #[trigger] after[a].0,
            ) by {
                if b < j {
                } else if b == j {
                    assert(after[a] == before[a]);
                } else if a == j {
                    assert(after[b] == before[b - 1]);
                    lemma_seq_lt_trichotomy(x.0, before[j as int].0);
                    if b - 1 > j {
                        assert(!seq_lt(before[b - 1].0, before[j as int].0));
                        if seq_lt(before[b - 1].0, x.0) {
                            lemma_seq_lt_transitive(before[b - 1].0, x.0, before[j as int].0);
                        }
                    } else {
                        lemma_seq_lt_trichotomy(before[j as int].0, x.0);
                    }
                } else if a < j {
                    assert(after[a] == before[a] && after[b] == before[b - 1]);
                } else {
                    assert(after[a] == before[a - 1] && after[b] == before[b - 1]);
                }
            }
            vstd::seq_lib::to_multiset_insert(before, j as int, x);
            assert(all.take(i + 1) =~= all.take(i as int).push(x));
            vstd::seq_lib::to_multiset_build(all.take(i as int), x);
        }
        i = i + 1;
    }
    assert(all.take(countries@.len() as int) =~= all);
    out
}

/// The countries of the ISO 3166 table offered to choose from, in order of
/// their two letter codes, each with whether it is the country chosen: every
/// country that a two letter code finds is offered once.
pub fn country_choices(chosen: &Option<Country>) -> (r: Vec<(String, bool)>)
    ensures
        options_sorted(options_view(r@)),
        r@.len() == 250,
        forall|i: int, j: int|
            0 <= i < j < r@.len() ==> (#[trigger] options_view(r@)[i]).0 != (#[trigger] options_view(r@)[j]).0,
        forall|i: int|
            0 <= i < r@.len() ==> (crate::locale::celes_alpha2_country((#[trigger] options_view(r@)[i]).0) matches Some(
                v,
            ) && options_view(r@)[i].1 == (*chosen matches Some(x) && x.value == v.0)),
        forall|code: Seq<char>|
            #[trigger] crate::locale::celes_alpha2_country(code) matches Some(v) ==> exists|i: int|
                0 <= i < r@.len() && (#[trigger] options_view(r@)[i]).0 == v.1,
{
    let countries = celes_countries();
    let r = country_options(&countries, chosen);
    proof {
        broadcast use vstd::seq_lib::group_to_multiset_ensures;
        let v = options_view(r@);
        let m = countries@.map_values(|c: Country| country_option(c, *chosen));
        assert forall|a: int, b: int| 0 <= a < m.len() && 0 <= b < m.len() && a != b implies m[a] != m[b] by {
            if a < b {
                assert(countries@[a].alpha2@ != countries@[b].alpha2@);
            } else {
                assert(countries@[b].alpha2@ != countries@[a].alpha2@);
            }
        }
        vstd::seq_lib::to_multiset_len(v);
        vstd::seq_lib::to_multiset_len(m);
        assert(v.len() == r@.len());
        assert(m.no_duplicates());
        m.lemma_multiset_has_no_duplicates();
        assert forall|x: (Seq<char>, bool)| v.to_multiset().contains(x) implies v.to_multiset().count(x) == 1 by {}
        v.lemma_multiset_has_no_duplicates_conv();
        assert forall|i: int| 0 <= i < v.len() implies exists|j: int| 0 <= j < m.len() && #[trigger] m[j] == #[trigger] v[i] by {
            assert(v.contains(v[i]));
            assert(m.to_multiset().count(v[i]) > 0);
            assert(m.contains(v[i]));
        }
        assert forall|a: int, b: int| 0 <= a < b < r@.len() implies (#[trigger] v[a]).0 != (#[trigger] v[b]).0 by {
            let ja = choose|j: int| 0 <= j < m.len() && #[trigger] m[j] == v[a];
            let jb = choose|j: int| 0 <= j < m.len() && #[trigger] m[j] == v[b];
            if ja != jb {
                if ja < jb {
                    assert(countries@[ja].alpha2@ != countries@[jb].alpha2@);
                } else {
                    assert(countries@[jb].alpha2@ != countries@[ja].alpha2@);
                }
            }
        }
        assert forall|i: int| 0 <= i < r@.len() implies (crate::locale::celes_alpha2_country((#[trigger] v[i]).0) matches Some(
            w,
        ) && v[i].1 == (*chosen matches Some(x) && x.value == w.0)) by {
            let j = choose|j: int| 0 <= j < m.len() && #[trigger] m[j] == v[i];
            assert(celes_alpha2_country_of(countries@[j]));
        }
        assert forall|code: Seq<char>|
            #[trigger] crate::locale::celes_alpha2_country(code) is Some implies exists|i: int|
                0 <= i < r@.len() && (#[trigger] v[i]).0 == crate::locale::celes_alpha2_country(code).unwrap().1 by {
            let w = crate::locale::celes_alpha2_country(code).unwrap();
            let j = choose|j: int| 0 <= j < countries@.len() && (#[trigger] countries@[j])@ == w;
            assert(m[j] == country_option(countries@[j], *chosen));
            assert(m.contains(m[j]));
            assert(v.to_multiset().count(m[j]) > 0);
            assert(v.contains(m[j]));
            let i = choose|i: int| 0 <= i < v.len() && #[trigger] v[i] == m[j];
            assert(v[i].0 == w.1);
        }
    }
    r
}

/// A country of the table is what its own two letter code finds.
pub open spec fn celes_alpha2_country_of(c: Country) -> bool {
    crate::locale::celes_alpha2_country(c.alpha2@) == Some(c@)
}

} // verus!
