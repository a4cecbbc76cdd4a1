//! A documented example of tags and the road they describe, with how it is to
//! be checked.

use vstd::prelude::*;

use crate::highway::{HighwayType, Lifecycle};
use crate::locale::{opt_view, spec_iso_3166, DrivingSide, Locale};
use crate::overpass::{code_readable, locale_from_codes};
use crate::metric::{i64_to_string, int_digits};
use crate::road::{lanes_view, opt_text, Lane, Road};
use crate::tags::{join_strings, join_with, read_tags, spec_lines, spec_text_tags, split_lines, PairView, Tags};
use crate::text::{chars_of, compare_chars, ends_with, lemma_seq_lt_transitive, lemma_seq_lt_trichotomy, push_char, seq_lt, string_from_chars, KeyOrder};

verus! {

/// How an example is checked: enabled or not, or with options.
#[derive(Clone, Copy, Debug, PartialEq, Eq, Structural)]
pub enum RustTesting {
    Enabled(bool),
    WithOptions { separator: Option<bool>, expect_warnings: Option<bool> },
}

/// The expected result of an example.
#[derive(Debug)]
pub enum Expected {
    Road(Road),
}

/// An example: metadata, locale, tags, and the expected road.
#[derive(Debug)]
pub struct TestCase {
    /// The OSM way unique identifier.
    pub way_id: Option<i64>,
    /// Relevant link.
    pub link: Option<String>,
    /// Comment on the example.
    pub comment: Option<String>,
    /// Description of the example.
    pub description: Option<String>,
    /// Listed as a named example, with the given name.
    pub example: Option<String>,
    pub driving_side: DrivingSide,
    pub iso_3166_2: Option<String>,
    pub tags: Tags,
    pub expected: Expected,
    pub rust: Option<RustTesting>,
}

/// Whether an example is checked: true unless disabled.
pub open spec fn spec_test_enabled(rust: Option<RustTesting>) -> bool {
    match rust {
        Some(RustTesting::Enabled(b)) => b,
        _ => true,
    }
}

/// Whether an example must give warnings: false unless asked for.
pub open spec fn spec_expects_warnings(rust: Option<RustTesting>) -> bool {
    match rust {
        Some(RustTesting::WithOptions { expect_warnings: Some(b), .. }) => b,
        _ => false,
    }
}

/// Whether the separators of an example are checked: true unless disabled.
pub open spec fn spec_include_separators(rust: Option<RustTesting>) -> bool {
    match rust {
        None => true,
        Some(RustTesting::Enabled(b)) => b,
        Some(RustTesting::WithOptions { separator, .. }) => match separator {
            Some(b) => b,
            None => true,
        },
    }
}

/// A text, where there is one, as a list of zero or one texts.
pub open spec fn present(o: Option<Seq<char>>) -> Seq<Seq<char>> {
    match o {
        Some(s) => seq![s],
        None => Seq::empty(),
    }
}

/// The way id, link and description that are given, separated by spaces.
pub open spec fn names_text(
    way_id: Option<i64>,
    link: Option<Seq<char>>,
    description: Option<Seq<char>>,
) -> Seq<char> {
    let id = match way_id {
        Some(id) => Some(int_digits(id as int)),
        None => None,
    };
    join_with(present(id) + present(link) + present(description), ' ')
}

/// The road of an expected result.
pub open spec fn expected_road(e: Expected) -> Road {
    match e {
        Expected::Road(road) => road,
    }
}

impl TestCase {
    /// An example from all its parts.
    pub fn new(
        way_id: Option<i64>,
        link: Option<String>,
        comment: Option<String>,
        description: Option<String>,
        example: Option<String>,
        driving_side: DrivingSide,
        iso_3166_2: Option<String>,
        tags: Tags,
        expected: Expected,
        rust: Option<RustTesting>,
    ) -> (r: Self)
        ensures
            r.way_id == way_id,
            r.link == link,
            r.comment == comment,
            r.description == description,
            r.example == example,
            r.driving_side == driving_side,
            r.iso_3166_2 == iso_3166_2,
            r.tags == tags,
            r.expected == expected,
            r.rust == rust,
    {
        TestCase {
            way_id,
            link,
            comment,
            description,
            example,
            driving_side,
            iso_3166_2,
            tags,
            expected,
            rust,
        }
    }

    /// The lanes of the expected road.
    fn lanes(&self) -> (r: &Vec<Lane>)
        ensures
            r@ == expected_road(self.expected).lanes@,
    {
        match &self.expected {
            Expected::Road(road) => &road.lanes,
        }
    }

    /// The expected road.
    pub fn road(&self) -> (r: Road)
        ensures
            opt_text(r.name) == opt_text(expected_road(self.expected).name),
            opt_text(r.reference) == opt_text(expected_road(self.expected).reference),
            r.highway == expected_road(self.expected).highway,
            r.lit == expected_road(self.expected).lit,
            r.tracktype == expected_road(self.expected).tracktype,
            r.smoothness == expected_road(self.expected).smoothness,
            lanes_view(r.lanes@) == lanes_view(expected_road(self.expected).lanes@),
    {
        match &self.expected {
            Expected::Road(road) => road.clone(),
        }
    }

    /// Whether the example is checked: true unless disabled.
    pub fn test_enabled(&self) -> (r: bool)
        ensures
            r == spec_test_enabled(self.rust),
    {
        match self.rust {
            Some(RustTesting::Enabled(b)) => b,
            None | Some(RustTesting::WithOptions { .. }) => true,
        }
    }

    /// Whether the example must give warnings: false unless asked for.
    pub fn test_expects_warnings(&self) -> (r: bool)
        ensures
            r == spec_expects_warnings(self.rust),
    {
        match self.rust {
            None | Some(RustTesting::Enabled(_)) => false,
            Some(RustTesting::WithOptions { expect_warnings, .. }) => match expect_warnings {
                Some(b) => b,
                None => false,
            },
        }
    }

    /// Whether the separators of the example are checked: true unless
    /// disabled.
    pub fn test_include_separators(&self) -> (r: bool)
        ensures
            r == spec_include_separators(self.rust),
    {
        match self.rust {
            None => true,
            Some(RustTesting::Enabled(b)) => b,
            Some(RustTesting::WithOptions { separator, .. }) => match separator {
                Some(b) => b,
                None => true,
            },
        }
    }

    /// Whether the expected lanes include a separator.
    pub fn expected_has_separators(&self) -> (r: bool)
        ensures
            r == exists|i: int|
                0 <= i < expected_road(self.expected).lanes@.len() && (#[trigger] expected_road(
                    self.expected,
                ).lanes@[i])@.is_separator(),
    {
        let lanes = self.lanes();
        let mut i: usize = 0;
        while i < lanes.len()
            invariant
                i <= lanes@.len(),
                lanes@ == expected_road(self.expected).lanes@,
                forall|j: int| 0 <= j < i ==> !(#[trigger] lanes@[j])@.is_separator(),
            decreases lanes@.len() - i,
        {
            if lanes[i].is_separator() {
                return true;
            }
            i = i + 1;
        }
        false
    }

    /// The name of the example, where it is listed as one.
    pub fn example(&self) -> (r: Option<&str>)
        ensures
            match r {
                Some(s) => self.example matches Some(e) && s@ == e@,
                None => self.example is None,
            },
    {
        match &self.example {
            Some(e) => Some(e.as_str()),
            None => None,
        }
    }

    /// The way id, link and description that are given, separated by spaces.
    pub fn to_string(&self) -> (r: String)
        requires
            self.way_id is Some || self.link is Some || self.description is Some,
        ensures
            r@ == names_text(self.way_id, opt_text(self.link), opt_text(self.description)),
    {
        let mut parts: Vec<String> = Vec::new();
        match self.way_id {
            Some(id) => parts.push(i64_to_string(id)),
            None => {},
        }
        let ghost first = parts@.map_values(|s: String| s@);
        match &self.link {
            Some(l) => parts.push(l.clone()),
            None => {},
        }
        let ghost second = parts@.map_values(|s: String| s@);
        match &self.description {
            Some(d) => parts.push(d.clone()),
            None => {},
        }
        proof {
            let id = match self.way_id {
                Some(id) => Some(int_digits(id as int)),
                None => None,
            };
            assert(first =~= present(id));
            assert(second =~= present(id) + present(opt_text(self.link)));
            assert(parts@.map_values(|s: String| s@) =~= present(id) + present(opt_text(self.link))
                + present(opt_text(self.description)));
        }
        join_strings(&parts, ' ')
    }
}

/// The examples that are checked, in their order.
pub fn enabled_tests(tests: Vec<TestCase>) -> (r: Vec<TestCase>)
    ensures
        r@ == tests@.filter(|t: TestCase| spec_test_enabled(t.rust)),
{
    let ghost all = tests@;
    let n = tests.len();
    let mut rest = tests;
    let mut out: Vec<TestCase> = Vec::new();
    let mut k: usize = 0;
    while rest.len() > 0
        invariant
            k <= all.len() == n,
            rest@ == all.skip(k as int),
            out@ == all.take(k as int).filter(|t: TestCase| spec_test_enabled(t.rust)),
        decreases rest@.len(),
    {
        let t = rest.remove(0);
        proof {
            reveal(Seq::filter);
            assert(all.take(k + 1).drop_last() =~= all.take(k as int));
            assert(all.take(k + 1).last() == t);
            assert(rest@ =~= all.skip(k + 1));
        }
        if t.test_enabled() {
            out.push(t);
        }
        k = k + 1;
    }
    assert(all.take(k as int) =~= all);
    out
}

/// The examples listed by name, in their order.
pub fn named_examples(tests: Vec<TestCase>) -> (r: Vec<TestCase>)
    ensures
        r@ == tests@.filter(|t: TestCase| t.example is Some),
{
    let ghost all = tests@;
    let n = tests.len();
    let mut rest = tests;
    let mut out: Vec<TestCase> = Vec::new();
    let mut k: usize = 0;
    while rest.len() > 0
        invariant
            k <= all.len() == n,
            rest@ == all.skip(k as int),
            out@ == all.take(k as int).filter(|t: TestCase| t.example is Some),
        decreases rest@.len(),
    {
        let t = rest.remove(0);
        proof {
            reveal(Seq::filter);
            assert(all.take(k + 1).drop_last() =~= all.take(k as int));
            assert(all.take(k + 1).last() == t);
            assert(rest@ =~= all.skip(k + 1));
        }
        if t.example().is_some() {
            out.push(t);
        }
        k = k + 1;
    }
    assert(all.take(k as int) =~= all);
    out
}

/// Whether `s` ends with `suffix`.
pub open spec fn is_suffix(suffix: Seq<char>, s: Seq<char>) -> bool {
    suffix.len() <= s.len() && s.skip(s.len() - suffix.len()) == suffix
}

/// Lines of YAML text, each ended by a newline, but for those that give a
/// field as `null`.
pub open spec fn without_null_lines(ls: Seq<Seq<char>>) -> Seq<char>
    decreases ls.len(),
{
    if ls.len() == 0 {
        Seq::empty()
    } else {
        without_null_lines(ls.drop_last()) + if is_suffix(": null"@, ls.last()) {
            Seq::<char>::empty()
        } else {
            ls.last().push('\n')
        }
    }
}

/// Removes from YAML text the lines that give a field as `null`, as the
/// examples are written without them.
pub fn drop_null_lines(raw: &str) -> (r: String)
    ensures
        r@ == without_null_lines(spec_lines(raw@)),
{
    let lines = split_lines(raw);
    let ghost ls = spec_lines(raw@);
    let null = chars_of(": null");
    let mut out = String::new();
    let mut i: usize = 0;
    assert(ls.take(0) =~= Seq::<Seq<char>>::empty());
    while i < lines.len()
        invariant
            i <= lines@.len() == ls.len(),
            null@ == ": null"@,
            forall|j: int| 0 <= j < lines@.len() ==> #[trigger] lines@[j]@ == ls[j],
            out@ == without_null_lines(ls.take(i as int)),
        decreases lines@.len() - i,
    {
        let line = &lines[i];
        assert(ls.take(i + 1).drop_last() =~= ls.take(i as int));
        assert(ls.take(i + 1).last() == line@);
        if !ends_with(line.as_slice(), null.as_slice()) {
            let text = string_from_chars(line.as_slice());
            out.append(text.as_str());
            push_char(&mut out, '\n');
        }
        i = i + 1;
    }
    assert(ls.take(ls.len() as int) =~= ls);
    out
}

impl TestCase {
    /// The example to fill out for a road found from tags typed in a
    /// locale: the way id given, a description to fill out, the locale, the
    /// tags (none where they cannot be read) and the road (an empty one where
    /// none was found).
    pub fn from_edit(road: Option<Road>, tags: &str, locale: &Locale, way_id: Option<i64>) -> (r: Self)
        ensures
            r.way_id == way_id,
            r.link is None,
            r.comment is None,
            opt_text(r.description) == Some("fill me out"@),
            r.example is None,
            r.driving_side == locale.driving_side,
            opt_view(r.iso_3166_2) == opt_view(locale.iso_3166_2_subdivision),
            r.tags@ == match spec_text_tags(tags@) {
                Some(t) => t,
                None => Seq::<PairView>::empty(),
            },
            match road {
                Some(x) => expected_road(r.expected) == x,
                None => {
                    let e = expected_road(r.expected);
                    &&& e.name is None && e.reference is None
                    &&& e.highway.spec_type() == HighwayType::UnknownRoad
                    &&& e.highway.spec_lifecycle() == Lifecycle::Active
                    &&& e.lit is None && e.tracktype is None && e.smoothness is None
                    &&& e.lanes@.len() == 0
                },
            },
            r.rust is None,
    {
        let tags = match read_tags(tags) {
            Ok(t) => t,
            Err(_) => Tags::new(),
        };
        let iso = match &locale.iso_3166_2_subdivision {
            Some(s) => Some(s.clone()),
            None => None,
        };
        let road = match road {
            Some(x) => x,
            None => Road::empty(),
        };
        TestCase {
            way_id,
            link: None,
            comment: None,
            description: Some("fill me out".to_owned()),
            example: None,
            driving_side: locale.driving_side,
            iso_3166_2: iso,
            tags,
            expected: Expected::Road(road),
            rust: None,
        }
    }
}

/// The name under which an example is listed.
pub open spec fn example_name(t: TestCase) -> Seq<char> {
    match t.example {
        Some(n) => n@,
        None => Seq::empty(),
    }
}

/// The examples by name: under each name, the last example listed with it.
pub open spec fn named(ts: Seq<TestCase>) -> Map<Seq<char>, TestCase>
    decreases ts.len(),
{
    if ts.len() == 0 {
        Map::empty()
    } else if ts.last().example is Some {
        named(ts.drop_last()).insert(example_name(ts.last()), ts.last())
    } else {
        named(ts.drop_last())
    }
}

/// Named examples, in strictly increasing order of their names.
pub open spec fn names_increasing(r: Seq<TestCase>) -> bool {
    &&& forall|i: int| 0 <= i < r.len() ==> (#[trigger] r[i]).example is Some
    &&& forall|i: int, j: int|
        0 <= i < j < r.len() ==> seq_lt(example_name(#[trigger] r[i]), example_name(#[trigger] r[j]))
}

/// The examples listed are those of a map by name, each once.
pub open spec fn lists(r: Seq<TestCase>, m: Map<Seq<char>, TestCase>) -> bool {
    &&& forall|i: int|
        0 <= i < r.len() ==> m.contains_key(example_name(#[trigger] r[i])) && m[example_name(r[i])] == r[i]
    &&& forall|n: Seq<char>| #[trigger] m.contains_key(n) ==> exists|i: int| 0 <= i < r.len() && example_name(#[trigger] r[i]) == n
}

/// The examples that have names, by name in name order; under a name listed
/// twice, the last example.
#[verifier::rlimit(50)]
pub fn examples_by_name(tests: Vec<TestCase>) -> (r: Vec<TestCase>)
    ensures
        names_increasing(r@),
        lists(r@, named(tests@)),
{
    let ghost all = tests@;
    let n = tests.len();
    let mut rest = tests;
    let mut out: Vec<TestCase> = Vec::new();
    let mut k: usize = 0;
    assert(all.take(0) =~= Seq::<TestCase>::empty());
    while rest.len() > 0
        invariant
            k <= all.len() == n,
            rest@ == all.skip(k as int),
            names_increasing(out@),
            lists(out@, named(all.take(k as int))),
        decreases rest@.len(),
    {
        let t = rest.remove(0);
        proof {
            assert(all.take(k + 1).drop_last() =~= all.take(k as int));
            assert(all.take(k + 1).last() == t);
            assert(rest@ =~= all.skip(k + 1));
        }
        let ghost before = out@;
        let ghost m = named(all.take(k as int));
        match t.example() {
            None => {},
            Some(name) => {
                let key = chars_of(name);
                let mut j: usize = 0;
                let mut found = false;
                while j < out.len()
                    invariant_except_break
                        !found,
                    invariant
                        j <= out@.len(),
                        out@ == before,
                        key@ == example_name(t),
                        forall|i: int| 0 <= i < j ==> seq_lt(example_name(#[trigger] out@[i]), key@),
                    ensures
                        j <= out@.len(),
                        found ==> j < out@.len() && example_name(out@[j as int]) == key@,
                        !found ==> j == out@.len() || seq_lt(key@, example_name(out@[j as int])),
                    decreases out@.len() - j,
                {
                    let other = match out[j].example() {
                        Some(o) => chars_of(o),
                        None => Vec::new(),
                    };
                    match compare_chars(other.as_slice(), key.as_slice()) {
                        KeyOrder::Less => {
                            j = j + 1;
                        },
                        KeyOrder::Equal => {
                            found = true;
                            break;
                        },
                        KeyOrder::Greater => {
                            break;
                        },
                    }
                }
                let ghost nm = key@;
                proof {
                    lemma_seq_lt_trichotomy(nm, nm);
                }
                if found {
                    assert(example_name(out@[j as int]) == nm);
                    out.remove(j);
                    out.insert(j, t);
                    assert(out@ =~= before.update(j as int, t));
                    proof {
                        assert forall|i: int| 0 <= i < out@.len() && i != j implies example_name(#[trigger] out@[i]) != nm by {
                            if i < j {
                                assert(seq_lt(example_name(before[i]), example_name(before[j as int])));
                            } else {
                                assert(seq_lt(example_name(before[j as int]), example_name(before[i])));
                            }
                            lemma_seq_lt_trichotomy(example_name(before[i]), nm);
                        }
                    }
                } else {
                    proof {
                        assert forall|i: int| j <= i < before.len() implies seq_lt(nm, example_name(#[trigger] before[i])) by {
                            if i > j {
                                assert(seq_lt(example_name(before[j as int]), example_name(before[i])));
                                lemma_seq_lt_transitive(nm, example_name(before[j as int]), example_name(before[i]));
                            }
                        }
                    }
                    out.insert(j, t);
                    assert(out@ =~= before.insert(j as int, t));
                    proof {
                        assert forall|i: int| 0 <= i < out@.len() && i != j implies example_name(#[trigger] out@[i]) != nm by {
                            if i < j {
                                lemma_seq_lt_trichotomy(example_name(before[i]), nm);
                            } else {
                                assert(out@[i] == before[i - 1]);
                                lemma_seq_lt_trichotomy(nm, example_name(before[i - 1]));
                            }
                        }
                        assert forall|a: int, b: int| 0 <= a < b < out@.len() implies seq_lt(
                            example_name(#[trigger] out@[a]),
                            example_name(#[trigger] out@[b]),
                        ) by {
                            if b < j {
                            } else if b == j {
                            } else if a < j {
                                assert(out@[b] == before[b - 1]);
                                lemma_seq_lt_transitive(example_name(before[a]), nm, example_name(before[b - 1]));
                            } else if a == j {
                                assert(out@[b] == before[b - 1]);
                            } else {
                                assert(out@[a] == before[a - 1] && out@[b] == before[b - 1]);
                            }
                        }
                    }
                }
                proof {
                    let m2 = named(all.take(k + 1));
                    assert(m2 == m.insert(nm, t));
                    assert forall|i: int| 0 <= i < out@.len() implies m2.contains_key(example_name(#[trigger] out@[i]))
                        && m2[example_name(out@[i])] == out@[i] by {
                        if i == j {
                        } else if found {
                            assert(out@[i] == before[i]);
                        } else if i < j {
                            assert(out@[i] == before[i]);
                        } else {
                            assert(out@[i] == before[i - 1]);
                        }
                    }
                    assert forall|x: Seq<char>| #[trigger] m2.contains_key(x) implies exists|i: int|
                        0 <= i < out@.len() && example_name(#[trigger] out@[i]) == x by {
                        if x == nm {
                            assert(example_name(out@[j as int]) == x);
                        } else {
                            assert(m.contains_key(x));
                            let i0 = choose|i: int| 0 <= i < before.len() && example_name(#[trigger] before[i]) == x;
                            if found || i0 < j {
                                assert(out@[i0] == before[i0]);
                            } else {
                                assert(out@[i0 + 1] == before[i0]);
                            }
                        }
                    }
                }
            },
        }
        proof {
            if t.example is None {
                assert(named(all.take(k + 1)) == m);
            }
        }
        k = k + 1;
    }
    assert(all.take(k as int) =~= all);
    out
}

/// The locale of an example: its driving side, and the country and
/// subdivision of its ISO 3166-2 code.
pub open spec fn example_locale(t: TestCase, r: Locale) -> bool {
    &&& r.driving_side == t.driving_side
    &&& match t.iso_3166_2 {
        Some(c) => forall|s: &str| s@ == c@ ==> locale_from_codes(#[trigger] spec_iso_3166(s).unwrap(), r),
        None => r.country is None && r.iso_3166_2_subdivision is None,
    }
}

impl TestCase {
    /// The locale of the example.
    pub fn locale(&self) -> (r: Locale)
        requires
            self.iso_3166_2 matches Some(c) ==> code_readable(c@),
        ensures
            example_locale(*self, r),
    {
        let code = match &self.iso_3166_2 {
            Some(c) => Some(c.as_str()),
            None => None,
        };
        let r = Locale::builder().driving_side(self.driving_side).iso_3166_option(code).build();
        proof {
            match code {
                Some(c) => {
                    assert forall|s: &str| s@ == c@ implies locale_from_codes(
                        #[trigger] spec_iso_3166(s).unwrap(),
                        r,
                    ) by {
                        assert(s.len() == c.len());
                        assert(spec_iso_3166(s) == spec_iso_3166(c));
                    }
                },
                None => {},
            }
        }
        r
    }
}

/// The index of the example listed under a name.
pub fn example_named(examples: &Vec<TestCase>, name: &str) -> (r: Option<usize>)
    ensures
        match r {
            Some(i) => i < examples@.len() && example_name(examples@[i as int]) == name@ && examples@[i as int].example is Some,
            None => forall|i: int| 0 <= i < examples@.len() ==> !(example_name(#[trigger] examples@[i]) == name@ && examples@[i].example is Some),
        },
{
    let key = chars_of(name);
    let mut i: usize = 0;
    while i < examples.len()
        invariant
            i <= examples@.len(),
            key@ == name@,
            forall|j: int| 0 <= j < i ==> !(example_name(#[trigger] examples@[j]) == name@ && examples@[j].example is Some),
        decreases examples@.len() - i,
    {
        match examples[i].example() {
            Some(e) => {
                let other = chars_of(e);
                match compare_chars(other.as_slice(), key.as_slice()) {
                    KeyOrder::Equal => {
                        return Some(i);
                    },
                    _ => {},
                }
            },
            None => {},
        }
        i = i + 1;
    }
    None
}

} // verus!
