use osm2lanes::highway::{Highway, HighwayType};
use osm2lanes::locale::DrivingSide;
use osm2lanes::road::{Lane, Markings, Road};
use osm2lanes::tags::Tags;
use osm2lanes::test_case::{enabled_tests, Expected, RustTesting, TestCase};

fn case(way_id: Option<i64>, description: Option<&str>, rust: Option<RustTesting>, lanes: Vec<Lane>) -> TestCase {
    let mut road = Road::empty();
    road.highway = Highway::active(HighwayType::Residential);
    road.lanes = lanes;
    TestCase::new(
        way_id,
        None,
        None,
        description.map(|d| d.to_owned()),
        Some("example".to_owned()),
        DrivingSide::Right,
        None,
        Tags::from_pair("highway", "residential"),
        Expected::Road(road),
        rust,
    )
}

#[test]
fn options_of_a_case() {
    let plain = case(Some(42), None, None, vec![]);
    assert!(plain.test_enabled());
    assert!(!plain.test_expects_warnings());
    assert!(plain.test_include_separators());
    assert_eq!(plain.example(), Some("example"));
    let off = case(None, Some("off"), Some(RustTesting::Enabled(false)), vec![]);
    assert!(!off.test_enabled());
    assert!(!off.test_include_separators());
    let opts = case(
        None,
        Some("opts"),
        Some(RustTesting::WithOptions { separator: Some(false), expect_warnings: Some(true) }),
        vec![],
    );
    assert!(opts.test_enabled());
    assert!(opts.test_expects_warnings());
    assert!(!opts.test_include_separators());
}

#[test]
fn name_of_a_case() {
    assert_eq!(case(Some(42), Some("two lanes"), None, vec![]).to_string(), "42 two lanes");
    assert_eq!(case(None, Some("only text"), None, vec![]).to_string(), "only text");
    assert_eq!(case(Some(-7), None, None, vec![]).to_string(), "-7");
}

#[test]
fn separators_and_filter() {
    let with = case(
        Some(1),
        None,
        None,
        vec![Lane::Separator { markings: Markings::new(vec![]) }],
    );
    assert!(with.expected_has_separators());
    assert_eq!(with.road().lanes.len(), 1);
    let without = case(Some(2), None, Some(RustTesting::Enabled(false)), vec![]);
    assert!(!without.expected_has_separators());
    let kept = enabled_tests(vec![with, without]);
    assert_eq!(kept.len(), 1);
    assert_eq!(kept[0].way_id, Some(1));
}
