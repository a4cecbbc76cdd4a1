use osm2lanes::lanes_to_tags::Config as LanesToTagsConfig;
use osm2lanes::msg::{LanesToTagsMsg, RoadError, RoadWarnings, TagsToLanesMsg};
use osm2lanes::tags::Tags;
use osm2lanes::tags::TagKey;
use osm2lanes::access_by_lane::LaneDependentAccessError;

#[test]
fn message_texts() {
    assert_eq!(TagsToLanesMsg::deprecated_tag("foo", "bar").to_string(), "deprecated: 'foo=bar'");
    assert_eq!(TagsToLanesMsg::unsupported_tag("a", "b").to_string(), "unsupported: 'a=b'");
    assert_eq!(TagsToLanesMsg::unsupported_str("no way").to_string(), "unsupported: 'no way'");
    assert_eq!(
        TagsToLanesMsg::unimplemented("bus", Tags::from_pair("busway", "lane")).to_string(),
        "unimplemented: 'bus' - 'busway=lane'"
    );
    assert_eq!(TagsToLanesMsg::ambiguous_tags(Tags::new()).to_string(), "ambiguous: 'no tags'");
    assert_eq!(TagsToLanesMsg::internal("oops").to_string(), "oops");
}

#[test]
fn warnings_and_errors_as_text() {
    let mut warnings = RoadWarnings::default();
    warnings.push(TagsToLanesMsg::unsupported_tag("a", "b"));
    warnings.push(TagsToLanesMsg::internal("c"));
    assert_eq!(warnings.to_string(), "Warning: unsupported: 'a=b'\nWarning: c");
    assert_eq!(RoadError::from_warnings(warnings).to_string(), "2 warnings");
    assert_eq!(RoadError::RoundTrip.to_string(), "lanes to tags cannot roundtrip");
    assert_eq!(LanesToTagsMsg::unimplemented("foobar").to_string(), "unimplemented: 'foobar'");
    assert_eq!(LanesToTagsMsg::roundtrip().to_string(), "roundtrip");
    assert_eq!(
        LanesToTagsMsg::from_road_error(RoadError::RoundTrip).to_string(),
        "roundtrip: lanes to tags cannot roundtrip"
    );
    let dup = Tags::from_pairs(&[("k", "1"), ("k", "2")]).unwrap_err();
    assert_eq!(LanesToTagsMsg::from_duplicate_key(dup).to_string(), "duplicate tag key k");
}

#[test]
fn lanes_to_tags_config() {
    assert!(LanesToTagsConfig::default().check_roundtrip);
    assert!(!LanesToTagsConfig::new(false).check_roundtrip);
}

#[test]
fn access_errors_as_text() {
    assert_eq!(LaneDependentAccessError::Conflict.to_string(), "conflicting tags");
    let unknown = LaneDependentAccessError::Unknown(TagKey::from_ref("access:lanes"), "x|y".to_owned());
    assert_eq!(unknown.to_string(), "unknown tag value access:lanes=x|y");
}
