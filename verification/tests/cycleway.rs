use osm2lanes::builder::Oneway;
use osm2lanes::cycleway::{Location, Scheme, Variant, Way};
use osm2lanes::locale::Locale;
use osm2lanes::msg::{RoadWarnings, TagsToLanesIssue};
use osm2lanes::road::Direction;
use osm2lanes::tags::Tags;

#[test]
fn lane() {
    let mut warnings = RoadWarnings::default();
    let scheme = Scheme::from_tags(
        &Tags::from_pair("cycleway", "lane"),
        &Locale::builder().build(),
        Oneway::No,
        &mut warnings,
    )
    .unwrap();
    assert!(warnings.is_empty(), "{:?}", warnings);
    assert_eq!(
        scheme.location,
        Location::Both {
            forward: Way {
                variant: Variant::Lane,
                direction: Direction::Forward,
                width: None,
            },
            backward: Way {
                variant: Variant::Lane,
                direction: Direction::Backward,
                width: None,
            }
        }
    )
}

#[test]
fn oneway_opposite_track() {
    let mut warnings = RoadWarnings::default();
    let scheme = Scheme::from_tags(
        &Tags::from_pair("cycleway", "opposite_track"),
        &Locale::builder().build(),
        Oneway::Yes,
        &mut warnings,
    )
    .unwrap();
    assert_eq!(
        scheme.location,
        Location::Backward(Way {
            variant: Variant::Track,
            direction: Direction::Backward,
            width: None,
        })
    );
}

#[test]
fn forward_lane() {
    let mut warnings = RoadWarnings::default();
    let scheme = Scheme::from_tags(
        &Tags::from_pair("cycleway:right", "lane"),
        &Locale::builder().build(),
        Oneway::No,
        &mut warnings,
    )
    .unwrap();
    assert!(warnings.is_empty(), "{:?}", warnings);
    assert_eq!(
        scheme.location,
        Location::Forward(Way {
            variant: Variant::Lane,
            direction: Direction::Forward,
            width: None,
        })
    );
}

#[test]
fn backward_track() {
    let mut warnings = RoadWarnings::default();
    let scheme = Scheme::from_tags(
        &Tags::from_pair("cycleway:left", "track"),
        &Locale::builder().build(),
        Oneway::No,
        &mut warnings,
    )
    .unwrap();
    assert!(warnings.is_empty(), "{:?}", warnings);
    assert_eq!(
        scheme.location,
        Location::Backward(Way {
            variant: Variant::Track,
            direction: Direction::Backward,
            width: None,
        })
    );
}

#[test]
fn backward_opposite_track() {
    let mut warnings = RoadWarnings::default();
    let scheme = Scheme::from_tags(
        &Tags::from_pair("cycleway:left", "opposite_track"),
        &Locale::builder().build(),
        Oneway::No,
        &mut warnings,
    )
    .unwrap();
    assert_eq!(
        scheme.location,
        Location::Backward(Way {
            variant: Variant::Track,
            direction: Direction::Backward,
            width: None,
        })
    );
}

#[test]
fn backward_lane_min1() {
    let mut warnings = RoadWarnings::default();
    let scheme = Scheme::from_tags(
        &Tags::from_pairs(&[("cycleway:left", "track"), ("cycleway:left:oneway", "-1")]).unwrap(),
        &Locale::builder().build(),
        Oneway::No,
        &mut warnings,
    )
    .unwrap();
    assert!(warnings.is_empty(), "{:?}", warnings);
    assert_eq!(
        scheme.location,
        Location::Backward(Way {
            variant: Variant::Track,
            direction: Direction::Backward,
            width: None,
        })
    );
}

#[test]
fn opposite() {
    let mut warnings = RoadWarnings::default();
    let scheme = Scheme::from_tags(
        &Tags::from_pair("cycleway", "opposite"),
        &Locale::builder().build(),
        Oneway::Yes,
        &mut warnings,
    )
    .unwrap();
    assert!(warnings.is_empty(), "{:?}", warnings);
    assert_eq!(
        scheme.location,
        Location::Backward(Way {
            variant: Variant::SharedMotor,
            direction: Direction::Backward,
            width: None,
        })
    );
}

#[test]
fn err_opposite_twoway() {
    let scheme = Scheme::from_tags(
        &Tags::from_pair("cycleway", "opposite"),
        &Locale::builder().build(),
        Oneway::No,
        &mut RoadWarnings::default(),
    );
    assert!(scheme.is_err());
}

#[test]
fn warn_shoulder() {
    let mut warnings = RoadWarnings::default();
    let scheme = Scheme::from_tags(
        &Tags::from_pair("cycleway", "shoulder"),
        &Locale::builder().build(),
        Oneway::No,
        &mut warnings,
    );
    assert!(!warnings.is_empty(), "{:?}", scheme);
}

#[test]
fn warn_no_lane() {
    let tags = Tags::from_pairs(&[("cycleway", "no"), ("cycleway:left", "lane")]).unwrap();
    let mut warnings = RoadWarnings::default();
    let _scheme = Scheme::from_tags(&tags, &Locale::builder().build(), Oneway::No, &mut warnings);
    assert_eq!(warnings.as_slice().len(), 1);
    if let TagsToLanesIssue::Unsupported {
        tags: Some(unsupported_tags),
        ..
    } = &warnings.as_slice().get(0).unwrap().issue
    {
        assert_eq!(unsupported_tags.to_str_pairs(), tags.to_str_pairs())
    } else {
        panic!("wrong TagsToLanesIssue")
    }
}

#[test]
fn warn_track_no() {
    let tags = Tags::from_pairs(&[("cycleway", "track"), ("cycleway:left", "no")]).unwrap();
    let mut warnings = RoadWarnings::default();
    let _scheme = Scheme::from_tags(&tags, &Locale::builder().build(), Oneway::No, &mut warnings);
    assert_eq!(warnings.as_slice().len(), 1);
    if let TagsToLanesIssue::Unsupported {
        tags: Some(unsupported_tags),
        ..
    } = &warnings.as_slice().get(0).unwrap().issue
    {
        assert_eq!(unsupported_tags.to_str_pairs(), tags.to_str_pairs())
    } else {
        panic!("wrong TagsToLanesIssue")
    }
}

#[test]
fn err_lane_track() {
    let tags = Tags::from_pairs(&[("cycleway:both", "lane"), ("cycleway:right", "track")]).unwrap();
    let mut warnings = RoadWarnings::default();
    let _scheme = Scheme::from_tags(&tags, &Locale::builder().build(), Oneway::No, &mut warnings);
    assert_eq!(warnings.as_slice().len(), 1);
    if let TagsToLanesIssue::Unsupported {
        tags: Some(unsupported_tags),
        ..
    } = &warnings.as_slice().get(0).unwrap().issue
    {
        assert_eq!(unsupported_tags.to_str_pairs(), tags.to_str_pairs())
    } else {
        panic!("wrong TagsToLanesIssue")
    }
}
