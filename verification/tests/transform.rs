use osm2lanes::builder::{LaneBuilder, LaneType, Width};
use osm2lanes::infer::Infer;
use osm2lanes::highway::{Highway, HighwayImportance, HighwayType, Lifecycle};
use osm2lanes::lanes_to_tags::{lanes_to_tags, Config as LanesToTagsConfig};
use osm2lanes::locale::{Country, DrivingSide, Locale};
use osm2lanes::metric::{Metre, Speed};
use osm2lanes::msg::{LanesToTagsIssue, RoadError, TagsToLanesIssue};
use osm2lanes::road::{Designated, Direction, Lane, Road};
use osm2lanes::tags::Tags;
use osm2lanes::transform::{is_tags_to_lanes_defined, tags_to_lanes, Config};

fn travel(direction: Direction, designated: Designated) -> Lane {
    Lane::Travel {
        direction: Some(direction),
        designated,
        width: None,
        max_speed: None,
        access: None,
    }
}

fn road_of(highway: Highway, lanes: Vec<Lane>) -> Road {
    let mut road = Road::empty();
    road.highway = highway;
    road.lanes = lanes;
    road
}

#[test]
fn two_lane_residential() {
    let tags = Tags::from_pairs(&[("highway", "residential"), ("lanes", "2")]).unwrap();
    let locale = Locale::builder().driving_side(DrivingSide::Right).build();
    let result = tags_to_lanes(&tags, &locale, &Config::default()).unwrap();
    let lanes = &result.road.lanes;
    assert_eq!(lanes.len(), 3);
    assert!(lanes[0].is_motor());
    assert_eq!(lanes[0].direction(), Some(Direction::Backward));
    assert!(lanes[1].is_separator());
    assert!(lanes[2].is_motor());
    assert_eq!(lanes[2].direction(), Some(Direction::Forward));
    assert_eq!(result.road.highway.highway_type(), HighwayType::Residential);
}

#[test]
fn left_hand_traffic_mirrors_the_lanes() {
    let tags = Tags::from_pairs(&[("highway", "residential"), ("lanes", "2")]).unwrap();
    let locale = Locale::builder().driving_side(DrivingSide::Left).build();
    let result = tags_to_lanes(&tags, &locale, &Config::new(false, false)).unwrap();
    let lanes = &result.road.lanes;
    assert_eq!(lanes.len(), 2);
    assert_eq!(lanes[0].direction(), Some(Direction::Forward));
    assert_eq!(lanes[1].direction(), Some(Direction::Backward));
}

#[test]
fn name_and_ref_are_kept() {
    let tags = Tags::from_pairs(&[("highway", "primary"), ("name", "Main Street"), ("ref", "A1")]).unwrap();
    let locale = Locale::builder().build();
    let result = tags_to_lanes(&tags, &locale, &Config::default()).unwrap();
    assert_eq!(result.road.name.as_deref(), Some("Main Street"));
    assert_eq!(result.road.reference.as_deref(), Some("A1"));
}

#[test]
fn reversible_oneway_is_unimplemented() {
    let tags = Tags::from_pairs(&[("highway", "residential"), ("oneway", "reversible")]).unwrap();
    let locale = Locale::builder().build();
    match tags_to_lanes(&tags, &locale, &Config::default()) {
        Err(RoadError::Msg(m)) => {
            assert!(matches!(m.issue, TagsToLanesIssue::Unimplemented { .. }));
            assert_eq!(m.to_string(), "unimplemented: 'oneway=reversible'");
        },
        _ => panic!("expected an error"),
    }
}

#[test]
fn not_a_highway_is_unsupported() {
    let tags = Tags::from_pair("building", "yes");
    let locale = Locale::builder().build();
    match tags_to_lanes(&tags, &locale, &Config::default()) {
        Err(RoadError::Msg(m)) => {
            assert_eq!(m.to_string(), "unsupported: 'way is not highway'");
        },
        _ => panic!("expected an error"),
    }
}

#[test]
fn lanes_round_trip() {
    let tags = Tags::from_pairs(&[("highway", "residential"), ("lanes", "2")]).unwrap();
    let locale = Locale::builder().driving_side(DrivingSide::Left).iso_3166("GB").build();
    let result = tags_to_lanes(&tags, &locale, &Config::default()).unwrap();
    assert!(result.warnings.is_empty());
    let back = lanes_to_tags(&result.road, &locale, &LanesToTagsConfig::new(true)).unwrap();
    assert_eq!(back.get("highway"), Some("residential"));
    assert_eq!(back.get("lanes"), Some("2"));
    assert_eq!(back.get("lanes:forward"), Some("1"));
    assert_eq!(back.get("lanes:backward"), Some("1"));
    assert_eq!(back.get("shoulder"), Some("no"));
    assert_eq!(back.get("sidewalk"), Some("no"));
    assert_eq!(back.get("oneway"), None);
}

#[test]
fn round_trip_refused_on_warnings() {
    let tags = Tags::from_pairs(&[("highway", "residential"), ("lanes", "2")]).unwrap();
    let locale = Locale::builder().driving_side(DrivingSide::Right).build();
    let result = tags_to_lanes(&tags, &locale, &Config::default()).unwrap();
    assert_eq!(result.warnings.as_slice().len(), 1);
    let err = lanes_to_tags(&result.road, &locale, &LanesToTagsConfig::new(true)).unwrap_err();
    assert!(matches!(err.issue, LanesToTagsIssue::Roundtrip(Some(RoadError::Warnings(_)))));
    assert!(lanes_to_tags(&result.road, &locale, &LanesToTagsConfig::new(false)).is_ok());
}

#[test]
fn one_way_lanes_to_tags() {
    let road = road_of(
        Highway::active(HighwayType::Classified(HighwayImportance::Primary)),
        vec![
            travel(Direction::Forward, Designated::Foot),
            travel(Direction::Forward, Designated::Motor),
            travel(Direction::Forward, Designated::Motor),
            travel(Direction::Backward, Designated::Bicycle),
        ],
    );
    let locale = Locale::builder().build();
    let tags = lanes_to_tags(&road, &locale, &LanesToTagsConfig::new(false)).unwrap();
    assert_eq!(
        tags.to_vec(),
        vec![
            "cycleway:right=lane",
            "cycleway:right:oneway=-1",
            "highway=primary",
            "lanes=2",
            "oneway=yes",
            "oneway:bicycle=no",
            "shoulder=no",
            "sidewalk=left",
        ]
    );
}

#[test]
fn path_without_motor_lanes() {
    let road = road_of(
        Highway::active(HighwayType::Footway),
        vec![travel(Direction::Both, Designated::Foot)],
    );
    let locale = Locale::builder().build();
    let tags = lanes_to_tags(&road, &locale, &LanesToTagsConfig::default()).unwrap();
    assert_eq!(tags.to_vec(), vec!["highway=path"]);
}

#[test]
fn construction_is_unimplemented() {
    let road = road_of(
        Highway::new(HighwayType::Residential, Lifecycle::Construction),
        vec![travel(Direction::Forward, Designated::Motor)],
    );
    let locale = Locale::builder().build();
    let err = lanes_to_tags(&road, &locale, &LanesToTagsConfig::new(false)).unwrap_err();
    assert!(matches!(&err.issue, LanesToTagsIssue::Unimplemented(d) if d == "construction=*"));
    assert_eq!(err.to_string(), "unimplemented: 'construction=*'");
}

#[test]
fn different_max_speeds_are_unimplemented() {
    let mut fast = travel(Direction::Forward, Designated::Motor);
    if let Lane::Travel { max_speed, .. } = &mut fast {
        *max_speed = Some(Speed::Kph(50000));
    }
    let mut slow = travel(Direction::Backward, Designated::Motor);
    if let Lane::Travel { max_speed, .. } = &mut slow {
        *max_speed = Some(Speed::Kph(30000));
    }
    let road = road_of(Highway::active(HighwayType::Residential), vec![slow, fast]);
    let locale = Locale::builder().build();
    let err = lanes_to_tags(&road, &locale, &LanesToTagsConfig::new(false)).unwrap_err();
    assert!(matches!(&err.issue, LanesToTagsIssue::Unimplemented(d) if d == "different max speeds per lane"));
}

#[test]
fn dutch_road_at_100_is_a_motorroad() {
    let mut a = travel(Direction::Backward, Designated::Motor);
    let mut b = travel(Direction::Forward, Designated::Motor);
    for lane in [&mut a, &mut b] {
        if let Lane::Travel { max_speed, width, .. } = lane {
            *max_speed = Some(Speed::Kph(100000));
            *width = Some(Metre::from_millimetres(3500));
        }
    }
    let road = road_of(Highway::active(HighwayType::Classified(HighwayImportance::Trunk)), vec![a, b]);
    let locale = Locale::builder().country(Country::the_netherlands()).build();
    let tags = lanes_to_tags(&road, &locale, &LanesToTagsConfig::new(false)).unwrap();
    assert_eq!(tags.get("maxspeed"), Some("100"));
    assert_eq!(tags.get("motorroad"), Some("yes"));
    let elsewhere = Locale::builder().country(Country::germany()).build();
    let tags = lanes_to_tags(&road, &elsewhere, &LanesToTagsConfig::new(false)).unwrap();
    assert_eq!(tags.get("motorroad"), None);
}

#[test]
fn bus_lane_in_the_middle() {
    let road = road_of(
        Highway::active(HighwayType::Classified(HighwayImportance::Secondary)),
        vec![
            travel(Direction::Backward, Designated::Motor),
            travel(Direction::Forward, Designated::Bus),
            travel(Direction::Forward, Designated::Motor),
        ],
    );
    let locale = Locale::builder().build();
    let tags = lanes_to_tags(&road, &locale, &LanesToTagsConfig::new(false)).unwrap();
    assert_eq!(tags.get("bus:lanes"), Some("|designated|"));
    assert_eq!(tags.get("lanes"), Some("3"));
    assert_eq!(tags.get("lanes:forward"), Some("2"));
    assert_eq!(tags.get("lanes:backward"), Some("1"));
}

#[test]
fn bus_lane_on_the_edge() {
    let road = road_of(
        Highway::active(HighwayType::Classified(HighwayImportance::Secondary)),
        vec![
            travel(Direction::Forward, Designated::Motor),
            travel(Direction::Forward, Designated::Bus),
        ],
    );
    let locale = Locale::builder().build();
    let tags = lanes_to_tags(&road, &locale, &LanesToTagsConfig::new(false)).unwrap();
    assert_eq!(tags.get("busway:right"), Some("lane"));
    assert_eq!(tags.get("bus:lanes"), None);
}

fn designations(tags: &[(&str, &str)], side: DrivingSide) -> Vec<(String, Option<Direction>)> {
    let tags = Tags::from_pairs(tags).unwrap();
    let locale = Locale::builder().driving_side(side).build();
    let result = tags_to_lanes(&tags, &locale, &Config::new(false, false)).unwrap();
    result
        .road
        .lanes
        .iter()
        .map(|l| {
            let kind = match l {
                Lane::Travel { designated, .. } => format!("{:?}", designated),
                Lane::Parking { .. } => "Parking".to_owned(),
                Lane::Shoulder { .. } => "Shoulder".to_owned(),
                Lane::Separator { .. } => "Separator".to_owned(),
            };
            (kind, l.direction())
        })
        .collect()
}

#[test]
fn one_way_single_lane() {
    assert_eq!(
        designations(&[("highway", "residential"), ("oneway", "yes"), ("lanes", "1")], DrivingSide::Right),
        vec![("Motor".to_owned(), Some(Direction::Forward))]
    );
}

#[test]
fn sidewalks_on_both_sides() {
    let lanes = designations(
        &[("highway", "residential"), ("lanes", "2"), ("sidewalk", "both")],
        DrivingSide::Right,
    );
    let kinds: Vec<&str> = lanes.iter().map(|(k, _)| k.as_str()).collect();
    assert_eq!(kinds, vec!["Foot", "Motor", "Motor", "Foot"]);
}

#[test]
fn cycle_lanes_on_both_sides() {
    let lanes = designations(
        &[("highway", "residential"), ("lanes", "2"), ("cycleway", "lane")],
        DrivingSide::Right,
    );
    assert_eq!(
        lanes,
        vec![
            ("Bicycle".to_owned(), Some(Direction::Backward)),
            ("Motor".to_owned(), Some(Direction::Backward)),
            ("Motor".to_owned(), Some(Direction::Forward)),
            ("Bicycle".to_owned(), Some(Direction::Forward)),
        ]
    );
}

#[test]
fn parking_on_both_sides() {
    let lanes = designations(
        &[("highway", "residential"), ("lanes", "2"), ("parking:lane:both", "parallel")],
        DrivingSide::Right,
    );
    let kinds: Vec<&str> = lanes.iter().map(|(k, _)| k.as_str()).collect();
    assert_eq!(kinds, vec!["Parking", "Motor", "Motor", "Parking"]);
}

#[test]
fn unknown_lit_is_warned() {
    let tags = Tags::from_pairs(&[("highway", "residential"), ("lit", "sometimes")]).unwrap();
    let locale = Locale::builder().build();
    let result = tags_to_lanes(&tags, &locale, &Config::new(false, false)).unwrap();
    assert!(result.road.lit.is_none());
    let texts: Vec<String> = result.warnings.as_slice().iter().map(|w| w.to_string()).collect();
    assert!(texts.contains(&"unsupported: 'lit=sometimes'".to_owned()), "{:?}", texts);
    let err = tags_to_lanes(&tags, &locale, &Config::new(true, false)).unwrap_err();
    assert!(matches!(err, RoadError::Warnings(_)));
}

#[test]
fn strictness_keeps_lanes() {
    let tags = Tags::from_pairs(&[("highway", "residential"), ("lanes", "2")]).unwrap();
    let locale = Locale::builder().driving_side(DrivingSide::Left).iso_3166("GB").build();
    let strict = tags_to_lanes(&tags, &locale, &Config::new(true, true)).unwrap();
    let lenient = tags_to_lanes(&tags, &locale, &Config::new(false, true)).unwrap();
    assert!(strict.warnings.is_empty());
    assert!(lenient.warnings.is_empty());
    assert_eq!(strict.road.lanes.len(), lenient.road.lanes.len());
    for (a, b) in strict.road.lanes.iter().zip(lenient.road.lanes.iter()) {
        assert!(a.same_as(b));
    }
    let plain = tags_to_lanes(&tags, &locale, &Config::new(false, false)).unwrap();
    assert!(plain.road.lanes.iter().all(|l| !l.is_separator()));
}

#[test]
fn defined_on_an_ordinary_road() {
    let tags = Tags::from_pairs(&[("highway", "residential"), ("lanes", "2"), ("maxspeed", "50")]).unwrap();
    let locale = Locale::builder().build();
    assert!(is_tags_to_lanes_defined(&tags, &locale, &Config::default()));
}

#[test]
fn not_defined_on_a_path_of_two_lanes() {
    let tags = Tags::from_pairs(&[("highway", "path"), ("lanes", "2")]).unwrap();
    let locale = Locale::builder().build();
    assert!(!is_tags_to_lanes_defined(&tags, &locale, &Config::default()));
    let one = Tags::from_pairs(&[("highway", "path")]).unwrap();
    assert!(is_tags_to_lanes_defined(&one, &locale, &Config::default()));
}

#[test]
fn a_speed_without_class_matters_only_with_separators() {
    let tags = Tags::from_pairs(&[("highway", "motorway"), ("maxspeed", "250")]).unwrap();
    let locale = Locale::builder().build();
    assert!(!is_tags_to_lanes_defined(&tags, &locale, &Config::new(false, true)));
    assert!(is_tags_to_lanes_defined(&tags, &locale, &Config::new(false, false)));
}

#[test]
fn defined_where_the_highway_is_refused() {
    let tags = Tags::from_pairs(&[("building", "yes")]).unwrap();
    let locale = Locale::builder().build();
    assert!(is_tags_to_lanes_defined(&tags, &locale, &Config::default()));
    assert!(tags_to_lanes(&tags, &locale, &Config::default()).is_err());
}

#[test]
fn a_single_lane_needs_no_speed_class() {
    let tags = Tags::from_pairs(&[("highway", "residential"), ("oneway", "yes"), ("lanes", "1"), ("maxspeed", "250")])
        .unwrap();
    let locale = Locale::builder().build();
    let config = Config::new(false, true);
    assert!(is_tags_to_lanes_defined(&tags, &locale, &config));
    let result = tags_to_lanes(&tags, &locale, &config).unwrap();
    assert_eq!(result.road.lanes.iter().filter(|l| l.is_motor()).count(), 1);
}

#[test]
fn a_lane_builds_with_its_width_inside_its_bounds() {
    let mut lane = LaneBuilder::empty();
    lane.lane_type = Infer::Default(LaneType::Shoulder);
    lane.width = Width {
        min: Infer::Direct(Metre::from_millimetres(1000)),
        target: Infer::Direct(Metre::from_millimetres(2000)),
        max: Infer::Direct(Metre::from_millimetres(3000)),
    };
    match lane.build() {
        Lane::Shoulder { width } => assert_eq!(width.map(|w| w.millimetres), Some(2000)),
        _ => panic!("expected a shoulder"),
    }
}

#[test]
fn separators_are_only_added_between_the_lanes() {
    let tags = Tags::from_pairs(&[
        ("highway", "secondary"),
        ("lanes", "3"),
        ("lanes:forward", "2"),
        ("sidewalk", "both"),
    ])
    .unwrap();
    let locale = Locale::builder().build();
    let with = tags_to_lanes(&tags, &locale, &Config::new(false, true)).unwrap();
    let without = tags_to_lanes(&tags, &locale, &Config::new(false, false)).unwrap();
    let kept: Vec<&Lane> = with.road.lanes.iter().filter(|l| !l.is_separator()).collect();
    assert_eq!(kept.len(), without.road.lanes.len());
    for (a, b) in kept.iter().zip(without.road.lanes.iter()) {
        assert_eq!(a.direction(), b.direction());
        assert_eq!(a.is_motor(), b.is_motor());
    }
    assert!(with.road.lanes.len() > without.road.lanes.len());
}

#[test]
fn remaining_lanes_split_evenly_around_a_lane_both_ways() {
    let tags = Tags::from_pairs(&[("highway", "residential"), ("lanes", "5"), ("lanes:both_ways", "1")]).unwrap();
    let locale = Locale::builder().build();
    let result = tags_to_lanes(&tags, &locale, &Config::new(false, false)).unwrap();
    let lanes = &result.road.lanes;
    let count = |d: Direction| lanes.iter().filter(|l| l.is_motor() && l.direction() == Some(d)).count();
    assert_eq!(count(Direction::Backward), 2);
    assert_eq!(count(Direction::Both), 1);
    assert_eq!(count(Direction::Forward), 2);
    assert!(result.warnings.is_empty());
}
