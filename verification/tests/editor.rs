use osm2lanes::editor::{
    country_choices, country_options,
    example_event, fetched_event, is_edit_defined, nearby_event, parse_way_id, EditorAction, EditorMsg, EditorState,
    WayIdError,
};
use osm2lanes::locale::{Country, DrivingSide, Locale};
use osm2lanes::overpass::OverpassError;
use osm2lanes::road::Road;
use osm2lanes::tags::Tags;
use osm2lanes::test_case::{drop_null_lines, example_named, examples_by_name, Expected, TestCase};

fn typed(state: &mut EditorState, text: &str) -> EditorAction {
    let action = state.update(EditorMsg::TagsSet(text.to_owned()));
    if action == EditorAction::Refresh {
        assert!(is_edit_defined(&state.edit_tags, &state.locale));
        state.update_tags();
    }
    action
}

fn example(name: Option<&str>, way_id: Option<i64>, tags: &[(&str, &str)]) -> TestCase {
    TestCase::new(
        way_id,
        None,
        None,
        None,
        name.map(str::to_owned),
        DrivingSide::Right,
        None,
        Tags::from_pairs(tags).unwrap(),
        Expected::Road(Road::empty()),
        None,
    )
}

#[test]
fn editor_starts_loading_in_france() {
    let state = EditorState::new();
    assert_eq!(state.edit_tags, "Loading...");
    assert!(state.road.is_none());
    assert!(state.message.is_none());
    assert_eq!(state.locale.driving_side, DrivingSide::Right);
    assert_eq!(state.locale.country.as_ref().map(|c| c.alpha2.as_str()), Some("FR"));
}

#[test]
fn editor_reads_tags_typed() {
    let mut state = EditorState::new();
    let action = typed(&mut state, "highway=residential\nlanes=2");
    assert_eq!(action, EditorAction::Refresh);
    let road = state.road.as_ref().unwrap();
    assert_eq!(road.lanes.len(), 3);
    let normalized = state.normalized_tags.as_deref().unwrap();
    assert!(normalized.contains("highway=residential"));
    assert!(normalized.contains("lanes=2"));
    assert_eq!(state.message.as_deref(), Some("Warning: default separator may not match locale"));
}

#[test]
fn editor_shows_tags_that_cannot_be_read() {
    let mut state = EditorState::new();
    typed(&mut state, "highway");
    assert!(state.road.is_none());
    assert!(state.normalized_tags.is_none());
    assert_eq!(state.message.as_deref(), Some("Conversion Error: tag must be = separated"));
    typed(&mut state, "a=1\nb=2\na=3");
    assert_eq!(state.message.as_deref(), Some("Conversion Error: duplicate tag key a"));
}

#[test]
fn editor_shows_a_way_that_is_no_highway() {
    let mut state = EditorState::new();
    typed(&mut state, "building=yes");
    assert!(state.road.is_none());
    assert_eq!(state.message.as_deref(), Some("Conversion Error: unsupported: 'way is not highway'"));
}

#[test]
fn editor_shows_warnings() {
    let mut state = EditorState::new();
    typed(&mut state, "highway=residential\nlit=maybe");
    assert!(state.road.is_some());
    let message = state.message.as_deref().unwrap();
    assert!(message.starts_with("Warning: unsupported"));
}

#[test]
fn editor_toggles_the_driving_side() {
    let mut state = EditorState::new();
    typed(&mut state, "highway=residential\nlanes=2\noneway=no");
    let before = state.road.as_ref().unwrap().lanes[0].direction();
    let action = state.update(EditorMsg::ToggleDrivingSide);
    assert_eq!(action, EditorAction::Refresh);
    assert_eq!(state.locale.driving_side, DrivingSide::Left);
    state.update_tags();
    let after = state.road.as_ref().unwrap().lanes[0].direction();
    assert_ne!(before, after);
}

#[test]
fn editor_sets_a_country() {
    let mut state = EditorState::new();
    let action = state.update(EditorMsg::CountrySet(Ok(Country::germany())));
    assert_eq!(action, EditorAction::Refresh);
    assert_eq!(state.locale.country.as_ref().map(|c| c.value), Some(276));
    let action = state.update(EditorMsg::CountrySet(Err("unknown country".to_owned())));
    assert_eq!(action, EditorAction::Show);
    assert_eq!(state.message.as_deref(), Some("unknown country"));
}

#[test]
fn editor_loads_a_way() {
    let mut state = EditorState::new();
    let tags = Tags::from_pairs(&[("highway", "primary"), ("lanes", "4")]).unwrap();
    let locale = Locale::builder().driving_side(DrivingSide::Left).build();
    let action = state.update(EditorMsg::TagsLocaleSet { id: "42".to_owned(), tags, locale });
    assert_eq!(action, EditorAction::Refresh);
    assert_eq!(state.edit_tags, "highway=primary\nlanes=4");
    assert_eq!(state.id.as_deref(), Some("42"));
    assert_eq!(state.locale.driving_side, DrivingSide::Left);
}

#[test]
fn editor_fetches_a_way_by_id() {
    let mut state = EditorState::new();
    assert_eq!(state.update(EditorMsg::WayFetch("12345".to_owned())), EditorAction::FetchWay(12345));
    assert_eq!(state.update(EditorMsg::WayFetch("+7".to_owned())), EditorAction::FetchWay(7));
    assert!(state.message.is_none());
    assert_eq!(state.update(EditorMsg::WayFetch(String::new())), EditorAction::Show);
    assert_eq!(state.message.as_deref(), Some("Invalid way id: cannot parse integer from empty string"));
    state.update(EditorMsg::WayFetch("12a".to_owned()));
    assert_eq!(state.message.as_deref(), Some("Invalid way id: invalid digit found in string"));
}

#[test]
fn editor_shows_errors() {
    let mut state = EditorState::new();
    assert_eq!(state.update(EditorMsg::Error("offline".to_owned())), EditorAction::Show);
    assert_eq!(state.message.as_deref(), Some("Error: offline"));
}

#[test]
fn way_ids_read_as_the_standard_library_reads_them() {
    assert_eq!(parse_way_id("0"), Ok(0));
    assert_eq!(parse_way_id("18446744073709551615"), Ok(u64::MAX));
    assert_eq!(parse_way_id("18446744073709551616"), Err(WayIdError::TooLarge));
    assert_eq!(parse_way_id("99999999999999999999x"), Err(WayIdError::TooLarge));
    assert_eq!(parse_way_id("+"), Err(WayIdError::InvalidDigit));
    assert_eq!(parse_way_id("-1"), Err(WayIdError::InvalidDigit));
    assert_eq!(parse_way_id(""), Err(WayIdError::Empty));
    for text in ["0", "42", "+42", "18446744073709551615", "18446744073709551616", "1x", "", "+", "-1", " 1"] {
        let std_result = text.parse::<u64>();
        match parse_way_id(text) {
            Ok(v) => assert_eq!(std_result, Ok(v)),
            Err(e) => assert_eq!(std_result.unwrap_err().to_string(), e.to_string()),
        }
    }
}

#[test]
fn edits_are_not_defined_for_a_path_of_two_lanes() {
    let locale = Locale::builder().build();
    assert!(!is_edit_defined("highway=path\nlanes=2", &locale));
    assert!(is_edit_defined("highway=path", &locale));
    assert!(is_edit_defined("not tags", &locale));
}

#[test]
fn fetched_and_nearby_ways_become_events() {
    let tags = Tags::from_pairs(&[("highway", "primary")]).unwrap();
    match fetched_event(7, Ok((tags, Locale::builder().build()))) {
        EditorMsg::TagsLocaleSet { id, .. } => assert_eq!(id, "7"),
        _ => panic!("expected the way"),
    }
    match fetched_event(7, Err(OverpassError::Malformed)) {
        EditorMsg::Error(e) => assert_eq!(e, "overpass response malformed"),
        _ => panic!("expected an error"),
    }
    match nearby_event(Err(OverpassError::Empty)) {
        EditorMsg::Error(e) => assert_eq!(e, "no ways found"),
        _ => panic!("expected an error"),
    }
    let tags = Tags::from_pairs(&[("highway", "primary")]).unwrap();
    match nearby_event(Ok((99, tags, Locale::builder().build()))) {
        EditorMsg::TagsLocaleSet { id, tags, .. } => {
            assert_eq!(id, "99");
            assert_eq!(tags.get("highway"), Some("primary"));
        },
        _ => panic!("expected the way"),
    }
}

#[test]
fn examples_are_listed_by_name_once() {
    let tests = vec![
        example(Some("b"), Some(1), &[("highway", "primary")]),
        example(None, Some(2), &[("highway", "path")]),
        example(Some("a"), Some(3), &[("highway", "residential")]),
        example(Some("b"), Some(4), &[("highway", "service")]),
    ];
    let examples = examples_by_name(tests);
    let names: Vec<&str> = examples.iter().map(|t| t.example().unwrap()).collect();
    assert_eq!(names, vec!["a", "b"]);
    assert_eq!(examples[1].way_id, Some(4));
    assert_eq!(example_named(&examples, "b"), Some(1));
    assert_eq!(example_named(&examples, "c"), None);
}

#[test]
fn an_example_loads_into_the_editor() {
    let test = example(Some("a"), Some(3), &[("highway", "residential")]);
    match example_event(&test) {
        EditorMsg::TagsLocaleSet { id, tags, locale } => {
            assert_eq!(id, "3");
            assert_eq!(tags.get("highway"), Some("residential"));
            assert_eq!(locale.driving_side, DrivingSide::Right);
        },
        _ => panic!("expected the example"),
    }
}

#[test]
fn a_test_case_is_generated_from_an_edit() {
    let locale = Locale::builder().driving_side(DrivingSide::Left).build();
    let test = TestCase::from_edit(None, "highway=primary\nlanes=2", &locale, Some(5));
    assert_eq!(test.way_id, Some(5));
    assert_eq!(test.description.as_deref(), Some("fill me out"));
    assert_eq!(test.driving_side, DrivingSide::Left);
    assert_eq!(test.tags.get("lanes"), Some("2"));
    let unreadable = TestCase::from_edit(None, "highway", &locale, None);
    assert!(unreadable.tags.is_empty());
}

#[test]
fn null_fields_are_dropped_from_yaml() {
    let raw = "way_id: 5\nlink: null\ndescription: fill me out\nrust: null\n";
    assert_eq!(drop_null_lines(raw), "way_id: 5\ndescription: fill me out\n");
    assert_eq!(drop_null_lines(""), "");
    assert_eq!(drop_null_lines("a: b"), "a: b\n");
}

#[test]
fn choosing_a_country_keeps_the_message() {
    let mut state = EditorState::new();
    state.update(EditorMsg::Error("offline".to_owned()));
    state.update(EditorMsg::CountrySet(Ok(Country::germany())));
    assert_eq!(state.message.as_deref(), Some("Error: offline"));
}

#[test]
fn countries_are_offered_in_code_order() {
    let countries = vec![Country::germany(), Country::the_netherlands(), Country::the_united_kingdom_of_great_britain_and_northern_ireland()];
    let options = country_options(&countries, &Some(Country::the_netherlands()));
    let expected: Vec<(String, bool)> =
        vec![("DE".to_owned(), false), ("GB".to_owned(), false), ("NL".to_owned(), true)];
    assert_eq!(options, expected);
    let all = country_choices(&None);
    assert_eq!(all.len(), 250);
    assert!(all.windows(2).all(|w| w[0].0 <= w[1].0));
    assert!(all.iter().all(|o| !o.1));
}
