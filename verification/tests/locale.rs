use osm2lanes::locale::{Country, DrivingSide, Locale};
use osm2lanes::road::Color;

#[test]
fn test_locale() {
    let locale = Locale::builder()
        .driving_side(DrivingSide::Right)
        .iso_3166("DE-NW")
        .build();
    assert_eq!(locale.driving_side, DrivingSide::Right);
    assert_eq!(locale.country.unwrap(), Country::germany());
}

#[test]
fn country_codes() {
    let nl = Country::from_alpha2("NL").unwrap();
    assert!(nl == Country::the_netherlands());
    assert_eq!(nl.value, 528);
    let gb = Country::from_alpha3("gbr").unwrap();
    assert!(gb == Country::the_united_kingdom_of_great_britain_and_northern_ireland());
    assert!(Country::from_alpha2("XX").is_none());
}

#[test]
fn driving_side_names() {
    assert_eq!(DrivingSide::Right.to_string(), "right");
    assert_eq!(DrivingSide::Left.to_string(), "left");
    assert_eq!(DrivingSide::from_str("left").unwrap(), DrivingSide::Left);
    assert!(DrivingSide::from_str("up").is_err());
    assert_eq!(DrivingSide::Left.opposite(), DrivingSide::Right);
    assert_eq!(DrivingSide::Right.opposite().opposite(), DrivingSide::Right);
}

#[test]
fn centre_line_is_yellow_in_the_americas() {
    let us = Locale::builder().iso_3166("US").build();
    assert_eq!(us.separator_motor_color(), Color::Yellow);
    let de = Locale::builder().iso_3166("DE").build();
    assert_eq!(de.separator_motor_color(), Color::White);
}
