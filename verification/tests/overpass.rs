use osm2lanes::locale::{Country, DrivingSide};
use osm2lanes::overpass::{Element, ElementType, OverpassError, OverpassResponse};
use osm2lanes::tags::Tags;

fn answer() -> OverpassResponse {
    OverpassResponse {
        elements: vec![
            Element {
                element_type: ElementType::Way,
                id: 62176050,
                tags: Tags::from_pairs(&[("highway", "trunk"), ("maxspeed", "110")]).unwrap(),
            },
            Element {
                element_type: ElementType::Area,
                id: 3600080500,
                tags: Tags::from_pairs(&[("ISO3166-1", "AU"), ("driving_side", "left")]).unwrap(),
            },
            Element {
                element_type: ElementType::Area,
                id: 3602316598,
                tags: Tags::from_pairs(&[("ISO3166-2", "AU-WA")]).unwrap(),
            },
        ],
    }
}

#[test]
fn locale_from_answer() {
    let resp = answer();
    assert_eq!(resp.iso3166_2(), Some("AU-WA"));
    assert_eq!(resp.iso3166_1(), Some("AU"));
    assert_eq!(resp.driving_side(), Some("left"));
    let locale = resp.locale();
    assert_eq!(locale.driving_side, DrivingSide::Left);
    assert!(locale.country.unwrap() == Country::from_alpha2("AU").unwrap());
    assert_eq!(locale.iso_3166_2_subdivision.as_deref(), Some("WA"));
}

#[test]
fn way_from_answer() {
    let element = answer().way_element(62176050).unwrap();
    assert_eq!(element.tags.get("highway"), Some("trunk"));
    assert!(matches!(answer().way_element(1), Err(OverpassError::Malformed)));
    assert!(matches!(answer().way_tags(62176050), Err(OverpassError::Malformed)));
    let single = OverpassResponse { elements: vec![answer().way_element(62176050).unwrap()] };
    assert_eq!(single.way_tags(62176050).unwrap().get("maxspeed"), Some("110"));
    let empty = OverpassResponse { elements: vec![] };
    assert!(matches!(empty.way_tags(1), Err(OverpassError::Empty)));
}

#[test]
fn overpass_errors_as_text() {
    assert_eq!(OverpassError::Empty.to_string(), "overpass response empty");
    assert_eq!(OverpassError::Malformed.to_string(), "overpass response malformed");
}
