use osm2lanes::tags::{DuplicateKeyError, TagKey, Tags};
use osm2lanes::tags::TagKeyPart;

#[test]
fn test_tags() {
    let tags = Tags::from_pairs(&[
        ("foo", "bar"),
        ("abra", "cadabra"),
        ("foo:multi:key", "value"),
        ("multivalue", "apple;banana;chocolate covered capybara"),
    ])
    .unwrap();
    assert_eq!(
        tags.to_vec(),
        vec![
            "abra=cadabra",
            "foo=bar",
            "foo:multi:key=value",
            "multivalue=apple;banana;chocolate covered capybara"
        ]
    );

    // Serde: the tags as a JSON object, written and read back by pairs.
    let tags_str = "{\"abra\":\"cadabra\",\"foo\":\"bar\",\"foo:multi:key\":\"value\",\"multivalue\":\"apple;banana;chocolate covered capybara\"}";
    let mut object = serde_json::Map::new();
    for (k, v) in tags.to_str_pairs() {
        object.insert(k.to_owned(), serde_json::Value::String(v.to_owned()));
    }
    assert_eq!(serde_json::to_string(&serde_json::Value::Object(object)).unwrap(), tags_str);
    let value: serde_json::Value = serde_json::from_str(tags_str).unwrap();
    let owned: Vec<(String, String)> = value
        .as_object()
        .unwrap()
        .iter()
        .map(|(k, v)| (k.clone(), v.as_str().unwrap().to_owned()))
        .collect();
    let pairs: Vec<(&str, &str)> = owned.iter().map(|(k, v)| (k.as_str(), v.as_str())).collect();
    let de_tags = Tags::from_pairs(&pairs).unwrap();
    assert_eq!(de_tags.to_str_pairs(), tags.to_str_pairs());

    // Misc
    let mut other_tags = tags.clone();
    assert!(other_tags.checked_insert("new", "val").is_ok());
    assert!(matches!(
        other_tags.checked_insert("foo", "bar").unwrap_err(),
        DuplicateKeyError { .. },
    ));
    assert!(other_tags.checked_insert(String::from("owned").as_str(), "val").is_ok());

    // String interfaces
    assert_eq!(tags.get("foo"), Some("bar"));
    assert_eq!(tags.get("bar"), None);
    assert!(tags.is("foo", "bar"));
    assert!(!tags.is("foo", "foo"));
    assert!(!tags.is("bar", "foo"));
    assert!(tags.is_any("foo", &["bar"]));
    assert!(tags.is_any("foo", &["foo", "bar"]));
    assert!(!tags.is_any("foo", &["foo"]));
    assert!(!tags.is_any("bar", &["foo", "bar"]));
    assert_eq!(tags.subset(&["foo"]).to_vec(), vec!["foo=bar"]);
    assert_eq!(tags.subset(&["foo", "abra"]).to_vec(), vec!["abra=cadabra", "foo=bar"]);
    assert_eq!(tags.subset(&["foo", "bar"]).to_vec(), vec!["foo=bar"]);
    assert!(tags.subset(&["bar"]).to_vec().is_empty());

    // Key interfaces
    let foo_key = TagKey::from_ref("foo");
    assert_eq!(tags.get(foo_key.as_str()), Some("bar"));
    assert_eq!(tags.get(TagKey::from_ref("bar").as_str()), None);
    assert!(tags.is(foo_key.as_str(), "bar"));
    assert!(!tags.is(foo_key.as_str(), "foo"));
    assert_eq!(tags.subset(&[foo_key.as_str()]).to_vec(), vec!["foo=bar"]);
    assert!(tags.is(foo_key.join("multi").join("key").as_str(), "value"));
    let foo_multi_key = foo_key.join("multi").join("key");
    assert!(tags.is(foo_multi_key.as_str(), "value"));

    // Tree interfaces
    assert_eq!(tags.pairs_with_stem(foo_key.as_str()).len(), 2);
    assert_eq!(tags.pairs_with_stem(foo_key.join("multi").as_str()).len(), 1);
}

#[test]
fn checked_insert_reads_back_and_drops_a_repeated_key() {
    let mut tags = Tags::new();
    assert!(tags.is_empty());
    tags.checked_insert("highway", "primary").unwrap();
    tags.checked_insert("lanes", "2").unwrap();
    assert_eq!(tags.get("highway"), Some("primary"));
    assert_eq!(tags.get("lanes"), Some("2"));
    let err = tags.checked_insert("lanes", "3").unwrap_err();
    assert_eq!(err.key.as_str(), "lanes");
    assert_eq!(tags.get("lanes"), None);
    assert_eq!(tags.to_string(), "highway=primary");
}

#[test]
fn from_pairs_refuses_repeated_key() {
    let err = Tags::from_pairs(&[("a", "1"), ("b", "2"), ("a", "3")]).unwrap_err();
    assert_eq!(err.key.as_str(), "a");
}

#[test]
fn from_str_reads_lines() {
    let tags = Tags::from_str("highway=primary\nlanes=2").unwrap();
    assert_eq!(tags.to_vec(), vec!["highway=primary", "lanes=2"]);
    assert!(Tags::from_str("highway").is_err());
}

#[test]
fn tag_key_parts() {
    let key = TagKey::from_ref("cycleway:left:oneway");
    let parts: Vec<String> = key.parts().iter().map(|p| p.as_str().to_owned()).collect();
    assert_eq!(parts, vec!["cycleway", "left", "oneway"]);
    assert_eq!(TagKey::from_ref("cycleway").join("left").as_str(), "cycleway:left");
}

#[test]
fn text_reads_back() {
    let tags = Tags::from_str("foo=bar\nabra=cadabra").unwrap();
    assert_eq!(tags.get("foo"), Some("bar"));
    assert_eq!(tags.to_string(), "abra=cadabra\nfoo=bar");
    let back = Tags::from_str(&tags.to_string()).unwrap();
    assert_eq!(back.to_str_pairs(), tags.to_str_pairs());
    let windows = Tags::from_str("a=1\r\nb=2\r\n").unwrap();
    assert_eq!(windows.to_vec(), vec!["a=1", "b=2"]);
}

#[test]
fn parse_errors_as_text() {
    assert_eq!(Tags::from_str("a").unwrap_err().to_string(), "tag must be = separated");
    assert_eq!(Tags::from_str("a=1\na=2").unwrap_err().to_string(), "duplicate tag key a");
}

#[test]
fn key_from_parts() {
    let parts = [
        TagKeyPart::from_static("parking"),
        TagKeyPart::from_static("lane"),
        TagKeyPart::from_static("both"),
    ];
    let key = TagKey::new(&parts);
    assert_eq!(key.as_str(), "parking:lane:both");
    let back: Vec<String> = key.parts().iter().map(|p| p.as_str().to_owned()).collect();
    assert_eq!(back, vec!["parking", "lane", "both"]);
}
