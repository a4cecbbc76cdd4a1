use osm2lanes::infer::Infer;
use osm2lanes::tags::{TagKey, TagKeyPart};

#[test]
fn infer_set_by_confidence() {
    let mut i: Infer<usize> = Infer::Default(0);
    assert!(i.set(Infer::Direct(1)).is_ok());
    assert!(i.set(Infer::Direct(2)).is_err());
    assert!(i.set(Infer::Default(3)).is_ok());
    assert!(i.set(Infer::Unset).is_ok());
    assert_eq!(i.some(), Some(1));
    let mut c: Infer<usize> = Infer::Calculated(4);
    assert!(c.set(Infer::Default(5)).is_ok());
    assert_eq!(c.some(), Some(4));
    assert!(c.set(Infer::Calculated(4)).is_ok());
    assert!(c.set(Infer::Calculated(6)).is_err());
    assert_eq!(Infer::<usize>::Unset.or_default(7).some(), Some(7));
    assert_eq!(Infer::direct(Some(8usize)).some(), Some(8));
}

#[test]
fn key_examples() {
    let example_part = TagKeyPart::from_static("example");
    assert_eq!(example_part.as_str(), "example");
    let example_key = TagKey::from_ref("example:foo");
    assert_eq!(example_key.to_string(), "example:foo");
}
