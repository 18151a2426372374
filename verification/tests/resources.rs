use std::str::FromStr;

use ot_rs::resources::LabelName;
use ot_rs::resources::LabelValue;
use ot_rs::resources::Resource;

fn has_label(r: &Resource, name: &str, value: &str) -> bool {
    r.labels()
        .iter()
        .any(|(k, v)| k.value() == name && v.value() == value)
}

#[test]
fn merge_test() {
    let mut x = Resource::default();
    x.try_upsert("a", "1").unwrap();
    let mut y = Resource::default();
    y.try_upsert("b", "2").unwrap();
    let merged = x.merge(&y);
    assert!(has_label(&merged, "a", "1"));
    assert!(has_label(&merged, "b", "2"));
}

#[test]
fn merge_right_side_wins() {
    let mut x = Resource::default();
    x.try_upsert("a", "1").unwrap();
    let mut y = Resource::default();
    y.try_upsert("a", "2").unwrap();
    let merged = x.merge(&y);
    assert!(has_label(&merged, "a", "2"));
    assert!(!has_label(&merged, "a", "1"));
}

#[test]
fn valid_name() {
    let a = LabelName::from_str("service.name");
    assert!(a.is_ok());
    assert_eq!(a.unwrap().value(), "service.name");
    // The whole printable range is accepted, space and tilde included.
    assert!(LabelName::from_str(" ~").is_ok());
}

#[test]
fn invalid_name_empty() {
    assert!(LabelName::from_str("").is_err());
}

#[test]
fn invalid_name_so_long() {
    let s = "x".repeat(256);
    assert!(LabelName::from_str(s.as_str()).is_err());
    let edge = "x".repeat(255);
    assert!(LabelName::from_str(edge.as_str()).is_ok());
}

#[test]
fn invalid_name_chars() {
    assert!(LabelName::from_str("caf\u{e9}").is_err());
    assert!(LabelName::from_str("tab\there").is_err());
    assert!(LabelName::from_str("\u{7f}").is_err());
}

#[test]
fn valid_value() {
    let a = LabelValue::from_str("x 1");
    assert!(a.is_ok());
    assert_eq!(a.unwrap().value(), "x 1");
    // The empty value is accepted.
    assert!(LabelValue::from_str("").is_ok());
}

#[test]
fn invalid_value_so_long() {
    let s = "x".repeat(256);
    assert!(LabelValue::from_str(s.as_str()).is_err());
    let edge = "x".repeat(255);
    assert!(LabelValue::from_str(edge.as_str()).is_ok());
}

#[test]
fn invalid_value_chars() {
    assert!(LabelValue::from_str("caf\u{e9}").is_err());
    assert!(LabelValue::from_str("line\nbreak").is_err());
}

#[test]
fn try_upsert_rejects_whole_pair() {
    let mut r = Resource::default();
    assert!(r.try_upsert("", "1").is_err());
    assert!(r.try_upsert("ok", "bad\u{7f}").is_err());
    // Nothing was stored by the failed attempts.
    assert!(r.labels().is_empty());
    r.try_upsert("a", "1").unwrap();
    r.try_upsert("a", "2").unwrap();
    assert_eq!(r.labels().len(), 1);
    assert!(has_label(&r, "a", "2"));
}
