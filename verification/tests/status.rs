use ot_rs::status::CanonicalCode;
use ot_rs::status::Status;
use ot_rs::unit::Unit;

#[test]
fn status_default_is_ok() {
    assert!(Status::ok().is_ok());
    assert!(Status::ok().description().is_none());
}

#[test]
fn status_codes_are_distinct() {
    assert!(!Status::cancelled().is_ok());
    assert!(!Status::unknown().is_ok());
    assert!(!Status::argument().is_ok());
    assert!(!Status::deadline_exceeded().is_ok());
    assert!(!Status::not_found().is_ok());
    assert!(!Status::already_exists().is_ok());
    assert!(!Status::permission_denied().is_ok());
    assert!(!Status::resource_exhausted().is_ok());
    assert!(!Status::failed_precondition().is_ok());
    assert!(!Status::aborted().is_ok());
    assert!(!Status::out_of_range().is_ok());
    assert!(!Status::unimplemented().is_ok());
    assert!(!Status::internal().is_ok());
    assert!(!Status::unavailable().is_ok());
    assert!(!Status::data_loss().is_ok());
    assert!(!Status::unauthenticated().is_ok());
    assert_eq!(Status::aborted().canonical_code(), CanonicalCode::Aborted);
}

#[test]
fn status_description_rides_along() {
    let s = Status::ok().with_description("all done".to_owned());
    // The description never changes what is_ok says.
    assert!(s.is_ok());
    assert_eq!(s.description().map(String::as_str), Some("all done"));
    let t = Status::internal().with_description("broken".to_owned());
    assert!(!t.is_ok());
    assert_eq!(t.description().map(String::as_str), Some("broken"));
    assert_eq!(t.clone().canonical_code(), CanonicalCode::Internal);
}

#[test]
fn unit_text_values() {
    assert_eq!(Unit::Dimensionless.to_str(), "1");
    assert_eq!(Unit::Bytes.to_str(), "By");
    assert_eq!(Unit::Milliseconds.to_str(), "ms");
}
