use wmt::errors::WmtError;
use wmt::version::Version;

#[test]
fn parse_valid_version() {
    let v = Version::from_version_text("1.2.3").unwrap();
    assert_eq!(v.major, 1);
    assert_eq!(v.minor, 2);
    assert_eq!(v.patch, 3);
    assert_eq!(v.id, "1.2.3");
}

#[test]
fn parse_ignores_trailing_dot_segments() {
    let v = Version::from_version_text("1.2.3.4").unwrap();
    assert_eq!(v.major, 1);
    assert_eq!(v.minor, 2);
    assert_eq!(v.patch, 3);
    let v = Version::from_version_text("0.10.0.beta").unwrap();
    assert_eq!(v.major, 0);
    assert_eq!(v.minor, 10);
    assert_eq!(v.patch, 0);
}

#[test]
fn parse_two_segments_fails() {
    let e = Version::from_version_text("1.2").unwrap_err();
    assert!(matches!(e, WmtError::MalformedVersion));
}

#[test]
fn parse_empty_fails() {
    assert!(Version::from_version_text("").is_err());
}

#[test]
fn parse_non_numeric_fails() {
    assert!(Version::from_version_text("1.2.x").is_err());
    assert!(Version::from_version_text("a.b.c").is_err());
}

#[test]
fn parse_prerelease_suffix_in_patch_fails() {
    // No leniency: the pre-release text sits inside the third segment.
    assert!(Version::from_version_text("1.2.3-alpha").is_err());
}

#[test]
fn parse_overflow_fails() {
    assert!(Version::from_version_text("99999999999999999999999.0.0").is_err());
}

#[test]
fn parse_large_but_fitting_component() {
    let v = Version::from_version_text("18446744073709551615.0.1").unwrap();
    assert_eq!(v.major, u64::MAX);
    assert_eq!(v.patch, 1);
}

#[test]
fn major_release_predicate() {
    let v = Version::from_version_text("2.0.0").unwrap();
    assert!(v.at_least_one_major_release());
    let v = Version::from_version_text("0.3.0").unwrap();
    assert!(!v.at_least_one_major_release());
    assert!(v.at_least_one_minor_release());
}

#[test]
fn minor_release_predicate() {
    let v = Version::from_version_text("0.0.5").unwrap();
    assert!(!v.at_least_one_major_release());
    assert!(!v.at_least_one_minor_release());
    let v = Version::from_version_text("0.1.0").unwrap();
    assert!(v.at_least_one_minor_release());
}
