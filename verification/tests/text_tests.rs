use wmt::doc::DocService;
use wmt::text::{
    contains_char, contains_sub, ends_with, find_sub, i64_to_string, parse_u64, split_str,
    starts_with, str_eq, trim, u64_to_string,
};

#[test]
fn parse_u64_basics() {
    assert_eq!(parse_u64("0"), Some(0));
    assert_eq!(parse_u64("42"), Some(42));
    assert_eq!(parse_u64("18446744073709551615"), Some(u64::MAX));
    assert_eq!(parse_u64("18446744073709551616"), None);
    assert_eq!(parse_u64(""), None);
    assert_eq!(parse_u64("4 2"), None);
    assert_eq!(parse_u64("-1"), None);
}

#[test]
fn u64_rendering() {
    assert_eq!(u64_to_string(0), "0");
    assert_eq!(u64_to_string(7), "7");
    assert_eq!(u64_to_string(365), "365");
    assert_eq!(u64_to_string(u64::MAX), "18446744073709551615");
}

#[test]
fn i64_rendering() {
    assert_eq!(i64_to_string(0), "0");
    assert_eq!(i64_to_string(365), "365");
    assert_eq!(i64_to_string(-12), "-12");
}

#[test]
fn splitting() {
    let parts = split_str("1.2.3", ".");
    assert_eq!(parts, vec!["1", "2", "3"]);
    let parts = split_str("a//b", "/");
    assert_eq!(parts, vec!["a", "", "b"]);
    let parts = split_str("nodots", ".");
    assert_eq!(parts, vec!["nodots"]);
    let parts = split_str("a--b---c", "--");
    assert_eq!(parts, vec!["a", "b", "-c"]);
}

#[test]
fn searching() {
    assert_eq!(find_sub("https://github.com/a/b", "github.com"), Some(8));
    assert_eq!(find_sub("example.org", "github.com"), None);
    assert!(contains_sub("path/tests/mod.rs", "test"));
    assert!(!contains_sub("src/lib.rs", "test"));
    assert!(contains_char("75%", '%'));
    assert!(!contains_char("75", '%'));
}

#[test]
fn affixes_and_equality() {
    assert!(starts_with("https://github.com/a", "https://"));
    assert!(!starts_with("http://github.com/a", "https://"));
    assert!(ends_with("Cargo.toml", ".toml"));
    assert!(!ends_with("Cargo.lock", ".toml"));
    assert!(str_eq("abc", "abc"));
    assert!(!str_eq("abc", "abd"));
    assert!(!str_eq("abc", "ab"));
}

#[test]
fn trimming() {
    assert_eq!(trim("  75%  "), "75%");
    assert_eq!(trim("\n\tx\r "), "x");
    assert_eq!(trim("   "), "");
    assert_eq!(trim("plain"), "plain");
}

#[test]
fn doc_service_extracts_coverage_score() {
    let d = DocService::new("example", "https://docs.rs/example");
    let html = "<html><body><a class=\"pure-menu-link\">about</a>\
                <a class=\"pure-menu-link\">  88%  </a></body></html>";
    assert_eq!(d.get_rust_doc_coverage_score(html).unwrap(), 88);
    assert!(d.has_successful_build(html));
}

#[test]
fn doc_service_sees_build_warnings() {
    let d = DocService::new("example", "https://docs.rs/example");
    let failing = "<html><body><i class=\"warning\">failed</i></body></html>";
    assert!(!d.has_successful_build(failing));
}

#[test]
fn doc_service_coverage_unparseable_without_percentage() {
    let d = DocService::new("example", "https://docs.rs/example");
    let none = "<html><body><a class=\"pure-menu-link\">modules</a></body></html>";
    assert!(d.get_rust_doc_coverage_score(none).is_err());
}

#[test]
fn doc_coverage_text_cleaning() {
    let d = DocService::new("example", "https://docs.rs/example");
    assert_eq!(
        d.clean_doc_coverage_text(String::from("\n      75%\n    ")),
        "75"
    );
    assert_eq!(d.clean_doc_coverage_text(String::from("62%")), "62");
    assert_eq!(d.clean_doc_coverage_text(String::from("\n")), "");
}
