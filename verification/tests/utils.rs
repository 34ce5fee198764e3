use json_surf::utils::{format_signed, format_unsigned, join, parse_signed, parse_unsigned};
use json_surf::utils::{str_eq, str_starts_with};

#[test]
fn parse_unsigned_reads_decimals() {
    assert_eq!(parse_unsigned("0"), Some(0));
    assert_eq!(parse_unsigned("123"), Some(123));
    assert_eq!(parse_unsigned("+5"), Some(5));
    assert_eq!(parse_unsigned("18446744073709551615"), Some(u64::MAX));
}

#[test]
fn parse_unsigned_rejects_junk() {
    assert_eq!(parse_unsigned(""), None);
    assert_eq!(parse_unsigned("+"), None);
    assert_eq!(parse_unsigned("12a"), None);
    assert_eq!(parse_unsigned("-3"), None);
    assert_eq!(parse_unsigned("18446744073709551616"), None);
    assert_eq!(parse_unsigned("crap"), None);
}

#[test]
fn parse_signed_reads_decimals() {
    assert_eq!(parse_signed("20000"), Some(20000));
    assert_eq!(parse_signed("-200"), Some(-200));
    assert_eq!(parse_signed("+7"), Some(7));
    assert_eq!(parse_signed("-9223372036854775808"), Some(i64::MIN));
    assert_eq!(parse_signed("9223372036854775807"), Some(i64::MAX));
}

#[test]
fn parse_signed_rejects_out_of_range() {
    assert_eq!(parse_signed("9223372036854775808"), None);
    assert_eq!(parse_signed("-9223372036854775809"), None);
    assert_eq!(parse_signed("-"), None);
    assert_eq!(parse_signed("1.5"), None);
}

#[test]
fn format_round_trips() {
    assert_eq!(format_unsigned(0), "0");
    assert_eq!(format_unsigned(10540), "10540");
    assert_eq!(format_unsigned(u64::MAX), "18446744073709551615");
    assert_eq!(format_signed(-5), "-5");
    assert_eq!(format_signed(0), "0");
    assert_eq!(format_signed(i64::MIN), "-9223372036854775808");
    assert_eq!(parse_unsigned(&format_unsigned(987654321)), Some(987654321));
    assert_eq!(parse_signed(&format_signed(-987654321)), Some(-987654321));
}

#[test]
fn join_paths() {
    assert_eq!(join("home", "store"), Some("home/store".to_string()));
    assert_eq!(join("home/", "store"), Some("home/store".to_string()));
    assert_eq!(join("home", "/abs"), Some("/abs".to_string()));
    assert_eq!(join("", "store"), Some("store".to_string()));
}

#[test]
fn string_helpers() {
    assert!(str_eq("abc", "abc"));
    assert!(!str_eq("abc", "abd"));
    assert!(!str_eq("abc", "ab"));
    assert!(str_starts_with("home/store", "home"));
    assert!(!str_starts_with("ho", "home"));
}

#[test]
fn resolve_index_directory_under_default_home() {
    assert_eq!(
        json_surf::seed::resolve_index_directory_path("store", None).unwrap(),
        "indexes/store".to_string()
    );
    assert_eq!(
        json_surf::seed::resolve_index_directory_path("store", Some(".home")).unwrap(),
        ".home/store".to_string()
    );
}
