use jvm_lifecycle_mgr::paths::join_path;
use jvm_lifecycle_mgr::text::{
    IntErrorKind, contains_str, ends_with_str, eq_ignore_ascii_case, i32_to_decimal,
    parse_u64_trimmed, trim, u64_to_decimal,
};

#[test]
fn decimal_rendering() {
    assert_eq!(u64_to_decimal(0), "0");
    assert_eq!(u64_to_decimal(4563402752), "4563402752");
    assert_eq!(u64_to_decimal(u64::MAX), "18446744073709551615");
    assert_eq!(i32_to_decimal(-42), "-42");
    assert_eq!(i32_to_decimal(i32::MIN), "-2147483648");
}

#[test]
fn integer_reading_matches_the_standard_parser() {
    for s in ["0", "42", "+7", " 12 \n", "18446744073709551615", "18446744073709551616", "", "+", "-", "-1", "12a", "99999999999999999999x", "\u{3000}5\u{2029}"] {
        let ours = parse_u64_trimmed(s);
        let std = s.trim().parse::<u64>();
        match (ours, std) {
            (Ok(a), Ok(b)) => assert_eq!(a, b, "{s:?}"),
            (Err(k), Err(e)) => assert_eq!(k.message(), e.to_string(), "{s:?}"),
            (a, b) => panic!("{s:?}: {a:?} vs {b:?}"),
        }
    }
    assert_eq!(parse_u64_trimmed(""), Err(IntErrorKind::Empty));
    assert_eq!(parse_u64_trimmed("99999999999999999999x"), Err(IntErrorKind::PosOverflow));
}

#[test]
fn trimming_and_searching() {
    assert_eq!(trim("\t a b \u{a0}\n"), "a b");
    assert_eq!(trim("   "), "");
    assert!(contains_str("a..b", ".."));
    assert!(!contains_str("a.b.", ".."));
    assert!(contains_str("abc", ""));
    assert!(ends_with_str("app.jar", ".jar"));
    assert!(!ends_with_str("jar", ".jar"));
    assert!(eq_ignore_ascii_case("GoLd", "gold"));
    assert!(!eq_ignore_ascii_case("gold", "golds"));
}

#[test]
fn joining_paths() {
    assert_eq!(join_path("/a", "b"), "/a/b");
    assert_eq!(join_path("/a/", "b"), "/a/b");
    assert_eq!(join_path("/a", "/b"), "/b");
    assert_eq!(join_path("", "b"), "b");
    assert_eq!(join_path("a", ""), "a/");
    for (base, part) in [("/x/y", "z"), ("/x/", "z"), ("rel", "/abs"), ("", ""), ("a", "")] {
        let std = std::path::Path::new(base).join(part);
        assert_eq!(join_path(base, part), std.to_str().unwrap());
    }
}
