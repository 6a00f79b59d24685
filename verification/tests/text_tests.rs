use data_db::text::{
    chars_of, i32_to_string, like_escape, like_escape_needed, parse_i32, push_i32_decimal, sql_quote,
    text_is_empty,
};

#[test]
fn decimal_text() {
    assert_eq!(i32_to_string(0), "0");
    assert_eq!(i32_to_string(25), "25");
    assert_eq!(i32_to_string(-1999), "-1999");
    assert_eq!(i32_to_string(i32::MIN), "-2147483648");
    assert_eq!(i32_to_string(i32::MAX), "2147483647");
    let mut s = String::from("id=");
    push_i32_decimal(&mut s, 42);
    assert_eq!(s, "id=42");
}

#[test]
fn decimal_roundtrip_on_values() {
    for v in [0, 1, -1, 9, 10, -10, 123456, i32::MIN, i32::MAX] {
        assert_eq!(parse_i32(&i32_to_string(v)), Some(v));
    }
}

#[test]
fn integer_parsing() {
    assert_eq!(parse_i32("45"), Some(45));
    assert_eq!(parse_i32("+7"), Some(7));
    assert_eq!(parse_i32("-0"), Some(0));
    assert_eq!(parse_i32("007"), Some(7));
    assert_eq!(parse_i32(""), None);
    assert_eq!(parse_i32("-"), None);
    assert_eq!(parse_i32("+"), None);
    assert_eq!(parse_i32("1a"), None);
    assert_eq!(parse_i32(" 1"), None);
    assert_eq!(parse_i32("2147483648"), None);
    assert_eq!(parse_i32("-2147483649"), None);
    for s in ["45", "+7", "-0", "007", "", "-", "1a", "2147483648", "-2147483648"] {
        assert_eq!(parse_i32(s), s.parse::<i32>().ok(), "{s}");
    }
}

#[test]
fn quoting() {
    assert_eq!(sql_quote("test"), "'test'");
    assert_eq!(sql_quote("it's"), "'it''s'");
    assert_eq!(sql_quote(""), "''");
    assert_eq!(sql_quote("''"), "''''''");
}

#[test]
fn like_escaping() {
    assert!(!like_escape_needed("test/hoge"));
    assert!(like_escape_needed("te%st"));
    assert!(like_escape_needed("a_b"));
    assert!(like_escape_needed("x$"));
    assert_eq!(like_escape("test/d%i_r$/"), "test/d$%i$_r$$/");
    assert_eq!(like_escape("plain"), "plain");
}

#[test]
fn characters() {
    assert!(text_is_empty(""));
    assert!(!text_is_empty("a"));
    assert_eq!(chars_of("aé"), vec!['a', 'é']);
}
