use suntrack::text::{less_text, parse_i64, signed_decimal_text, trim_text, chars_of, push_decimal};

#[test]
fn less_text_orders_by_code_point() {
    assert!(less_text("Chrome", "Code"));
    assert!(!less_text("Code", "Chrome"));
    assert!(less_text("abc", "abcd"));
    assert!(!less_text("abc", "abc"));
    assert!(less_text("", "a"));
    assert!(less_text("Zed", "apple"));
}

#[test]
fn chars_of_keeps_every_character() {
    assert_eq!(chars_of("héllo"), vec!['h', 'é', 'l', 'l', 'o']);
    assert!(chars_of("").is_empty());
}

#[test]
fn trim_text_matches_str_trim() {
    for s in ["  Work  ", "\tLearning\n", "   ", "", "a b", "\u{3000}x\u{2028}", "x"] {
        assert_eq!(trim_text(s), s.trim());
    }
}

#[test]
fn parse_i64_matches_from_str() {
    for s in ["42", "+7", "-12", "0", "-9223372036854775808", "9223372036854775807",
              "9223372036854775808", "-9223372036854775809", "", "-", "+", "1a", " 1",
              "99999999999999999999999"] {
        assert_eq!(parse_i64(s), s.parse::<i64>().ok(), "input {s:?}");
    }
}

#[test]
fn signed_decimal_text_writes_and_reads_back() {
    for v in [0i64, 7, -7, 1234567890, i64::MAX, i64::MIN] {
        let t = signed_decimal_text(v);
        assert_eq!(t, v.to_string());
        assert_eq!(parse_i64(&t), Some(v));
    }
}

#[test]
fn push_decimal_appends_digits() {
    let mut s = String::from("n=");
    push_decimal(&mut s, 1050);
    assert_eq!(s, "n=1050");
}
