use filesync::text::{chars_less, chars_of, contains_chars, decimal_string, trim};

#[test]
fn decimal_digits() {
    assert_eq!(decimal_string(0), "0");
    assert_eq!(decimal_string(7), "7");
    assert_eq!(decimal_string(10), "10");
    assert_eq!(decimal_string(1234567890), "1234567890");
    assert_eq!(decimal_string(u64::MAX), u64::MAX.to_string());
}

#[test]
fn substring_search() {
    let s = chars_of("server.example.org");
    assert!(contains_chars(&s, &chars_of("example")));
    assert!(contains_chars(&s, &chars_of("")));
    assert!(contains_chars(&s, &chars_of("server.example.org")));
    assert!(!contains_chars(&s, &chars_of("exemple")));
    assert!(!contains_chars(&chars_of("ab"), &chars_of("abc")));
}

#[test]
fn chars_round_trip() {
    let v = chars_of("héllo ▶");
    assert_eq!(v.len(), 7);
    assert_eq!(v.iter().collect::<String>(), "héllo ▶");
}

#[test]
fn char_order_is_code_point_order() {
    assert!(chars_less(&chars_of("a"), &chars_of("b")));
    assert!(!chars_less(&chars_of("b"), &chars_of("a")));
    assert!(chars_less(&chars_of("Z"), &chars_of("a")));
    assert!(!chars_less(&chars_of("x"), &chars_of("x")));
    assert!(chars_less(&chars_of("z"), &chars_of("é")));
}

#[test]
fn trim_matches_str_trim() {
    for s in ["  a b  ", "\u{feff}x", "\u{1680}y\u{202f}", "\u{205f}\u{3000}", "z", "\u{180e}w"] {
        assert_eq!(trim(s), s.trim());
    }
}
