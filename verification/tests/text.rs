use lordbornebot::text::{contains, i32_to_string, parse_i32, push_i64, str_eq};

#[test]
fn parse_i32_like_std() {
    for s in ["0", "+5", "-0", "42", "-2147483648", "2147483647", "007", "", "-", "+", "2147483648",
        "-2147483649", "1a", " 1", "+-1", "99999999999999999999"] {
        assert_eq!(parse_i32(s), s.parse::<i32>().ok(), "input {:?}", s);
    }
}

#[test]
fn decimal_like_std() {
    for n in [0, 7, -7, 10, 123456, i32::MAX, i32::MIN] {
        assert_eq!(i32_to_string(n), n.to_string());
    }
    let mut s = String::from("x");
    push_i64(&mut s, i64::MIN);
    assert_eq!(s, format!("x{}", i64::MIN));
}

#[test]
fn decimal_then_parse_gives_the_number_back() {
    for n in [0, 1, -1, 99, -100, i32::MAX, i32::MIN] {
        assert_eq!(parse_i32(&i32_to_string(n)), Some(n));
    }
}

#[test]
fn contains_and_equality() {
    assert!(contains("hello", "ll"));
    assert!(contains("hello", ""));
    assert!(!contains("hello", "lo!"));
    assert!(!contains("", "a"));
    assert!(str_eq("abc", "abc"));
    assert!(!str_eq("abc", "abd"));
}
