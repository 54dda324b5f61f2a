use semiring::text::{i32_text, parse_i32};

#[test]
fn parse_plain_numbers() {
    assert_eq!(parse_i32("0"), Some(0));
    assert_eq!(parse_i32("42"), Some(42));
    assert_eq!(parse_i32("-1"), Some(-1));
    assert_eq!(parse_i32("+7"), Some(7));
    assert_eq!(parse_i32("007"), Some(7));
    assert_eq!(parse_i32("-0"), Some(0));
}

#[test]
fn parse_limits() {
    assert_eq!(parse_i32("2147483647"), Some(i32::MAX));
    assert_eq!(parse_i32("-2147483648"), Some(i32::MIN));
    assert_eq!(parse_i32("2147483648"), None);
    assert_eq!(parse_i32("-2147483649"), None);
    assert_eq!(parse_i32("99999999999999999999"), None);
}

#[test]
fn parse_rejects_non_numbers() {
    assert_eq!(parse_i32(""), None);
    assert_eq!(parse_i32("+"), None);
    assert_eq!(parse_i32("-"), None);
    assert_eq!(parse_i32("12a"), None);
    assert_eq!(parse_i32(" 1"), None);
    assert_eq!(parse_i32("1 "), None);
    assert_eq!(parse_i32("--1"), None);
    assert_eq!(parse_i32("x"), None);
    assert_eq!(parse_i32("\u{663}"), None);
}

#[test]
fn parse_agrees_with_std() {
    for s in ["0", "-0", "+0", "12", "-12", "+12", "", "-", "+", "1-", "2147483647", "2147483648",
        "-2147483648", "-2147483649", "0x10", "1_000", "0012", "a1"] {
        assert_eq!(parse_i32(s), s.parse::<i32>().ok(), "{}", s);
    }
}

#[test]
fn print_numbers() {
    assert_eq!(i32_text(0), "0");
    assert_eq!(i32_text(-5), "-5");
    assert_eq!(i32_text(1234), "1234");
    assert_eq!(i32_text(i32::MIN), "-2147483648");
    assert_eq!(i32_text(i32::MAX), "2147483647");
}

#[test]
fn print_then_parse_roundtrip() {
    for v in [0, 1, -1, 9, 10, -10, 99, 100, 123456, i32::MIN, i32::MAX, i32::MIN + 1] {
        assert_eq!(parse_i32(&i32_text(v)), Some(v));
        assert_eq!(i32_text(v), format!("{}", v));
    }
}

#[test]
fn distinct_numbers_print_distinctly() {
    let texts: Vec<String> = (-100i32..200).map(i32_text).collect();
    for i in 0..texts.len() {
        for j in 0..texts.len() {
            if i != j {
                assert_ne!(texts[i], texts[j]);
            }
        }
    }
}
