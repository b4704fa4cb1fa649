use moca::text::{decimal_text, parse_integer, string_from_char, string_from_chars, text_is};

#[test]
fn decimal_text_of_integers() {
    assert_eq!(decimal_text(0), "0");
    assert_eq!(decimal_text(7), "7");
    assert_eq!(decimal_text(10), "10");
    assert_eq!(decimal_text(1234), "1234");
    assert_eq!(decimal_text(-1), "-1");
    assert_eq!(decimal_text(-9070), "-9070");
    assert_eq!(decimal_text(i32::MAX), "2147483647");
    assert_eq!(decimal_text(i32::MIN), "-2147483648");
}

#[test]
fn decimal_text_agrees_with_the_standard_formatting() {
    for n in [0, 1, -1, 9, 10, 99, 100, 101, 65535, -65536, i32::MAX, i32::MIN, i32::MIN + 1] {
        assert_eq!(decimal_text(n), format!("{}", n));
    }
}

#[test]
fn parse_integer_accepts_decimal_integers() {
    assert_eq!(parse_integer("0"), Some(0));
    assert_eq!(parse_integer("5"), Some(5));
    assert_eq!(parse_integer("007"), Some(7));
    assert_eq!(parse_integer("1234"), Some(1234));
    assert_eq!(parse_integer("+12"), Some(12));
    assert_eq!(parse_integer("-12"), Some(-12));
    assert_eq!(parse_integer("-0"), Some(0));
    assert_eq!(parse_integer("2147483647"), Some(i32::MAX));
    assert_eq!(parse_integer("-2147483648"), Some(i32::MIN));
    assert_eq!(parse_integer("0000000000000000000002147483647"), Some(i32::MAX));
}

#[test]
fn parse_integer_rejects_everything_else() {
    assert_eq!(parse_integer(""), None);
    assert_eq!(parse_integer("-"), None);
    assert_eq!(parse_integer("+"), None);
    assert_eq!(parse_integer("+-1"), None);
    assert_eq!(parse_integer("1-"), None);
    assert_eq!(parse_integer("12a"), None);
    assert_eq!(parse_integer(" 12"), None);
    assert_eq!(parse_integer("12 "), None);
    assert_eq!(parse_integer("1_000"), None);
    assert_eq!(parse_integer("1.5"), None);
    assert_eq!(parse_integer("2147483648"), None);
    assert_eq!(parse_integer("-2147483649"), None);
    assert_eq!(parse_integer("99999999999999999999999999999"), None);
    assert_eq!(parse_integer("\u{0663}"), None);
    assert_eq!(parse_integer("\u{00bd}"), None);
}

#[test]
fn parse_integer_agrees_with_the_standard_parser() {
    for text in [
        "", "0", "-0", "+0", "12", "-12", "+12", "--1", "++1", "2147483647", "2147483648",
        "-2147483648", "-2147483649", "4294967296", "abc", "1a", "a1", "١٢", " 1", "1 ", "0x10",
        "00", "-", "+", "18446744073709551616",
    ] {
        assert_eq!(parse_integer(text), text.parse::<i32>().ok(), "on {:?}", text);
    }
}

#[test]
fn decimal_text_reads_back() {
    for n in [0, 1, -1, 42, -42, 1000000, i32::MAX, i32::MIN] {
        assert_eq!(parse_integer(&decimal_text(n)), Some(n));
    }
}

#[test]
fn strings_from_characters() {
    assert_eq!(string_from_chars(&vec![]), "");
    assert_eq!(string_from_chars(&vec!['a', 'β', 'c']), "aβc");
    assert_eq!(string_from_char('x'), "x");
    assert!(text_is(&"let".to_string(), "let"));
    assert!(!text_is(&"let".to_string(), "le"));
    assert!(!text_is(&"le".to_string(), "let"));
    assert!(text_is(&String::new(), ""));
}
