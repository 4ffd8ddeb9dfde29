use market_data::text::{
    has_multiple_lines, is_whitespace_char, parse_i32, parse_i64, parse_integer_within,
    push_decimal, push_four_digits, push_signed_decimal, push_signed_two_places,
    push_two_digits, str_eq, trim,
};

fn written(push: impl Fn(&mut String)) -> String {
    let mut out = String::from(">");
    push(&mut out);
    out
}

#[test]
fn decimal_notation() {
    for n in [0u64, 1, 9, 10, 11, 99, 100, 101, 999, 1000, 9999, 10000, 123456789, u64::MAX] {
        assert_eq!(written(|out| push_decimal(out, n)), format!(">{}", n));
        assert_eq!(written(|out| push_two_digits(out, n)), format!(">{:02}", n));
        assert_eq!(written(|out| push_four_digits(out, n)), format!(">{:04}", n));
    }
    assert_eq!(written(|out| push_two_digits(out, 7)), ">07");
    assert_eq!(written(|out| push_four_digits(out, 42)), ">0042");
}

#[test]
fn signed_decimal_notation() {
    for v in [0i32, 1, -1, 5, -5, 9, -9, 10, -10, 25, -25, 99, -99, 100, -100, 2025, -2025, i32::MAX, i32::MIN]
    {
        assert_eq!(written(|out| push_signed_decimal(out, v)), format!(">{}", v));
        assert_eq!(written(|out| push_signed_two_places(out, v)), format!(">{:02}", v));
    }
    assert_eq!(written(|out| push_signed_two_places(out, -5)), ">-5");
    assert_eq!(written(|out| push_signed_two_places(out, 5)), ">05");
}

#[test]
fn white_space_is_the_unicode_property() {
    for code in 0..=0x10FFFFu32 {
        if let Some(c) = char::from_u32(code) {
            assert_eq!(is_whitespace_char(c), c.is_whitespace(), "U+{:04X}", code);
        }
    }
}

fn samples() -> Vec<String> {
    let pieces = [
        "", " ", "\t", "\n", "\r\n", "\u{a0}", "\u{2003}", "\u{3000}", "\u{85}", "\u{200b}", "a",
        "-", "+", "0", "7", "42", "é", "x y", ".", "1e5", "_",
    ];
    let mut all = Vec::new();
    for a in pieces {
        for b in pieces {
            for c in pieces {
                all.push(format!("{a}{b}{c}"));
            }
        }
    }
    all
}

#[test]
fn trimming_agrees_with_the_standard_library() {
    for sample in samples() {
        assert_eq!(trim(&sample), sample.trim(), "{:?}", sample);
    }
    assert_eq!(trim("  RELIANCE \n"), "RELIANCE");
    assert_eq!(trim("a  b"), "a  b");
    assert_eq!(trim(" \t\n"), "");
    assert_eq!(trim(""), "");
    assert_eq!(trim("\u{2003}é\u{a0}"), "é");
}

#[test]
fn integers_parse_as_in_the_standard_library() {
    let mut texts = samples();
    for text in [
        "9223372036854775807",
        "9223372036854775808",
        "-9223372036854775808",
        "-9223372036854775809",
        "+9223372036854775807",
        "2147483647",
        "2147483648",
        "-2147483648",
        "-2147483649",
        "000000000000000000000000000000000000012",
        "-000",
        "+0",
        "99999999999999999999999999999999999999999999",
        "-99999999999999999999999999999999999999999999",
        "12a",
        "a12",
        "1 2",
        "--1",
        "+-1",
        "1-",
        "１２",
        "1.0",
        "0x10",
    ] {
        texts.push(text.to_string());
    }
    for text in texts {
        assert_eq!(parse_i64(&text), text.parse::<i64>().ok(), "{:?}", text);
        assert_eq!(parse_i32(&text), text.parse::<i32>().ok(), "{:?}", text);
    }
    assert_eq!(parse_i64("-42"), Some(-42));
    assert_eq!(parse_i32("+17"), Some(17));
    assert_eq!(parse_i64(""), None);
}

#[test]
fn integers_outside_the_range_are_refused() {
    assert_eq!(parse_integer_within("10", 0, 10), Some(10));
    assert_eq!(parse_integer_within("11", 0, 10), None);
    assert_eq!(parse_integer_within("-1", 0, 10), None);
    assert_eq!(parse_integer_within("0", 0, 10), Some(0));
    assert_eq!(parse_integer_within("-0", 0, 10), Some(0));
    assert_eq!(parse_integer_within("5", 10, 0), None);
    assert_eq!(parse_integer_within("-9223372036854775808", i64::MIN, -1), Some(i64::MIN));
}

#[test]
fn line_counting_agrees_with_the_standard_library() {
    for sample in samples() {
        assert_eq!(has_multiple_lines(&sample), sample.lines().count() > 1, "{:?}", sample);
    }
    assert!(!has_multiple_lines(""));
    assert!(!has_multiple_lines("one"));
    assert!(!has_multiple_lines("one\n"));
    assert!(has_multiple_lines("one\ntwo"));
    assert!(has_multiple_lines("\n\n"));
    assert!(has_multiple_lines("one\r\ntwo\r\n"));
}

#[test]
fn text_equality() {
    assert!(str_eq("", ""));
    assert!(str_eq("nse", "nse"));
    assert!(!str_eq("nse", "NSE"));
    assert!(!str_eq("nse", "nse "));
    assert!(!str_eq("e\u{301}", "é"));
}
