use rmux::text::{
    i64_to_decimal, last_segment_of, lines_of, parse_i64, parse_u16, split_string, str_less,
    to_ascii_lowercase, trim_start_matches, trim_string, u64_to_decimal,
};

#[test]
fn trim_removes_unicode_white_space() {
    assert_eq!(trim_string("  hello \t\n"), "hello");
    assert_eq!(trim_string("\u{3000}名称\u{A0}"), "名称");
    assert_eq!(trim_string("   "), "");
    assert_eq!(trim_string("a b"), "a b");
}

#[test]
fn decimal_numerals() {
    assert_eq!(u64_to_decimal(0), "0");
    assert_eq!(u64_to_decimal(1000), "1000");
    assert_eq!(u64_to_decimal(u64::MAX), "18446744073709551615");
    assert_eq!(i64_to_decimal(-42), "-42");
    assert_eq!(i64_to_decimal(i64::MIN), "-9223372036854775808");
}

#[test]
fn integer_parsing_matches_std() {
    for s in ["0", "+7", "-7", "", "+", "-", "12a", "65535", "65536", "-0", "0001"] {
        assert_eq!(parse_u16(s), s.parse::<u16>().ok(), "u16 {:?}", s);
        assert_eq!(parse_i64(s), s.parse::<i64>().ok(), "i64 {:?}", s);
    }
    for s in ["9223372036854775807", "9223372036854775808", "-9223372036854775808", "-9223372036854775809"] {
        assert_eq!(parse_i64(s), s.parse::<i64>().ok(), "i64 {:?}", s);
    }
}

#[test]
fn split_and_lines_match_std() {
    for s in ["a:b::c", "", ":", "abc", "a:"] {
        let expected: Vec<String> = s.split(':').map(|x| x.to_string()).collect();
        assert_eq!(split_string(s, ':'), expected);
    }
    for s in ["a\nb", "a\r\nb\r\n", "", "\n", "a\n\nb", "x\r", "a\n\r"] {
        let expected: Vec<String> = s.lines().map(|x| x.to_string()).collect();
        assert_eq!(lines_of(s), expected, "{:?}", s);
    }
}

#[test]
fn case_and_prefixes() {
    assert_eq!(to_ascii_lowercase("Image/PNG"), "image/png");
    assert_eq!(to_ascii_lowercase("ÄB"), "Äb");
    assert_eq!(trim_start_matches("token=token=abc", "token="), "abc");
    assert_eq!(trim_start_matches("xtoken=abc", "token="), "xtoken=abc");
    assert_eq!(last_segment_of("photo.tar.JPG", '.'), "JPG");
    assert_eq!(last_segment_of("noext", '.'), "noext");
}

#[test]
fn string_order_matches_std() {
    let cases = [("a", "b"), ("b", "a"), ("ab", "a"), ("a", "ab"), ("", ""), ("2024-01-01", "2023-12-31"), ("中", "a")];
    for (a, b) in cases {
        assert_eq!(str_less(a, b), a < b, "{:?} < {:?}", a, b);
    }
}
