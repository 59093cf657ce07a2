use ersatztv::text::{
    decimal_string, find, from_chars, has_prefix, parse_i64, parse_u64, split_chars, split_lines,
    to_chars, trimmed, white_space, zero_padded_string,
};

fn split(s: &str, sep: char) -> Vec<String> {
    split_chars(&to_chars(s), sep).iter().map(from_chars).collect()
}

fn lines(s: &str) -> Vec<String> {
    split_lines(&to_chars(s)).iter().map(from_chars).collect()
}

#[test]
fn texts_are_split_as_by_std() {
    for s in ["", "_", "a", "a_b", "_a__b_", "\u{e9}_\u{1f600}"] {
        let expected: Vec<&str> = s.split('_').collect();
        assert_eq!(split(s, '_'), expected);
        assert_eq!(split(s, '_').join("_"), s);
    }
}

#[test]
fn lines_are_split_as_by_std() {
    for s in ["", "\n", "a", "a\n", "a\nb", "a\r\nb\r\n", "a\r", "\r\n\n\r", "a\r\r\nb"] {
        let expected: Vec<&str> = s.lines().collect();
        assert_eq!(lines(s), expected);
    }
}

#[test]
fn white_space_is_that_of_std() {
    for n in 0..=0x10_FFFF {
        if let Some(c) = char::from_u32(n) {
            assert_eq!(white_space(c), c.is_whitespace());
        }
    }
}

#[test]
fn texts_are_trimmed_as_by_std() {
    for s in ["", "  ", " a ", "\t\u{85}a b\u{2028}\n", "a", "\u{3000}\u{feff}"] {
        let once = trimmed(&to_chars(s));
        assert_eq!(from_chars(&once), s.trim());
        assert_eq!(trimmed(&once), once);
    }
}

#[test]
fn numbers_are_read_as_by_std() {
    for s in [
        "", "+", "-", "0", "-0", "+0", "007", "+7", "-7", " 7", "7 ", "7a", "++7", "\u{663}",
        "18446744073709551615", "18446744073709551616", "9223372036854775807",
        "9223372036854775808", "-9223372036854775808", "-9223372036854775809",
        "000000000000000000000000000000000001",
    ] {
        let chars = to_chars(s);
        assert_eq!(parse_u64(&chars), s.parse::<u64>().ok(), "{}", s);
        assert_eq!(parse_i64(&chars), s.parse::<i64>().ok(), "{}", s);
    }
}

#[test]
fn numbers_are_written_as_by_std() {
    for n in [0, 7, 10, 99, 100, 12_345, u64::MAX] {
        assert_eq!(decimal_string(n), format!("{}", n));
        assert_eq!(zero_padded_string(n, 2), format!("{:02}", n));
        assert_eq!(zero_padded_string(n, 3), format!("{:03}", n));
        assert_eq!(parse_u64(&to_chars(&decimal_string(n))), Some(n));
        assert_eq!(parse_u64(&to_chars(&zero_padded_string(n, 3))), Some(n));
    }
}

#[test]
fn patterns_are_found_from_the_left() {
    let s = to_chars("a --> b --> c");
    assert_eq!(find(&s, " --> ", 0), Some(1));
    assert_eq!(find(&s, " --> ", 2), Some(7));
    assert_eq!(find(&s, " --> ", 8), None);
    assert!(has_prefix(&s, "a -"));
    assert!(!has_prefix(&s, "a --> b --> c d"));
}
