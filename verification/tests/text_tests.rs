use reminder_commands::text::{
    chars_of, i64_text, pad2, parse_i64, parse_u16, parse_u64, parse_usize, replace_all,
    replace_first_str, u64_text, words_of,
};

fn cs(s: &str) -> Vec<char> {
    s.chars().collect()
}

fn st(v: Vec<char>) -> String {
    v.into_iter().collect()
}

#[test]
fn parse_unsigned_follows_from_str() {
    for s in ["0", "7", "+12", "65535", "65536", "", "+", "-1", "1a", " 1", "٣", "00042"] {
        assert_eq!(parse_u16(&cs(s)), s.parse::<u16>().ok(), "{:?}", s);
        assert_eq!(parse_u64(&cs(s)), s.parse::<u64>().ok(), "{:?}", s);
        assert_eq!(parse_usize(&cs(s)), s.parse::<usize>().ok(), "{:?}", s);
    }
    assert_eq!(parse_u64(&cs("18446744073709551615")), Some(u64::MAX));
    assert_eq!(parse_u64(&cs("18446744073709551616")), None);
}

#[test]
fn parse_signed_follows_from_str() {
    for s in ["0", "-0", "+5", "-5", "-", "+", "", "9223372036854775807", "9223372036854775808",
        "-9223372036854775808", "-9223372036854775809", "--1", "12x"] {
        assert_eq!(parse_i64(&cs(s)), s.parse::<i64>().ok(), "{:?}", s);
    }
}

#[test]
fn decimal_text_matches_to_string() {
    for n in [0u64, 9, 10, 99, 100, 12345, u64::MAX] {
        assert_eq!(st(u64_text(n)), n.to_string());
        assert_eq!(parse_u64(&u64_text(n)), Some(n));
    }
    for n in [0i64, -1, 1, -10, 123, i64::MIN, i64::MAX] {
        assert_eq!(st(i64_text(n)), n.to_string());
        assert_eq!(parse_i64(&i64_text(n)), Some(n));
    }
}

#[test]
fn pad2_matches_format() {
    for n in [0i64, 5, 9, 10, 59, 100, -1, -9, -10, -123] {
        assert_eq!(st(pad2(n)), format!("{:02}", n));
    }
}

#[test]
fn replace_first_matches_replacen() {
    for (s, p, r) in [("a {} b {}", "{}", "X"), ("none", "{}", "X"), ("{}", "{}", ""), ("abc", "", "-"),
        ("{location} and {location}", "{location}", "<#1>")] {
        assert_eq!(replace_first_str(s, p, r), s.replacen(p, r, 1));
    }
}

#[test]
fn replace_all_matches_replace() {
    for (s, p, r) in [("use {prefix}help or {prefix}remind", "{prefix}", "$"), ("aaa", "aa", "b"), ("", "x", "y")] {
        assert_eq!(st(replace_all(&cs(s), &cs(p), &cs(r))), s.replace(p, r));
    }
}

#[test]
fn words_drop_empty_pieces() {
    assert_eq!(words_of("  a b  c ", ' '), vec!["a", "b", "c"]);
    assert_eq!(words_of("", ' '), Vec::<String>::new());
    assert_eq!(st(chars_of("héllo")), "héllo");
}
