use jp_router::num::{parse_i64, parse_u64, push_decimal};
use jp_router::text::{chars_of, lines_of, split_chars, string_of, trim};

fn s(v: &Vec<char>) -> String {
    v.iter().collect()
}

#[test]
fn split_keeps_empty_pieces() {
    let parts = split_chars(&chars_of("a  b "), ' ');
    let got: Vec<String> = parts.iter().map(s).collect();
    assert_eq!(got, vec!["a", "", "b", ""]);
    let one = split_chars(&chars_of(""), ' ');
    assert_eq!(one.len(), 1);
    assert_eq!(s(&one[0]), "");
}

#[test]
fn lines_follow_bufread_lines() {
    let ls = lines_of(&chars_of("one\r\ntwo\n\nthree\r"));
    let got: Vec<String> = ls.iter().map(s).collect();
    assert_eq!(got, vec!["one", "two", "", "three\r"]);
    assert_eq!(lines_of(&chars_of("")).len(), 0);
    assert_eq!(lines_of(&chars_of("x\n")).len(), 1);
}

#[test]
fn trim_removes_unicode_whitespace() {
    assert_eq!(s(&trim(&chars_of("\u{a0} 1000\n\t"))), "1000");
    assert_eq!(s(&trim(&chars_of("   "))), "");
    assert_eq!(s(&trim(&chars_of("a b"))), "a b");
}

#[test]
fn parse_i64_matches_from_str() {
    for t in ["0", "+7", "-7", "9223372036854775807", "-9223372036854775808", "007"] {
        assert_eq!(parse_i64(&chars_of(t)), t.parse::<i64>().ok(), "{}", t);
    }
    for t in ["", "+", "-", "9223372036854775808", "-9223372036854775809", "1a", " 1", "--1"] {
        assert_eq!(parse_i64(&chars_of(t)), None, "{}", t);
    }
}

#[test]
fn parse_u64_matches_from_str() {
    assert_eq!(parse_u64(&chars_of("18446744073709551615")), Some(u64::MAX));
    assert_eq!(parse_u64(&chars_of("18446744073709551616")), None);
    assert_eq!(parse_u64(&chars_of("+1000")), Some(1000));
    assert_eq!(parse_u64(&chars_of("-1")), None);
    assert_eq!(parse_u64(&chars_of("")), None);
}

#[test]
fn decimal_writing() {
    let mut out = Vec::new();
    push_decimal(&mut out, 0);
    push_decimal(&mut out, 1234567890);
    assert_eq!(string_of(&out), "01234567890");
}
