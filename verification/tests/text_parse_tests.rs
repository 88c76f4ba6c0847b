use lute::parse::{parse_i64, parse_u32, split_by};
use lute::text::{join_strings, starts_with, trim};

#[test]
fn parse_i64_accepts_what_std_accepts() {
    for s in ["0", "42", "-17", "+5", "007", "-0", "9223372036854775807", "-9223372036854775808"] {
        assert_eq!(parse_i64(s), s.parse::<i64>().ok(), "{}", s);
    }
}

#[test]
fn parse_i64_refuses_what_std_refuses() {
    for s in ["", "-", "+", "1a", " 1", "1 ", "9223372036854775808", "-9223372036854775809", "--1", "+-1", "99999999999999999999"] {
        assert_eq!(parse_i64(s), None, "{}", s);
        assert!(s.parse::<i64>().is_err());
    }
}

#[test]
fn parse_u32_matches_std() {
    for s in ["0", "4294967295", "4294967296", "+12", "-0", "-1", "", "+", "12x", "000123"] {
        assert_eq!(parse_u32(s), s.parse::<u32>().ok(), "{}", s);
    }
}

#[test]
fn split_by_matches_str_split() {
    let cases = [
        ("a:DELIMETER:b", ":DELIMETER:"),
        ("no separator", ":DELIMETER:"),
        (":DELIMETER::DELIMETER:", ":DELIMETER:"),
        (":DELIMETER:DELIMETER:", ":DELIMETER:"),
        ("aaa", "aa"),
        ("", "x"),
        ("x", "x"),
    ];
    for (s, p) in cases {
        let expected: Vec<String> = s.split(p).map(|t| t.to_string()).collect();
        assert_eq!(split_by(s, p), expected, "{:?} by {:?}", s, p);
    }
}

#[test]
fn trim_matches_str_trim() {
    for s in ["  a b  ", "\t\n x\u{3000}", "", "   ", "plain"] {
        assert_eq!(trim(s), s.trim());
    }
}

#[test]
fn join_and_prefix() {
    let parts = vec!["a".to_string(), "b".to_string(), "c".to_string()];
    assert_eq!(join_strings(&parts, ", "), "a, b, c");
    assert_eq!(join_strings(&Vec::new(), ", "), "");
    assert!(starts_with("crawl_similar_albums:x", "crawl_similar_albums:"));
    assert!(!starts_with("crawl_similar", "crawl_similar_albums:"));
    assert!(starts_with("anything", ""));
}
