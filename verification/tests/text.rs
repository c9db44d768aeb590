use meilisearch_cli::json::{json_eq, parse_u64, Json};
use meilisearch_cli::text::{
    join_strings, replace_all, sort_strings, text_lines, trim, u64_to_string, utf8_len,
    without_last,
};

#[test]
fn decimal_rendering_and_parsing() {
    assert_eq!(u64_to_string(0), "0");
    assert_eq!(u64_to_string(18446744073709551615), "18446744073709551615");
    assert_eq!(parse_u64("18446744073709551615"), Some(u64::MAX));
    assert_eq!(parse_u64("18446744073709551616"), None);
    assert_eq!(parse_u64("12a"), None);
    assert_eq!(parse_u64(""), None);
    assert_eq!(Json::from_u64(42), Json::Number("42".to_string()));
    assert_eq!(Json::Number("1.5".to_string()).as_u64(), None);
}

#[test]
fn replacing_and_trimming() {
    assert_eq!(replace_all("a MODEL b MODEL", "MODEL", "x"), "a x b x");
    assert_eq!(replace_all("aaa", "aa", "b"), "ba");
    assert_eq!(trim("\u{3000} hi\t\n"), "hi");
    assert_eq!(without_last("héé"), "hé");
    assert_eq!(without_last(""), "");
}

#[test]
fn lines_like_str_lines() {
    let t = "a\r\nb\n\nc\r";
    assert_eq!(text_lines(t), t.lines().map(String::from).collect::<Vec<_>>());
    assert_eq!(text_lines("x\n"), vec!["x".to_string()]);
    assert!(text_lines("").is_empty());
}

#[test]
fn byte_lengths_like_str_len() {
    for t in ["", "abc", "é", "€", "😀", "a€😀"] {
        assert_eq!(utf8_len(t), t.len() as u128);
    }
}

#[test]
fn sorting_and_joining() {
    let v = vec!["b".to_string(), "a".to_string(), "B".to_string(), "a".to_string()];
    let sorted = sort_strings(&v);
    let mut expected = v.clone();
    expected.sort();
    assert_eq!(sorted, expected);
    assert_eq!(join_strings(&sorted, ","), "B,a,a,b");
}

#[test]
fn document_equality_follows_members_in_order() {
    let a = Json::Object(vec![("x".to_string(), Json::Array(vec![Json::Bool(true)]))]);
    let b = a.deep_copy();
    assert!(json_eq(&a, &b));
    assert_eq!(a, b);
    let c = Json::Object(vec![("x".to_string(), Json::Array(vec![Json::Bool(false)]))]);
    assert!(!json_eq(&a, &c));
}
