use cos_client::{
    count_occurrences, error_keys, int_string, join_all, last_index, less_than, nat_string,
    parse_u64, same_text, slice, starts_with, trim_quotes_str,
};

#[test]
fn decimal_rendering() {
    assert_eq!(nat_string(0), "0");
    assert_eq!(nat_string(1234567890), "1234567890");
    assert_eq!(nat_string(u128::MAX), u128::MAX.to_string());
    assert_eq!(int_string(-60), "-60");
    assert_eq!(int_string(1700003600), "1700003600");
    assert_eq!(int_string(i128::MIN), i128::MIN.to_string());
}

#[test]
fn decimal_parsing() {
    assert_eq!(parse_u64("123"), Some(123));
    assert_eq!(parse_u64("+7"), Some(7));
    assert_eq!(parse_u64("007"), Some(7));
    assert_eq!(parse_u64(""), None);
    assert_eq!(parse_u64("+"), None);
    assert_eq!(parse_u64("-1"), None);
    assert_eq!(parse_u64("12a"), None);
    assert_eq!(parse_u64("18446744073709551615"), Some(u64::MAX));
    assert_eq!(parse_u64("18446744073709551616"), None);
}

#[test]
fn text_order() {
    assert!(less_than("a", "b"));
    assert!(less_than("ab", "abc"));
    assert!(!less_than("abc", "ab"));
    assert!(!less_than("b", "a"));
    assert!(!less_than("same", "same"));
    assert!(less_than("Host", "host"));
}

#[test]
fn prefixes_and_equality() {
    assert!(starts_with("assets/pic.png", "assets/"));
    assert!(!starts_with("asset", "assets/"));
    assert!(starts_with("x", ""));
    assert!(same_text("abc", "abc"));
    assert!(!same_text("abc", "abd"));
    assert!(!same_text("abc", "ab"));
}

#[test]
fn slicing_and_searching() {
    assert_eq!(slice("héllo", 1, 3), "él");
    assert_eq!(last_index("a/b/c", '/', 5), 4);
    assert_eq!(last_index("a/b/c", '/', 3), 2);
    assert_eq!(last_index("abc", '/', 3), 0);
}

#[test]
fn joining() {
    let parts = vec!["a".to_string(), "b".to_string(), "c".to_string()];
    assert_eq!(join_all(&parts, ";"), "a;b;c");
    assert_eq!(join_all(&Vec::new(), ";"), "");
    assert_eq!(join_all(&vec!["only".to_string()], "&"), "only");
}

#[test]
fn quote_trimming() {
    assert_eq!(trim_quotes_str("\"abc\""), "abc");
    assert_eq!(trim_quotes_str("\"\"abc\""), "abc");
    assert_eq!(trim_quotes_str("abc"), "abc");
    assert_eq!(trim_quotes_str("\"\"\""), "");
    assert_eq!(trim_quotes_str(""), "");
}

#[test]
fn occurrence_counting() {
    assert_eq!(count_occurrences("aaaa", "aa"), 2);
    assert_eq!(count_occurrences("aaa", "aa"), 1);
    assert_eq!(count_occurrences("", "<Deleted>"), 0);
    assert_eq!(count_occurrences("<Deleted></Deleted><Deleted>", "<Deleted>"), 2);
}

#[test]
fn error_key_extraction() {
    let body = "<DeleteResult><Deleted><Key>a</Key></Deleted><Error><Key>b/c</Key><Code>AccessDenied</Code></Error><Error><Code>X</Code><Key>d</Key></Error></DeleteResult>";
    assert_eq!(error_keys(body), vec!["b/c".to_string(), "d".to_string()]);
    assert!(error_keys("<Error><Key>unterminated").is_empty());
    assert!(error_keys("").is_empty());
}
