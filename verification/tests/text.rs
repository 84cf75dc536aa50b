use framework::support::text::{ascii_lowercase_equals, decimal_string, remove_double_dashes, split_str, str_eq};

#[test]
fn decimal_strings() {
    assert_eq!(decimal_string(0), "0");
    assert_eq!(decimal_string(7), "7");
    assert_eq!(decimal_string(10), "10");
    assert_eq!(decimal_string(405), "405");
    assert_eq!(decimal_string(u64::MAX), u64::MAX.to_string());
}

#[test]
fn splitting() {
    assert_eq!(split_str("/a/b", '/'), vec!["", "a", "b"]);
    assert_eq!(split_str("", '/'), vec![""]);
    assert_eq!(split_str("a==b", '='), vec!["a", "", "b"]);
}

#[test]
fn dashes_and_case() {
    assert_eq!(remove_double_dashes("--host"), "host");
    assert_eq!(remove_double_dashes("---x--y-"), "-xy-");
    assert!(ascii_lowercase_equals("HeLLo", "hello"));
    assert!(!ascii_lowercase_equals("hello!", "hello"));
    assert!(str_eq("é", "é"));
    assert!(!str_eq("a", "b"));
}
