//! Text building and reading, and maps of texts.

use wren::string_map::StringMap;
use wren::text::{
    decimal, join, parse_bounded, signed_decimal, sort_strings, split_at_first, str_eq, str_le, trim,
};

#[test]
fn numbers_are_written_and_read() {
    for n in [0, 9, 10, 12_345, u64::MAX] {
        assert_eq!(decimal(n), n.to_string());
        assert_eq!(parse_bounded(&n.to_string(), u64::MAX), Some(n));
    }
    for n in [0, -1, 42, i64::MIN, i64::MAX] {
        assert_eq!(signed_decimal(n), n.to_string());
    }
    for text in ["", "+", "-1", "1_000", " 1", "1 ", "+7", "007", "18446744073709551616", "x"] {
        assert_eq!(parse_bounded(text, u64::MAX), text.parse::<u64>().ok());
    }
    assert_eq!(parse_bounded("256", 255), None);
    assert_eq!(parse_bounded("255", 255), Some(255));
}

#[test]
fn texts_are_trimmed_joined_and_split() {
    for text in ["", " ", " a b ", "\t\u{a0}x\u{3000}\n", "\u{200b}y"] {
        assert_eq!(trim(text), text.trim());
    }
    let parts: Vec<String> = ["a", "b", "c"].iter().map(|s| s.to_string()).collect();
    assert_eq!(join(&parts, ", "), "a, b, c");
    assert_eq!(join(&vec![], ", "), "");
    assert_eq!(split_at_first("a:b:c", ':'), ("a", Some("b:c")));
    assert_eq!(split_at_first("abc", ':'), ("abc", None));
    assert!(str_eq("a", "a") && !str_eq("a", "b"));
}

#[test]
fn texts_are_ordered_by_code_point() {
    for (a, b) in [("", "a"), ("a", "b"), ("Z", "a"), ("a", "aa"), ("z", "\u{e9}")] {
        assert!(str_le(a, b) && !str_le(b, a));
    }
    let list: Vec<String> = ["b", "a", "c", "a"].iter().map(|s| s.to_string()).collect();
    assert_eq!(sort_strings(list), vec!["a", "a", "b", "c"]);
}

#[test]
fn maps_keep_one_value_for_each_key() {
    let mut map = StringMap::new();
    assert_eq!(map.insert("a".to_string(), "1".to_string()), None);
    assert_eq!(map.insert("b".to_string(), "2".to_string()), None);
    assert_eq!(map.insert("a".to_string(), "3".to_string()), Some("1".to_string()));
    assert_eq!(map.len(), 2);
    assert_eq!(map.get("a").unwrap(), "3");
    assert!(map.contains_key("b") && !map.contains_key("c"));
    let copy = map.duplicate();
    assert_eq!(map.remove("a"), Some("3".to_string()));
    assert_eq!(map.remove("a"), None);
    assert_eq!(map.keys(), vec!["b"]);
    assert_eq!(copy.len(), 2);
    assert_eq!(copy.clone().get("a").unwrap(), "3");
    assert_eq!(copy.clone().get("b").unwrap(), "2");
    assert_eq!(map.key_at(0), "b");
    assert_eq!(map.value_at(0), "2");
}
