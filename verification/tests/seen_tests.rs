use std::collections::HashMap;

use contrib_inbox::seen::{parse_id, parse_u64, seen_from_json, seen_to_json};
use contrib_inbox::text::decimal_string;

fn pairs(v: &[(&str, &str)]) -> Vec<(String, String)> {
    v.iter().map(|(k, x)| (k.to_string(), x.to_string())).collect()
}

fn as_map(v: &[(String, String)]) -> HashMap<String, String> {
    v.iter().cloned().collect()
}

#[test]
fn parse_u64_agrees_with_std() {
    for text in [
        "0",
        "7",
        "+12",
        "007",
        "",
        "+",
        "-",
        "-5",
        " 5",
        "5 ",
        "1a",
        "18446744073709551615",
        "18446744073709551616",
        "99999999999999999999",
        "+18446744073709551615",
        "٣",
    ] {
        assert_eq!(parse_u64(text), text.parse::<u64>().ok(), "{:?}", text);
    }
}

#[test]
fn ids_read_back_as_written() {
    for n in [0u64, 9, 10, 1234567, u64::MAX] {
        assert_eq!(parse_id(&decimal_string(n)), Some(n));
    }
}

#[test]
fn only_canonical_keys_are_ids() {
    assert_eq!(parse_id("42"), Some(42));
    assert_eq!(parse_id("0"), Some(0));
    assert_eq!(parse_id("007"), None);
    assert_eq!(parse_id("+7"), None);
    assert_eq!(parse_id("00"), None);
    assert_eq!(parse_id(""), None);
    assert_eq!(parse_id("18446744073709551616"), None);
}

#[test]
fn stored_entries_split_into_ids_and_others() {
    let stored = seen_from_json(
        "{\"42\":\"2024-01-01T00:00:00Z\",\"not-an-id\":\"x\",\"007\":\"y\",\"7\":\"2024-03-01T00:00:00Z\"}",
    );
    assert_eq!(stored.ids.len(), 2);
    assert_eq!(stored.ids.get(&42).map(String::as_str), Some("2024-01-01T00:00:00Z"));
    assert_eq!(stored.ids.get(&7).map(String::as_str), Some("2024-03-01T00:00:00Z"));
    assert_eq!(as_map(&stored.other), as_map(&pairs(&[("not-an-id", "x"), ("007", "y")])));
}

#[test]
fn unreadable_markers_are_none() {
    for text in ["", "[1,2]", "{\"1\":2}", "{}"] {
        let stored = seen_from_json(text);
        assert!(stored.ids.is_empty() && stored.other.is_empty(), "{:?}", text);
    }
}

#[test]
fn markers_written_as_a_json_map() {
    let mut seen = HashMap::new();
    seen.insert(30u64, "c\"q".to_string());
    seen.insert(4u64, "a\n".to_string());
    let other = pairs(&[("x", "1"), ("x", "2"), ("5", "dropped: an id"), ("07", "kept")]);
    let text = seen_to_json(&seen, &other);
    let back: HashMap<String, String> = serde_json::from_str(&text).unwrap();
    let expected = as_map(&pairs(&[("30", "c\"q"), ("4", "a\n"), ("x", "1"), ("07", "kept")]));
    assert_eq!(back, expected);
    assert_eq!(seen_to_json(&HashMap::new(), &vec![]), "{}");
    let one: HashMap<u64, String> = [(4u64, "a\n".to_string())].into_iter().collect();
    assert_eq!(seen_to_json(&one, &vec![]), "{\"4\":\"a\\n\"}");
}

#[test]
fn markers_round_trip() {
    let mut seen = HashMap::new();
    seen.insert(1u64, "2024-01-01T00:00:00Z".to_string());
    seen.insert(u64::MAX, "\u{1}é\\".to_string());
    seen.insert(0u64, String::new());
    let other = pairs(&[("legacy", "kept"), ("+3", "also kept")]);
    let back = seen_from_json(&seen_to_json(&seen, &other));
    assert_eq!(back.ids, seen);
    assert_eq!(as_map(&back.other), as_map(&other));
}
