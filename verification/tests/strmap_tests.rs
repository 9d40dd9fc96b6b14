use sfu_server::strmap::StrMap;
use sfu_server::text::{decimal_string, str_contains, str_eq};

fn s(t: &str) -> String {
    t.to_string()
}

#[test]
fn keys_stand_for_their_last_value() {
    let mut map: StrMap<u32> = StrMap::new();
    assert_eq!(map.len(), 0);
    assert_eq!(map.get("a"), None);
    map.insert(s("a"), 1);
    map.insert(s("b"), 2);
    map.insert(s("a"), 3);
    assert_eq!(map.len(), 2);
    assert_eq!(map.get("a"), Some(&3));
    assert_eq!(map.get("b"), Some(&2));
    assert!(map.contains_key("a"));
    assert!(!map.contains_key("c"));
    assert_eq!(map.key_at(0), "a");
    assert_eq!(map.key_at(1), "b");
    assert_eq!(map.value_at(0), &3);
    assert_eq!(map.value_at(1), &2);
}

#[test]
fn removed_keys_are_gone() {
    let mut map: StrMap<u32> = StrMap::new();
    map.insert(s("a"), 1);
    map.insert(s("b"), 2);
    map.insert(s("c"), 3);
    assert_eq!(map.remove("b"), Some(2));
    assert_eq!(map.remove("b"), None);
    assert_eq!(map.len(), 2);
    assert_eq!(map.key_at(0), "a");
    assert_eq!(map.key_at(1), "c");
    assert_eq!(map.get("c"), Some(&3));
    map.insert(s("b"), 4);
    assert_eq!(map.key_at(2), "b");
    assert_eq!(map.remove("a"), Some(1));
    assert_eq!(map.remove("c"), Some(3));
    assert_eq!(map.remove("b"), Some(4));
    assert_eq!(map.len(), 0);
}

#[test]
fn texts_compare_by_their_characters() {
    assert!(str_eq("", ""));
    assert!(str_eq("proctor", "proctor"));
    assert!(!str_eq("proctor", "proctoR"));
    assert!(!str_eq("a", "ab"));
    assert!(str_eq("héllo", "héllo"));
    assert!(!str_eq("héllo", "hèllo"));
}

#[test]
fn texts_are_searched() {
    assert!(str_contains("a nonce error", "nonce"));
    assert!(str_contains("nonce", "nonce"));
    assert!(str_contains("anything", ""));
    assert!(str_contains("", ""));
    assert!(!str_contains("", "x"));
    assert!(!str_contains("non", "nonce"));
    assert!(str_contains("xx502", "502"));
    assert!(!str_contains("5 0 2", "502"));
    assert!(str_contains("aaab", "aab"));
}

#[test]
fn numbers_are_written_in_decimal() {
    assert_eq!(decimal_string(0), "0");
    assert_eq!(decimal_string(7), "7");
    assert_eq!(decimal_string(10), "10");
    assert_eq!(decimal_string(1700000000123), "1700000000123");
    assert_eq!(decimal_string(u64::MAX), "18446744073709551615");
}
