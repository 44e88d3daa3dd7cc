//! Sets and maps of strings.
use discord_twitch_notif::collections::{StringMap, StringSet};

#[test]
fn sets_hold_each_string_once() {
    let mut set = StringSet::collect(vec!["a".to_string(), "b".to_string(), "a".to_string()]);
    assert!(set.contains(&"a".to_string()));
    assert!(!set.contains(&"c".to_string()));
    assert!(!set.insert("b".to_string()));
    assert!(set.insert("c".to_string()));
    let mut items = set.into_items();
    items.sort();
    assert_eq!(items, vec!["a", "b", "c"]);
}

#[test]
fn sets_forget_what_is_removed() {
    let mut set = StringSet::collect(vec!["a".to_string(), "b".to_string(), "c".to_string()]);
    assert!(set.remove(&"b".to_string()));
    assert!(!set.remove(&"b".to_string()));
    assert_eq!(set.items(), &vec!["a".to_string(), "c".to_string()]);
}

#[test]
fn maps_keep_the_last_value() {
    let mut map = StringMap::new();
    assert!(!map.contains_key(&"a".to_string()));
    map.insert("a".to_string(), "1".to_string());
    map.insert("b".to_string(), "2".to_string());
    map.insert("a".to_string(), "3".to_string());
    assert!(map.contains_key(&"a".to_string()));
    let mut entries = map.entries().clone();
    entries.sort();
    assert_eq!(entries, vec![("a".to_string(), "3".to_string()), ("b".to_string(), "2".to_string())]);
}
