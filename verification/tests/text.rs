//! Text.
use discord_twitch_notif::text::{integer, join, port, same};

#[test]
fn numbers_are_written_as_the_standard_library_does() {
    for i in [0, 7, 10, 99, 1602411072, -1, -10, i64::MAX, i64::MIN] {
        assert_eq!(integer(i), i.to_string());
    }
}

#[test]
fn ports_are_read_as_the_standard_library_does() {
    for text in ["0", "00", "+1", "++1", "-0", "65535", "65536", "065535", "1_0", "", "+", " 1", "٣"] {
        assert_eq!(port(text), text.parse::<u16>().ok());
    }
}

#[test]
fn written_numbers_read_back() {
    for i in [0, 1, 9, 10, 8000, 65535] {
        assert_eq!(port(&integer(i)), Some(i as u16));
    }
}

#[test]
fn texts_are_joined_as_the_standard_library_does() {
    for parts in [vec![], vec!["a"], vec!["", ""], vec!["a", "b", "c"]] {
        let parts: Vec<String> = parts.into_iter().map(|part| part.to_string()).collect();
        assert_eq!(join(&parts, ", "), parts.join(", "));
    }
}

#[test]
fn texts_are_compared_exactly() {
    assert!(same("", ""));
    assert!(same("Live", "Live"));
    assert!(!same("Live", "live"));
    assert!(!same("Live", "Live "));
}
