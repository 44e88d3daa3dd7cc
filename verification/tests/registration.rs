//! Keeping the registered subscriptions.
use discord_twitch_notif::collections::{StringMap, StringSet};
use discord_twitch_notif::registration::{
    eventsub_register, new_subscription, note_listing, note_registered, EventSubSubscription, Request, Transport,
    CHECK_INTERVAL_SECONDS, INITIAL_DELAY_SECONDS,
};
use serde_json::Value;

const WEBSITE: &str = "https://dtn.example.com/twitch-events";

fn condition(broadcaster: Value) -> Value {
    let mut members = serde_json::Map::new();
    members.insert("broadcaster_user_id".to_string(), broadcaster);
    Value::Object(members)
}

fn subscription(id: &str, broadcaster: &str) -> EventSubSubscription {
    EventSubSubscription {
        id: id.to_string(),
        callback: Some(WEBSITE.to_string()),
        version: "1".to_string(),
        type_: "stream.online".to_string(),
        condition: condition(Value::String(broadcaster.to_string())),
    }
}

fn noted(subscriptions: Vec<EventSubSubscription>) -> StringMap {
    let mut existing = StringMap::new();
    for subscription in subscriptions {
        assert!(note_registered(&mut existing, &subscription, WEBSITE).is_ok());
    }
    existing
}

fn set(items: &[&str]) -> StringSet {
    StringSet::collect(items.iter().map(|item| item.to_string()).collect())
}

/// What a check asks for, and what it drops.
fn round(existing: &StringMap, expected: &[&str]) -> (Vec<String>, Vec<String>) {
    let mut created = Vec::new();
    let mut deleted = Vec::new();
    for request in eventsub_register(existing, &set(expected), WEBSITE, "hush") {
        match request {
            Request::Create { broadcaster_user_id, transport: Transport::Webhook { callback, secret } } => {
                assert_eq!(callback, WEBSITE);
                assert_eq!(secret, "hush");
                assert!(deleted.is_empty());
                created.push(broadcaster_user_id);
            }
            Request::Create { .. } => panic!("events should come through the webhook"),
            Request::Delete { id } => deleted.push(id),
        }
    }
    created.sort();
    deleted.sort();
    (created, deleted)
}

#[test]
fn checks_are_daily() {
    assert_eq!(INITIAL_DELAY_SECONDS, 5);
    assert_eq!(CHECK_INTERVAL_SECONDS, 86400);
}

#[test]
fn registered_subscriptions_are_noted() {
    let existing = noted(vec![subscription("a", "1"), subscription("b", "2")]);
    assert_eq!(
        existing.entries(),
        &vec![("1".to_string(), "a".to_string()), ("2".to_string(), "b".to_string())]
    );
}

#[test]
fn later_subscriptions_of_a_broadcaster_replace_earlier_ones() {
    let existing = noted(vec![subscription("a", "1"), subscription("b", "1")]);
    assert_eq!(existing.entries(), &vec![("1".to_string(), "b".to_string())]);
}

#[test]
fn other_subscriptions_are_not_noted() {
    let mut elsewhere = subscription("a", "1");
    elsewhere.callback = Some("https://dtn.example.com/".to_string());
    let mut websocket = subscription("b", "1");
    websocket.callback = None;
    let mut newer = subscription("c", "1");
    newer.version = "2".to_string();
    let mut offline = subscription("d", "1");
    offline.type_ = "stream.offline".to_string();
    offline.condition = Value::Null;
    assert!(noted(vec![elsewhere, websocket, newer, offline]).entries().is_empty());
}

#[test]
fn subscriptions_without_broadcaster_are_an_error() {
    for broken in [
        Value::Null,
        Value::String("broadcaster_user_id".to_string()),
        Value::Object(serde_json::Map::new()),
        condition(Value::from(1337)),
    ] {
        let mut existing = StringMap::new();
        let mut unnamed = subscription("a", "1");
        unnamed.condition = broken;
        let Err(error) = note_registered(&mut existing, &unnamed, WEBSITE) else {
            panic!("there is no broadcaster")
        };
        assert_eq!(error.message(), "stream.online did not contain broadcaster");
        assert!(existing.entries().is_empty());
    }
}

#[test]
fn first_check_registers_the_expected() {
    let (created, deleted) = round(&StringMap::new(), &["2", "1", "2"]);
    assert_eq!(created, vec!["1", "2"]);
    assert!(deleted.is_empty());
}

#[test]
fn checks_exchange_the_expected() {
    let existing = noted(vec![subscription("a", "1"), subscription("b", "2"), subscription("c", "3")]);
    let (created, deleted) = round(&existing, &["2", "3", "4"]);
    assert_eq!(created, vec!["4"]);
    assert_eq!(deleted, vec!["b", "c"]);
}

#[test]
fn second_check_undoes_the_first() {
    let (created, _) = round(&StringMap::new(), &["1", "2"]);
    let existing = noted(created.iter().map(|id| subscription(&format!("new-{id}"), id)).collect());
    let (created, deleted) = round(&existing, &["1", "2"]);
    assert!(created.is_empty());
    assert_eq!(deleted, vec!["new-1", "new-2"]);
}

#[test]
fn checks_leave_the_unexpected_alone() {
    let existing = noted(vec![subscription("a", "1")]);
    let (created, deleted) = round(&existing, &[]);
    assert!(created.is_empty());
    assert!(deleted.is_empty());
}

#[test]
fn subscribing_asks_as_a_check_does() {
    let Request::Create { broadcaster_user_id, transport: Transport::Webhook { callback, secret } } =
        new_subscription("9".to_string(), WEBSITE, "hush")
    else {
        panic!("a subscription should be asked for")
    };
    assert_eq!(broadcaster_user_id, "9");
    assert_eq!(callback, WEBSITE);
    assert_eq!(secret, "hush");
    assert_eq!(round(&StringMap::new(), &["9"]), (vec!["9".to_string()], Vec::new()));
}

#[test]
fn listings_are_noted_page_by_page() {
    let mut other = subscription("x", "1");
    other.version = "2".to_string();
    let mut existing = StringMap::new();
    let page = vec![subscription("a", "1"), other, subscription("b", "2")];
    assert!(note_listing(&mut existing, page, WEBSITE).is_ok());
    assert!(note_listing(&mut existing, vec![subscription("c", "1")], WEBSITE).is_ok());
    assert!(note_listing(&mut existing, Vec::new(), WEBSITE).is_ok());
    let mut entries = existing.entries().clone();
    entries.sort();
    assert_eq!(
        entries,
        vec![("1".to_string(), "c".to_string()), ("2".to_string(), "b".to_string())]
    );
}

#[test]
fn listings_end_at_a_missing_broadcaster() {
    let mut unnamed = subscription("b", "2");
    unnamed.condition = Value::Null;
    let mut existing = StringMap::new();
    let listed = vec![subscription("a", "1"), unnamed, subscription("c", "3")];
    assert!(note_listing(&mut existing, listed, WEBSITE).is_err());
    assert_eq!(existing.entries(), &vec![("1".to_string(), "a".to_string())]);
}
