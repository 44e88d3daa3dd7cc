//! Telling users that a stream went live.
use discord_twitch_notif::eventsub::StreamOnline;
use discord_twitch_notif::notification::{
    announce, announce_at, online_message, start_time, streamer_to_announce,
};
use discord_twitch_notif::users::{Mapping, Subscriptions, UserData};

fn stream(type_: &str, started_at: &str) -> StreamOnline {
    StreamOnline {
        broadcaster_user_id: "1337".to_string(),
        broadcaster_user_login: "cool_user".to_string(),
        broadcaster_user_name: "Cool_User".to_string(),
        type_: type_.to_string(),
        started_at: started_at.to_string(),
    }
}

#[test]
fn live_streams_are_announced() {
    assert_eq!(streamer_to_announce(&stream("Live", "")), Some("1337".to_string()));
}

#[test]
fn other_streams_are_not_announced() {
    for type_ in ["Rerun", "Premiere", "live", ""] {
        assert_eq!(streamer_to_announce(&stream(type_, "")), None);
    }
}

#[test]
fn timestamps_give_the_unix_time() {
    assert_eq!(start_time("1970-01-01T00:00:00Z"), Some(0));
    assert_eq!(start_time("2020-10-11T10:11:12.123Z"), Some(1602411072));
    assert_eq!(start_time("2020-10-11T12:11:12+02:00"), Some(1602411072));
    assert_eq!(start_time("1969-12-31T23:59:59Z"), Some(-1));
}

#[test]
fn texts_that_are_no_timestamps_give_no_time() {
    for text in ["", "yesterday", "2020-10-11", "2020-13-11T10:11:12Z"] {
        assert_eq!(start_time(text), None);
    }
}

#[test]
fn last_day_ends_the_timestamps() {
    assert_eq!(start_time("9999-12-31T23:59:59Z"), Some(253402300799));
    assert_eq!(start_time("9999-12-31T22:59:59-01:00"), Some(253402300799));
    assert_eq!(start_time("9999-12-31T23:00:00-01:00"), None);
    assert_eq!(start_time("9999-12-31T23:59:59.5-00:01"), None);
    assert_eq!(start_time("9999-12-31T23:59:59+23:59"), Some(253402300799 - 86340));
}

#[test]
fn messages_name_and_link_the_streamer() {
    assert_eq!(
        online_message(&stream("Live", ""), 1602411072),
        "[Cool_User](https://twitch.tv/cool_user) went online <t:1602411072:R>."
    );
    assert_eq!(
        online_message(&stream("Live", ""), -1),
        "[Cool_User](https://twitch.tv/cool_user) went online <t:-1:R>."
    );
}

#[test]
fn exactly_the_subscribers_are_told() {
    let mut entries: Vec<Mapping> = Vec::new();
    for (key, streamers) in [(1, vec!["1337", "7"]), (2, vec!["7"]), (3, vec!["1337"])] {
        let mut user = UserData::new(key);
        for streamer in streamers {
            user.subscribe(streamer.to_string());
        }
        entries.extend(Subscriptions.map(&user).into_iter().filter(|entry| entry.key == "1337"));
    }
    let messages = announce(&stream("Live", "2020-10-11T10:11:12.123Z"), &entries).unwrap();
    let recipients: Vec<u64> = messages.iter().map(|message| message.recipient).collect();
    assert_eq!(recipients, vec![1, 3]);
    for message in messages {
        assert_eq!(message.text, "[Cool_User](https://twitch.tv/cool_user) went online <t:1602411072:R>.");
    }
}

#[test]
fn nobody_is_told_where_nobody_subscribed() {
    assert!(announce(&stream("Live", "no timestamp"), &Vec::new()).unwrap().is_empty());
    assert!(announce_at(&stream("Live", ""), &Vec::new(), None).unwrap().is_empty());
}

#[test]
fn nobody_is_told_without_a_time() {
    let entries = vec![Mapping { key: "1337".to_string(), value: vec![1] }];
    assert!(announce(&stream("Live", "no timestamp"), &entries).is_none());
    assert!(announce_at(&stream("Live", ""), &entries, None).is_none());
}

#[test]
fn entries_can_hold_several_users() {
    let entries = vec![
        Mapping { key: "1337".to_string(), value: vec![4, 2] },
        Mapping { key: "1337".to_string(), value: vec![9] },
    ];
    let messages = announce_at(&stream("Live", ""), &entries, Some(60)).unwrap();
    let recipients: Vec<u64> = messages.iter().map(|message| message.recipient).collect();
    assert_eq!(recipients, vec![4, 2, 9]);
    assert_eq!(messages[2].text, "[Cool_User](https://twitch.tv/cool_user) went online <t:60:R>.");
}
