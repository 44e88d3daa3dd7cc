//! What users are subscribed to, and their commands.
use discord_twitch_notif::users::{
    list_channels, streamers, subscribe, subscriptions, unsubscribe, Channel, Listing, Mapping, SubscribeAction,
    Subscribing, Subscriptions, Unsubscribing, UserData,
};

fn channel() -> Channel {
    Channel { broadcaster_id: "1337".to_string(), broadcaster_name: "Cool_User".to_string() }
}

fn found(lookup: Option<Channel>) -> Subscribing {
    Subscribing::Found { streamer: "cool_user".to_string(), author: 5, lookup }
}

#[test]
fn unknown_streamers_cannot_be_subscribed_to() {
    let SubscribeAction::Say { reply } = subscribe(found(None)) else { panic!("the user should be told") };
    assert_eq!(reply, "404: No such streamer: `cool_user`");
}

#[test]
fn subscriptions_are_stored_then_announced() {
    let SubscribeAction::Store { document, channel } = subscribe(found(Some(channel()))) else {
        panic!("the user should be stored")
    };
    assert_eq!(document.key, 5);
    assert!(document.subscriptions.items().is_empty());
    let SubscribeAction::Load { key, channel } = subscribe(Subscribing::Stored { author: 5, channel }) else {
        panic!("the user should be looked up")
    };
    assert_eq!(key, 5);
    let SubscribeAction::Save { broadcaster_id, channel } =
        subscribe(Subscribing::Loaded { found: true, channel })
    else {
        panic!("the user should be subscribed")
    };
    assert_eq!(broadcaster_id, "1337");
    let SubscribeAction::Announce { broadcaster_id, channel } = subscribe(Subscribing::Saved { channel }) else {
        panic!("the streamer should be watched")
    };
    assert_eq!(broadcaster_id, "1337");
    let SubscribeAction::Say { reply } = subscribe(Subscribing::Announced { channel }) else {
        panic!("the user should be told")
    };
    assert_eq!(reply, "Subscribed to Cool_User");
}

#[test]
fn users_who_are_not_stored_are_given_up_on() {
    let action = subscribe(Subscribing::Loaded { found: false, channel: channel() });
    assert!(matches!(action, SubscribeAction::Missing));
}

#[test]
fn subscribing_twice_is_subscribing_once() {
    let mut user = UserData::new(5);
    assert!(user.subscribe("1".to_string()));
    assert!(!user.subscribe("1".to_string()));
    assert_eq!(user.subscriptions.items(), &vec!["1".to_string()]);
}

#[test]
fn unsubscribing_undoes_subscribing() {
    let mut user = UserData::new(5);
    assert!(user.subscribe("1".to_string()));
    assert!(user.subscribe("2".to_string()));
    assert!(user.unsubscribe(&"1".to_string()));
    assert!(!user.unsubscribe(&"1".to_string()));
    assert_eq!(user.subscriptions.items(), &vec!["2".to_string()]);
}

#[test]
fn known_streamers_can_be_unsubscribed_from() {
    let Unsubscribing::Known { broadcaster_id, reply } = unsubscribe("cool_user", Some(channel())) else {
        panic!("the streamer is known")
    };
    assert_eq!(broadcaster_id, "1337");
    assert_eq!(reply, "Unsubscribed from Cool_User");
}

#[test]
fn unknown_streamers_cannot_be_unsubscribed_from() {
    let Unsubscribing::Unknown { reply } = unsubscribe("nobody", None) else {
        panic!("the streamer is not known")
    };
    assert_eq!(reply, "404: No such streamer: `nobody`");
}

#[test]
fn users_who_never_subscribed_are_told_so() {
    let Listing::Nothing { reply } = subscriptions(None) else { panic!("there is nothing to list") };
    assert_eq!(reply, "Currently not subscribed anyone.");
}

#[test]
fn subscribed_channels_are_looked_up() {
    let mut user = UserData::new(5);
    user.subscribe("2".to_string());
    user.subscribe("1".to_string());
    let Listing::Channels { mut broadcaster_ids } = subscriptions(Some(user)) else {
        panic!("there is something to list")
    };
    broadcaster_ids.sort();
    assert_eq!(broadcaster_ids, vec!["1", "2"]);
}

#[test]
fn stored_users_without_subscriptions_get_an_empty_list() {
    let Listing::Channels { broadcaster_ids } = subscriptions(Some(UserData::new(5))) else {
        panic!("the user is stored")
    };
    assert!(broadcaster_ids.is_empty());
    assert_eq!(list_channels(&Vec::new()), "Currently subscribed to: ");
}

#[test]
fn channels_are_listed_by_name() {
    let other = Channel { broadcaster_id: "2".to_string(), broadcaster_name: "Zweite".to_string() };
    assert_eq!(list_channels(&vec![channel()]), "Currently subscribed to: Cool_User");
    assert_eq!(list_channels(&vec![channel(), other]), "Currently subscribed to: Cool_User, Zweite");
}

#[test]
fn users_are_mapped_to_their_streamers() {
    let mut user = UserData::new(5);
    user.subscribe("1".to_string());
    user.subscribe("2".to_string());
    let mut entries: Vec<(String, Vec<u64>)> =
        Subscriptions.map(&user).into_iter().map(|entry| (entry.key, entry.value)).collect();
    entries.sort();
    assert_eq!(entries, vec![("1".to_string(), vec![5]), ("2".to_string(), vec![5])]);
}

#[test]
fn entries_are_reduced_in_order() {
    let entry = |value: Vec<u64>| Mapping { key: "1".to_string(), value };
    assert!(Subscriptions.reduce(&Vec::new()).is_empty());
    assert_eq!(
        Subscriptions.reduce(&vec![entry(vec![3, 1]), entry(vec![]), entry(vec![2, 3])]),
        vec![3, 1, 2, 3]
    );
}

#[test]
fn streamers_are_listed_once() {
    let entry = |key: &str, user: u64| Mapping { key: key.to_string(), value: vec![user] };
    let mut watched = streamers(&vec![entry("2", 1), entry("1", 1), entry("2", 3)]).into_items();
    watched.sort();
    assert_eq!(watched, vec!["1", "2"]);
    assert!(streamers(&Vec::new()).items().is_empty());
}
