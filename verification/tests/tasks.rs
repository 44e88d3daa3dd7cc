//! The tasks beside the webhook's server.
use discord_twitch_notif::registration::{EventSubSubscription, Request, Transport};
use discord_twitch_notif::setup::{run, Environment, RunAction, Running, Webhook};
use discord_twitch_notif::tasks::{
    check, forward, refresher, CheckAction, CheckError, Checking, ForwardAction, Forwarding, Page,
    RefreshAction, Refreshing,
};
use discord_twitch_notif::users::Mapping;
use serde_json::Value;

const URL: &str = "https://dtn.example.com/twitch-events";

fn webhook() -> Webhook {
    let environment = Environment {
        webhook_port: Some("8000".to_string()),
        webhook_path: Some("/twitch-events".to_string()),
        webhook_url: Some(URL.to_string()),
        client_id: Some("id".to_string()),
        client_secret: Some("secret".to_string()),
    };
    match run(Running::Begun { environment }) {
        RunAction::Authorize { webhook } => webhook,
        _ => panic!("all variables are set"),
    }
}

fn registered(id: &str, broadcaster: Option<&str>) -> EventSubSubscription {
    let mut members = serde_json::Map::new();
    if let Some(broadcaster) = broadcaster {
        members.insert("broadcaster_user_id".to_string(), Value::String(broadcaster.to_string()));
    }
    EventSubSubscription {
        id: id.to_string(),
        callback: Some(URL.to_string()),
        version: "1".to_string(),
        type_: "stream.online".to_string(),
        condition: Value::Object(members),
    }
}

fn expected(streamers: &[&str]) -> Vec<Mapping> {
    streamers.iter().map(|key| Mapping { key: key.to_string(), value: vec![5] }).collect()
}

fn stopped(action: CheckAction) -> CheckError {
    match action {
        CheckAction::Stop { error } => error,
        _ => panic!("the checks should end"),
    }
}

/// Does one check in which nothing fails, and says what it asked, and until when it waits then.
fn round(webhook: &Webhook, due: u64, pages: Vec<Vec<EventSubSubscription>>, streamers: &[&str]) -> (Vec<String>, u64) {
    let mut pages = pages.into_iter();
    let mut asked = Vec::new();
    let mut progress = Checking::Due { due };
    loop {
        progress = match check(webhook, progress) {
            CheckAction::List { due, existing } => {
                let page = match pages.next() {
                    Some(listed) => Page::Listed(listed),
                    None => Page::End,
                };
                Checking::Listed { due, existing, page }
            }
            CheckAction::Query { due, existing } => {
                Checking::Queried { due, existing, entries: Some(expected(streamers)) }
            }
            CheckAction::Ask { due, request, rest } => {
                asked.push(match request {
                    Request::Create { broadcaster_user_id, transport: Transport::Webhook { callback, .. } } => {
                        assert_eq!(callback, URL);
                        format!("+{broadcaster_user_id}")
                    }
                    Request::Create { .. } => panic!("events should come through the webhook"),
                    Request::Delete { id } => format!("-{id}"),
                });
                Checking::Asked { due, rest, done: true }
            }
            CheckAction::WaitUntil { due } => return (asked, due),
            CheckAction::Stop { .. } => panic!("nothing failed"),
        }
    }
}

#[test]
fn first_check_is_after_five_seconds() {
    assert!(matches!(check(&webhook(), Checking::Begun), CheckAction::WaitUntil { due: 5 }));
}

#[test]
fn checks_follow_each_other_daily() {
    let webhook = webhook();
    let mut due: u64 = 5;
    for n in 1..4 {
        let (_, next) = round(&webhook, due, vec![], &[]);
        assert_eq!(next, 5 + n * 86400);
        due = next;
    }
    assert_eq!(round(&webhook, u64::MAX - 1, vec![], &[]).1, u64::MAX);
}

#[test]
fn checks_ask_everything() {
    let pages = vec![
        vec![registered("a", Some("1")), registered("b", Some("2"))],
        vec![registered("c", Some("1"))],
    ];
    let (mut asked, _) = round(&webhook(), 5, pages, &["1", "3", "4", "3"]);
    asked.sort();
    assert_eq!(asked, vec!["+3", "+4", "-c"]);
}

#[test]
fn checks_end_when_the_listing_fails() {
    let webhook = webhook();
    let CheckAction::List { due, existing } = check(&webhook, Checking::Due { due: 5 }) else {
        panic!("what is registered should be listed")
    };
    assert_eq!(due, 5);
    let error = stopped(check(&webhook, Checking::Listed { due, existing, page: Page::Failed }));
    assert_eq!(error, CheckError::Listing);
    assert_eq!(error.context(), None);
}

#[test]
fn checks_end_at_a_missing_broadcaster() {
    let webhook = webhook();
    let CheckAction::List { due, existing } = check(&webhook, Checking::Due { due: 5 }) else {
        panic!("what is registered should be listed")
    };
    let page = Page::Listed(vec![registered("a", None)]);
    let error = stopped(check(&webhook, Checking::Listed { due, existing, page }));
    assert_eq!(error, CheckError::MissingBroadcaster);
    assert_eq!(error.context(), Some("stream.online did not contain broadcaster".to_string()));
}

#[test]
fn checks_end_when_the_query_fails() {
    let webhook = webhook();
    let CheckAction::List { due, existing } = check(&webhook, Checking::Due { due: 5 }) else {
        panic!("what is registered should be listed")
    };
    let error = stopped(check(&webhook, Checking::Queried { due, existing, entries: None }));
    assert_eq!(error, CheckError::Query);
    assert_eq!(error.context(), None);
}

#[test]
fn checks_end_when_a_request_fails() {
    let error = stopped(check(&webhook(), Checking::Asked { due: 5, rest: Vec::new(), done: false }));
    assert_eq!(error, CheckError::Request);
    assert_eq!(error.context(), Some("when registering online event".to_string()));
}

#[test]
fn new_subscriptions_are_asked_for() {
    let webhook = webhook();
    assert!(matches!(forward(&webhook, Forwarding::Ready), ForwardAction::Take));
    let taken = Forwarding::Taken { broadcaster_user_id: Some("9".to_string()) };
    let ForwardAction::Ask { request: Request::Create { broadcaster_user_id, .. } } = forward(&webhook, taken)
    else {
        panic!("the subscription should be asked for")
    };
    assert_eq!(broadcaster_user_id, "9");
    assert!(matches!(forward(&webhook, Forwarding::Asked { done: true }), ForwardAction::Take));
}

#[test]
fn new_subscriptions_end_well() {
    let action = forward(&webhook(), Forwarding::Taken { broadcaster_user_id: None });
    assert!(matches!(action, ForwardAction::Finish));
}

#[test]
fn new_subscriptions_end_with_a_failed_request() {
    let ForwardAction::Fail { context } = forward(&webhook(), Forwarding::Asked { done: false }) else {
        panic!("the request failed")
    };
    assert_eq!(context, "when registering online event");
}

#[test]
fn tokens_are_replaced_in_time() {
    let webhook = webhook();
    let settings = webhook.settings();
    for (expires_in_seconds, delay) in [(20, 0), (3600, 3580)] {
        let RefreshAction::Wait { token, seconds } =
            refresher(settings, Refreshing::Held { token: "old", expires_in_seconds })
        else {
            panic!("the token should be kept for now")
        };
        assert_eq!((token, seconds), ("old", delay));
    }
    let RefreshAction::Ask { token, client_id, client_secret, scopes } =
        refresher(settings, Refreshing::Waited { token: "old" })
    else {
        panic!("another token should be asked for")
    };
    assert_eq!((token, client_id.as_str(), client_secret.as_str()), ("old", "id", "secret"));
    assert!(scopes.is_empty());
    let action = refresher(settings, Refreshing::Asked { token: "old", fresh: Some("new") });
    assert!(matches!(action, RefreshAction::Hold { token: "new" }));
}

#[test]
fn failed_requests_leave_the_token() {
    let webhook = webhook();
    let action = refresher(webhook.settings(), Refreshing::Asked { token: "old", fresh: None });
    assert!(matches!(action, RefreshAction::Stop { token: "old" }));
}
